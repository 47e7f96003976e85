//! Service declarations.  Services are declared alongside packages but
//! carry no reconciliation logic yet: the session only keeps their list.

use vstd::prelude::*;

use crate::error::YumaError;

verus! {

/// One declared service.
#[derive(Debug, Clone, PartialEq, Eq)]
pub struct Service {
    /// The service's name.
    pub name: String,
}

impl View for Service {
    type V = Seq<char>;

    open spec fn view(&self) -> Seq<char> {
        self.name@
    }
}

impl DeepView for Service {
    type V = Seq<char>;

    open spec fn deep_view(&self) -> Seq<char> {
        self.name@
    }
}

impl Default for Service {
    /// A service with an empty name, to be filled in field by field.
    fn default() -> (r: Self)
        ensures
            r@ == Seq::<char>::empty(),
    {
        Service { name: String::new() }
    }
}

/// The declared services of one session, in declaration order.
#[derive(Debug)]
pub struct Services {
    /// The declared services.
    pub enabled: Vec<Service>,
}

impl View for Services {
    type V = Seq<Seq<char>>;

    open spec fn view(&self) -> Seq<Seq<char>> {
        self.enabled.deep_view()
    }
}

impl Services {
    /// No services declared yet.
    pub fn new() -> (r: Self)
        ensures
            r@ =~= Seq::<Seq<char>>::empty(),
    {
        Services { enabled: Vec::new() }
    }
}

/// Whether a character counts as padding in a status table.
pub open spec fn is_space(c: char) -> bool {
    c == ' ' || c == '\t'
}

/// `r` is the part of `s` strictly before the first occurrence of `c`,
/// or all of `s` where `c` never occurs.
pub open spec fn is_prefix_before(s: Seq<char>, c: char, r: Seq<char>) -> bool {
    &&& r.len() <= s.len()
    &&& r == s.take(r.len() as int)
    &&& (forall|k: int| 0 <= k < r.len() ==> s[k] != c)
    &&& (r.len() == s.len() || s[r.len() as int] == c)
}

/// `r` is `s` with the spaces at positions below `a` and from `b` on
/// stripped: everything outside `[a, b)` is padding, and what remains
/// starts and ends with none.
pub open spec fn is_trimmed_at(s: Seq<char>, r: Seq<char>, a: int, b: int) -> bool {
    &&& 0 <= a <= b <= s.len()
    &&& r == s.subrange(a, b)
    &&& (forall|k: int| 0 <= k < a ==> is_space(s[k]))
    &&& (forall|k: int| b <= k < s.len() ==> is_space(s[k]))
    &&& (a < b ==> !is_space(s[a]) && !is_space(s[b - 1]))
}

/// `r` is `s` with its leading and trailing padding stripped.
pub open spec fn is_trimmed(s: Seq<char>, r: Seq<char>) -> bool {
    exists|a: int, b: int| is_trimmed_at(s, r, a, b)
}

/// `name` is what one status line names: the text before the state
/// bracket, stripped of padding.
pub open spec fn parsed_service_name(line: Seq<char>, name: Seq<char>) -> bool {
    exists|m: Seq<char>| is_prefix_before(line, '[', m) && is_trimmed(m, name)
}

/// The part of `line` strictly before the first '[' bracket.
pub fn prefix_before_bracket(line: &str) -> (r: String)
    ensures
        is_prefix_before(line@, '[', r@),
{
    let n = line.unicode_len();
    let mut i: usize = 0;
    while i < n
        invariant
            i <= n,
            n == line@.len(),
            forall|k: int| 0 <= k < i ==> line@[k] != '[',
        decreases n - i,
    {
        if line.get_char(i) == '[' {
            let sub = line.substring_char(0, i);
            let r = sub.to_owned();
            proof {
                assert(r@ =~= line@.take(i as int));
            }
            return r;
        }
        i = i + 1;
    }
    let r = line.to_owned();
    proof {
        assert(r@ =~= line@.take(line@.len() as int));
    }
    r
}

/// `s` with its leading and trailing spaces and tabs stripped.
pub fn trim_spaces(s: &str) -> (r: String)
    ensures
        is_trimmed(s@, r@),
{
    let n = s.unicode_len();
    let mut a: usize = 0;
    while a < n && is_space_char(s.get_char(a))
        invariant
            a <= n,
            n == s@.len(),
            forall|k: int| 0 <= k < a ==> is_space(s@[k]),
        decreases n - a,
    {
        a = a + 1;
    }
    if a == n {
        let r = String::new();
        proof {
            assert(r@ =~= s@.subrange(n as int, n as int));
            assert(is_trimmed_at(s@, r@, n as int, n as int));
        }
        return r;
    }
    let mut b: usize = n;
    while b > a && is_space_char(s.get_char(b - 1))
        invariant
            a <= b <= n,
            n == s@.len(),
            a < n,
            !is_space(s@[a as int]),
            forall|k: int| b <= k < n ==> is_space(s@[k]),
        decreases b,
    {
        b = b - 1;
    }
    proof {
        if b == a {
            assert(is_space(s@[a as int]));
        }
    }
    let sub = s.substring_char(a, b);
    let r = sub.to_owned();
    proof {
        assert(is_trimmed_at(s@, r@, a as int, b as int));
    }
    r
}

/// The service names a status table's lines carry: its header line is
/// skipped, and each further line contributes the text before its state
/// bracket, stripped of padding.
pub fn parse_status_lines(lines: &Vec<String>) -> (r: Vec<String>)
    ensures
        r.deep_view().len() == (if lines.deep_view().len() > 0 {
            lines.deep_view().len() - 1
        } else {
            0int
        }),
        forall|i: int|
            1 <= i < lines.deep_view().len() ==> parsed_service_name(
                #[trigger] lines.deep_view()[i],
                r.deep_view()[i - 1],
            ),
{
    let mut r: Vec<String> = Vec::new();
    if lines.len() == 0 {
        return r;
    }
    let mut i: usize = 1;
    while i < lines.len()
        invariant
            1 <= i <= lines.deep_view().len(),
            r.deep_view().len() == i - 1,
            forall|k: int|
                1 <= k < i ==> parsed_service_name(
                    #[trigger] lines.deep_view()[k],
                    r.deep_view()[k - 1],
                ),
        decreases lines.len() - i,
    {
        let cut = prefix_before_bracket(lines[i].as_str());
        let name = trim_spaces(cut.as_str());
        let ghost nm = name@;
        let ghost pre = r.deep_view();
        r.push(name);
        proof {
            assert(r.deep_view() =~= pre.push(nm));
            assert(is_prefix_before(lines.deep_view()[i as int], '[', cut@));
            assert(is_trimmed(cut@, nm));
            assert(parsed_service_name(lines.deep_view()[i as int], nm));
        }
        i = i + 1;
    }
    r
}

/// Whether a character counts as padding.
fn is_space_char(c: char) -> (r: bool)
    ensures
        r == is_space(c),
{
    c == ' ' || c == '\t'
}

/// The uniform interface over a host's service manager.  Implementations
/// drive external tools; nothing is promised of their results.
pub trait ServiceBackend {
    /// Enables the named services.
    fn enable(&mut self, names: &Vec<String>) -> Result<(), YumaError>;

    /// Disables one service.
    fn disable(&mut self, name: String) -> Result<(), YumaError>;

    /// Every service currently enabled.
    fn list_all_enabled(&mut self) -> Result<Vec<String>, YumaError>;

    /// The enabled services that were explicitly requested.
    fn list_leaves_enabled(&mut self) -> Result<Vec<String>, YumaError>;
}

} // verus!
