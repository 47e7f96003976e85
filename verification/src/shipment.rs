//! The name-index registry: a mapping from portable package names to the
//! backend-specific names each packager uses.  Reading the registry's
//! files from disk happens outside this crate; what arrives here is the
//! records, and this module keeps and queries them.

use vstd::prelude::*;

use crate::packager::{GenericName, PackagerType};

verus! {

/// What one shipment is mathematically: a portable name and the
/// backend-specific names recorded for it, in the order they arrived.
pub ghost struct ShipmentModel {
    /// The portable name.
    pub name: Seq<char>,
    /// Per-packager records: which backend, and the name it uses.
    pub packagers: Seq<(PackagerType, Seq<char>)>,
}

/// No two shipments carry the same portable name.
pub open spec fn ship_names_distinct(s: Seq<ShipmentModel>) -> bool {
    forall|i: int, j: int| 0 <= i < j < s.len() ==> s[i].name != s[j].name
}

/// One record folded into the shipment list: it joins the shipment with
/// its portable name, or opens a new one.
pub open spec fn ship_add(
    s: Seq<ShipmentModel>,
    name: Seq<char>,
    kind: PackagerType,
    data: Seq<char>,
) -> Seq<ShipmentModel> {
    if exists|i: int| 0 <= i < s.len() && s[i].name == name {
        let i = choose|i: int| 0 <= i < s.len() && s[i].name == name;
        s.update(
            i,
            ShipmentModel { name: s[i].name, packagers: s[i].packagers.push((kind, data)) },
        )
    } else {
        s.push(ShipmentModel { name, packagers: seq![(kind, data)] })
    }
}

/// A list of records folded in, in order.
pub open spec fn ship_add_all(
    s: Seq<ShipmentModel>,
    records: Seq<(Seq<char>, PackagerType, Seq<char>)>,
) -> Seq<ShipmentModel>
    decreases records.len(),
{
    if records.len() == 0 {
        s
    } else {
        let last = records.last();
        ship_add(ship_add_all(s, records.drop_last()), last.0, last.1, last.2)
    }
}

/// How many shipments carry the given portable name.
pub open spec fn name_count(s: Seq<ShipmentModel>, name: Seq<char>) -> nat
    decreases s.len(),
{
    if s.len() == 0 {
        0
    } else {
        name_count(s.drop_last(), name) + (if s.last().name == name {
            1nat
        } else {
            0nat
        })
    }
}

/// An index with distinct portable names counts every name at most once.
pub proof fn lemma_distinct_name_count(s: Seq<ShipmentModel>, name: Seq<char>)
    requires
        ship_names_distinct(s),
    ensures
        name_count(s, name) <= 1,
        name_count(s, name) == 1 <==> (exists|i: int| 0 <= i < s.len() && s[i].name == name),
    decreases s.len(),
{
    if s.len() > 0 {
        assert(ship_names_distinct(s.drop_last()));
        lemma_distinct_name_count(s.drop_last(), name);
        if s.last().name == name {
            if exists|i: int| 0 <= i < s.len() - 1 && s[i].name == name {
                let i = choose|i: int| 0 <= i < s.len() - 1 && s[i].name == name;
                assert(s[i].name != s[s.len() - 1].name);
            }
            assert(name_count(s.drop_last(), name) == 0) by {
                if name_count(s.drop_last(), name) == 1 {
                    let i = choose|i: int|
                        0 <= i < s.drop_last().len() && s.drop_last()[i].name == name;
                    assert(s[i].name == name);
                }
            }
        } else {
            if exists|i: int| 0 <= i < s.len() && s[i].name == name {
                let i = choose|i: int| 0 <= i < s.len() && s[i].name == name;
                assert(s.drop_last()[i].name == name);
            }
        }
    }
}

/// Folding one record into the index keeps its portable names distinct: a
/// record for a name already present joins that shipment instead of
/// opening a second one.
pub proof fn lemma_ship_add_distinct(
    s: Seq<ShipmentModel>,
    name: Seq<char>,
    kind: PackagerType,
    data: Seq<char>,
)
    requires
        ship_names_distinct(s),
    ensures
        ship_names_distinct(ship_add(s, name, kind, data)),
{
    let out = ship_add(s, name, kind, data);
    if exists|i: int| 0 <= i < s.len() && s[i].name == name {
        assert forall|a: int, b: int| 0 <= a < b < out.len() implies out[a].name != out[b].name by {
            assert(out[a].name == s[a].name);
            assert(out[b].name == s[b].name);
        }
    } else {
        assert forall|a: int, b: int| 0 <= a < b < out.len() implies out[a].name != out[b].name by {
            if b == out.len() - 1 {
                assert(out[a] == s[a]);
                assert(!(s[a].name == name));
            }
        }
    }
}

/// However many records are folded in, an index that started with
/// distinct portable names keys every name by at most one shipment.
pub proof fn lemma_ship_add_grouping(
    s: Seq<ShipmentModel>,
    records: Seq<(Seq<char>, PackagerType, Seq<char>)>,
    name: Seq<char>,
)
    requires
        ship_names_distinct(s),
    ensures
        ship_names_distinct(ship_add_all(s, records)),
        name_count(ship_add_all(s, records), name) <= 1,
    decreases records.len(),
{
    if records.len() == 0 {
        lemma_distinct_name_count(s, name);
    } else {
        let last = records.last();
        lemma_ship_add_grouping(s, records.drop_last(), name);
        lemma_ship_add_distinct(ship_add_all(s, records.drop_last()), last.0, last.1, last.2);
        lemma_distinct_name_count(ship_add_all(s, records), name);
    }
}

/// The backend-specific name the first record for `kind` carries.
pub open spec fn pairs_lookup(pairs: Seq<(PackagerType, Seq<char>)>, kind: PackagerType) -> Option<
    Seq<char>,
>
    decreases pairs.len(),
{
    if pairs.len() == 0 {
        None
    } else if pairs[0].0 == kind {
        Some(pairs[0].1)
    } else {
        pairs_lookup(pairs.skip(1), kind)
    }
}

/// What resolving a portable name yields: the first record for the asked
/// backend in that name's shipment, if both exist.
pub open spec fn resolve_of(s: Seq<ShipmentModel>, name: Seq<char>, kind: PackagerType) -> Option<
    Seq<char>,
> {
    if exists|i: int| 0 <= i < s.len() && s[i].name == name {
        let i = choose|i: int| 0 <= i < s.len() && s[i].name == name;
        pairs_lookup(s[i].packagers, kind)
    } else {
        None
    }
}

/// One backend-specific record of the name index.
#[derive(Debug, Clone, PartialEq, Eq)]
pub struct ShipmentData {
    /// The name the backend uses.
    pub name: String,
}

/// One portable name with its per-backend records.
#[derive(Debug)]
struct Shipment {
    name: GenericName,
    packagers: Vec<(PackagerType, ShipmentData)>,
}

impl View for Shipment {
    type V = ShipmentModel;

    closed spec fn view(&self) -> ShipmentModel {
        ShipmentModel {
            name: self.name@,
            packagers: Seq::new(
                self.packagers@.len(),
                |i: int| (self.packagers@[i].0, self.packagers@[i].1.name@),
            ),
        }
    }
}

impl DeepView for Shipment {
    type V = ShipmentModel;

    open spec fn deep_view(&self) -> ShipmentModel {
        self.view()
    }
}

/// The whole name index: every portable name with its records, one
/// shipment per name.
#[derive(Debug)]
pub struct Shipyard {
    shipments: Vec<Shipment>,
}

impl View for Shipyard {
    type V = Seq<ShipmentModel>;

    closed spec fn view(&self) -> Seq<ShipmentModel> {
        self.shipments.deep_view()
    }
}

impl Shipyard {
    /// Every portable name keys at most one shipment.
    #[verifier::type_invariant]
    spec fn wf(self) -> bool {
        ship_names_distinct(self.shipments.deep_view())
    }

    /// An index holding nothing.
    pub fn empty() -> (r: Self)
        ensures
            r@ =~= Seq::<ShipmentModel>::empty(),
    {
        Shipyard { shipments: Vec::new() }
    }

    /// An index built from a registry's records, folded in order: each
    /// record joins the shipment with its portable name, or opens a new
    /// one.
    pub fn new(records: Vec<(GenericName, PackagerType, ShipmentData)>) -> (r: Self)
        ensures
            r@ == ship_add_all(
                Seq::empty(),
                Seq::new(
                    records@.len(),
                    |i: int| (records@[i].0@, records@[i].1, records@[i].2.name@),
                ),
            ),
    {
        let ghost rs = Seq::new(
            records@.len(),
            |i: int| (records@[i].0@, records@[i].1, records@[i].2.name@),
        );
        let n = records.len();
        let mut rest = records;
        let mut r = Shipyard::empty();
        let mut i: usize = 0;
        proof {
            assert(rs.take(0) =~= Seq::<(Seq<char>, PackagerType, Seq<char>)>::empty());
            assert(rs.len() == n);
        }
        while rest.len() > 0
            invariant
                i + rest.len() == rs.len(),
                rs.len() <= usize::MAX,
                r@ == ship_add_all(Seq::empty(), rs.take(i as int)),
                forall|k: int|
                    0 <= k < rest.len() ==> (#[trigger] rest@[k].0)@ == rs[i + k].0 && rest@[k].1
                        == rs[i + k].1 && rest@[k].2.name@ == rs[i + k].2,
            decreases rest.len(),
        {
            let (name, kind, data) = rest.remove(0);
            proof {
                assert(rs.take(i + 1).drop_last() =~= rs.take(i as int));
                assert(rs.take(i + 1).last() == rs[i as int]);
            }
            r.add_record(name, kind, data);
            i = i + 1;
        }
        proof {
            assert(rs.take(rs.len() as int) =~= rs);
        }
        r
    }

    /// Folds one record in, exactly as [`ship_add`] says.
    pub fn add_record(&mut self, name: GenericName, kind: PackagerType, data: ShipmentData)
        ensures
            final (self)@ == ship_add(old(self)@, name@, kind, data.name@),
    {
        proof {
            use_type_invariant(&*self);
        }
        let ghost pre = self@;
        let mut ships: Vec<Shipment> = Vec::new();
        core::mem::swap(&mut ships, &mut self.shipments);
        let mut i: usize = 0;
        while i < ships.len()
            invariant
                pre == old(self)@,
                self.shipments@.len() == 0,
                i <= ships.deep_view().len(),
                ships.deep_view() == pre,
                ship_names_distinct(pre),
                forall|k: int| 0 <= k < i ==> (#[trigger] pre[k]).name != name@,
            decreases ships.len() - i,
        {
            if ships[i].name.0.eq(&name.0) {
                proof {
                    assert(pre[i as int].name == name@);
                }
                let mut shipment = ships.remove(i);
                let ghost pairs = shipment@.packagers;
                shipment.packagers.push((kind, data));
                let ghost updated = shipment@;
                ships.insert(i, shipment);
                proof {
                    assert(updated.packagers =~= pairs.push((kind, data.name@)));
                    let j = choose|j: int| 0 <= j < pre.len() && pre[j].name == name@;
                    if j < i {
                        assert(pre[j].name != pre[i as int].name);
                    } else if i < j {
                        assert(pre[i as int].name != pre[j].name);
                    }
                    assert(ships.deep_view() =~= ship_add(pre, name@, kind, data.name@));
                    assert forall|a: int, b: int|
                        0 <= a < b < ships.deep_view().len() implies ships.deep_view()[a].name
                        != ships.deep_view()[b].name by {
                        assert(ships.deep_view()[a].name == pre[a].name);
                        assert(ships.deep_view()[b].name == pre[b].name);
                    }
                }
                self.shipments = ships;
                return;
            }
            i = i + 1;
        }
        let mut pairs: Vec<(PackagerType, ShipmentData)> = Vec::new();
        pairs.push((kind, data));
        let shipment = Shipment { name, packagers: pairs };
        let ghost fresh = shipment@;
        ships.push(shipment);
        proof {
            assert(fresh.packagers =~= seq![(kind, data.name@)]);
            assert(!(exists|j: int| 0 <= j < pre.len() && pre[j].name == fresh.name));
            assert(ships.deep_view() =~= pre.push(fresh));
            assert(ships.deep_view() =~= ship_add(pre, name@, kind, data.name@));
            assert forall|a: int, b: int|
                0 <= a < b < ships.deep_view().len() implies ships.deep_view()[a].name
                != ships.deep_view()[b].name by {
                if b == ships.deep_view().len() - 1 {
                    assert(ships.deep_view()[a] == pre[a]);
                }
            }
        }
        self.shipments = ships;
    }

    /// How many distinct portable names the index holds.
    pub fn len(&self) -> (r: usize)
        ensures
            r == self@.len(),
    {
        self.shipments.len()
    }

    /// Resolves a portable name for one backend: the first record for
    /// that backend in the name's shipment, if both exist.
    pub fn resolve(&self, name: &GenericName, kind: PackagerType) -> (r: Option<String>)
        ensures
            (match r {
                Some(n) => Some(n@),
                None => None,
            }) == resolve_of(self@, name@, kind),
    {
        proof {
            use_type_invariant(self);
        }
        let mut i: usize = 0;
        while i < self.shipments.len()
            invariant
                i <= self@.len(),
                forall|k: int| 0 <= k < i ==> (#[trigger] self@[k]).name != name@,
            decreases self@.len() - i,
        {
            if self.shipments[i].name.0.eq(&name.0) {
                proof {
                    assert(self@[i as int].name == name@);
                    let j = choose|j: int| 0 <= j < self@.len() && self@[j].name == name@;
                    use_type_invariant(self);
                    if j < i {
                        assert(self@[j].name != self@[i as int].name);
                    } else if i < j {
                        assert(self@[i as int].name != self@[j].name);
                    }
                    assert(j == i);
                }
                return lookup_pair(&self.shipments[i], kind);
            }
            i = i + 1;
        }
        None
    }
}

/// The first record for `kind` in one shipment's list.
fn lookup_pair(shipment: &Shipment, kind: PackagerType) -> (r: Option<String>)
    ensures
        (match r {
            Some(n) => Some(n@),
            None => None,
        }) == pairs_lookup(shipment@.packagers, kind),
{
    let ghost pairs = shipment@.packagers;
    let mut i: usize = 0;
    proof {
        assert(pairs.skip(0) =~= pairs);
    }
    while i < shipment.packagers.len()
        invariant
            pairs == shipment@.packagers,
            i <= pairs.len(),
            pairs_lookup(pairs, kind) == pairs_lookup(pairs.skip(i as int), kind),
        decreases pairs.len() - i,
    {
        proof {
            assert(pairs.skip(i as int)[0] == pairs[i as int]);
            assert(pairs.skip(i as int).skip(1) =~= pairs.skip(i + 1));
        }
        if matches_type(shipment.packagers[i].0, kind) {
            proof {
                assert(pairs[i as int].0 == kind);
            }
            return Some(shipment.packagers[i].1.name.clone());
        }
        i = i + 1;
    }
    proof {
        assert(pairs.skip(pairs.len() as int) =~= Seq::<(PackagerType, Seq<char>)>::empty());
    }
    None
}

/// Whether two backend kinds are the same.
fn matches_type(a: PackagerType, b: PackagerType) -> (r: bool)
    ensures
        r == (a == b),
{
    a == b
}

} // verus!
