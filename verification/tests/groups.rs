use yuma::builder::{AsBuilder, AsPkgBuilderList, PkgBuilder};
use yuma::host::HostEnv;
use yuma::packager::{Packager, PackagerType};
use yuma::pkgs::Pkgs;

fn names(list: &[&str]) -> Vec<String> {
    list.iter().map(|s| String::from(*s)).collect()
}

fn env(hostname: &str, arch: &str, os: &str) -> HostEnv {
    HostEnv {
        hostname: String::from(hostname),
        arch: String::from(arch),
        os: String::from(os),
    }
}

#[test]
fn pkg_list_y_macros() {
    let p1 = Pkgs::from_name("text");

    let q1 = Pkgs {
        names: vec![String::from("text")],
        packager: Packager::guess(),
    };
    assert_eq!(p1, q1);

    let mut p2 = Pkgs::from_name("name");
    p2.backend(PackagerType::Fake);
    let q2 = Pkgs {
        names: vec![String::from("name")],
        packager: Packager::fake(),
    };
    assert_eq!(p2, q2);

    let mut p3 = Pkgs::from_names(&["a", "b", "c"]);
    p3.backend(PackagerType::Fake);
    let q3 = Pkgs {
        names: vec![String::from("a"), String::from("b"), String::from("c")],
        packager: Packager::fake(),
    };

    assert_eq!(p3, q3);
}

#[test]
fn unfiltered_builder_passes_names_through() {
    let b = PkgBuilder::from_names(&["vim", "git"]);
    let built = b.build_in(&env("anyhost", "x86_64", "linux"));
    let group = built.expect("an unfiltered declaration always builds");
    assert_eq!(group.names, names(&["vim", "git"]));
    assert_eq!(group.packager.kind, PackagerType::Paru);
}

#[test]
fn guessed_backend_follows_architecture() {
    let b = PkgBuilder::from_name("vim");
    let on_arm = b.build_in(&env("h", "aarch64", "linux")).unwrap();
    assert_eq!(on_arm.packager.kind, PackagerType::Brew);

    let b = PkgBuilder::from_name("vim").with_packager(Packager::fake());
    let explicit = b.build_in(&env("h", "x86_64", "linux")).unwrap();
    assert_eq!(explicit.packager.kind, PackagerType::Fake);
}

#[test]
fn host_allow_list_suppresses_other_hosts() {
    let b = PkgBuilder::from_name("vim").on_hosts(&["alpha", "beta"]);
    assert!(b.build_in(&env("gamma", "x86_64", "linux")).is_none());

    let b = PkgBuilder::from_name("vim").on_hosts(&["alpha", "beta"]).on_os("macos");
    assert!(b.build_in(&env("gamma", "x86_64", "macos")).is_none());

    let b = PkgBuilder::from_name("vim").on_host("alpha");
    assert!(b.build_in(&env("alpha", "x86_64", "linux")).is_some());
}

#[test]
fn os_and_arch_filters_apply() {
    let b = PkgBuilder::from_name("vim").on_os("macos");
    assert!(b.build_in(&env("h", "x86_64", "linux")).is_none());

    let b = PkgBuilder::from_name("vim").on_os("linux").on_os("macos");
    assert!(b.build_in(&env("h", "x86_64", "linux")).is_some());

    let b = PkgBuilder::from_name("vim").on_arches(&["riscv64"]);
    assert!(b.build_in(&env("h", "x86_64", "linux")).is_none());
}

#[test]
fn empty_allow_list_always_suppresses() {
    let b = PkgBuilder::from_name("vim").on_hosts(&[]);
    assert!(b.build_in(&env("anyhost", "x86_64", "linux")).is_none());
    let b = PkgBuilder::from_name("vim").on_hosts(&[]);
    assert!(b.build().is_none());
}

#[test]
fn merge_concatenates_names_and_takes_first_backend() {
    let a = PkgBuilder::from_name("a").with_packager(Packager::fake());
    let b = PkgBuilder::from_names(&["b", "c"]);
    let m = a.merge(b);
    let group = m.build_in(&env("h", "x86_64", "linux")).unwrap();
    assert_eq!(group.names, names(&["a", "b", "c"]));
    assert_eq!(group.packager.kind, PackagerType::Fake);

    // The right side's backend is taken only where the left sets none.
    let a = PkgBuilder::from_name("a");
    let b = PkgBuilder::from_name("b").with_packager(Packager::brew());
    let group = a.merge(b).build_in(&env("h", "x86_64", "linux")).unwrap();
    assert_eq!(group.packager.kind, PackagerType::Brew);
}

#[test]
fn merge_is_associative_and_commutative_on_name_entries() {
    let build = |m: PkgBuilder| m.build_in(&env("h", "x86_64", "linux")).unwrap().names;

    let abc = build(
        PkgBuilder::from_name("a").merge(PkgBuilder::from_name("b")).merge(
            PkgBuilder::from_name("c"),
        ),
    );
    let abc2 = build(
        PkgBuilder::from_name("a").merge(
            PkgBuilder::from_name("b").merge(PkgBuilder::from_name("c")),
        ),
    );
    assert_eq!(abc, abc2);
    assert_eq!(abc, names(&["a", "b", "c"]));

    // Commutative on entries, duplicates preserved: both orders hold the
    // same multiset of names.
    let ab = build(PkgBuilder::from_names(&["a", "a"]).merge(PkgBuilder::from_name("b")));
    let mut ba = build(PkgBuilder::from_name("b").merge(PkgBuilder::from_names(&["a", "a"])));
    assert_eq!(ab, names(&["a", "a", "b"]));
    ba.sort();
    assert_eq!(ba, names(&["a", "a", "b"]));
}

#[test]
fn merged_lists_of_builders_build_separately() {
    let list = vec![
        PkgBuilder::from_name("a"),
        PkgBuilder::from_name("b").on_hosts(&[]),
        PkgBuilder::from_name("c"),
    ];
    let merged = PkgBuilder::from_builders(list);
    // One suppressed member's filter joins the merged declaration.
    assert!(merged.build_in(&env("h", "x86_64", "linux")).is_none());

    let list = vec![PkgBuilder::from_name("a"), PkgBuilder::from_name("b")];
    let merged = PkgBuilder::from_builders(list);
    let group = merged.build_in(&env("h", "x86_64", "linux")).unwrap();
    assert_eq!(group.names, names(&["a", "b"]));
}

#[test]
fn equivalence_ignores_filter_order() {
    let a = PkgBuilder::from_name("x").on_os("linux").on_arches(&["x86_64", "aarch64"]);
    let b = PkgBuilder::from_name("x").on_arches(&["aarch64", "x86_64"]).on_os("linux");
    assert!(a.equivalent(&b));
    assert!(b.equivalent(&a));
    assert!(a.equivalent(&a));

    let c = PkgBuilder::from_name("x").on_arches(&["aarch64"]).on_os("linux");
    assert!(!a.equivalent(&c));

    let d = PkgBuilder::from_name("y").on_os("linux").on_arches(&["x86_64", "aarch64"]);
    assert!(!a.equivalent(&d));
}

#[test]
fn builder_sugar_forms_agree() {
    let from_str = "vim".b();
    let from_string = String::from("vim").b();
    assert!(from_str.equivalent(&from_string));

    let listed = "vim".list();
    assert_eq!(listed.len(), 1);

    let many: Vec<PkgBuilder> = (&["a", "b"][..]).list();
    assert_eq!(many.len(), 2);
}
