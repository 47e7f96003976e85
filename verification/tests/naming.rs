use yuma::error::YumaError;
use yuma::host;
use yuma::names;
use yuma::packager::{GenericName, PackagerType};
use yuma::pkgset::PkgSet;
use yuma::shipment::{ShipmentData, Shipyard};

fn list(items: &[&str]) -> Vec<String> {
    items.iter().map(|s| String::from(*s)).collect()
}

#[test]
fn diff_keeps_order_and_drops_the_installed() {
    let declared = list(&["a", "b", "c", "b"]);
    let installed = list(&["b", "x"]);
    assert_eq!(names::diff_names(&declared, &installed), list(&["a", "c"]));

    assert_eq!(names::diff_names(&list(&[]), &installed), list(&[]));
    assert_eq!(names::diff_names(&declared, &list(&[])), declared);
}

#[test]
fn remove_names_edits_in_place() {
    let mut have = list(&["old", "keep", "old"]);
    names::remove_names(&mut have, &list(&["old"]));
    assert_eq!(have, list(&["keep"]));
}

#[test]
fn dedup_keeps_first_occurrences() {
    assert_eq!(names::dedup_names(&list(&["a", "b", "a", "c", "b"])), list(&["a", "b", "c"]));
    assert_eq!(names::dedup_names(&list(&[])), list(&[]));
}

#[test]
fn counting_and_entry_equality() {
    let a = list(&["x", "y", "x"]);
    assert_eq!(names::count_name(&a, &String::from("x")), 2);
    assert_eq!(names::count_name(&a, &String::from("z")), 0);

    assert!(names::same_name_entries(&a, &list(&["y", "x", "x"])));
    assert!(!names::same_name_entries(&a, &list(&["x", "y"])));
    assert!(!names::same_name_entries(&a, &list(&["x", "y", "y"])));

    assert!(names::contains_str(&a, "y"));
    assert!(!names::contains_str(&a, "q"));
}

#[test]
fn pkgset_membership_spans_both_lists() {
    let set = PkgSet { pac: list(&["linux", "vim"]), aur: list(&["paru"]) };
    assert!(set.contains(&String::from("vim")));
    assert!(set.contains(&String::from("paru")));
    assert!(!set.contains(&String::from("emacs")));
}

#[test]
fn undeclared_packages_are_removal_candidates() {
    let set = PkgSet { pac: list(&["linux", "vim"]), aur: list(&["paru"]) };
    let installed = list(&["linux", "stray", "paru", "orphan"]);
    assert_eq!(set.undeclared(&installed), list(&["stray", "orphan"]));
    assert_eq!(set.undeclared(&list(&[])), list(&[]));
}

#[test]
fn packager_names_parse_as_the_registry_spells_them() {
    assert_eq!(PackagerType::from_name(&String::from("Paur")), Ok(PackagerType::Paru));
    assert_eq!(PackagerType::from_name(&String::from("paur")), Ok(PackagerType::Paru));
    assert_eq!(PackagerType::from_name(&String::from("Brew")), Ok(PackagerType::Brew));
    assert_eq!(PackagerType::from_name(&String::from("brew")), Ok(PackagerType::Brew));
    assert_eq!(
        PackagerType::from_name(&String::from("portage")),
        Err(YumaError::InvalidPackage { name: String::from("portage") })
    );
}

#[test]
fn os_names_follow_the_kernel() {
    assert_eq!(host::os_name(&String::from("Linux")), String::from("linux"));
    assert_eq!(host::os_name(&String::from("Darwin")), String::from("macos"));
    assert_eq!(host::os_name(&String::from("FreeBSD")), String::from("FreeBSD"));
}

#[test]
fn shipyard_groups_records_by_portable_name() {
    let records = vec![
        (
            GenericName::new(String::from("editor")),
            PackagerType::Paru,
            ShipmentData { name: String::from("vim") },
        ),
        (
            GenericName::new(String::from("editor")),
            PackagerType::Brew,
            ShipmentData { name: String::from("macvim") },
        ),
        (
            GenericName::new(String::from("shell")),
            PackagerType::Paru,
            ShipmentData { name: String::from("zsh") },
        ),
    ];
    let yard = Shipyard::new(records);
    assert_eq!(yard.len(), 2);

    let editor = GenericName::new(String::from("editor"));
    assert_eq!(yard.resolve(&editor, PackagerType::Paru), Some(String::from("vim")));
    assert_eq!(yard.resolve(&editor, PackagerType::Brew), Some(String::from("macvim")));
    assert_eq!(yard.resolve(&editor, PackagerType::Fake), None);
    assert_eq!(yard.resolve(&GenericName::new(String::from("shell")), PackagerType::Brew), None);
    assert_eq!(yard.resolve(&GenericName::new(String::from("nope")), PackagerType::Paru), None);

    let empty = Shipyard::empty();
    assert_eq!(empty.len(), 0);
    assert_eq!(empty.resolve(&editor, PackagerType::Paru), None);
}

#[test]
fn error_messages_carry_their_detail() {
    assert_eq!(
        YumaError::Io { detail: String::from("spawn failed") }.message(),
        String::from("spawn failed")
    );
    assert_eq!(
        YumaError::InvalidPackage { name: String::from("ghost") }.message(),
        String::from("ghost")
    );
    assert_eq!(
        YumaError::Conflict { detail: String::from("two backends") }.message(),
        String::from("two backends")
    );
    assert_eq!(YumaError::Unknown.message(), String::new());
}
