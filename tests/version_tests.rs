use std::cmp::Ordering;

use ww::version::{
    classify, compare_versions, major_version, parse_version, script_address, ver_between, ver_cmp,
    ver_lt, AddressingEra,
};

#[test]
fn parses_dotted_components() {
    assert_eq!(parse_version("5.27.80"), vec![5, 27, 80]);
    assert_eq!(parse_version("6.0"), vec![6, 0]);
}

#[test]
fn drops_components_that_are_not_numbers() {
    assert_eq!(parse_version("5.x.3"), vec![5, 3]);
    assert_eq!(parse_version("5.27.4-1"), vec![5, 27]);
    assert_eq!(parse_version(""), Vec::<u32>::new());
    assert_eq!(parse_version("+7.99999999999"), vec![7]);
}

#[test]
fn compares_component_wise() {
    assert_eq!(ver_cmp("5.27.79", "5.27.80"), Ordering::Less);
    assert_eq!(ver_cmp("6.0", "5.27.80"), Ordering::Greater);
    assert_eq!(ver_cmp("5.10", "5.9"), Ordering::Greater);
    assert_eq!(ver_cmp("5.27.80", "5.27.80"), Ordering::Equal);
}

#[test]
fn missing_components_sort_first() {
    assert_eq!(ver_cmp("5.27", "5.27.0"), Ordering::Less);
    assert_eq!(compare_versions(&vec![5, 27, 0], &vec![5, 27]), Ordering::Greater);
}

#[test]
fn between_includes_both_ends() {
    assert!(ver_between("5.21.90", "5.21.90", "5.27.79"));
    assert!(ver_between("5.21.90", "5.27.79", "5.27.79"));
    assert!(!ver_between("5.21.90", "5.27.80", "5.27.79"));
    assert!(!ver_between("5.21.90", "5.21.89", "5.27.79"));
}

#[test]
fn less_than_is_strict() {
    assert!(ver_lt("5.27.80", "5.27.81"));
    assert!(!ver_lt("5.27.80", "5.27.80"));
    assert!(!ver_lt("6.0", "5.27.80"));
}

#[test]
fn classifies_the_legacy_range() {
    assert_eq!(classify("5.27.79"), AddressingEra::Legacy);
    assert_eq!(classify("5.21.90"), AddressingEra::Legacy);
    assert_eq!(classify("5.24.3"), AddressingEra::Legacy);
}

#[test]
fn modern_starts_at_the_boundary() {
    assert_eq!(classify("5.27.80"), AddressingEra::Modern);
    assert_eq!(classify("5.27.80.1"), AddressingEra::Modern);
    assert_eq!(classify("5.27.81"), AddressingEra::Modern);
    assert_eq!(classify("6.2.4"), AddressingEra::Modern);
}

#[test]
fn earlier_versions_use_the_earliest_scheme() {
    assert_eq!(classify("5.20.0"), AddressingEra::PreLegacy);
    assert_eq!(classify("5.21.89"), AddressingEra::PreLegacy);
    assert_eq!(classify("garbage"), AddressingEra::PreLegacy);
    assert_eq!(classify("5.21"), AddressingEra::PreLegacy);
    assert_eq!(classify("5.27"), AddressingEra::Legacy);
}

#[test]
fn addresses_per_era() {
    let a = script_address(AddressingEra::Modern, 12);
    assert_eq!(a.path, "/Scripting/Script12");
    assert_eq!(a.interface, "org.kde.kwin.Script");
    let b = script_address(AddressingEra::Legacy, 7);
    assert_eq!(b.path, "/7");
    assert_eq!(b.interface, "org.kde.kwin.Script");
    let c = script_address(AddressingEra::PreLegacy, 305);
    assert_eq!(c.path, "/305");
    assert_eq!(c.interface, "org.kde.kwin.Scripting");
}

#[test]
fn addresses_negative_and_extreme_ids() {
    assert_eq!(script_address(AddressingEra::Legacy, -3).path, "/-3");
    assert_eq!(script_address(AddressingEra::Legacy, 0).path, "/0");
    assert_eq!(script_address(AddressingEra::Modern, i32::MIN).path, "/Scripting/Script-2147483648");
    assert_eq!(script_address(AddressingEra::Modern, i32::MAX).path, "/Scripting/Script2147483647");
}

#[test]
fn reads_the_major_version() {
    assert_eq!(major_version("6.1.0"), Some(6));
    assert_eq!(major_version("5"), Some(5));
    assert_eq!(major_version("x.1"), None);
    assert_eq!(major_version(""), None);
}
