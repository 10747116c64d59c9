use fontspector::consistency::{name_consistency_issues};
use fontspector::font::NameEntry;
use fontspector::names::{get_name_entry_string, get_name_entry_strings};
use fontspector::plugins::{Fontwerk, Iso15009};
use fontspector::listing::check_listing;
use fontspector::profile::{ProfileBuilder, Registry};

fn register_empty(registry: &mut Registry, name: &str) {
    ProfileBuilder::new().build(name, registry).unwrap();
}

#[test]
fn fontwerk_needs_the_profiles_it_includes() {
    let mut registry = Registry::new();
    assert_eq!(Fontwerk.register(&mut registry), Err("Unknown profile: googlefonts".to_string()));
    assert!(registry.get_profile("fontwerk").is_none());
    assert!(!registry.has_check("fontwerk/name_entries"));
    register_empty(&mut registry, "googlefonts");
    assert_eq!(Fontwerk.register(&mut registry), Err("Unknown profile: opentype".to_string()));
    register_empty(&mut registry, "opentype");
    assert_eq!(Fontwerk.register(&mut registry), Ok(()));
    let profile = registry.get_profile("fontwerk").unwrap();
    assert_eq!(profile.include_profiles, vec!["googlefonts".to_string(), "opentype".to_string()]);
    assert_eq!(profile.exclude_checks.len(), 13);
    assert!(profile.exclude_checks.contains(&"googlefonts/vendor_id".to_string()));
    assert_eq!(profile.sections, vec![("Fontwerk Checks".to_string(), vec!["fontwerk/name_entries".to_string()])]);
    assert_eq!(profile.configuration_defaults[0].0, "opentype/vendor_id");
    assert_eq!(profile.configuration_defaults[0].1, vec![("vendor_id".to_string(), "WERK".to_string())]);
    assert_eq!(profile.configuration_defaults[1].1.len(), 4);
    assert!(registry.has_check("fontwerk/name_entries"));
}

#[test]
fn fontwerk_runs_the_included_checks_it_does_not_exclude() {
    let mut registry = Registry::new();
    ProfileBuilder::new()
        .add_section("Google Fonts")
        .add_and_register_check("googlefonts/gasp")
        .add_and_register_check("googlefonts/family/has_license")
        .build("googlefonts", &mut registry)
        .unwrap();
    ProfileBuilder::new()
        .add_section("OpenType")
        .add_and_register_check("opentype/fsselection")
        .build("opentype", &mut registry)
        .unwrap();
    assert_eq!(Fontwerk.register(&mut registry), Ok(()));
    let profile = registry.get_profile("fontwerk").unwrap();
    assert_eq!(
        profile.check_order(),
        vec![
            ("Fontwerk Checks".to_string(), "fontwerk/name_entries".to_string()),
            ("Google Fonts".to_string(), "googlefonts/family/has_license".to_string()),
            ("OpenType".to_string(), "opentype/fsselection".to_string()),
        ]
    );
}

#[test]
fn sections_of_one_name_are_merged_without_repeats() {
    let mut registry = Registry::new();
    ProfileBuilder::new()
        .add_section("A")
        .add_and_register_check("x")
        .add_and_register_check("y")
        .add_section("B")
        .add_and_register_check("z")
        .build("base", &mut registry)
        .unwrap();
    ProfileBuilder::new()
        .include_profile("base")
        .exclude_check("z")
        .add_section("A")
        .add_and_register_check("y")
        .add_and_register_check("w")
        .build("derived", &mut registry)
        .unwrap();
    let profile = registry.get_profile("derived").unwrap();
    assert_eq!(
        profile.sections,
        vec![
            ("A".to_string(), vec!["y".to_string(), "w".to_string(), "x".to_string()]),
            ("B".to_string(), vec![]),
        ]
    );
    assert_eq!(profile.check_order().len(), 3);
}

#[test]
fn the_listing_gathers_sections_and_profiles_per_check() {
    let mut registry = Registry::new();
    ProfileBuilder::new()
        .add_section("S1")
        .add_and_register_check("x")
        .add_and_register_check("y")
        .build("a", &mut registry)
        .unwrap();
    ProfileBuilder::new()
        .include_profile("a")
        .add_section("S2")
        .add_and_register_check("x")
        .build("b", &mut registry)
        .unwrap();
    let listing = check_listing(&registry);
    assert_eq!(listing.len(), 2);
    assert_eq!(listing[0].check_id, "x");
    assert_eq!(listing[0].sections, vec!["S1".to_string(), "S2".to_string()]);
    assert_eq!(listing[0].profiles, vec!["a".to_string(), "b".to_string(), "b".to_string()]);
    assert_eq!(listing[1].check_id, "y");
    assert_eq!(listing[1].sections, vec!["S1".to_string()]);
    assert_eq!(listing[1].profiles, vec!["a".to_string(), "b".to_string()]);
}

#[test]
fn registering_a_name_again_keeps_its_place() {
    let mut registry = Registry::new();
    register_empty(&mut registry, "p");
    register_empty(&mut registry, "q");
    register_empty(&mut registry, "p");
    assert_eq!(registry.profile_names(), vec!["p".to_string(), "q".to_string()]);
}

#[test]
fn iso15009_registers_its_checks() {
    let mut registry = Registry::new();
    assert_eq!(Iso15009.register(&mut registry), Ok(()));
    let profile = registry.get_profile("iso15009").unwrap();
    assert_eq!(profile.sections.len(), 1);
    assert_eq!(profile.sections[0].0, "iso15009 Fonts Checks");
    assert_eq!(profile.sections[0].1.len(), 5);
    assert!(registry.has_check("iso15009/stem_width"));
    assert_eq!(registry.check_ids().len(), 5);
    assert_eq!(registry.profile_names(), vec!["iso15009".to_string()]);
}

#[test]
fn a_later_registration_replaces_a_profile() {
    let mut registry = Registry::new();
    register_empty(&mut registry, "p");
    ProfileBuilder::new().add_section("Other").build("p", &mut registry).unwrap();
    assert_eq!(registry.get_profile("p").unwrap().sections[0].0, "Other");
}

fn rec(p: u16, id: u16, s: Option<&str>) -> NameEntry {
    NameEntry { platform_id: p, encoding_id: 1, language_id: 1033, name_id: id, string: s.map(|x| x.to_string()) }
}

#[test]
fn name_lookups_skip_unreadable_and_other_codes() {
    let records = vec![rec(1, 1, Some("Mac Family")), rec(3, 1, None), rec(3, 1, Some("Win Family"))];
    assert_eq!(get_name_entry_string(&records, 3, 1, 1033, 1).as_deref(), Some("Win Family"));
    assert_eq!(get_name_entry_string(&records, 3, 1, 1033, 2), None);
    assert_eq!(get_name_entry_strings(&records, 1), vec!["Mac Family".to_string(), "Win Family".to_string()]);
}

#[test]
fn regular_and_white_space_are_ignored_in_names() {
    let records = vec![
        rec(3, 1, Some("Family")),
        rec(3, 2, Some("Regular")),
        rec(3, 4, Some(" Family\tRegular ")),
        rec(3, 16, Some("Family")),
        rec(3, 17, Some("Regular")),
    ];
    assert!(name_consistency_issues(&records).is_empty());
}

#[test]
fn names_are_compared_across_codes() {
    let records = vec![
        rec(1, 1, Some("Fam")),
        rec(1, 2, Some("Bold")),
        rec(1, 4, Some("Fam Bold")),
        rec(1, 16, Some("Fam")),
        rec(1, 17, Some("Bold")),
        rec(3, 1, Some("Fam")),
        rec(3, 2, Some("Italic")),
        rec(3, 4, Some("Fam Italic")),
        rec(3, 16, Some("Fam")),
        rec(3, 17, Some("Italic")),
    ];
    let issues = name_consistency_issues(&records);
    assert_eq!(
        issues,
        vec![
            "Inconsistent names: Fam Bold (1 + 2) != Fam Italic (21 + 22)".to_string(),
            "Inconsistent names: Fam Bold (1 + 2) != Fam Italic (21 + 22)".to_string(),
            "Inconsistent names: Fam Bold (1 + 2) != Fam Italic (21 + 22)".to_string(),
        ]
    );
}
