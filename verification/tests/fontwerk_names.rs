use fontations::types::{NameId, Tag};
use fontations::write::tables::maxp::Maxp;
use fontations::write::tables::name::{Name, NameRecord};
use fontations::write::tables::os2::Os2;
use fontations::write::FontBuilder;
use fontspector::consistency::name_consistency;
use fontspector::font::NameEntry;
use fontspector::fontwerk::vendor_id;
use fontspector::names::{get_name_PEL_codes, get_string_id_from_string, name_entries, ConfigEntry};
use fontspector::status::StatusCode;

fn font_with_names(records: &[(u16, u16, u16, u16, &str)]) -> Vec<u8> {
    let mut builder = FontBuilder::new();
    builder.add_table(&Maxp::default()).unwrap();
    let mut name_table = Name::default();
    let mut new_records = Vec::new();
    for (p, e, l, id, s) in records.iter() {
        new_records.push(NameRecord::new(*p, *e, *l, NameId::new(*id), String::from(*s).into()));
    }
    new_records.sort();
    name_table.name_record = new_records;
    builder.add_table(&name_table).unwrap();
    builder.build()
}

fn entry(key: &str, value: &str) -> ConfigEntry {
    ConfigEntry { key: key.to_string(), value: Some(value.to_string()) }
}

#[test]
fn test_get_name_ids_from_string() {
    let string_id = get_string_id_from_string("TYPOGRAPHIC_FAMILY_NAME");
    assert_eq!(string_id.unwrap(), NameId::TYPOGRAPHIC_FAMILY_NAME.to_u16());
}

#[test]
#[allow(non_snake_case)]
fn test_get_name_PEL_codes() {
    let mut tests: Vec<(Vec<(u16, u16, u16, u16, &str)>, Vec<(u16, u16, u16)>)> = Vec::new();
    tests.push((
        [(3, 1, 1033, 0, "Copyright"), (3, 1, 1033, 11, "https://fontwerk.com")].to_vec(),
        [(3, 1, 1033)].to_vec(),
    ));
    tests.push((
        [(1, 1, 1033, 0, "Copyright"), (3, 1, 1033, 0, "Copyright")].to_vec(),
        [(1, 1, 1033), (3, 1, 1033)].to_vec(),
    ));
    tests.push(([].to_vec(), [].to_vec()));

    for (name_recs, expected_codes) in tests.iter() {
        let mut records: Vec<NameEntry> = name_recs
            .iter()
            .map(|(p, e, l, id, s)| NameEntry {
                platform_id: *p,
                encoding_id: *e,
                language_id: *l,
                name_id: *id,
                string: Some(s.to_string()),
            })
            .collect();
        records.sort_by_key(|r| (r.platform_id, r.encoding_id, r.language_id, r.name_id));
        let name_codes = get_name_PEL_codes(&records);
        assert_eq!(name_codes, Some(vec![expected_codes.clone()]));
    }
}

#[test]
fn test_name_entries() {
    let config_1 = vec![entry("MANUFACTURER", "Fontwerk"), entry("VENDOR_URL", "https://fontwerk.com")];
    let config_2 = vec![entry("MANUFACTURER", "Another Foundry")];
    let config_3 = vec![entry("UNKOWN_NAME_ID", "UNKOWN_NAME_ID")];
    let config_4 = vec![entry("LICENSE_URL", "https://another-foundry.com")];
    let configs = [config_1, config_2, config_3, config_4];
    let expected = [
        (StatusCode::Pass, None),
        (
            StatusCode::Fail,
            Some(
                "The following issues have been found:\n\n\
                * MANUFACTURER is 'Fontwerk' but should be 'Another Foundry'."
                    .to_string(),
            ),
        ),
        (
            StatusCode::Fail,
            Some(
                "The following issues have been found:\n\n\
                * Unknown name table entry: UNKOWN_NAME_ID"
                    .to_string(),
            ),
        ),
        (
            StatusCode::Fail,
            Some(
                "The following issues have been found:\n\n\
                * No LICENSE_URL entry found"
                    .to_string(),
            ),
        ),
    ];
    let font = font_with_names(&[(3, 1, 1033, 8, "Fontwerk"), (3, 1, 1033, 11, "https://fontwerk.com")]);
    for (i, config) in configs.iter().enumerate() {
        let result = name_entries(&font, Some(config), false).unwrap();
        let result = &result[0];
        assert_eq!(result.severity, expected[i].0);
        assert_eq!(result.message, expected[i].1);
    }
}

#[test]
fn test_name_consistency() {
    let mut tests = Vec::new();
    tests.push((StatusCode::Pass, None, [(1, "Family Name"), (2, "Bold"), (4, "Family Name Bold"), (16, "Family Name"), (17, "Bold")].to_vec()));
    tests.push((StatusCode::Fail, Some("The following issues have been found:\n\n* Missing required name table entry: FULL_NAME".to_string()), [(1, "Family Name"), (2, "Bold"), (16, "Family Name"), (17, "Bold")].to_vec()));
    tests.push((StatusCode::Fail, Some("The following issues have been found:\n\n* Inconsistent names: Family Name Bold (1 + 2) != Family Name Medium (16 + 17)".to_string()), [(1, "Family Name"), (2, "Bold"), (4, "Family Name Bold"), (16, "Family Name"), (17, "Medium")].to_vec()));
    tests.push((StatusCode::Fail, Some("The following issues have been found:\n\n* Missing required name table entry: TYPOGRAPHIC_SUBFAMILY_NAME".to_string()), [(1, "Family Name"), (2, "Bold"), (4, "Family Name Bold"), (16, "Family Name")].to_vec()));
    tests.push((StatusCode::Fail, Some("The following issues have been found:\n\n* Missing required name table entry: TYPOGRAPHIC_FAMILY_NAME".to_string()), [(1, "Family Name"), (2, "Bold"), (4, "Family Name Bold"), (17, "Bold")].to_vec()));
    tests.push((StatusCode::Fail, Some("The following issues have been found:\n\n* Missing required name table entry: SUBFAMILY_NAME".to_string()), [(1, "Family Name"), (4, "Family Name Bold"), (16, "Family Name"), (17, "Bold")].to_vec()));
    tests.push((StatusCode::Fail, Some("The following issues have been found:\n\n* Missing required name table entry: FAMILY_NAME".to_string()), [(2, "Bold"), (4, "Family Name Bold"), (16, "Family Name"), (17, "Bold")].to_vec()));
    tests.push((StatusCode::Fail, Some("The following issues have been found:\n\n* Inconsistent names: Family Name Condensed Bold (1 + 2) != Family Name Cond Bold (21 + 22)".to_string()), [(1, "Family Name Condensed"), (2, "Bold"), (4, "Family Name Condensed Bold"), (16, "Family Name Condensed"), (17, "Bold"), (21, "Family Name"), (22, "Cond Bold")].to_vec()));
    for (expected_severity, expected_message, records) in tests.iter() {
        let recs: Vec<(u16, u16, u16, u16, &str)> = records.iter().map(|(id, s)| (3, 1, 1033, *id, *s)).collect();
        let font = font_with_names(&recs);
        let result = name_consistency(&font, false).unwrap();
        let result = &result[0];
        assert_eq!(result.message, *expected_message);
        assert_eq!(result.severity, *expected_severity);
    }
}

#[test]
fn test_vendor_id_fontwerk() {
    let vendor_ids = [b"UKWN", b"WERK", b"TEST", b"ABCD"];
    let expected = [
        (StatusCode::Fail, Some("OS/2 achVendID value is 'UKWN', but should be 'WERK'.".to_string())),
        (StatusCode::Pass, None),
        (StatusCode::Fail, Some("OS/2 achVendID value is 'TEST', but should be 'WERK'.".to_string())),
        (StatusCode::Fail, Some("OS/2 achVendID value is 'ABCD', but should be 'WERK'.".to_string())),
    ];
    for (i, &vend_id) in vendor_ids.iter().enumerate() {
        let mut builder = FontBuilder::new();
        builder.add_table(&Maxp::default()).unwrap();
        let mut os2 = Os2::default();
        os2.ach_vend_id = Tag::new(vend_id);
        builder.add_table(&os2).unwrap();
        let font = builder.build();
        let result = vendor_id(&font).unwrap();
        let result = &result[0];
        assert_eq!(result.severity, expected[i].0);
        assert_eq!(result.message, expected[i].1);
    }
}
