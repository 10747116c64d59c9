use fontations::read::tables::gasp::GaspRangeBehavior;
use fontations::read::{FontRef, TableProvider};
use fontations::read::tables::head::{Flags, MacStyle};
use fontations::read::tables::os2::SelectionFlags;
use fontations::types::{GlyphId, NameId, Tag, UfWord};
use fontations::write::tables::cmap::Cmap;
use fontations::write::tables::gasp::{Gasp, GaspRange};
use fontations::write::tables::head::Head;
use fontations::write::tables::hhea::Hhea;
use fontations::write::tables::hmtx::{Hmtx, LongMetric};
use fontations::write::tables::maxp::Maxp;
use fontations::write::tables::name::{Name, NameRecord};
use fontations::write::tables::os2::Os2;
use fontations::write::FontBuilder;
use fontspector::family::bold_italic_unique_for_nameid1;
use fontspector::font::FontFile;
use fontspector::fontwerk::{fstype, soft_hyphen, tag_to_string, vendor_id};
use fontspector::gasp::{fix_unhinted_font, gasp, gasp_meaning};
use fontspector::license::{has_license, seems_like_gf_repo};
use fontspector::opentype::{fix_fsselection, fsselection, maxadvancewidth};
use fontspector::status::{bullet_list, CheckError, Status, StatusCode};
use fontspector::style::style;
use fontspector::universal::{
    fix_integer_ppem_if_hinted, fontdata_namecheck_finish, fontdata_namecheck_start, integer_ppem_if_hinted,
    NamecheckStep,
};

fn base() -> FontBuilder<'static> {
    let mut b = FontBuilder::new();
    b.add_table(&Maxp::default()).unwrap();
    b
}

fn os2_font(f: impl FnOnce(&mut Os2)) -> Vec<u8> {
    let mut b = base();
    let mut os2 = Os2::default();
    f(&mut os2);
    b.add_table(&os2).unwrap();
    b.build()
}

fn one(r: &[Status]) -> (StatusCode, Option<String>, Option<String>) {
    assert_eq!(r.len(), 1);
    (r[0].severity, r[0].code.clone(), r[0].message.clone())
}

#[test]
fn fstype_print_and_preview_passes() {
    let font = os2_font(|o| o.fs_type = 4);
    assert_eq!(one(&fstype(&font).unwrap()).0, StatusCode::Pass);
}

#[test]
fn fstype_other_value_fails_with_value() {
    let font = os2_font(|o| o.fs_type = 8);
    let (sev, code, msg) = one(&fstype(&font).unwrap());
    assert_eq!(sev, StatusCode::Fail);
    assert_eq!(code.as_deref(), Some("fstype"));
    assert_eq!(
        msg.as_deref(),
        Some("OS/2 fsType must be set to Print & Preview (Bit 4), found 8 instead.")
    );
}

#[test]
fn fstype_without_os2_is_an_error() {
    let font = base().build();
    assert!(matches!(fstype(&font), Err(CheckError::FontRead(_))));
}

fn cmap_font(chars: &[char]) -> Vec<u8> {
    let mut b = base();
    let cmap = Cmap::from_mappings(chars.iter().enumerate().map(|(i, c)| (*c, GlyphId::new(i as u32 + 1)))).unwrap();
    b.add_table(&cmap).unwrap();
    b.build()
}

#[test]
fn soft_hyphen_is_reported() {
    let font = cmap_font(&['a', '\u{AD}']);
    let (sev, code, msg) = one(&soft_hyphen(&font).unwrap());
    assert_eq!(sev, StatusCode::Fail);
    assert_eq!(code.as_deref(), Some("softhyphen"));
    assert_eq!(msg.as_deref(), Some("This font has a 'Soft Hyphen' character. Please remove it."));
}

#[test]
fn no_soft_hyphen_passes() {
    let font = cmap_font(&['a', 'b', '-']);
    assert_eq!(one(&soft_hyphen(&font).unwrap()).0, StatusCode::Pass);
}

#[test]
fn vendor_id_prints_unprintable_bytes_in_hex() {
    let font = os2_font(|o| o.ach_vend_id = Tag::new(b"AB\x01C"));
    let (sev, _, msg) = one(&vendor_id(&font).unwrap());
    assert_eq!(sev, StatusCode::Fail);
    assert_eq!(msg.as_deref(), Some("OS/2 achVendID value is 'AB{0x01}C', but should be 'WERK'."));
    assert_eq!(tag_to_string(0x5745_524B), "WERK");
}

fn gasp_font(ranges: &[(u16, u16)], extra: &[&[u8; 4]]) -> Vec<u8> {
    let mut b = base();
    if !ranges.is_empty() {
        let gasp = Gasp::new(
            1,
            ranges.len() as u16,
            ranges.iter().map(|(p, f)| GaspRange::new(*p, GaspRangeBehavior::from_bits_truncate(*f))).collect(),
        );
        b.add_table(&gasp).unwrap();
    }
    for tag in extra {
        b.add_raw(Tag::new(tag), vec![0u8; 4]);
    }
    b.build()
}

#[test]
fn gasp_meaning_lists_each_behavior() {
    assert_eq!(
        gasp_meaning(0x0F),
        "- Use grid-fitting\n\t- Use grayscale rendering\n\t- Use gridfitting with ClearType symmetric smoothing\n\t- Use smoothing along multiple axes with ClearType®"
    );
    assert_eq!(gasp_meaning(0x02), "- Use grayscale rendering");
    assert_eq!(gasp_meaning(0), "");
}

#[test]
fn gasp_skips_cff_fonts() {
    let font = gasp_font(&[], &[b"CFF "]);
    let (sev, code, _) = one(&gasp(&font).unwrap());
    assert_eq!(sev, StatusCode::Skip);
    assert_eq!(code.as_deref(), Some("not-ttf"));
}

#[test]
fn gasp_missing_table_fails() {
    let font = gasp_font(&[], &[]);
    let (sev, code, msg) = one(&gasp(&font).unwrap());
    assert_eq!(sev, StatusCode::Fail);
    assert_eq!(code.as_deref(), Some("lacks-gasp"));
    assert!(msg.unwrap().starts_with("Font is missing the 'gasp' table."));
}

#[test]
fn gasp_without_all_sizes_range_warns() {
    let font = gasp_font(&[(8, 0x0F)], &[]);
    let (sev, code, _) = one(&gasp(&font).unwrap());
    assert_eq!(sev, StatusCode::Warn);
    assert_eq!(code.as_deref(), Some("lacks-ffff-range"));
}

#[test]
fn gasp_reports_ranges_and_their_problems() {
    let font = gasp_font(&[(8, 0x02), (0xFFFF, 0x0A)], &[]);
    let r = gasp(&font).unwrap();
    assert_eq!(r.len(), 3);
    assert_eq!(r[0].severity, StatusCode::Info);
    assert_eq!(r[0].code.as_deref(), Some("ranges"));
    let info = r[0].message.clone().unwrap();
    assert!(info.starts_with("These are the ppm ranges declared on the gasp table:\n\n"));
    assert!(info.contains("PPM <= 8"));
    assert!(info.contains("PPM <= 65535"));
    assert!(info.ends_with("\n"));
    assert_eq!(r[1].code.as_deref(), Some("non-ffff-range"));
    assert_eq!(r[1].message.as_deref(), Some("The gasp table has a range of 8 that may be unneccessary."));
    assert_eq!(r[2].code.as_deref(), Some("unset-flags"));
    assert_eq!(r[2].message.as_deref(), Some("The gasp range 0xFFFF value 0x0A should be set to 0x0F."));
}

#[test]
fn unhinted_font_gets_a_gasp_table_that_passes() {
    let font = gasp_font(&[], &[]);
    let fixed = fix_unhinted_font(&font).unwrap().unwrap();
    assert_ne!(fixed, font);
    let r = gasp(&fixed).unwrap();
    assert_eq!(r.len(), 1);
    assert_eq!(r[0].severity, StatusCode::Info);
}

#[test]
fn hinted_font_is_left_alone() {
    let font = gasp_font(&[], &[b"fpgm"]);
    assert!(fix_unhinted_font(&font).unwrap().is_none());
}

fn styled_font(fs: SelectionFlags, mac: MacStyle, family: &str) -> Vec<u8> {
    let mut b = base();
    let mut os2 = Os2::default();
    os2.fs_selection = fs;
    b.add_table(&os2).unwrap();
    let mut head = Head::default();
    head.mac_style = mac;
    b.add_table(&head).unwrap();
    let mut name = Name::default();
    name.name_record = vec![NameRecord::new(3, 1, 1033, NameId::new(1), String::from(family).into())];
    b.add_table(&name).unwrap();
    b.build()
}

fn file(name: &str, contents: Vec<u8>) -> FontFile {
    FontFile { filename: name.to_string(), contents }
}

#[test]
fn fsselection_bold_font_passes() {
    let f = file("Family-Bold.ttf", styled_font(SelectionFlags::BOLD, MacStyle::BOLD, "Family"));
    assert_eq!(one(&fsselection(&f).unwrap()).0, StatusCode::Pass);
}

#[test]
fn fsselection_reports_each_mismatch() {
    let f = file("Family-BoldItalic.ttf", styled_font(SelectionFlags::REGULAR, MacStyle::ITALIC, "Family"));
    let r = fsselection(&f).unwrap();
    let codes: Vec<_> = r.iter().map(|s| s.code.clone().unwrap()).collect();
    assert_eq!(codes, vec!["bad-BOLD", "bad-ITALIC", "bad-REGULAR", "fsselection-macstyle-italic"]);
    assert_eq!(
        r[0].message.as_deref(),
        Some("fsSelection Bold flag false does not match font style BoldItalic")
    );
    assert_eq!(
        r[3].message.as_deref(),
        Some("fsSelection Italic flag false does not match macStyle true flag")
    );
}

#[test]
fn fsselection_without_style_is_skipped() {
    let f = file("Family.ttf", styled_font(SelectionFlags::REGULAR, MacStyle::empty(), "Family"));
    match fsselection(&f) {
        Err(CheckError::Skip { code, message }) => {
            assert_eq!(code, "no-style");
            assert_eq!(message, "No style detected");
        }
        _ => panic!("expected a skip"),
    }
}

#[test]
fn fixed_fsselection_matches_style() {
    let original = styled_font(SelectionFlags::REGULAR | SelectionFlags::USE_TYPO_METRICS, MacStyle::BOLD | MacStyle::ITALIC, "Family");
    let f = file("Family-BoldItalic.ttf", original);
    let fixed = fix_fsselection(&f).unwrap().unwrap();
    let g = file("Family-BoldItalic.ttf", fixed);
    assert_eq!(one(&fsselection(&g).unwrap()).0, StatusCode::Pass);
    let none = file("Family.ttf", g.contents.clone());
    assert!(fix_fsselection(&none).unwrap().is_none());
}

fn metrics_font(max: u16, advances: &[u16]) -> Vec<u8> {
    let mut b = FontBuilder::new();
    let mut maxp = Maxp::default();
    maxp.num_glyphs = advances.len() as u16;
    b.add_table(&maxp).unwrap();
    let mut hhea = Hhea::default();
    hhea.advance_width_max = UfWord::new(max);
    hhea.number_of_h_metrics = advances.len() as u16;
    b.add_table(&hhea).unwrap();
    let hmtx = Hmtx {
        h_metrics: advances.iter().map(|a| LongMetric { advance: *a, side_bearing: 0 }).collect(),
        left_side_bearings: vec![],
    };
    b.add_table(&hmtx).unwrap();
    b.build()
}

#[test]
fn maxadvancewidth_matches() {
    let font = metrics_font(700, &[500, 700, 300]);
    assert_eq!(one(&maxadvancewidth(&font).unwrap()).0, StatusCode::Pass);
}

#[test]
fn maxadvancewidth_mismatch() {
    let font = metrics_font(600, &[500, 700, 300]);
    let (sev, code, msg) = one(&maxadvancewidth(&font).unwrap());
    assert_eq!(sev, StatusCode::Fail);
    assert_eq!(code.as_deref(), Some("mismatch"));
    assert_eq!(msg.as_deref(), Some("AdvanceWidthMax mismatch: expected 700 from hmtx; got 600 for hhea"));
}

#[test]
fn duplicate_bold_flags_in_a_family_fail() {
    let files = vec![
        file("fonts/Fam-Bold.ttf", styled_font(SelectionFlags::BOLD, MacStyle::BOLD, "Fam")),
        file("fonts/Fam-Regular.ttf", styled_font(SelectionFlags::REGULAR, MacStyle::empty(), "Fam")),
        file("fonts/Fam-BoldItalic.ttf", styled_font(SelectionFlags::BOLD, MacStyle::BOLD, "Fam")),
        file("fonts/Fam-Black.ttf", styled_font(SelectionFlags::BOLD, MacStyle::BOLD, "Fam")),
        file("fonts/OFL.txt", vec![]),
    ];
    let r = bold_italic_unique_for_nameid1(&files).unwrap();
    assert_eq!(r.len(), 1);
    assert_eq!(r[0].severity, StatusCode::Fail);
    assert_eq!(r[0].code.as_deref(), Some("unique-fsselection"));
    assert_eq!(
        r[0].message.as_deref(),
        Some("Font fonts/Fam-BoldItalic.ttf has the same selection flags (bold) as another font (Some(\"Fam\"))")
    );
}

#[test]
fn distinct_flags_in_a_family_pass() {
    let files = vec![
        file("Fam-Bold.ttf", styled_font(SelectionFlags::BOLD, MacStyle::BOLD, "Fam")),
        file("Fam-BoldItalic.ttf", styled_font(SelectionFlags::BOLD | SelectionFlags::ITALIC, MacStyle::BOLD, "Fam")),
        file("Other-Bold.ttf", styled_font(SelectionFlags::BOLD, MacStyle::BOLD, "Other")),
    ];
    assert_eq!(one(&bold_italic_unique_for_nameid1(&files).unwrap()).0, StatusCode::Pass);
}

fn head_font(flags: u16, hinted: bool) -> Vec<u8> {
    let mut b = base();
    let mut head = Head::default();
    head.flags = Flags::from_bits_truncate(flags);
    b.add_table(&head).unwrap();
    if hinted {
        b.add_raw(Tag::new(b"fpgm"), vec![0u8; 4]);
    }
    b.build()
}

#[test]
fn integer_ppem_checks_hinted_fonts_only() {
    let (sev, code, _) = one(&integer_ppem_if_hinted(&head_font(0, false)).unwrap());
    assert_eq!(sev, StatusCode::Skip);
    assert_eq!(code.as_deref(), Some("no-hints"));
    let (sev, code, _) = one(&integer_ppem_if_hinted(&head_font(0x0001, true)).unwrap());
    assert_eq!(sev, StatusCode::Fail);
    assert_eq!(code.as_deref(), Some("bad-flags"));
    assert_eq!(one(&integer_ppem_if_hinted(&head_font(0x0009, true)).unwrap()).0, StatusCode::Pass);
}

#[test]
fn integer_ppem_fix_makes_the_check_pass() {
    let font = head_font(0x0001, true);
    let fixed = fix_integer_ppem_if_hinted(&font).unwrap();
    assert_ne!(fixed, font);
    assert_eq!(one(&integer_ppem_if_hinted(&fixed).unwrap()).0, StatusCode::Pass);
}

#[test]
fn license_files_are_counted() {
    let names = |v: &[&str]| v.iter().map(|s| s.to_string()).collect::<Vec<_>>();
    assert_eq!(one(&has_license(&names(&["a/Fam-Regular.ttf", "a/OFL.txt"]), false)).0, StatusCode::Pass);
    let (sev, code, msg) = one(&has_license(&names(&["a/OFL.txt", "a/LICENSE.txt"]), false));
    assert_eq!(sev, StatusCode::Fail);
    assert_eq!(code.as_deref(), Some("multiple"));
    assert_eq!(msg.as_deref(), Some("More than a single license file found: * OFL.txt\n* LICENSE.txt"));
    let (sev, code, _) = one(&has_license(&names(&["a/Fam-Regular.ttf"]), false));
    assert_eq!((sev, code.as_deref()), (StatusCode::Skip, Some("not-in-google-fonts-repo")));
    let (sev, code, _) = one(&has_license(&names(&["/home/me/fonts/ofl/fam/Fam-Regular.ttf"]), false));
    assert_eq!((sev, code.as_deref()), (StatusCode::Fail, Some("no-license")));
    let (sev, code, _) = one(&has_license(&names(&["/home/me/ofl/Fam-Regular.ttf"]), false));
    assert_eq!((sev, code.as_deref()), (StatusCode::Skip, Some("not-in-google-fonts-repo")));
}

#[test]
fn google_fonts_layout_is_recognised() {
    let names = |v: &[&str]| v.iter().map(|s| s.to_string()).collect::<Vec<_>>();
    assert!(seems_like_gf_repo(&names(&["fonts/apache/roboto/Roboto-Regular.ttf"])));
    assert!(seems_like_gf_repo(&names(&["x.ttf", "ufl/ubuntu/Ubuntu-Regular.ttf"])));
    assert!(!seems_like_gf_repo(&names(&["ofl/Fam-Regular.ttf"])));
    assert!(!seems_like_gf_repo(&names(&["fonts/oflx/fam/Fam-Regular.ttf"])));
    assert!(!seems_like_gf_repo(&names(&[])));
}

#[test]
fn namecheck_steps() {
    let font = styled_font(SelectionFlags::REGULAR, MacStyle::empty(), "Family");
    match fontdata_namecheck_start(&font, true).unwrap() {
        NamecheckStep::Done(r) => assert_eq!(one(&r).0, StatusCode::Skip),
        _ => panic!("expected a skip"),
    }
    match fontdata_namecheck_start(&font, false).unwrap() {
        NamecheckStep::Lookup(name) => assert_eq!(name, "Family"),
        _ => panic!("expected a lookup"),
    }
    let (sev, code, msg) = one(&fontdata_namecheck_finish("Family", true));
    assert_eq!((sev, code.as_deref()), (StatusCode::Info, Some("name-collision")));
    assert_eq!(
        msg.as_deref(),
        Some("The family name \"Family\" seems to be already in use.\nPlease visit http://namecheck.fontdata.com/ for more info.")
    );
    assert_eq!(one(&fontdata_namecheck_finish("Family", false)).0, StatusCode::Pass);
}

#[test]
fn styles_from_file_names() {
    assert_eq!(style("dir/Family-BoldItalic.ttf").as_deref(), Some("BoldItalic"));
    assert_eq!(style("Family-Light.otf").as_deref(), Some("Light"));
    assert_eq!(style("Family-Wibble.ttf"), None);
    assert_eq!(style("Family.ttf"), None);
    assert_eq!(style("Family[wght].ttf").as_deref(), Some("Regular"));
    assert_eq!(style("Family-Italic[wght].ttf").as_deref(), Some("Italic"));
}

#[test]
fn long_bullet_lists_are_shortened() {
    let items: Vec<String> = (1..=12).map(|i| format!("item {i}")).collect();
    let short = bullet_list(&items, false);
    assert_eq!(short.lines().count(), 11);
    assert!(short.starts_with("* item 1\n* item 2\n"));
    assert!(short.ends_with("* item 10\n* and 2 more."));
    let full = bullet_list(&items, true);
    assert_eq!(full.lines().count(), 12);
    assert!(full.ends_with("* item 12"));
}

fn is_not_a_font<T>(r: Result<T, CheckError>) -> bool {
    matches!(r, Err(CheckError::General(m)) if m == "Not a TTF file")
}

#[test]
fn bytes_that_are_no_font_are_refused() {
    let junk = b"not a font at all".to_vec();
    assert!(is_not_a_font(fstype(&junk)));
    assert!(is_not_a_font(soft_hyphen(&junk)));
    assert!(is_not_a_font(vendor_id(&junk)));
    assert!(is_not_a_font(gasp(&junk)));
    assert!(is_not_a_font(maxadvancewidth(&junk)));
    assert!(is_not_a_font(integer_ppem_if_hinted(&junk)));
    assert!(is_not_a_font(fontdata_namecheck_start(&junk, true)));
    assert!(is_not_a_font(fsselection(&file("Family-Bold.ttf", junk.clone()))));
    assert!(is_not_a_font(fix_fsselection(&file("Family-Bold.ttf", junk.clone()))));
    assert!(is_not_a_font(fix_unhinted_font(&junk)));
    assert!(is_not_a_font(fix_integer_ppem_if_hinted(&junk)));
}

fn table<'a>(font: &'a [u8], tag: &[u8; 4]) -> Option<&'a [u8]> {
    FontRef::new(font).unwrap().table_data(Tag::new(tag)).map(|d| d.as_bytes())
}

#[test]
fn gasp_fix_writes_version_0_and_the_prep_program_and_keeps_other_tables() {
    let font = gasp_font(&[], &[b"kern"]);
    let fixed = fix_unhinted_font(&font).unwrap().unwrap();
    assert_eq!(table(&fixed, b"gasp"), Some(&[0u8, 0, 0, 1, 0xFF, 0xFF, 0, 0x0F][..]));
    assert_eq!(table(&fixed, b"prep"), Some(&[0xb8u8, 0x01, 0xff, 0x85, 0xb0, 0x04, 0x8d][..]));
    assert_eq!(table(&fixed, b"kern"), table(&font, b"kern"));
    assert_eq!(table(&fixed, b"maxp"), table(&font, b"maxp"));
}

#[test]
fn fsselection_fix_keeps_other_os2_fields_and_tables() {
    let mut b = base();
    let mut os2 = Os2::default();
    os2.fs_selection = SelectionFlags::REGULAR;
    os2.fs_type = 4;
    os2.ach_vend_id = Tag::new(b"WERK");
    b.add_table(&os2).unwrap();
    b.add_raw(Tag::new(b"kern"), vec![1u8, 2, 3, 4]);
    let original = b.build();
    let fixed = fix_fsselection(&file("Family-Bold.ttf", original.clone())).unwrap().unwrap();
    assert_eq!(one(&fstype(&fixed).unwrap()).0, StatusCode::Pass);
    assert_eq!(one(&vendor_id(&fixed).unwrap()).0, StatusCode::Pass);
    assert_eq!(table(&fixed, b"kern"), table(&original, b"kern"));
}

#[test]
fn integer_ppem_fix_keeps_the_other_flags_and_changes_nothing_the_second_time() {
    let font = head_font(0x0001, true);
    let fixed = fix_integer_ppem_if_hinted(&font).unwrap();
    let flags = |f: &[u8]| FontRef::new(f).unwrap().head().unwrap().flags().bits();
    assert_eq!(flags(&fixed), 0x0009);
    let again = fix_integer_ppem_if_hinted(&fixed).unwrap();
    assert_eq!(flags(&again), 0x0009);
    assert_eq!(table(&fixed, b"fpgm"), table(&font, b"fpgm"));
}

#[test]
fn a_font_without_cmap_has_no_soft_hyphen() {
    let font = base().build();
    assert_eq!(one(&soft_hyphen(&font).unwrap()).0, StatusCode::Pass);
}

#[test]
fn hotfixes_keep_the_other_fields_of_the_table_they_rewrite() {
    let mut b = base();
    let mut head = Head::default();
    head.units_per_em = 2048;
    head.flags = Flags::from_bits_truncate(0x0001);
    b.add_table(&head).unwrap();
    let mut os2 = Os2::default();
    os2.us_weight_class = 700;
    os2.fs_selection = SelectionFlags::REGULAR;
    b.add_table(&os2).unwrap();
    let font = b.build();
    let fixed = fix_integer_ppem_if_hinted(&font).unwrap();
    let f = FontRef::new(&fixed).unwrap();
    assert_eq!(f.head().unwrap().units_per_em(), 2048);
    assert_eq!(f.head().unwrap().flags().bits(), 0x0009);
    let refixed = fix_fsselection(&file("Family-Bold.ttf", fixed.clone())).unwrap().unwrap();
    let g = FontRef::new(&refixed).unwrap();
    assert_eq!(g.os2().unwrap().us_weight_class(), 700);
    assert_eq!(g.os2().unwrap().fs_selection(), SelectionFlags::BOLD);
    assert_eq!(g.head().unwrap().units_per_em(), 2048);
    assert_eq!(g.head().unwrap().flags().bits(), 0x0009);
}
