//! The `name` table: name IDs by their names, the platform/encoding/language
//! codes in use, and the lookups the name checks make.
use vstd::prelude::*;
use crate::font::{NameEntry, NameEntryView};
use crate::text::str_equal;
use crate::status::{is_not_a_font_error, not_a_font, Status, StatusView, StatusCode, CheckError, just_one_pass, just_one, just_pass, just_one_view, bullet_list, bullet_list_spec};
use crate::font::{read_name_records, name_table_records, parses, parses_as_font};

verus! {

pub const COPYRIGHT_NOTICE: u16 = 0;
pub const FAMILY_NAME: u16 = 1;
pub const SUBFAMILY_NAME: u16 = 2;
pub const FULL_NAME: u16 = 4;
pub const TYPOGRAPHIC_FAMILY_NAME: u16 = 16;
pub const TYPOGRAPHIC_SUBFAMILY_NAME: u16 = 17;
pub const WWS_FAMILY_NAME: u16 = 21;
pub const WWS_SUBFAMILY_NAME: u16 = 22;

/// The name ID that a configuration key names: the predefined name IDs 0 to
/// 25 (15 has no name) by the names of their constants.
pub open spec fn string_id_of(key: Seq<char>) -> Option<u16> {
    if key == "COPYRIGHT_NOTICE"@ { Some(0) }
    else if key == "FAMILY_NAME"@ { Some(1) }
    else if key == "SUBFAMILY_NAME"@ { Some(2) }
    else if key == "UNIQUE_ID"@ { Some(3) }
    else if key == "FULL_NAME"@ { Some(4) }
    else if key == "VERSION_STRING"@ { Some(5) }
    else if key == "POSTSCRIPT_NAME"@ { Some(6) }
    else if key == "TRADEMARK"@ { Some(7) }
    else if key == "MANUFACTURER"@ { Some(8) }
    else if key == "DESIGNER"@ { Some(9) }
    else if key == "DESCRIPTION"@ { Some(10) }
    else if key == "VENDOR_URL"@ { Some(11) }
    else if key == "DESIGNER_URL"@ { Some(12) }
    else if key == "LICENSE_DESCRIPTION"@ { Some(13) }
    else if key == "LICENSE_URL"@ { Some(14) }
    else if key == "TYPOGRAPHIC_FAMILY_NAME"@ { Some(16) }
    else if key == "TYPOGRAPHIC_SUBFAMILY_NAME"@ { Some(17) }
    else if key == "COMPATIBLE_FULL_NAME"@ { Some(18) }
    else if key == "SAMPLE_TEXT"@ { Some(19) }
    else if key == "POSTSCRIPT_CID_NAME"@ { Some(20) }
    else if key == "WWS_FAMILY_NAME"@ { Some(21) }
    else if key == "WWS_SUBFAMILY_NAME"@ { Some(22) }
    else if key == "LIGHT_BACKGROUND_PALETTE"@ { Some(23) }
    else if key == "DARK_BACKGROUND_PALETTE"@ { Some(24) }
    else if key == "VARIATIONS_POSTSCRIPT_NAME_PREFIX"@ { Some(25) }
    else { None }
}

/// The name ID named by `name_id_string`, if it names one.
pub fn get_string_id_from_string(name_id_string: &str) -> (r: Option<u16>)
    ensures
        r == string_id_of(name_id_string@),
{
    let k = name_id_string;
    if str_equal(k, "COPYRIGHT_NOTICE") { Some(0) }
    else if str_equal(k, "FAMILY_NAME") { Some(1) }
    else if str_equal(k, "SUBFAMILY_NAME") { Some(2) }
    else if str_equal(k, "UNIQUE_ID") { Some(3) }
    else if str_equal(k, "FULL_NAME") { Some(4) }
    else if str_equal(k, "VERSION_STRING") { Some(5) }
    else if str_equal(k, "POSTSCRIPT_NAME") { Some(6) }
    else if str_equal(k, "TRADEMARK") { Some(7) }
    else if str_equal(k, "MANUFACTURER") { Some(8) }
    else if str_equal(k, "DESIGNER") { Some(9) }
    else if str_equal(k, "DESCRIPTION") { Some(10) }
    else if str_equal(k, "VENDOR_URL") { Some(11) }
    else if str_equal(k, "DESIGNER_URL") { Some(12) }
    else if str_equal(k, "LICENSE_DESCRIPTION") { Some(13) }
    else if str_equal(k, "LICENSE_URL") { Some(14) }
    else if str_equal(k, "TYPOGRAPHIC_FAMILY_NAME") { Some(16) }
    else if str_equal(k, "TYPOGRAPHIC_SUBFAMILY_NAME") { Some(17) }
    else if str_equal(k, "COMPATIBLE_FULL_NAME") { Some(18) }
    else if str_equal(k, "SAMPLE_TEXT") { Some(19) }
    else if str_equal(k, "POSTSCRIPT_CID_NAME") { Some(20) }
    else if str_equal(k, "WWS_FAMILY_NAME") { Some(21) }
    else if str_equal(k, "WWS_SUBFAMILY_NAME") { Some(22) }
    else if str_equal(k, "LIGHT_BACKGROUND_PALETTE") { Some(23) }
    else if str_equal(k, "DARK_BACKGROUND_PALETTE") { Some(24) }
    else if str_equal(k, "VARIATIONS_POSTSCRIPT_NAME_PREFIX") { Some(25) }
    else { None }
}

/// A platform ID, encoding ID and language ID.
pub type PelCode = (u16, u16, u16);

/// The code of a name record.
pub open spec fn code_of(r: NameEntryView) -> PelCode {
    (r.platform_id, r.encoding_id, r.language_id)
}

/// The codes in use in `records`.
pub open spec fn codes_of(records: Seq<NameEntryView>) -> Set<PelCode> {
    Set::new(|c: PelCode| exists|i: int| 0 <= i < records.len() && code_of(records[i]) == c)
}

/// The lexicographic order of codes.
pub open spec fn code_lt(a: PelCode, b: PelCode) -> bool {
    ||| a.0 < b.0
    ||| a.0 == b.0 && a.1 < b.1
    ||| a.0 == b.0 && a.1 == b.1 && a.2 < b.2
}

/// `s` is strictly increasing, so holds no code twice.
pub open spec fn strictly_sorted(s: Seq<PelCode>) -> bool {
    forall|i: int, j: int| 0 <= i < j < s.len() ==> code_lt(s[i], s[j])
}

fn pel_lt(a: PelCode, b: PelCode) -> (r: bool)
    ensures
        r == code_lt(a, b),
{
    a.0 < b.0 || (a.0 == b.0 && a.1 < b.1) || (a.0 == b.0 && a.1 == b.1 && a.2 < b.2)
}

/// The codes in use in the name records, each once and in increasing order,
/// as the single group of a list.
#[allow(non_snake_case)]
pub fn get_name_PEL_codes(records: &Vec<NameEntry>) -> (r: Option<Vec<Vec<PelCode>>>)
    ensures
        r is Some,
        r.unwrap()@.len() == 1,
        strictly_sorted(r.unwrap()@[0]@),
        r.unwrap()@[0]@.to_set() == codes_of(records.deep_view()),
{
    let ghost recs = records.deep_view();
    let mut codes: Vec<PelCode> = Vec::new();
    let mut i: usize = 0;
    while i < records.len()
        invariant
            recs == records.deep_view(),
            i <= records.len(),
            strictly_sorted(codes@),
            codes@.to_set() == codes_of(recs.take(i as int)),
        decreases records.len() - i,
    {
        let rec = &records[i];
        let code: PelCode = (rec.platform_id, rec.encoding_id, rec.language_id);
        assert(code == code_of(recs[i as int]));
        let mut j: usize = 0;
        while j < codes.len() && pel_lt(codes[j], code)
            invariant
                j <= codes@.len(),
                forall|k: int| 0 <= k < j ==> code_lt(#[trigger] codes@[k], code),
            decreases codes.len() - j,
        {
            j = j + 1;
        }
        let ghost old_codes = codes@;
        if j < codes.len() && codes[j].0 == code.0 && codes[j].1 == code.1 && codes[j].2 == code.2 {
            assert(old_codes.to_set() =~= old_codes.to_set().insert(code)) by {
                assert(old_codes.contains(code));
            }
        } else {
            codes.insert(j, code);
            assert(codes@ == old_codes.insert(j as int, code));
            assert(j < old_codes.len() ==> code_lt(code, old_codes[j as int]));
            assert forall|a: int, b: int| 0 <= a < b < codes@.len() implies code_lt(codes@[a], codes@[b]) by {
                if b < j {
                    assert(codes@[a] == old_codes[a] && codes@[b] == old_codes[b]);
                } else if b == j {
                    assert(codes@[a] == old_codes[a]);
                } else if a == j {
                    assert(codes@[b] == old_codes[b - 1]);
                    if b - 1 > j {
                        assert(code_lt(old_codes[j as int], old_codes[b - 1]));
                    }
                } else if a < j {
                    assert(codes@[a] == old_codes[a] && codes@[b] == old_codes[b - 1]);
                } else {
                    assert(codes@[a] == old_codes[a - 1] && codes@[b] == old_codes[b - 1]);
                }
            }
            assert(codes@.to_set() =~= old_codes.to_set().insert(code)) by {
                assert forall|c: PelCode| #[trigger] codes@.to_set().contains(c) <==> old_codes.to_set().insert(code).contains(c) by {
                    if codes@.contains(c) {
                        let k = choose|k: int| 0 <= k < codes@.len() && codes@[k] == c;
                        if k < j {
                            assert(old_codes[k] == c);
                        } else if k > j {
                            assert(old_codes[k - 1] == c);
                        }
                    }
                    if old_codes.contains(c) {
                        let k = choose|k: int| 0 <= k < old_codes.len() && old_codes[k] == c;
                        if k < j {
                            assert(codes@[k] == c);
                        } else {
                            assert(codes@[k + 1] == c);
                        }
                    }
                    if c == code {
                        assert(codes@[j as int] == c);
                    }
                }
            }
        }
        proof {
            assert(codes_of(recs.take(i + 1)) =~= codes_of(recs.take(i as int)).insert(code)) by {
                assert forall|c: PelCode| #[trigger] codes_of(recs.take(i + 1)).contains(c)
                    <==> codes_of(recs.take(i as int)).insert(code).contains(c) by {
                    let t1 = recs.take(i + 1);
                    let t0 = recs.take(i as int);
                    if codes_of(t1).contains(c) {
                        let k = choose|k: int| 0 <= k < t1.len() && #[trigger] code_of(t1[k]) == c;
                        if k < i {
                            assert(t0[k] == t1[k]);
                        }
                    }
                    if codes_of(t0).contains(c) {
                        let k = choose|k: int| 0 <= k < t0.len() && #[trigger] code_of(t0[k]) == c;
                        assert(t0[k] == t1[k]);
                    }
                    if c == code {
                        assert(code_of(t1[i as int]) == c);
                    }
                }
            }
        }
        i = i + 1;
    }
    proof { assert(recs.take(records.len() as int) =~= recs); }
    let mut groups: Vec<Vec<PelCode>> = Vec::new();
    groups.push(codes);
    Some(groups)
}


/// Whether a record has the given codes and name ID.
pub open spec fn entry_matches(r: NameEntryView, platform_id: u16, encoding_id: u16, language_id: u16, name_id: u16) -> bool {
    r.platform_id == platform_id && r.encoding_id == encoding_id && r.language_id == language_id
        && r.name_id == name_id
}

/// The string of the first record with the given codes and name ID whose
/// string can be read.
pub open spec fn find_name_string(
    recs: Seq<NameEntryView>,
    platform_id: u16,
    encoding_id: u16,
    language_id: u16,
    name_id: u16,
) -> Option<Seq<char>>
    decreases recs.len(),
{
    if recs.len() == 0 {
        None
    } else if entry_matches(recs[0], platform_id, encoding_id, language_id, name_id) && recs[0].string is Some {
        recs[0].string
    } else {
        find_name_string(recs.drop_first(), platform_id, encoding_id, language_id, name_id)
    }
}

/// The string of the first record with the given platform, encoding and
/// language IDs and name ID, skipping records whose string cannot be read.
pub fn get_name_entry_string(
    records: &Vec<NameEntry>,
    platform_id: u16,
    encoding_id: u16,
    language_id: u16,
    name_id: u16,
) -> (r: Option<String>)
    ensures
        r.deep_view() == find_name_string(records.deep_view(), platform_id, encoding_id, language_id, name_id),
{
    let ghost recs = records.deep_view();
    let mut i: usize = 0;
    proof { assert(recs.skip(0) =~= recs); }
    while i < records.len()
        invariant
            recs == records.deep_view(),
            i <= records.len(),
            find_name_string(recs, platform_id, encoding_id, language_id, name_id)
                == find_name_string(recs.skip(i as int), platform_id, encoding_id, language_id, name_id),
        decreases records.len() - i,
    {
        let rec = &records[i];
        proof {
            assert(recs.skip(i as int)[0] == recs[i as int]);
            assert(recs.skip(i as int).drop_first() =~= recs.skip(i + 1));
        }
        if rec.platform_id == platform_id && rec.encoding_id == encoding_id && rec.language_id == language_id
            && rec.name_id == name_id {
            if let Some(s) = &rec.string {
                return Some(s.clone());
            }
        }
        i = i + 1;
    }
    None
}

/// The readable strings of the records with name ID `name_id`, in table order.
pub open spec fn name_strings(recs: Seq<NameEntryView>, name_id: u16) -> Seq<Seq<char>>
    decreases recs.len(),
{
    if recs.len() == 0 {
        Seq::empty()
    } else {
        name_strings(recs.drop_last(), name_id) + if recs.last().name_id == name_id && recs.last().string is Some {
            seq![recs.last().string.unwrap()]
        } else {
            Seq::<Seq<char>>::empty()
        }
    }
}

/// The readable strings of all records with name ID `name_id`, in table
/// order, whatever their platform.
pub fn get_name_entry_strings(records: &Vec<NameEntry>, name_id: u16) -> (r: Vec<String>)
    ensures
        r.deep_view() == name_strings(records.deep_view(), name_id),
{
    let ghost recs = records.deep_view();
    let mut out: Vec<String> = Vec::new();
    let mut i: usize = 0;
    while i < records.len()
        invariant
            recs == records.deep_view(),
            i <= records.len(),
            out.deep_view() == name_strings(recs.take(i as int), name_id),
        decreases records.len() - i,
    {
        let ghost before = out.deep_view();
        proof { assert(recs.take(i + 1).drop_last() =~= recs.take(i as int)); }
        let rec = &records[i];
        if rec.name_id == name_id {
            if let Some(s) = &rec.string {
                out.push(s.clone());
                proof { assert(out.deep_view() =~= before.push(s@)); }
            }
        }
        proof { assert(out.deep_view() =~= name_strings(recs.take(i + 1), name_id)); }
        i = i + 1;
    }
    proof { assert(recs.take(records.len() as int) =~= recs); }
    out
}

/// One entry of a check's configuration: a key and its value, `None` when
/// the value is not a string.
#[derive(Clone, Debug)]
pub struct ConfigEntry {
    pub key: String,
    pub value: Option<String>,
}

/// The mathematical content of a [`ConfigEntry`].
pub struct ConfigEntryView {
    pub key: Seq<char>,
    pub value: Option<Seq<char>>,
}

impl DeepView for ConfigEntry {
    type V = ConfigEntryView;

    open spec fn deep_view(&self) -> ConfigEntryView {
        ConfigEntryView { key: self.key@, value: self.value.deep_view() }
    }
}

/// What is wrong with each name string found for a configured value.
pub open spec fn value_issues(key: Seq<char>, value: Option<Seq<char>>, names: Seq<Seq<char>>) -> Seq<Seq<char>>
    decreases names.len(),
{
    if names.len() == 0 {
        Seq::empty()
    } else {
        value_issues(key, value, names.drop_last()) + match value {
            None => seq!["Value for '"@ + key + "' is not a string."@],
            Some(v) => if names.last() != v {
                seq![key + " is '"@ + names.last() + "' but should be '"@ + v + "'."@]
            } else {
                Seq::<Seq<char>>::empty()
            },
        }
    }
}

/// What is wrong with the name table for one configuration entry.
pub open spec fn entry_issues(entry: ConfigEntryView, recs: Seq<NameEntryView>) -> Seq<Seq<char>> {
    match string_id_of(entry.key) {
        None => seq!["Unknown name table entry: "@ + entry.key],
        Some(id) => if name_strings(recs, id).len() == 0 {
            seq!["No "@ + entry.key + " entry found"@]
        } else {
            value_issues(entry.key, entry.value, name_strings(recs, id))
        },
    }
}

/// What is wrong with the name table for all configuration entries, in order.
pub open spec fn config_issues(entries: Seq<ConfigEntryView>, recs: Seq<NameEntryView>) -> Seq<Seq<char>>
    decreases entries.len(),
{
    if entries.len() == 0 {
        Seq::empty()
    } else {
        config_issues(entries.drop_last(), recs) + entry_issues(entries.last(), recs)
    }
}

/// The results of a name check that found `issues`.
pub open spec fn issues_report(issues: Seq<Seq<char>>, full_lists: bool) -> Seq<StatusView> {
    if issues.len() == 0 {
        just_pass()
    } else {
        just_one_view(
            StatusCode::Fail,
            "bad-name-table-entries"@,
            "The following issues have been found:\n\n"@ + bullet_list_spec(issues, full_lists),
        )
    }
}

/// Reports the issues found, or a pass.
pub fn report_issues(issues: &Vec<String>, full_lists: bool) -> (r: Vec<Status>)
    ensures
        r.deep_view() == issues_report(issues.deep_view(), full_lists),
{
    if issues.len() == 0 {
        just_one_pass()
    } else {
        let mut msg = String::new();
        msg.append("The following issues have been found:\n\n");
        let list = bullet_list(issues, full_lists);
        msg.append(list.as_str());
        just_one(StatusCode::Fail, "bad-name-table-entries", msg)
    }
}

/// Appends the issues of one configuration entry.
fn push_entry_issues(bad: &mut Vec<String>, entry: &ConfigEntry, records: &Vec<NameEntry>)
    ensures
        final(bad).deep_view() == old(bad).deep_view() + entry_issues(entry.deep_view(), records.deep_view()),
{
    let ghost recs = records.deep_view();
    let ghost start = bad.deep_view();
    let key = entry.key.as_str();
    match get_string_id_from_string(key) {
        None => {
            let mut m = String::new();
            m.append("Unknown name table entry: ");
            m.append(key);
            bad.push(m);
            proof { assert(bad.deep_view() =~= start + entry_issues(entry.deep_view(), recs)); }
        },
        Some(id) => {
            let names = get_name_entry_strings(records, id);
            if names.len() == 0 {
                let mut m = String::new();
                m.append("No ");
                m.append(key);
                m.append(" entry found");
                bad.push(m);
                proof { assert(bad.deep_view() =~= start + entry_issues(entry.deep_view(), recs)); }
            } else {
                let ghost all = names.deep_view();
                let mut j: usize = 0;
                proof { assert(bad.deep_view() =~= start + value_issues(key@, entry.value.deep_view(), all.take(0))); }
                while j < names.len()
                    invariant
                        all == names.deep_view(),
                        j <= names.len(),
                        key@ == entry.key@,
                        bad.deep_view() == start + value_issues(key@, entry.value.deep_view(), all.take(j as int)),
                    decreases names.len() - j,
                {
                    let ghost before = bad.deep_view();
                    proof { assert(all.take(j + 1).drop_last() =~= all.take(j as int)); }
                    match &entry.value {
                        None => {
                            let mut m = String::new();
                            m.append("Value for '");
                            m.append(key);
                            m.append("' is not a string.");
                            let ghost mv = m@;
                            bad.push(m);
                            proof { assert(bad.deep_view() =~= before.push(mv)); }
                        },
                        Some(v) => {
                            if names[j] != *v {
                                let mut m = String::new();
                                m.append(key);
                                m.append(" is '");
                                m.append(names[j].as_str());
                                m.append("' but should be '");
                                m.append(v.as_str());
                                m.append("'.");
                                let ghost mv = m@;
                                bad.push(m);
                                proof { assert(bad.deep_view() =~= before.push(mv)); }
                            }
                        },
                    }
                    proof {
                        assert(all.take(j + 1).last() == all[j as int]);
                        assert(all[j as int] == names@[j as int]@);
                        assert(bad.deep_view() =~= start + value_issues(key@, entry.value.deep_view(), all.take(j + 1)));
                    }
                    j = j + 1;
                }
                proof {
                    assert(all.take(names.len() as int) =~= all);
                }
            }
        },
    }
}

/// The issues of a whole configuration, in order.
pub fn name_entry_issues(config: &Vec<ConfigEntry>, records: &Vec<NameEntry>) -> (r: Vec<String>)
    ensures
        r.deep_view() == config_issues(config.deep_view(), records.deep_view()),
{
    let ghost entries = config.deep_view();
    let mut bad: Vec<String> = Vec::new();
    let mut i: usize = 0;
    proof { assert(bad.deep_view() =~= config_issues(entries.take(0), records.deep_view())); }
    while i < config.len()
        invariant
            entries == config.deep_view(),
            i <= config.len(),
            bad.deep_view() == config_issues(entries.take(i as int), records.deep_view()),
        decreases config.len() - i,
    {
        proof {
            assert(entries.take(i + 1).drop_last() =~= entries.take(i as int));
            assert(entries.take(i + 1).last() == config@[i as int].deep_view());
        }
        push_entry_issues(&mut bad, &config[i], records);
        i = i + 1;
    }
    proof { assert(entries.take(config.len() as int) =~= entries); }
    bad
}

/// The records of the font's name table; none when it cannot be read.
pub open spec fn records_or_empty(font: Seq<u8>) -> Seq<NameEntryView> {
    match name_table_records(font) {
        Some(r) => r,
        None => Seq::empty(),
    }
}

/// The check `fontwerk/name_entries`: every name ID named in the
/// configuration must have entries in the name table, all equal to the
/// configured string. Without a configuration the check is skipped.
pub fn name_entries(font: &[u8], config: Option<&Vec<ConfigEntry>>, full_lists: bool) -> (r: Result<Vec<Status>, CheckError>)
    ensures
        config is None ==> r is Ok && r.unwrap().deep_view() == just_one_view(
            StatusCode::Skip,
            "no-context"@,
            "No configuration context provided for name table checks."@,
        ),
        config is Some && !parses_as_font(font@) ==> is_not_a_font_error(r),
        parses_as_font(font@) ==> (config matches Some(c) ==> r is Ok && r.unwrap().deep_view() == issues_report(
            config_issues(c.deep_view(), records_or_empty(font@)),
            full_lists,
        )),
{
    if config.is_some() && !parses(font) {
        return Err(not_a_font());
    }
    match config {
        None => Ok(just_one(
            StatusCode::Skip,
            "no-context",
            "No configuration context provided for name table checks.".to_string(),
        )),
        Some(c) => {
            let records = match read_name_records(font) {
                Some(r) => r,
                None => Vec::new(),
            };
            proof { assert(records.deep_view() =~= records_or_empty(font@)); }
            let bad = name_entry_issues(c, &records);
            Ok(report_issues(&bad, full_lists))
        },
    }
}

} // verus!
