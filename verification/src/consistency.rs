//! The check `fontwerk/name_consistency`: family and style names written
//! the same way in name IDs 1 + 2, 4, 16 + 17 and 21 + 22.
use vstd::prelude::*;
use crate::font::{NameEntry, NameEntryView, read_name_records, name_table_records, has_table, table_present, parses, parses_as_font,
    name_id_to_string, name_id_text};
use crate::names::{PelCode, code_lt, strictly_sorted, codes_of, find_name_string, get_name_entry_string,
    get_name_PEL_codes, issues_report, report_issues, FAMILY_NAME, SUBFAMILY_NAME, FULL_NAME, TYPOGRAPHIC_FAMILY_NAME,
    TYPOGRAPHIC_SUBFAMILY_NAME, WWS_FAMILY_NAME, WWS_SUBFAMILY_NAME};
use crate::status::{is_read_error, is_not_a_font_error, not_a_font, Status, StatusCode, CheckError, just_one, just_one_view};
use crate::text::{to_chars, from_chars, trim_chars, replace_chars, trim, replace_all};

verus! {

/// The tag of the `name` table.
pub const NAME_TAG: u32 = 0x6E61_6D65;

/// Two strictly increasing sequences of codes with the same elements are
/// the same sequence.
pub proof fn lemma_sorted_codes_unique(s: Seq<PelCode>, t: Seq<PelCode>)
    requires
        strictly_sorted(s),
        strictly_sorted(t),
        s.to_set() == t.to_set(),
    ensures
        s == t,
    decreases s.len(),
{
    if s.len() == 0 {
        if t.len() > 0 {
            assert(t.to_set().contains(t[0]));
        }
        assert(s =~= t);
    } else if t.len() == 0 {
        assert(s.to_set().contains(s[0]));
    } else {
        assert(t.to_set().contains(s[0]));
        assert(s.to_set().contains(t[0]));
        let k = choose|k: int| 0 <= k < t.len() && t[k] == s[0];
        let m = choose|m: int| 0 <= m < s.len() && s[m] == t[0];
        if k > 0 {
            assert(code_lt(t[0], t[k]));
            if m > 0 {
                assert(code_lt(s[0], s[m]));
            }
        }
        assert(s[0] == t[0]);
        let s1 = s.drop_first();
        let t1 = t.drop_first();
        assert forall|c: PelCode| #[trigger] s1.to_set().contains(c) <==> t1.to_set().contains(c) by {
            if s1.to_set().contains(c) {
                let i = choose|i: int| 0 <= i < s1.len() && s1[i] == c;
                assert(s[i + 1] == c);
                assert(code_lt(s[0], c));
                assert(t.to_set().contains(c));
                let j = choose|j: int| 0 <= j < t.len() && t[j] == c;
                assert(j != 0);
                assert(t1[j - 1] == c);
            }
            if t1.to_set().contains(c) {
                let i = choose|i: int| 0 <= i < t1.len() && t1[i] == c;
                assert(t[i + 1] == c);
                assert(code_lt(t[0], c));
                assert(s.to_set().contains(c));
                let j = choose|j: int| 0 <= j < s.len() && s[j] == c;
                assert(j != 0);
                assert(s1[j - 1] == c);
            }
        }
        assert(s1.to_set() =~= t1.to_set());
        lemma_sorted_codes_unique(s1, t1);
        assert(s =~= seq![s[0]] + s1);
        assert(t =~= seq![t[0]] + t1);
    }
}

/// The codes in use in the records, each once, in increasing order.
pub open spec fn sorted_codes(recs: Seq<NameEntryView>) -> Seq<PelCode> {
    choose|s: Seq<PelCode>| strictly_sorted(s) && s.to_set() == codes_of(recs)
}

/// A name with white space trimmed, the word `Regular` removed, and trimmed
/// again.
pub open spec fn normalize(name: Seq<char>) -> Seq<char> {
    trim(replace_all(trim(name), "Regular"@, Seq::empty()))
}

/// What comparing one family/subfamily pair under one code gives: the name
/// ID found missing, or the combined name, or neither.
pub type Step = (Option<u16>, Option<Seq<char>>);

/// The outcome for the pair `fam` + `sub` under `code`. A missing required
/// ID is reported (the WWS IDs 21 and 22 are optional); otherwise the
/// family string, a space and the subfamily string are combined and
/// normalized, unless neither was found.
pub open spec fn pair_step(recs: Seq<NameEntryView>, code: PelCode, fam: u16, sub: Option<u16>) -> Step {
    let f = find_name_string(recs, code.0, code.1, code.2, fam);
    if f is None && fam != WWS_FAMILY_NAME {
        (Some(fam), None)
    } else {
        let head = match f {
            Some(x) => x + " "@,
            None => Seq::<char>::empty(),
        };
        match sub {
            None => if f is Some { (None, Some(normalize(head))) } else { (None, None) },
            Some(sid) => {
                let g = find_name_string(recs, code.0, code.1, code.2, sid);
                if g is None && sid != WWS_SUBFAMILY_NAME {
                    (Some(sid), None)
                } else if f is None && g is None {
                    (None, None)
                } else {
                    (None, Some(normalize(head + match g { Some(y) => y, None => Seq::<char>::empty() })))
                }
            },
        }
    }
}

/// The four comparisons made under one code: 1 + 2, 4, 16 + 17, 21 + 22.
pub open spec fn code_steps(recs: Seq<NameEntryView>, code: PelCode) -> Seq<Step> {
    seq![
        pair_step(recs, code, FAMILY_NAME, Some(SUBFAMILY_NAME)),
        pair_step(recs, code, FULL_NAME, None),
        pair_step(recs, code, TYPOGRAPHIC_FAMILY_NAME, Some(TYPOGRAPHIC_SUBFAMILY_NAME)),
        pair_step(recs, code, WWS_FAMILY_NAME, Some(WWS_SUBFAMILY_NAME)),
    ]
}

/// The comparisons made under all codes, in order.
pub open spec fn all_steps(recs: Seq<NameEntryView>, codes: Seq<PelCode>) -> Seq<Step>
    decreases codes.len(),
{
    if codes.len() == 0 {
        Seq::empty()
    } else {
        all_steps(recs, codes.drop_last()) + code_steps(recs, codes.last())
    }
}

/// The messages for the missing IDs, in order.
pub open spec fn missing_messages(steps: Seq<Step>) -> Seq<Seq<char>>
    decreases steps.len(),
{
    if steps.len() == 0 {
        Seq::empty()
    } else {
        missing_messages(steps.drop_last()) + match steps.last().0 {
            Some(id) => seq!["Missing required name table entry: "@ + name_id_text(id)],
            None => Seq::<Seq<char>>::empty(),
        }
    }
}

/// The combined names, in order.
pub open spec fn combined_names(steps: Seq<Step>) -> Seq<Seq<char>>
    decreases steps.len(),
{
    if steps.len() == 0 {
        Seq::empty()
    } else {
        combined_names(steps.drop_last()) + match steps.last().1 {
            Some(n) => seq![n],
            None => Seq::<Seq<char>>::empty(),
        }
    }
}

/// The label printed for the name at position `k` (counted from one after
/// the first): `16 + 17` for the second after the first, `21 + 22` for the
/// others.
pub open spec fn pair_label(k: int) -> Seq<char> {
    if k == 1 { "16 + 17"@ } else { "21 + 22"@ }
}

/// The messages for names that differ from the first name, among the
/// names before position `k`.
pub open spec fn inconsistencies_upto(names: Seq<Seq<char>>, k: int) -> Seq<Seq<char>>
    decreases k,
{
    if k <= 1 {
        Seq::empty()
    } else {
        inconsistencies_upto(names, k - 1) + if names[k - 1] != names[0] {
            seq!["Inconsistent names: "@ + names[0] + " (1 + 2) != "@ + names[k - 1] + " ("@ + pair_label(k - 2)
                + ")"@]
        } else {
            Seq::<Seq<char>>::empty()
        }
    }
}

/// All issues that the check finds in the records.
pub open spec fn consistency_issues(recs: Seq<NameEntryView>) -> Seq<Seq<char>> {
    let steps = all_steps(recs, sorted_codes(recs));
    let names = combined_names(steps);
    missing_messages(steps) + inconsistencies_upto(names, names.len() as int)
}

/// Normalizes a combined name.
fn normalize_name(name: &Vec<char>) -> (r: String)
    ensures
        r@ == normalize(name@),
{
    let t = trim_chars(name.as_slice());
    let pat = to_chars("Regular");
    proof { reveal_strlit("Regular"); }
    let empty: Vec<char> = Vec::new();
    let replaced = replace_chars(t.as_slice(), pat.as_slice(), empty.as_slice());
    let t2 = trim_chars(replaced.as_slice());
    proof { assert(empty@ =~= Seq::<char>::empty()); }
    from_chars(t2.as_slice())
}

/// Makes one comparison.
fn step(records: &Vec<NameEntry>, code: PelCode, fam: u16, sub: Option<u16>) -> (r: (Option<u16>, Option<String>))
    ensures
        (r.0, r.1.deep_view()) == pair_step(records.deep_view(), code, fam, sub),
{
    let f = get_name_entry_string(records, code.0, code.1, code.2, fam);
    if f.is_none() && fam != WWS_FAMILY_NAME {
        return (Some(fam), None);
    }
    let mut full: Vec<char> = Vec::new();
    if let Some(x) = &f {
        full = to_chars(x.as_str());
        full.push(' ');
    }
    proof {
        reveal_strlit(" ");
        if f is Some {
            assert(full@ =~= f->0@ + " "@);
        } else {
            assert(full@ =~= Seq::<char>::empty());
        }
    }
    match sub {
        None => {
            if f.is_some() {
                (None, Some(normalize_name(&full)))
            } else {
                (None, None)
            }
        },
        Some(sid) => {
            let g = get_name_entry_string(records, code.0, code.1, code.2, sid);
            if g.is_none() && sid != WWS_SUBFAMILY_NAME {
                (Some(sid), None)
            } else if f.is_none() && g.is_none() {
                (None, None)
            } else {
                let ghost head = full@;
                if let Some(y) = &g {
                    let yc = to_chars(y.as_str());
                    let mut k: usize = 0;
                    while k < yc.len()
                        invariant
                            k <= yc@.len(),
                            full@ == head + yc@.take(k as int),
                        decreases yc.len() - k,
                    {
                        full.push(yc[k]);
                        proof { assert(full@ =~= head + yc@.take(k + 1)); }
                        k = k + 1;
                    }
                    proof { assert(yc@.take(yc@.len() as int) =~= yc@); }
                } else {
                    proof { assert(full@ =~= head + Seq::<char>::empty()); }
                }
                (None, Some(normalize_name(&full)))
            }
        },
    }
}

/// Adds the outcome of one comparison to the missing messages and names.
fn record_step(missing: &mut Vec<String>, names: &mut Vec<String>, s: (Option<u16>, Option<String>), Ghost(done): Ghost<Seq<Step>>)
    requires
        old(missing).deep_view() == missing_messages(done),
        old(names).deep_view() == combined_names(done),
    ensures
        final(missing).deep_view() == missing_messages(done.push((s.0, s.1.deep_view()))),
        final(names).deep_view() == combined_names(done.push((s.0, s.1.deep_view()))),
{
    let ghost next = done.push((s.0, s.1.deep_view()));
    proof { assert(next.drop_last() =~= done); }
    let ghost m0 = missing.deep_view();
    let ghost n0 = names.deep_view();
    if let Some(id) = s.0 {
        let mut m = String::new();
        m.append("Missing required name table entry: ");
        let label = name_id_to_string(id);
        m.append(label.as_str());
        let ghost mv = m@;
        missing.push(m);
        proof { assert(missing.deep_view() =~= m0.push(mv)); }
    }
    proof { assert(missing.deep_view() =~= missing_messages(next)); }
    if let Some(n) = s.1 {
        let ghost nv = n@;
        names.push(n);
        proof { assert(names.deep_view() =~= n0.push(nv)); }
    }
    proof { assert(names.deep_view() =~= combined_names(next)); }
}

/// The issues that the check finds in the name records.
pub fn name_consistency_issues(records: &Vec<NameEntry>) -> (r: Vec<String>)
    ensures
        r.deep_view() == consistency_issues(records.deep_view()),
{
    let ghost recs = records.deep_view();
    let groups = get_name_PEL_codes(records);
    let groups = match groups {
        Some(g) => g,
        None => Vec::new(),
    };
    let codes = &groups[0];
    proof {
        lemma_sorted_codes_unique(codes@, sorted_codes(recs));
    }
    let mut missing: Vec<String> = Vec::new();
    let mut names: Vec<String> = Vec::new();
    let mut i: usize = 0;
    proof { assert(codes@.take(0) =~= Seq::<PelCode>::empty()); }
    while i < codes.len()
        invariant
            recs == records.deep_view(),
            i <= codes@.len(),
            missing.deep_view() == missing_messages(all_steps(recs, codes@.take(i as int))),
            names.deep_view() == combined_names(all_steps(recs, codes@.take(i as int))),
        decreases codes.len() - i,
    {
        let code = codes[i];
        let ghost done = all_steps(recs, codes@.take(i as int));
        let s1 = step(records, code, FAMILY_NAME, Some(SUBFAMILY_NAME));
        record_step(&mut missing, &mut names, s1, Ghost(done));
        let ghost done1 = done.push((s1.0, s1.1.deep_view()));
        let s2 = step(records, code, FULL_NAME, None);
        record_step(&mut missing, &mut names, s2, Ghost(done1));
        let ghost done2 = done1.push((s2.0, s2.1.deep_view()));
        let s3 = step(records, code, TYPOGRAPHIC_FAMILY_NAME, Some(TYPOGRAPHIC_SUBFAMILY_NAME));
        record_step(&mut missing, &mut names, s3, Ghost(done2));
        let ghost done3 = done2.push((s3.0, s3.1.deep_view()));
        let s4 = step(records, code, WWS_FAMILY_NAME, Some(WWS_SUBFAMILY_NAME));
        record_step(&mut missing, &mut names, s4, Ghost(done3));
        let ghost done4 = done3.push((s4.0, s4.1.deep_view()));
        proof {
            let t = codes@.take(i + 1);
            assert(t.drop_last() =~= codes@.take(i as int));
            assert(t.last() == code);
            assert(done4 =~= all_steps(recs, t));
        }
        i = i + 1;
    }
    proof { assert(codes@.take(codes@.len() as int) =~= codes@); }
    let ghost nv = names.deep_view();
    let mut bad = missing;
    let mut k: usize = 1;
    if names.len() > 1 {
        proof { assert(bad.deep_view() =~= missing_messages(all_steps(recs, codes@)) + inconsistencies_upto(nv, 1)); }
        while k < names.len()
            invariant
                nv == names.deep_view(),
                1 <= k <= names.len(),
                bad.deep_view() == missing_messages(all_steps(recs, codes@)) + inconsistencies_upto(nv, k as int),
            decreases names.len() - k,
        {
            let ghost before = bad.deep_view();
            if names[k] != names[0] {
                let mut m = String::new();
                m.append("Inconsistent names: ");
                m.append(names[0].as_str());
                m.append(" (1 + 2) != ");
                m.append(names[k].as_str());
                m.append(" (");
                if k - 1 == 1 {
                    m.append("16 + 17");
                } else {
                    m.append("21 + 22");
                }
                m.append(")");
                let ghost mv = m@;
                bad.push(m);
                proof { assert(bad.deep_view() =~= before.push(mv)); }
            }
            proof {
                assert(bad.deep_view() =~= missing_messages(all_steps(recs, codes@)) + inconsistencies_upto(nv, k + 1));
            }
            k = k + 1;
        }
    } else {
        proof { assert(bad.deep_view() =~= missing_messages(all_steps(recs, codes@)) + inconsistencies_upto(nv, nv.len() as int)); }
    }
    bad
}

/// Whether every record's string can be read.
pub open spec fn all_strings_readable(recs: Seq<NameEntryView>) -> bool {
    forall|i: int| 0 <= i < recs.len() ==> (#[trigger] recs[i]).string is Some
}

/// The check `fontwerk/name_consistency` on a font. Skipped without a name
/// table; a name table or a name string that cannot be read is an error.
pub fn name_consistency(font: &[u8], full_lists: bool) -> (r: Result<Vec<Status>, CheckError>)
    ensures
        !parses_as_font(font@) ==> is_not_a_font_error(r),
        parses_as_font(font@) && !table_present(font@, NAME_TAG) ==> r is Ok && r.unwrap().deep_view() == just_one_view(
            StatusCode::Skip,
            "no-name"@,
            "No name table."@,
        ),
        parses_as_font(font@) && table_present(font@, NAME_TAG) ==> match name_table_records(font@) {
            Some(recs) => if all_strings_readable(recs) {
                r is Ok && r.unwrap().deep_view() == issues_report(consistency_issues(recs), full_lists)
            } else {
                is_read_error(r, "name"@)
            },
            None => is_read_error(r, "name"@),
        },
{
    if !parses(font) {
        return Err(not_a_font());
    }
    if !has_table(font, NAME_TAG) {
        return Ok(just_one(StatusCode::Skip, "no-name", "No name table.".to_string()));
    }
    let records = match read_name_records(font) {
        Some(r) => r,
        None => return Err(CheckError::FontRead("name".to_string())),
    };
    let ghost recs = records.deep_view();
    let mut i: usize = 0;
    while i < records.len()
        invariant
            recs == records.deep_view(),
            parses_as_font(font@),
            table_present(font@, NAME_TAG),
            name_table_records(font@) == Some(recs),
            i <= records.len(),
            forall|j: int| 0 <= j < i ==> (#[trigger] recs[j]).string is Some,
        decreases records.len() - i,
    {
        if records[i].string.is_none() {
            proof { assert(recs[i as int].string is None); }
            return Err(CheckError::FontRead("name".to_string()));
        }
        i = i + 1;
    }
    let bad = name_consistency_issues(&records);
    Ok(report_issues(&bad, full_lists))
}

} // verus!
