//! What the checks decide, stated over their inputs and results: which
//! name ID a configuration key names, when a gasp range draws a warning,
//! which fsSelection bits a style asks for, which files the family check
//! compares, and which name IDs the consistency check requires.
use vstd::prelude::*;
use crate::names::string_id_of;
use crate::gasp::{range_warnings, ranges_warnings};
use crate::status::{StatusView, StatusCode, status_view};
use crate::text::{decimal, hex2};
use crate::opentype::{fsselection_problems, style_flag_problem, mac_flag_problem, fixed_fs_selection, bold_expected,
    italic_expected, regular_expected};
use crate::laws::lemma_fixed_fs_selection_matches_style;
use crate::family::{considered, has_font_extension};
use crate::font::{FontFileView, parses_as_font};
use crate::style::{font_style, is_ribbi_style};
use crate::font::{NameEntryView, name_id_text};
use crate::names::{PelCode, code_of, codes_of, code_lt, strictly_sorted, find_name_string};
use crate::consistency::{consistency_issues, sorted_codes, all_steps, code_steps, missing_messages,
    combined_names, inconsistencies_upto, pair_label};

verus! {

/// The configuration keys of `fontwerk/name_entries` name the name IDs of
/// the OpenType constants of the same names: 0 to 14 and 16 to 25.
pub proof fn lemma_config_keys_name_their_ids()
    ensures
        string_id_of("COPYRIGHT_NOTICE"@) == Some(0u16),
        string_id_of("FAMILY_NAME"@) == Some(1u16),
        string_id_of("SUBFAMILY_NAME"@) == Some(2u16),
        string_id_of("UNIQUE_ID"@) == Some(3u16),
        string_id_of("FULL_NAME"@) == Some(4u16),
        string_id_of("VERSION_STRING"@) == Some(5u16),
        string_id_of("POSTSCRIPT_NAME"@) == Some(6u16),
        string_id_of("TRADEMARK"@) == Some(7u16),
        string_id_of("MANUFACTURER"@) == Some(8u16),
        string_id_of("DESIGNER"@) == Some(9u16),
        string_id_of("DESCRIPTION"@) == Some(10u16),
        string_id_of("VENDOR_URL"@) == Some(11u16),
        string_id_of("DESIGNER_URL"@) == Some(12u16),
        string_id_of("LICENSE_DESCRIPTION"@) == Some(13u16),
        string_id_of("LICENSE_URL"@) == Some(14u16),
        string_id_of("TYPOGRAPHIC_FAMILY_NAME"@) == Some(16u16),
        string_id_of("TYPOGRAPHIC_SUBFAMILY_NAME"@) == Some(17u16),
        string_id_of("COMPATIBLE_FULL_NAME"@) == Some(18u16),
        string_id_of("SAMPLE_TEXT"@) == Some(19u16),
        string_id_of("POSTSCRIPT_CID_NAME"@) == Some(20u16),
        string_id_of("WWS_FAMILY_NAME"@) == Some(21u16),
        string_id_of("WWS_SUBFAMILY_NAME"@) == Some(22u16),
        string_id_of("LIGHT_BACKGROUND_PALETTE"@) == Some(23u16),
        string_id_of("DARK_BACKGROUND_PALETTE"@) == Some(24u16),
        string_id_of("VARIATIONS_POSTSCRIPT_NAME_PREFIX"@) == Some(25u16),
{
    reveal_strlit("COPYRIGHT_NOTICE");
    assert("COPYRIGHT_NOTICE"@.len() == 16);
    reveal_strlit("FAMILY_NAME");
    assert("FAMILY_NAME"@.len() == 11);
    reveal_strlit("SUBFAMILY_NAME");
    assert("SUBFAMILY_NAME"@.len() == 14);
    reveal_strlit("UNIQUE_ID");
    assert("UNIQUE_ID"@.len() == 9);
    reveal_strlit("FULL_NAME");
    assert("FULL_NAME"@.len() == 9);
    reveal_strlit("VERSION_STRING");
    assert("VERSION_STRING"@.len() == 14);
    reveal_strlit("POSTSCRIPT_NAME");
    assert("POSTSCRIPT_NAME"@.len() == 15);
    reveal_strlit("TRADEMARK");
    assert("TRADEMARK"@.len() == 9);
    reveal_strlit("MANUFACTURER");
    assert("MANUFACTURER"@.len() == 12);
    reveal_strlit("DESIGNER");
    assert("DESIGNER"@.len() == 8);
    reveal_strlit("DESCRIPTION");
    assert("DESCRIPTION"@.len() == 11);
    reveal_strlit("VENDOR_URL");
    assert("VENDOR_URL"@.len() == 10);
    reveal_strlit("DESIGNER_URL");
    assert("DESIGNER_URL"@.len() == 12);
    reveal_strlit("LICENSE_DESCRIPTION");
    assert("LICENSE_DESCRIPTION"@.len() == 19);
    reveal_strlit("LICENSE_URL");
    assert("LICENSE_URL"@.len() == 11);
    reveal_strlit("TYPOGRAPHIC_FAMILY_NAME");
    assert("TYPOGRAPHIC_FAMILY_NAME"@.len() == 23);
    reveal_strlit("TYPOGRAPHIC_SUBFAMILY_NAME");
    assert("TYPOGRAPHIC_SUBFAMILY_NAME"@.len() == 26);
    reveal_strlit("COMPATIBLE_FULL_NAME");
    assert("COMPATIBLE_FULL_NAME"@.len() == 20);
    reveal_strlit("SAMPLE_TEXT");
    assert("SAMPLE_TEXT"@.len() == 11);
    reveal_strlit("POSTSCRIPT_CID_NAME");
    assert("POSTSCRIPT_CID_NAME"@.len() == 19);
    reveal_strlit("WWS_FAMILY_NAME");
    assert("WWS_FAMILY_NAME"@.len() == 15);
    reveal_strlit("WWS_SUBFAMILY_NAME");
    assert("WWS_SUBFAMILY_NAME"@.len() == 18);
    reveal_strlit("LIGHT_BACKGROUND_PALETTE");
    assert("LIGHT_BACKGROUND_PALETTE"@.len() == 24);
    reveal_strlit("DARK_BACKGROUND_PALETTE");
    assert("DARK_BACKGROUND_PALETTE"@.len() == 23);
    reveal_strlit("VARIATIONS_POSTSCRIPT_NAME_PREFIX");
    assert("VARIATIONS_POSTSCRIPT_NAME_PREFIX"@.len() == 33);
    assert("FULL_NAME"@[0] != "UNIQUE_ID"@[0]);
    assert("VERSION_STRING"@[0] != "SUBFAMILY_NAME"@[0]);
    assert("TRADEMARK"@[0] != "UNIQUE_ID"@[0]);
    assert("TRADEMARK"@[0] != "FULL_NAME"@[0]);
    assert("DESCRIPTION"@[0] != "FAMILY_NAME"@[0]);
    assert("DESIGNER_URL"@[0] != "MANUFACTURER"@[0]);
    assert("LICENSE_URL"@[0] != "FAMILY_NAME"@[0]);
    assert("LICENSE_URL"@[0] != "DESCRIPTION"@[0]);
    assert("SAMPLE_TEXT"@[0] != "FAMILY_NAME"@[0]);
    assert("SAMPLE_TEXT"@[0] != "DESCRIPTION"@[0]);
    assert("SAMPLE_TEXT"@[0] != "LICENSE_URL"@[0]);
    assert("POSTSCRIPT_CID_NAME"@[0] != "LICENSE_DESCRIPTION"@[0]);
    assert("WWS_FAMILY_NAME"@[0] != "POSTSCRIPT_NAME"@[0]);
    assert("DARK_BACKGROUND_PALETTE"@[0] != "TYPOGRAPHIC_FAMILY_NAME"@[0]);
}

/// Whether one of `statuses` is a warning with the code `code`.
pub open spec fn has_warning(statuses: Seq<StatusView>, code: Seq<char>) -> bool {
    exists|i: int| 0 <= i < statuses.len() && statuses[i].severity == StatusCode::Warn && statuses[i].code == Some(code)
}

/// The gasp range for all sizes (0xFFFF) draws a warning exactly when its
/// behavior is not all four behaviors (0x0F), and then the `unset-flags`
/// warning naming the value.
pub proof fn lemma_all_sizes_range_warns_unless_all_behaviors(behavior: u16)
    ensures
        behavior == 0x0F ==> range_warnings((0xFFFFu16, behavior)).len() == 0,
        behavior != 0x0F ==> range_warnings((0xFFFFu16, behavior)) == seq![status_view(
            StatusCode::Warn,
            "unset-flags"@,
            "The gasp range 0xFFFF value 0x"@ + hex2(behavior as nat) + " should be set to 0x0F."@,
        )],
{
}

/// A gasp range short of all sizes draws exactly the `non-ffff-range`
/// warning, whatever its behavior.
pub proof fn lemma_short_range_warns(max_ppem: u16, behavior: u16)
    requires
        max_ppem != 0xFFFF,
    ensures
        range_warnings((max_ppem, behavior)) == seq![status_view(
            StatusCode::Warn,
            "non-ffff-range"@,
            "The gasp table has a range of "@ + decimal(max_ppem as nat) + " that may be unneccessary."@,
        )],
{
}

/// The gasp ranges draw an `unset-flags` warning exactly when one of them
/// covers all sizes (0xFFFF) without all four behaviors (0x0F).
pub proof fn lemma_unset_flags_warning_iff(ranges: Seq<(u16, u16)>)
    ensures
        has_warning(ranges_warnings(ranges), "unset-flags"@)
            <==> exists|i: int| 0 <= i < ranges.len() && ranges[i].0 == 0xFFFF && ranges[i].1 != 0x0F,
    decreases ranges.len(),
{
    reveal_strlit("unset-flags");
    reveal_strlit("non-ffff-range");
    if ranges.len() > 0 {
        let prev = ranges.drop_last();
        let last = ranges.last();
        lemma_unset_flags_warning_iff(prev);
        let a = ranges_warnings(prev);
        let b = range_warnings(last);
        let all = ranges_warnings(ranges);
        assert(all == a + b);
        assert(ranges[ranges.len() - 1] == last);
        assert("non-ffff-range"@.len() != "unset-flags"@.len());
        if has_warning(all, "unset-flags"@) {
            let k = choose|k: int| 0 <= k < all.len() && all[k].severity == StatusCode::Warn
                && all[k].code == Some("unset-flags"@);
            if k < a.len() {
                assert(a[k] == all[k]);
                let j = choose|j: int| 0 <= j < prev.len() && prev[j].0 == 0xFFFF && prev[j].1 != 0x0F;
                assert(ranges[j] == prev[j]);
            } else {
                assert(b[k - a.len()] == all[k]);
            }
        }
        if exists|i: int| 0 <= i < ranges.len() && ranges[i].0 == 0xFFFF && ranges[i].1 != 0x0F {
            let i = choose|i: int| 0 <= i < ranges.len() && ranges[i].0 == 0xFFFF && ranges[i].1 != 0x0F;
            if i < prev.len() {
                assert(prev[i] == ranges[i]);
                let k = choose|k: int| 0 <= k < a.len() && a[k].severity == StatusCode::Warn
                    && a[k].code == Some("unset-flags"@);
                assert(all[k] == a[k]);
            } else {
                assert(all[a.len() as int] == b[0]);
            }
        }
    }
}

/// Whether one of `statuses` is a failure with the code `code`.
pub open spec fn has_failure(statuses: Seq<StatusView>, code: Seq<char>) -> bool {
    exists|i: int| 0 <= i < statuses.len() && statuses[i].severity == StatusCode::Fail && statuses[i].code == Some(code)
}

/// Whether `style` is one of the two bold styles, Bold and BoldItalic.
pub open spec fn names_bold(style: Seq<char>) -> bool {
    style == "Bold"@ || style == "BoldItalic"@
}

/// Whether `style` has `Italic` in it.
pub open spec fn names_italic(style: Seq<char>) -> bool {
    exists|i: int| 0 <= i && i + 6 <= style.len() && #[trigger] style.subrange(i, i + 6) == "Italic"@
}

proof fn lemma_failure_concat(a: Seq<StatusView>, b: Seq<StatusView>, code: Seq<char>)
    ensures
        has_failure(a + b, code) <==> has_failure(a, code) || has_failure(b, code),
{
    let ab = a + b;
    if has_failure(ab, code) {
        let k = choose|k: int| 0 <= k < ab.len() && ab[k].severity == StatusCode::Fail && ab[k].code == Some(code);
        if k < a.len() {
            assert(a[k] == ab[k]);
        } else {
            assert(b[k - a.len()] == ab[k]);
        }
    }
    if has_failure(a, code) {
        let k = choose|k: int| 0 <= k < a.len() && a[k].severity == StatusCode::Fail && a[k].code == Some(code);
        assert(ab[k] == a[k]);
    }
    if has_failure(b, code) {
        let k = choose|k: int| 0 <= k < b.len() && b[k].severity == StatusCode::Fail && b[k].code == Some(code);
        assert(ab[a.len() + k] == b[k]);
    }
}

proof fn lemma_style_problem_code(flag: bool, expected: bool, upper: Seq<char>, label: Seq<char>, style: Seq<char>, code: Seq<char>)
    ensures
        has_failure(style_flag_problem(flag, expected, upper, label, style), code) <==> (flag != expected && "bad-"@ + upper == code),
{
    let p = style_flag_problem(flag, expected, upper, label, style);
    if flag != expected {
        assert(p[0].code == Some("bad-"@ + upper));
    }
}

proof fn lemma_mac_problem_code(flag: bool, expected: bool, lower: Seq<char>, label: Seq<char>, code: Seq<char>)
    ensures
        has_failure(mac_flag_problem(flag, expected, lower, label), code) ==> "fsselection-macstyle-"@ + lower == code,
{
}

/// The style bits that fsselection compares: `Bold` and `BoldItalic` ask
/// for the bold bit, a style with `Italic` in it for the italic bit, any
/// other style for the regular bit.
proof fn lemma_expectations(style: Seq<char>)
    ensures
        bold_expected(style) == names_bold(style),
        italic_expected(style) == names_italic(style),
        regular_expected(style) == (!names_bold(style) && !names_italic(style)),
{
    reveal_strlit("Italic");
    assert("Italic"@.len() == 6);
}

/// `opentype/fsselection` reports `bad-BOLD` exactly when the bold bit of
/// fsSelection (0x20) disagrees with the style being Bold or BoldItalic:
/// SemiBold, ExtraBold, Black and the other styles do not ask for it.
/// Likewise `bad-ITALIC` for the italic bit (0x01) and a style with
/// `Italic` in it, and `bad-REGULAR` for the regular bit (0x40) and a style
/// that is neither.
pub proof fn lemma_style_failures_iff(style: Seq<char>, fs: u16, mac: u16)
    ensures
        has_failure(fsselection_problems(style, fs, mac), "bad-BOLD"@) <==> ((fs & 0x20 != 0) != names_bold(style)),
        has_failure(fsselection_problems(style, fs, mac), "bad-ITALIC"@) <==> ((fs & 0x01 != 0) != names_italic(style)),
        has_failure(fsselection_problems(style, fs, mac), "bad-REGULAR"@)
            <==> ((fs & 0x40 != 0) != (!names_bold(style) && !names_italic(style))),
{
    lemma_expectations(style);
    reveal_strlit("bad-BOLD");
    reveal_strlit("bad-ITALIC");
    reveal_strlit("bad-REGULAR");
    reveal_strlit("bad-");
    reveal_strlit("BOLD");
    reveal_strlit("ITALIC");
    reveal_strlit("REGULAR");
    reveal_strlit("bold");
    reveal_strlit("italic");
    reveal_strlit("fsselection-macstyle-");
    assert("bad-"@ + "BOLD"@ =~= "bad-BOLD"@);
    assert("bad-"@ + "ITALIC"@ =~= "bad-ITALIC"@);
    assert("bad-"@ + "REGULAR"@ =~= "bad-REGULAR"@);
    let b = fs & 0x20 != 0;
    let it = fs & 0x01 != 0;
    let r = fs & 0x40 != 0;
    let p1 = style_flag_problem(b, bold_expected(style), "BOLD"@, "Bold"@, style);
    let p2 = style_flag_problem(it, italic_expected(style), "ITALIC"@, "Italic"@, style);
    let p3 = style_flag_problem(r, regular_expected(style), "REGULAR"@, "Regular"@, style);
    let p4 = mac_flag_problem(b, mac & 0x0001 != 0, "bold"@, "Bold"@);
    let p5 = mac_flag_problem(it, mac & 0x0002 != 0, "italic"@, "Italic"@);
    assert(fsselection_problems(style, fs, mac) == p1 + p2 + p3 + p4 + p5);
    let codes = seq!["bad-BOLD"@, "bad-ITALIC"@, "bad-REGULAR"@];
    assert forall|k: int| 0 <= k < 3 implies (has_failure(fsselection_problems(style, fs, mac), #[trigger] codes[k])
        <==> has_failure(p1, codes[k]) || has_failure(p2, codes[k]) || has_failure(p3, codes[k])) by {
        let c = codes[k];
        lemma_failure_concat(p1 + p2 + p3 + p4, p5, c);
        lemma_failure_concat(p1 + p2 + p3, p4, c);
        lemma_failure_concat(p1 + p2, p3, c);
        lemma_failure_concat(p1, p2, c);
        lemma_mac_problem_code(b, mac & 0x0001 != 0, "bold"@, "Bold"@, c);
        lemma_mac_problem_code(it, mac & 0x0002 != 0, "italic"@, "Italic"@, c);
        assert(("fsselection-macstyle-"@ + "bold"@).len() != c.len());
        assert(("fsselection-macstyle-"@ + "italic"@).len() != c.len());
    }
    assert(codes[0] == "bad-BOLD"@);
    assert(codes[1] == "bad-ITALIC"@);
    assert(codes[2] == "bad-REGULAR"@);
    let c0 = codes[0];
    let c1 = codes[1];
    let c2 = codes[2];
    lemma_style_problem_code(b, bold_expected(style), "BOLD"@, "Bold"@, style, c0);
    lemma_style_problem_code(it, italic_expected(style), "ITALIC"@, "Italic"@, style, c0);
    lemma_style_problem_code(r, regular_expected(style), "REGULAR"@, "Regular"@, style, c0);
    lemma_style_problem_code(b, bold_expected(style), "BOLD"@, "Bold"@, style, c1);
    lemma_style_problem_code(it, italic_expected(style), "ITALIC"@, "Italic"@, style, c1);
    lemma_style_problem_code(r, regular_expected(style), "REGULAR"@, "Regular"@, style, c1);
    lemma_style_problem_code(b, bold_expected(style), "BOLD"@, "Bold"@, style, c2);
    lemma_style_problem_code(it, italic_expected(style), "ITALIC"@, "Italic"@, style, c2);
    lemma_style_problem_code(r, regular_expected(style), "REGULAR"@, "Regular"@, style, c2);
}

/// The fsSelection bits `fix_fsselection` writes: the bold bit (0x20)
/// exactly for Bold and BoldItalic, the italic bit (0x01) exactly for a
/// style with `Italic` in it, the regular bit (0x40) exactly for any other
/// style; USE_TYPO_METRICS (0x80) kept and every other bit cleared.
pub proof fn lemma_fixed_bits_follow_style(style: Seq<char>, fs: u16)
    ensures
        (fixed_fs_selection(style, fs) & 0x20 != 0) == names_bold(style),
        (fixed_fs_selection(style, fs) & 0x01 != 0) == names_italic(style),
        (fixed_fs_selection(style, fs) & 0x40 != 0) == (!names_bold(style) && !names_italic(style)),
        fixed_fs_selection(style, fs) & 0x80 == fs & 0x80,
        fixed_fs_selection(style, fs) & 0xFF1E == 0,
{
    lemma_expectations(style);
    lemma_fixed_fs_selection_matches_style(style, fs);
}

/// The four styles of a RIBBI family: Regular, Italic, Bold and
/// BoldItalic, and no other.
pub proof fn lemma_ribbi_styles(style: Seq<char>)
    ensures
        is_ribbi_style(style) <==> (style == "Regular"@ || style == "Italic"@ || style == "Bold"@ || style == "BoldItalic"@),
{
}

/// `opentype/family/bold_italic_unique_for_nameid1` compares exactly the
/// files with a `.ttf` or `.otf` name that parse as fonts and whose style
/// is Regular, Italic, Bold or BoldItalic.
pub proof fn lemma_considered_files(f: FontFileView)
    ensures
        considered(f) <==> (has_font_extension(f.filename) && parses_as_font(f.contents)
            && (font_style(f.filename) matches Some(s)
                && (s == "Regular"@ || s == "Italic"@ || s == "Bold"@ || s == "BoldItalic"@))),
{
}

/// `s` with the code `c` put in its place, unless it is there.
spec fn insert_code(s: Seq<PelCode>, c: PelCode) -> Seq<PelCode>
    decreases s.len(),
{
    if s.len() == 0 {
        seq![c]
    } else if s[0] == c {
        s
    } else if code_lt(c, s[0]) {
        seq![c] + s
    } else {
        seq![s[0]] + insert_code(s.drop_first(), c)
    }
}

proof fn lemma_insert_code(s: Seq<PelCode>, c: PelCode)
    requires
        strictly_sorted(s),
    ensures
        strictly_sorted(insert_code(s, c)),
        insert_code(s, c).to_set() == s.to_set().insert(c),
    decreases s.len(),
{
    let r = insert_code(s, c);
    if s.len() == 0 {
        assert(r.to_set() =~= s.to_set().insert(c)) by {
            assert forall|x: PelCode| r.to_set().contains(x) <==> s.to_set().insert(c).contains(x) by {
                if r.to_set().contains(x) {
                    let k = choose|k: int| 0 <= k < r.len() && r[k] == x;
                }
                assert(r[0] == c);
                if s.to_set().contains(x) {
                    let k = choose|k: int| 0 <= k < s.len() && s[k] == x;
                }
            }
        }
    } else if s[0] == c {
        assert(s.to_set().contains(s[0]));
        assert(r.to_set() =~= s.to_set().insert(c));
    } else if code_lt(c, s[0]) {
        assert forall|i: int, j: int| 0 <= i < j < r.len() implies code_lt(r[i], r[j]) by {
            if i == 0 {
                assert(r[j] == s[j - 1]);
                if j - 1 > 0 {
                    assert(code_lt(s[0], s[j - 1]));
                }
            } else {
                assert(r[i] == s[i - 1] && r[j] == s[j - 1]);
            }
        }
        assert forall|x: PelCode| r.to_set().contains(x) <==> s.to_set().insert(c).contains(x) by {
            if r.to_set().contains(x) {
                let k = choose|k: int| 0 <= k < r.len() && r[k] == x;
                if k > 0 {
                    assert(s[k - 1] == x);
                }
            }
            if s.to_set().contains(x) {
                let k = choose|k: int| 0 <= k < s.len() && s[k] == x;
                assert(r[k + 1] == x);
            }
            if x == c {
                assert(r[0] == c);
            }
        }
        assert(r.to_set() =~= s.to_set().insert(c));
    } else {
        let t = s.drop_first();
        assert(strictly_sorted(t)) by {
            assert forall|i: int, j: int| 0 <= i < j < t.len() implies code_lt(t[i], t[j]) by {
                assert(t[i] == s[i + 1] && t[j] == s[j + 1]);
            }
        }
        lemma_insert_code(t, c);
        let rest = insert_code(t, c);
        assert(r == seq![s[0]] + rest);
        assert(code_lt(s[0], c));
        assert forall|x: PelCode| rest.to_set().contains(x) implies code_lt(s[0], x) by {
            assert(t.to_set().insert(c).contains(x));
            if x != c {
                let k = choose|k: int| 0 <= k < t.len() && t[k] == x;
                assert(s[k + 1] == x);
            }
        }
        assert forall|i: int, j: int| 0 <= i < j < r.len() implies code_lt(r[i], r[j]) by {
            if i == 0 {
                assert(r[j] == rest[j - 1]);
                assert(rest.to_set().contains(rest[j - 1]));
            } else {
                assert(r[i] == rest[i - 1] && r[j] == rest[j - 1]);
            }
        }
        assert forall|x: PelCode| r.to_set().contains(x) <==> s.to_set().insert(c).contains(x) by {
            if r.to_set().contains(x) {
                let k = choose|k: int| 0 <= k < r.len() && r[k] == x;
                if k > 0 {
                    assert(rest[k - 1] == x);
                    assert(rest.to_set().contains(x));
                    if x != c {
                        let m = choose|m: int| 0 <= m < t.len() && t[m] == x;
                        assert(s[m + 1] == x);
                    }
                }
            }
            if s.to_set().contains(x) {
                let k = choose|k: int| 0 <= k < s.len() && s[k] == x;
                if k == 0 {
                    assert(r[0] == x);
                } else {
                    assert(t[k - 1] == x);
                    assert(t.to_set().contains(x));
                    assert(rest.to_set().contains(x));
                    let m = choose|m: int| 0 <= m < rest.len() && rest[m] == x;
                    assert(r[m + 1] == x);
                }
            }
            if x == c {
                assert(rest.to_set().contains(c));
                let m = choose|m: int| 0 <= m < rest.len() && rest[m] == c;
                assert(r[m + 1] == c);
            }
        }
        assert(r.to_set() =~= s.to_set().insert(c));
    }
}

/// Every finite run of codes has a strictly sorted arrangement of its set.
proof fn lemma_codes_sortable(cs: Seq<PelCode>)
    ensures
        exists|s: Seq<PelCode>| strictly_sorted(s) && s.to_set() == cs.to_set(),
    decreases cs.len(),
{
    if cs.len() == 0 {
        let e = Seq::<PelCode>::empty();
        assert(e.to_set() =~= cs.to_set());
        assert(strictly_sorted(e));
    } else {
        let prev = cs.drop_last();
        lemma_codes_sortable(prev);
        let s = choose|s: Seq<PelCode>| strictly_sorted(s) && s.to_set() == prev.to_set();
        lemma_insert_code(s, cs.last());
        let r = insert_code(s, cs.last());
        assert(cs == prev.push(cs.last()));
        assert(r.to_set() =~= cs.to_set()) by {
            assert forall|x: PelCode| r.to_set().contains(x) <==> cs.to_set().contains(x) by {
                if prev.to_set().contains(x) {
                    let k = choose|k: int| 0 <= k < prev.len() && prev[k] == x;
                    assert(cs[k] == x);
                }
                if cs.to_set().contains(x) {
                    let k = choose|k: int| 0 <= k < cs.len() && cs[k] == x;
                    if k < prev.len() {
                        assert(prev[k] == x);
                    }
                }
                assert(cs[cs.len() - 1] == cs.last());
            }
        }
    }
}

/// The codes in use, sorted, hold every code in use.
proof fn lemma_sorted_codes_hold(recs: Seq<NameEntryView>, code: PelCode)
    requires
        code_in_use(recs, code),
    ensures
        exists|j: int| 0 <= j < sorted_codes(recs).len() && sorted_codes(recs)[j] == code,
{
    let cs = recs.map_values(|r: NameEntryView| code_of(r));
    lemma_codes_sortable(cs);
    assert(cs.to_set() =~= codes_of(recs)) by {
        assert forall|c: PelCode| cs.to_set().contains(c) <==> codes_of(recs).contains(c) by {
            if cs.to_set().contains(c) {
                let k = choose|k: int| 0 <= k < cs.len() && cs[k] == c;
                assert(code_of(recs[k]) == c);
            }
            if codes_of(recs).contains(c) {
                let k = choose|k: int| 0 <= k < recs.len() && code_of(recs[k]) == c;
                assert(cs[k] == c);
            }
        }
    }
    let k = choose|k: int| 0 <= k < recs.len() && code_of(recs[k]) == code;
    assert(codes_of(recs).contains(code));
    let s = sorted_codes(recs);
    assert(s.to_set().contains(code));
}

/// Whether a record has the code `code`.
pub open spec fn code_in_use(recs: Seq<NameEntryView>, code: PelCode) -> bool {
    exists|k: int| 0 <= k < recs.len() && code_of(recs[k]) == code
}

/// Whether a record with the code `code` and the name ID `id` has a
/// readable string.
pub open spec fn readable_name(recs: Seq<NameEntryView>, code: PelCode, id: u16) -> bool {
    exists|k: int| 0 <= k < recs.len() && code_of(recs[k]) == code && recs[k].name_id == id
        && (#[trigger] recs[k]).string is Some
}

proof fn lemma_find_none(recs: Seq<NameEntryView>, code: PelCode, id: u16)
    ensures
        find_name_string(recs, code.0, code.1, code.2, id) is None <==> !readable_name(recs, code, id),
    decreases recs.len(),
{
    if recs.len() > 0 {
        let t = recs.drop_first();
        lemma_find_none(t, code, id);
        if readable_name(t, code, id) {
            let k = choose|k: int| 0 <= k < t.len() && code_of(t[k]) == code && t[k].name_id == id
                && (#[trigger] t[k]).string is Some;
            assert(recs[k + 1] == t[k]);
        }
        if readable_name(recs, code, id) {
            let k = choose|k: int| 0 <= k < recs.len() && code_of(recs[k]) == code && recs[k].name_id == id
                && (#[trigger] recs[k]).string is Some;
            if k > 0 {
                assert(t[k - 1] == recs[k]);
            }
        }
    }
}

proof fn lemma_all_steps_at(recs: Seq<NameEntryView>, codes: Seq<PelCode>, j: int, k: int)
    requires
        0 <= j < codes.len(),
        0 <= k < 4,
    ensures
        all_steps(recs, codes).len() == 4 * codes.len(),
        all_steps(recs, codes)[4 * j + k] == code_steps(recs, codes[j])[k],
    decreases codes.len(),
{
    let prev = codes.drop_last();
    if j < prev.len() {
        lemma_all_steps_at(recs, prev, j, k);
        assert(prev[j] == codes[j]);
    } else if prev.len() > 0 {
        lemma_all_steps_at(recs, prev, 0, 0);
    }
    if prev.len() == 0 {
        assert(all_steps(recs, prev).len() == 0);
    }
}

proof fn lemma_missing_contains(steps: Seq<(Option<u16>, Option<Seq<char>>)>, m: int, id: u16)
    requires
        0 <= m < steps.len(),
        steps[m].0 == Some(id),
    ensures
        missing_messages(steps).contains("Missing required name table entry: "@ + name_id_text(id)),
    decreases steps.len(),
{
    let prev = steps.drop_last();
    let msg = "Missing required name table entry: "@ + name_id_text(id);
    if m < prev.len() {
        assert(prev[m] == steps[m]);
        lemma_missing_contains(prev, m, id);
        let k = choose|k: int| 0 <= k < missing_messages(prev).len() && missing_messages(prev)[k] == msg;
        assert(missing_messages(steps)[k] == msg);
    } else {
        assert(steps.last() == steps[m]);
        assert(missing_messages(steps)[missing_messages(prev).len() as int] == msg);
    }
}

/// The message for a missing name ID, as the check prints it.
spec fn missing_text(id: u16) -> Seq<char> {
    "Missing required name table entry: "@ + name_id_text(id)
}

proof fn lemma_step_reported(recs: Seq<NameEntryView>, code: PelCode, k: int, id: u16)
    requires
        code_in_use(recs, code),
        0 <= k < 4,
        code_steps(recs, code)[k].0 == Some(id),
    ensures
        consistency_issues(recs).contains(missing_text(id)),
{
    lemma_sorted_codes_hold(recs, code);
    let codes = sorted_codes(recs);
    let j = choose|j: int| 0 <= j < codes.len() && codes[j] == code;
    lemma_all_steps_at(recs, codes, j, k);
    let steps = all_steps(recs, codes);
    lemma_missing_contains(steps, 4 * j + k, id);
    let mm = missing_messages(steps);
    let names = combined_names(steps);
    let m = choose|m: int| 0 <= m < mm.len() && mm[m] == missing_text(id);
    assert(consistency_issues(recs) == mm + inconsistencies_upto(names, names.len() as int));
    assert(consistency_issues(recs)[m] == missing_text(id));
}

/// `fontwerk/name_consistency` reports each required name ID that is
/// missing under a code in use: name ID 1 (FAMILY_NAME), 4 (FULL_NAME) and
/// 16 (TYPOGRAPHIC_FAMILY_NAME) whenever no record of that code and ID has a
/// readable string, whatever their partner IDs hold; name ID 2
/// (SUBFAMILY_NAME) and 17 (TYPOGRAPHIC_SUBFAMILY_NAME) when their family ID
/// is there and they are not.
pub proof fn lemma_required_names_reported(recs: Seq<NameEntryView>, code: PelCode)
    requires
        code_in_use(recs, code),
    ensures
        !readable_name(recs, code, 1) ==> consistency_issues(recs).contains(
            "Missing required name table entry: FAMILY_NAME"@,
        ),
        readable_name(recs, code, 1) && !readable_name(recs, code, 2) ==> consistency_issues(recs).contains(
            "Missing required name table entry: SUBFAMILY_NAME"@,
        ),
        !readable_name(recs, code, 4) ==> consistency_issues(recs).contains(
            "Missing required name table entry: FULL_NAME"@,
        ),
        !readable_name(recs, code, 16) ==> consistency_issues(recs).contains(
            "Missing required name table entry: TYPOGRAPHIC_FAMILY_NAME"@,
        ),
        readable_name(recs, code, 16) && !readable_name(recs, code, 17) ==> consistency_issues(recs).contains(
            "Missing required name table entry: TYPOGRAPHIC_SUBFAMILY_NAME"@,
        ),
{
    reveal_strlit("Missing required name table entry: ");
    reveal_strlit("FAMILY_NAME");
    reveal_strlit("SUBFAMILY_NAME");
    reveal_strlit("FULL_NAME");
    reveal_strlit("TYPOGRAPHIC_FAMILY_NAME");
    reveal_strlit("TYPOGRAPHIC_SUBFAMILY_NAME");
    reveal_strlit("Missing required name table entry: FAMILY_NAME");
    reveal_strlit("Missing required name table entry: SUBFAMILY_NAME");
    reveal_strlit("Missing required name table entry: FULL_NAME");
    reveal_strlit("Missing required name table entry: TYPOGRAPHIC_FAMILY_NAME");
    reveal_strlit("Missing required name table entry: TYPOGRAPHIC_SUBFAMILY_NAME");
    assert(missing_text(1) =~= "Missing required name table entry: FAMILY_NAME"@);
    assert(missing_text(2) =~= "Missing required name table entry: SUBFAMILY_NAME"@);
    assert(missing_text(4) =~= "Missing required name table entry: FULL_NAME"@);
    assert(missing_text(16) =~= "Missing required name table entry: TYPOGRAPHIC_FAMILY_NAME"@);
    assert(missing_text(17) =~= "Missing required name table entry: TYPOGRAPHIC_SUBFAMILY_NAME"@);
    lemma_find_none(recs, code, 1);
    lemma_find_none(recs, code, 2);
    lemma_find_none(recs, code, 4);
    lemma_find_none(recs, code, 16);
    lemma_find_none(recs, code, 17);
    let steps = code_steps(recs, code);
    if !readable_name(recs, code, 1) {
        assert(steps[0].0 == Some(1u16));
        lemma_step_reported(recs, code, 0, 1);
    }
    if readable_name(recs, code, 1) && !readable_name(recs, code, 2) {
        assert(steps[0].0 == Some(2u16));
        lemma_step_reported(recs, code, 0, 2);
    }
    if !readable_name(recs, code, 4) {
        assert(steps[1].0 == Some(4u16));
        lemma_step_reported(recs, code, 1, 4);
    }
    if !readable_name(recs, code, 16) {
        assert(steps[2].0 == Some(16u16));
        lemma_step_reported(recs, code, 2, 16);
    }
    if readable_name(recs, code, 16) && !readable_name(recs, code, 17) {
        assert(steps[2].0 == Some(17u16));
        lemma_step_reported(recs, code, 2, 17);
    }
}

/// The name IDs a comparison can find missing.
spec fn required_id(id: u16) -> bool {
    id == 1 || id == 2 || id == 4 || id == 16 || id == 17
}

proof fn lemma_all_steps_required(recs: Seq<NameEntryView>, codes: Seq<PelCode>, m: int)
    requires
        0 <= m < all_steps(recs, codes).len(),
    ensures
        all_steps(recs, codes)[m].0 matches Some(id) ==> required_id(id),
    decreases codes.len(),
{
    let prev = codes.drop_last();
    let a = all_steps(recs, prev);
    if m < a.len() {
        lemma_all_steps_required(recs, prev, m);
        assert(all_steps(recs, codes)[m] == a[m]);
    } else {
        let k = m - a.len();
        assert(all_steps(recs, codes)[m] == code_steps(recs, codes.last())[k]);
    }
}

proof fn lemma_missing_required(steps: Seq<(Option<u16>, Option<Seq<char>>)>, m: int)
    requires
        forall|i: int| 0 <= i < steps.len() ==> ((#[trigger] steps[i]).0 matches Some(id) ==> required_id(id)),
        0 <= m < missing_messages(steps).len(),
    ensures
        exists|id: u16| required_id(id) && missing_messages(steps)[m] == missing_text(id),
    decreases steps.len(),
{
    let prev = steps.drop_last();
    assert forall|i: int| 0 <= i < prev.len() implies ((#[trigger] prev[i]).0 matches Some(id) ==> required_id(id)) by {
        assert(prev[i] == steps[i]);
    }
    let a = missing_messages(prev);
    if m < a.len() {
        lemma_missing_required(prev, m);
        assert(missing_messages(steps)[m] == a[m]);
    } else {
        assert(steps[steps.len() - 1] == steps.last());
        let id = steps.last().0->0;
        assert(missing_messages(steps)[m] == missing_text(id));
    }
}

proof fn lemma_inconsistency_starts(names: Seq<Seq<char>>, k: int, m: int)
    requires
        0 <= m < inconsistencies_upto(names, k).len(),
    ensures
        inconsistencies_upto(names, k)[m].len() > 0,
        inconsistencies_upto(names, k)[m][0] == 'I',
    decreases k,
{
    reveal_strlit("Inconsistent names: ");
    if k > 1 {
        let a = inconsistencies_upto(names, k - 1);
        if m < a.len() {
            lemma_inconsistency_starts(names, k - 1, m);
            assert(inconsistencies_upto(names, k)[m] == a[m]);
        } else {
            let msg = "Inconsistent names: "@ + names[0] + " (1 + 2) != "@ + names[k - 1] + " ("@ + pair_label(k - 2) + ")"@;
            assert(inconsistencies_upto(names, k)[m] == msg);
            assert(msg[0] == 'I');
        }
    }
}

/// The WWS name IDs 21 and 22 are optional: `fontwerk/name_consistency`
/// never reports them missing.
pub proof fn lemma_wws_names_optional(recs: Seq<NameEntryView>)
    ensures
        !consistency_issues(recs).contains("Missing required name table entry: WWS_FAMILY_NAME"@),
        !consistency_issues(recs).contains("Missing required name table entry: WWS_SUBFAMILY_NAME"@),
{
    let w1 = "Missing required name table entry: WWS_FAMILY_NAME"@;
    let w2 = "Missing required name table entry: WWS_SUBFAMILY_NAME"@;
    reveal_strlit("Missing required name table entry: WWS_FAMILY_NAME");
    reveal_strlit("Missing required name table entry: WWS_SUBFAMILY_NAME");
    reveal_strlit("Missing required name table entry: ");
    reveal_strlit("FAMILY_NAME");
    reveal_strlit("SUBFAMILY_NAME");
    reveal_strlit("FULL_NAME");
    reveal_strlit("TYPOGRAPHIC_FAMILY_NAME");
    reveal_strlit("TYPOGRAPHIC_SUBFAMILY_NAME");
    let codes = sorted_codes(recs);
    let steps = all_steps(recs, codes);
    let mm = missing_messages(steps);
    let names = combined_names(steps);
    let inc = inconsistencies_upto(names, names.len() as int);
    let issues = consistency_issues(recs);
    assert(issues == mm + inc);
    assert forall|i: int| 0 <= i < steps.len() implies ((#[trigger] steps[i]).0 matches Some(id) ==> required_id(id)) by {
        lemma_all_steps_required(recs, codes, i);
    }
    assert forall|m: int| 0 <= m < issues.len() implies issues[m] != w1 && issues[m] != w2 by {
        if m < mm.len() {
            lemma_missing_required(steps, m);
            let id = choose|id: u16| required_id(id) && mm[m] == missing_text(id);
            assert(issues[m] == mm[m]);
            // Each required ID's message has a length of its own, unlike the WWS ones.
            assert(missing_text(id).len() != w1.len() || missing_text(id)[35] != w1[35]);
            assert(missing_text(id).len() != w2.len() || missing_text(id)[35] != w2[35]);
        } else {
            lemma_inconsistency_starts(names, names.len() as int, m - mm.len());
            assert(issues[m] == inc[m - mm.len()]);
            assert(w1[0] == 'M' && w2[0] == 'M');
        }
    }
}

} // verus!
