//! Properties of the checks that hold for all inputs: what makes each check
//! pass, and that each hotfix produces values its check accepts.
use vstd::prelude::*;
use crate::consistency::{consistency_issues, all_steps, sorted_codes, missing_messages, combined_names,
    inconsistencies_upto, Step};
use crate::family::{duplicate_problems, considered, selection_key, seen_keys};
use crate::font::{FontFileView, NameEntryView};
use crate::fontwerk::{tag_text, tag_byte_text, vendor_id_result};
use crate::gasp::{hotfix_ranges, ranges_warnings, range_warnings, has_all_sizes_range, gasp_ranges_result,
    ALL_SIZES, ALL_BEHAVIORS};
use crate::names::{config_issues, entry_issues, value_issues, ConfigEntryView, string_id_of, name_strings};
use crate::opentype::{fsselection_problems, mac_flag_problem, MAC_BOLD, MAC_ITALIC, fixed_fs_selection, bold_expected, italic_expected, regular_expected, FS_BOLD, FS_ITALIC,
    FS_REGULAR, FS_USE_TYPO_METRICS};
use crate::status::{StatusView, StatusCode, result_of, just_pass, status_view};
use crate::font::{parses_as_font, table_present, table_bytes, gasp_table_ranges, gasp_table_bytes, other_tables_kept,
    os2_fs_selection, head_mac_style};
use crate::gasp::{TAG_CFF, TAG_CFF2, TAG_GASP, TAG_PREP, range_row, markdown_table_text};
use crate::text::hex;
use crate::profile::{RegistryView, ProfileBuilderView, registered, included_runs, lemma_merge_includes_runs};
use crate::sections::{runs, lemma_without_excluded_runs};
use crate::listing::{registry_listing, is_listed, occurrences, lemma_listing_lists, lemma_occurrences_mention};
use crate::universal::{integer_ppem_result, FORCE_INTEGER_PPEM};

verus! {

proof fn lemma_selection_bits(fs: u16, b: u16, i: u16, r: u16)
    by (bit_vector)
    requires
        b == 0 || b == 0x20,
        i == 0 || i == 1,
        r == 0 || r == 0x40,
    ensures
        (((fs & 0x80) | b | i | r) & 0x20 != 0) == (b == 0x20),
        (((fs & 0x80) | b | i | r) & 0x01 != 0) == (i == 1),
        (((fs & 0x80) | b | i | r) & 0x40 != 0) == (r == 0x40),
        ((fs & 0x80) | b | i | r) & 0x80 == fs & 0x80,
        ((fs & 0x80) | b | i | r) & 0xFF1E == 0,
{
}

/// The fsSelection bits that `fix_fsselection` writes agree with the style
/// in the bold, italic and regular bits, keep USE_TYPO_METRICS, and clear
/// every other bit; so `fsselection` reports no `bad-*` failure for them.
pub proof fn lemma_fixed_fs_selection_matches_style(style: Seq<char>, fs: u16)
    ensures
        (fixed_fs_selection(style, fs) & FS_BOLD != 0) == bold_expected(style),
        (fixed_fs_selection(style, fs) & FS_ITALIC != 0) == italic_expected(style),
        (fixed_fs_selection(style, fs) & FS_REGULAR != 0) == regular_expected(style),
        fixed_fs_selection(style, fs) & FS_USE_TYPO_METRICS == fs & FS_USE_TYPO_METRICS,
        fixed_fs_selection(style, fs) & 0xFF1E == 0,
{
    let b: u16 = if bold_expected(style) { FS_BOLD } else { 0 };
    let i: u16 = if italic_expected(style) { FS_ITALIC } else { 0 };
    let r: u16 = if regular_expected(style) { FS_REGULAR } else { 0 };
    lemma_selection_bits(fs, b, i, r);
}

/// After `fix_fsselection`, `fsselection` reports at most the macStyle
/// disagreements: the bold, italic and regular bits match the style.
pub proof fn lemma_fsselection_after_fix(style: Seq<char>, fs: u16, mac: u16)
    ensures
        fsselection_problems(style, fixed_fs_selection(style, fs), mac)
            == mac_flag_problem(bold_expected(style), mac & MAC_BOLD != 0, "bold"@, "Bold"@)
            + mac_flag_problem(italic_expected(style), mac & MAC_ITALIC != 0, "italic"@, "Italic"@),
{
    lemma_fixed_fs_selection_matches_style(style, fs);
    let p = fsselection_problems(style, fixed_fs_selection(style, fs), mac);
    assert(p =~= mac_flag_problem(bold_expected(style), mac & MAC_BOLD != 0, "bold"@, "Bold"@)
        + mac_flag_problem(italic_expected(style), mac & MAC_ITALIC != 0, "italic"@, "Italic"@));
}

proof fn lemma_flag_set(flags: u16)
    by (bit_vector)
    ensures
        (flags | 0x8) & 0x8 != 0,
{
}

/// After `fix_integer_ppem_if_hinted` sets bit 3 of head.flags,
/// `integer_ppem_if_hinted` passes on those flags.
pub proof fn lemma_integer_ppem_fix_passes(flags: u16)
    ensures
        integer_ppem_result(flags | FORCE_INTEGER_PPEM) == just_pass(),
{
    lemma_flag_set(flags);
}

/// `fix_integer_ppem_if_hinted` changes nothing in head.flags the second
/// time: the flags it writes over flags it wrote are the same flags.
pub proof fn lemma_integer_ppem_fix_idempotent(flags: u16)
    ensures
        (flags | FORCE_INTEGER_PPEM) | FORCE_INTEGER_PPEM == flags | FORCE_INTEGER_PPEM,
{
    assert((flags | 8u16) | 8u16 == flags | 8u16) by (bit_vector);
}

/// The gasp table that `fix_unhinted_font` writes draws no warning: the
/// gasp check reports only the table of its ranges.
pub proof fn lemma_hotfix_gasp_has_no_warnings()
    ensures
        has_all_sizes_range(hotfix_ranges()),
        ranges_warnings(hotfix_ranges()) == Seq::<StatusView>::empty(),
        gasp_ranges_result(hotfix_ranges()).len() == 1,
{
    let r = hotfix_ranges();
    assert(r[0].0 == ALL_SIZES);
    assert(r.drop_last() =~= Seq::<(u16, u16)>::empty());
    assert(r.last() == (ALL_SIZES, ALL_BEHAVIORS));
    assert(ranges_warnings(r.drop_last()) =~= Seq::<StatusView>::empty());
    assert(range_warnings(r.last()) =~= Seq::<StatusView>::empty());
    assert(ranges_warnings(r) =~= Seq::<StatusView>::empty());
}

/// On a font without CFF or CFF2 that `fix_unhinted_font` fixed, the gasp
/// check has a parsable TrueType font with a gasp table of the hotfix
/// ranges, and reports for it exactly one status: the Info with the table
/// of its ranges, no warning and no failure.
pub proof fn lemma_gasp_check_after_fix(font: Seq<u8>, fixed: Seq<u8>)
    requires
        !table_present(font, TAG_CFF),
        !table_present(font, TAG_CFF2),
        parses_as_font(fixed),
        gasp_table_ranges(fixed) == Some(hotfix_ranges()),
        table_bytes(fixed, TAG_GASP) == Some(gasp_table_bytes(0, hotfix_ranges())),
        other_tables_kept(font, fixed, set![TAG_GASP, TAG_PREP]),
    ensures
        parses_as_font(fixed),
        !(table_present(fixed, TAG_CFF) || table_present(fixed, TAG_CFF2)),
        table_present(fixed, TAG_GASP),
        gasp_table_ranges(fixed) == Some(hotfix_ranges()),
        gasp_ranges_result(hotfix_ranges()) == seq![status_view(
            StatusCode::Info,
            "ranges"@,
            "These are the ppm ranges declared on the gasp table:\n\n"@
                + markdown_table_text(hotfix_ranges().map_values(|r: (u16, u16)| range_row(r))) + "\n"@,
        )],
{
    assert(table_bytes(fixed, TAG_CFF) == table_bytes(font, TAG_CFF));
    assert(table_bytes(fixed, TAG_CFF2) == table_bytes(font, TAG_CFF2));
    lemma_hotfix_gasp_has_no_warnings();
    let info = status_view(
        StatusCode::Info,
        "ranges"@,
        "These are the ppm ranges declared on the gasp table:\n\n"@
            + markdown_table_text(hotfix_ranges().map_values(|r: (u16, u16)| range_row(r))) + "\n"@,
    );
    assert(seq![info] + ranges_warnings(hotfix_ranges()) =~= seq![info]);
}

/// On a font that `fix_fsselection` fixed, the fsselection check reads the
/// fixed fsSelection bits and the unchanged macStyle, and reports at most
/// the macStyle disagreements: no `bad-BOLD`, `bad-ITALIC` or `bad-REGULAR`.
pub proof fn lemma_fsselection_check_after_fix(style: Seq<char>, font: Seq<u8>, fixed: Seq<u8>, fs: u16, mac: u16)
    requires
        os2_fs_selection(font) == Some(fs),
        head_mac_style(font) == Some(mac),
        parses_as_font(fixed),
        os2_fs_selection(fixed) == Some(fixed_fs_selection(style, fs)),
        head_mac_style(fixed) == head_mac_style(font),
    ensures
        parses_as_font(fixed),
        os2_fs_selection(fixed) matches Some(f2) && head_mac_style(fixed) matches Some(m2)
            && fsselection_problems(style, f2, m2)
                == mac_flag_problem(bold_expected(style), mac & MAC_BOLD != 0, "bold"@, "Bold"@)
                + mac_flag_problem(italic_expected(style), mac & MAC_ITALIC != 0, "italic"@, "Italic"@),
{
    lemma_fsselection_after_fix(style, fs, mac);
}

/// Every check that collects problems reports at least one status.
pub proof fn lemma_result_never_empty(problems: Seq<StatusView>)
    ensures
        result_of(problems).len() >= 1,
{
}

/// What it takes for one configured name entry to raise no issue: the key
/// names a name ID, the font has entries for it, and each entry equals the
/// configured string.
pub open spec fn entry_satisfied(e: ConfigEntryView, recs: Seq<NameEntryView>) -> bool {
    match string_id_of(e.key) {
        None => false,
        Some(id) => {
            let names = name_strings(recs, id);
            names.len() > 0 && match e.value {
                None => false,
                Some(v) => forall|j: int| 0 <= j < names.len() ==> names[j] == v,
            }
        },
    }
}

proof fn lemma_value_issues_empty(key: Seq<char>, value: Option<Seq<char>>, names: Seq<Seq<char>>)
    ensures
        (value_issues(key, value, names).len() == 0) <==> (names.len() == 0 || match value {
            None => false,
            Some(v) => forall|j: int| 0 <= j < names.len() ==> names[j] == v,
        }),
    decreases names.len(),
{
    if names.len() > 0 {
        let prev = names.drop_last();
        lemma_value_issues_empty(key, value, prev);
        match value {
            None => {},
            Some(v) => {
                if value_issues(key, value, names).len() == 0 {
                    assert forall|j: int| 0 <= j < names.len() implies names[j] == v by {
                        if j < prev.len() {
                            assert(prev[j] == names[j]);
                        }
                    }
                }
                if forall|j: int| 0 <= j < names.len() ==> names[j] == v {
                    assert forall|j: int| 0 <= j < prev.len() implies prev[j] == v by {
                        assert(names[j] == v);
                    }
                    assert(names.last() == v);
                }
            },
        }
    }
}

/// `fontwerk/name_entries` raises no issue exactly when every configured
/// entry is satisfied.
pub proof fn lemma_name_entries_pass_iff(entries: Seq<ConfigEntryView>, recs: Seq<NameEntryView>)
    ensures
        (config_issues(entries, recs).len() == 0) <==> forall|i: int| 0 <= i < entries.len() ==> entry_satisfied(#[trigger] entries[i], recs),
    decreases entries.len(),
{
    if entries.len() > 0 {
        let prev = entries.drop_last();
        lemma_name_entries_pass_iff(prev, recs);
        let e = entries.last();
        match string_id_of(e.key) {
            None => {},
            Some(id) => {
                lemma_value_issues_empty(e.key, e.value, name_strings(recs, id));
            },
        }
        assert((entry_issues(e, recs).len() == 0) == entry_satisfied(e, recs));
        if config_issues(entries, recs).len() == 0 {
            assert forall|i: int| 0 <= i < entries.len() implies entry_satisfied(#[trigger] entries[i], recs) by {
                if i < prev.len() {
                    assert(prev[i] == entries[i]);
                }
            }
        }
        if forall|i: int| 0 <= i < entries.len() ==> entry_satisfied(#[trigger] entries[i], recs) {
            assert forall|i: int| 0 <= i < prev.len() implies entry_satisfied(#[trigger] prev[i], recs) by {
                assert(entries[i] == prev[i]);
            }
            assert(entry_satisfied(entries[entries.len() - 1], recs));
        }
    }
}

proof fn lemma_missing_empty(steps: Seq<Step>)
    ensures
        (missing_messages(steps).len() == 0) <==> forall|i: int| 0 <= i < steps.len() ==> (#[trigger] steps[i]).0 is None,
    decreases steps.len(),
{
    if steps.len() > 0 {
        let prev = steps.drop_last();
        lemma_missing_empty(prev);
        if missing_messages(steps).len() == 0 {
            assert forall|i: int| 0 <= i < steps.len() implies (#[trigger] steps[i]).0 is None by {
                if i < prev.len() {
                    assert(prev[i] == steps[i]);
                }
            }
        }
        if forall|i: int| 0 <= i < steps.len() ==> (#[trigger] steps[i]).0 is None {
            assert forall|i: int| 0 <= i < prev.len() implies (#[trigger] prev[i]).0 is None by {
                assert(steps[i] == prev[i]);
            }
            assert(steps[steps.len() - 1].0 is None);
        }
    }
}

proof fn lemma_inconsistencies_empty(names: Seq<Seq<char>>, k: int)
    requires
        k <= names.len(),
    ensures
        (inconsistencies_upto(names, k).len() == 0) <==> forall|j: int| 1 <= j < k ==> #[trigger] names[j] == names[0],
    decreases k,
{
    if k > 1 {
        lemma_inconsistencies_empty(names, k - 1);
        if forall|j: int| 1 <= j < k ==> #[trigger] names[j] == names[0] {
            assert(names[k - 1] == names[0]);
        }
    }
}

/// `fontwerk/name_consistency` raises no issue exactly when no required
/// name is missing under any code and every combined name (1 + 2, 4,
/// 16 + 17, 21 + 22, 'Regular' ignored) equals the first one.
pub proof fn lemma_name_consistency_pass_iff(recs: Seq<NameEntryView>)
    ensures
        (consistency_issues(recs).len() == 0) <==> ({
            let steps = all_steps(recs, sorted_codes(recs));
            let names = combined_names(steps);
            &&& forall|i: int| 0 <= i < steps.len() ==> (#[trigger] steps[i]).0 is None
            &&& forall|j: int| 1 <= j < names.len() ==> #[trigger] names[j] == names[0]
        }),
{
    let steps = all_steps(recs, sorted_codes(recs));
    let names = combined_names(steps);
    lemma_missing_empty(steps);
    lemma_inconsistencies_empty(names, names.len() as int);
}

/// `opentype/family/bold_italic_unique_for_nameid1` finds no duplicate
/// exactly when the considered fonts all have different bold bits, italic
/// bits or first family names.
pub proof fn lemma_unique_selection_iff(files: Seq<FontFileView>)
    ensures
        (duplicate_problems(files).len() == 0) <==> forall|i: int, j: int|
            0 <= i < j < files.len() && considered(#[trigger] files[i]) && considered(#[trigger] files[j])
                ==> selection_key(files[i]) != selection_key(files[j]),
    decreases files.len(),
{
    if files.len() > 0 {
        let prev = files.drop_last();
        let f = files.last();
        let n = files.len() - 1;
        lemma_unique_selection_iff(prev);
        if duplicate_problems(files).len() == 0 {
            assert(!(considered(f) && seen_keys(prev).contains(selection_key(f))));
            assert forall|i: int, j: int|
                0 <= i < j < files.len() && considered(#[trigger] files[i]) && considered(#[trigger] files[j])
                implies selection_key(files[i]) != selection_key(files[j]) by {
                if j < n {
                    assert(prev[i] == files[i] && prev[j] == files[j]);
                } else {
                    assert(files[j] == f);
                    assert(prev[i] == files[i]);
                    if selection_key(files[i]) == selection_key(f) {
                        assert(seen_keys(prev).contains(selection_key(f)));
                    }
                }
            }
        }
        if forall|i: int, j: int|
            0 <= i < j < files.len() && considered(#[trigger] files[i]) && considered(#[trigger] files[j])
                ==> selection_key(files[i]) != selection_key(files[j]) {
            assert forall|i: int, j: int|
                0 <= i < j < prev.len() && considered(#[trigger] prev[i]) && considered(#[trigger] prev[j])
                implies selection_key(prev[i]) != selection_key(prev[j]) by {
                assert(prev[i] == files[i] && prev[j] == files[j]);
            }
            if considered(f) && seen_keys(prev).contains(selection_key(f)) {
                let i = choose|i: int| 0 <= i < prev.len() && considered(prev[i]) && selection_key(prev[i]) == selection_key(f);
                assert(prev[i] == files[i]);
                assert(files[n] == f);
                assert(considered(files[i]) && considered(files[n]));
            }
        }
    }
}

proof fn lemma_hex_nonempty(n: nat)
    ensures
        hex(n).len() >= 1,
    decreases n,
{
    if n >= 16 {
        lemma_hex_nonempty(n / 16);
    }
}

proof fn lemma_byte_text_len(b: u8)
    ensures
        tag_byte_text(b).len() >= 1,
        tag_byte_text(b).len() == 1 ==> 0x20 <= b <= 0x7E && tag_byte_text(b) == seq![b as char],
{
    if !(0x20 <= b <= 0x7E) {
        lemma_hex_nonempty(b as nat);
        reveal_strlit("{0x");
        reveal_strlit("}");
    }
}

/// The vendor ID `WERK`, as a big-endian tag.
pub open spec fn werk_tag() -> u32 {
    0x5745_524B
}

/// `fontwerk/vendor_id` passes exactly when OS/2.achVendID holds the bytes
/// `W`, `E`, `R`, `K`.
pub proof fn lemma_vendor_id_passes_iff(t: u32)
    ensures
        (vendor_id_result(tag_text(t)) == just_pass()) <==> t == werk_tag(),
{
    reveal_strlit("WERK");
    let b0 = (t / 0x100_0000) as u8;
    let b1 = ((t / 0x1_0000) % 0x100) as u8;
    let b2 = ((t / 0x100) % 0x100) as u8;
    let b3 = (t % 0x100) as u8;
    assert(t / 0x100_0000 < 0x100);
    lemma_byte_text_len(b0);
    lemma_byte_text_len(b1);
    lemma_byte_text_len(b2);
    lemma_byte_text_len(b3);
    let txt = tag_text(t);
    if t == werk_tag() {
        assert(b0 == 0x57 && b1 == 0x45 && b2 == 0x52 && b3 == 0x4B);
        assert(txt =~= "WERK"@);
    }
    if txt == "WERK"@ {
        assert(tag_byte_text(b0).len() == 1 && tag_byte_text(b1).len() == 1 && tag_byte_text(b2).len() == 1
            && tag_byte_text(b3).len() == 1);
        assert(txt[0] == b0 as char && txt[1] == b1 as char && txt[2] == b2 as char && txt[3] == b3 as char);
        assert(b0 == 0x57 && b1 == 0x45 && b2 == 0x52 && b3 == 0x4B);
        assert(t == werk_tag());
    }
    if vendor_id_result(txt) == just_pass() {
        if txt != "WERK"@ {
            assert(vendor_id_result(txt).len() == 1);
            assert(vendor_id_result(txt)[0].code is Some);
        }
    }
}

/// A profile registered by a builder runs a check exactly when the
/// builder's own sections or a section of a profile it includes hold the
/// check, and the builder does not exclude it.
pub proof fn lemma_registered_profile_runs(
    before: RegistryView,
    after: RegistryView,
    name: Seq<char>,
    b: ProfileBuilderView,
    c: Seq<char>,
)
    requires
        after == registered(before, name, b),
    ensures
        after.profiles.contains_key(name),
        runs(after.profiles[name].sections, c) <==> (
            (runs(b.profile.sections, c) || included_runs(b.profile.include_profiles, before.profiles, c))
            && !b.profile.exclude_checks.contains(c)),
{
    lemma_merge_includes_runs(b.profile.sections, b.profile.include_profiles, before.profiles, c);
    lemma_without_excluded_runs(
        crate::profile::merge_includes(b.profile.sections, b.profile.include_profiles, before.profiles),
        b.profile.exclude_checks,
        c,
    );
}

/// The listing of a registry has an entry for a check exactly when the
/// check is registered and a registered profile runs it.
pub proof fn lemma_listing_is_registered_and_run(r: RegistryView, c: Seq<char>)
    ensures
        is_listed(registry_listing(r), c) <==> (r.checks.contains(c)
            && exists|j: int| 0 <= j < r.order.len() && runs(r.profiles[#[trigger] r.order[j]].sections, c)),
{
    lemma_listing_lists(occurrences(r.order, r.profiles), r.checks, c);
    lemma_occurrences_mention(r.order, r.profiles, c);
}

} // verus!
