//! The check `googlefonts/gasp` and its hotfix for unhinted fonts.
use vstd::prelude::*;
use crate::font::{defined_gasp_ranges, has_table, table_present, read_gasp_ranges, gasp_table_ranges, rebuild_with_gasp_and_prep,
    font_with_gasp_and_prep, parses, parses_as_font, read_table_count, directory_table_count, table_bytes, gasp_table_bytes,
    other_tables_kept};
use crate::status::{is_read_error, is_not_a_font_error, not_a_font, Status, StatusView, StatusCode, CheckError, just_one, just_one_view, status_view, result_of,
    return_result};
use crate::text::{join, join_strs, decimal, push_decimal, hex2, push_hex2};

verus! {

pub const TAG_CFF: u32 = 0x4346_4620;
pub const TAG_CFF2: u32 = 0x4346_4632;
pub const TAG_GASP: u32 = crate::font::TAG_GASP_TABLE;
pub const TAG_FPGM: u32 = 0x6670_676D;
pub const TAG_PREP: u32 = crate::font::TAG_PREP_TABLE;

/// Gasp behavior bits: grid-fitting, grayscale, symmetric grid-fitting and
/// symmetric smoothing.
pub const GASP_GRIDFIT: u16 = 0x0001;
pub const GASP_DOGRAY: u16 = 0x0002;
pub const GASP_SYMMETRIC_GRIDFIT: u16 = 0x0004;
pub const GASP_SYMMETRIC_SMOOTHING: u16 = 0x0008;

/// The range that covers all sizes.
pub const ALL_SIZES: u16 = 0xFFFF;

/// All four behaviors.
pub const ALL_BEHAVIORS: u16 = 0x0F;

/// The advice given for unhinted fonts.
pub open spec fn non_hinting_message() -> Seq<char> {
    "If you are dealing with an unhinted font, it can be fixed by running the fonts through the command 'gftools fix-nonhinting'\nGFTools is available at https://pypi.org/project/gftools/"@
}

fn non_hinting_text() -> (s: &'static str)
    ensures
        s@ == non_hinting_message(),
{
    "If you are dealing with an unhinted font, it can be fixed by running the fonts through the command 'gftools fix-nonhinting'\nGFTools is available at https://pypi.org/project/gftools/"
}

/// The lines that describe a behavior, one per bit set.
pub open spec fn meaning_lines(bits: u16) -> Seq<Seq<char>> {
    (if bits & GASP_GRIDFIT != 0 { seq!["- Use grid-fitting"@] } else { Seq::empty() })
        + (if bits & GASP_DOGRAY != 0 { seq!["- Use grayscale rendering"@] } else { Seq::empty() })
        + (if bits & GASP_SYMMETRIC_GRIDFIT != 0 {
            seq!["- Use gridfitting with ClearType symmetric smoothing"@]
        } else {
            Seq::empty()
        })
        + (if bits & GASP_SYMMETRIC_SMOOTHING != 0 {
            seq!["- Use smoothing along multiple axes with ClearType®"@]
        } else {
            Seq::empty()
        })
}

/// What a gasp behavior means, one line per bit set, joined by a newline and
/// a tab.
pub open spec fn gasp_meaning_text(bits: u16) -> Seq<char> {
    join(meaning_lines(bits), "\n\t"@)
}

/// Describes the behavior bits of a gasp range.
pub fn gasp_meaning(bits: u16) -> (s: String)
    ensures
        s@ == gasp_meaning_text(bits),
{
    let mut lines: Vec<&str> = Vec::new();
    if bits & GASP_GRIDFIT != 0 {
        lines.push("- Use grid-fitting");
    }
    if bits & GASP_DOGRAY != 0 {
        lines.push("- Use grayscale rendering");
    }
    if bits & GASP_SYMMETRIC_GRIDFIT != 0 {
        lines.push("- Use gridfitting with ClearType symmetric smoothing");
    }
    if bits & GASP_SYMMETRIC_SMOOTHING != 0 {
        lines.push("- Use smoothing along multiple axes with ClearType®");
    }
    proof { assert(lines@.map_values(|x: &str| x@) =~= meaning_lines(bits)); }
    join_strs(&lines, "\n\t")
}

/// The text that tabled prints for the rows, in markdown style.
pub uninterp spec fn markdown_table_text(rows: Seq<Seq<Seq<char>>>) -> Seq<char>;

/// Prints rows of cells as a markdown table.
///
/// Trusted: tabled's `Builder::from_iter`, `Builder::build`,
/// `Table::with(Style::markdown())` and the table's `Display`; the result is
/// named by [`markdown_table_text`].
#[verifier::external_body]
fn markdown_table(rows: &Vec<Vec<String>>) -> (s: String)
    ensures
        s@ == markdown_table_text(rows.deep_view()),
{
    let mut table = tabled::builder::Builder::from_iter(rows.iter().map(|r| r.iter().cloned())).build();
    table.with(tabled::settings::Style::markdown()).to_string()
}

/// The table row for one range: its size limit and its meaning.
pub open spec fn range_row(range: (u16, u16)) -> Seq<Seq<char>> {
    seq!["PPM <= "@ + decimal(range.0 as nat), gasp_meaning_text(range.1)]
}

/// The warning for one range, if any: a range short of all sizes may be
/// unnecessary; the all-sizes range should set all four behaviors.
pub open spec fn range_warnings(range: (u16, u16)) -> Seq<StatusView> {
    if range.0 != ALL_SIZES {
        seq![status_view(
            StatusCode::Warn,
            "non-ffff-range"@,
            "The gasp table has a range of "@ + decimal(range.0 as nat) + " that may be unneccessary."@,
        )]
    } else if range.1 != ALL_BEHAVIORS {
        seq![status_view(
            StatusCode::Warn,
            "unset-flags"@,
            "The gasp range 0xFFFF value 0x"@ + hex2(range.1 as nat) + " should be set to 0x0F."@,
        )]
    } else {
        Seq::empty()
    }
}

/// The warnings for all ranges, in order.
pub open spec fn ranges_warnings(ranges: Seq<(u16, u16)>) -> Seq<StatusView>
    decreases ranges.len(),
{
    if ranges.len() == 0 {
        Seq::empty()
    } else {
        ranges_warnings(ranges.drop_last()) + range_warnings(ranges.last())
    }
}

/// Whether some range covers all sizes.
pub open spec fn has_all_sizes_range(ranges: Seq<(u16, u16)>) -> bool {
    exists|i: int| 0 <= i < ranges.len() && ranges[i].0 == ALL_SIZES
}

/// The results of `googlefonts/gasp` for a TrueType font with a gasp table
/// holding `ranges`.
pub open spec fn gasp_ranges_result(ranges: Seq<(u16, u16)>) -> Seq<StatusView> {
    if ranges.len() == 0 {
        just_one_view(StatusCode::Fail, "empty"@, "The 'gasp' table has no values.\n"@ + non_hinting_message())
    } else if !has_all_sizes_range(ranges) {
        just_one_view(
            StatusCode::Warn,
            "lacks-ffff-range"@,
            "The 'gasp' table does not have an entry that applies for all font sizes. The gaspRange value for such entry should be set to 0xFFFF."@,
        )
    } else {
        result_of(
            seq![status_view(
                StatusCode::Info,
                "ranges"@,
                "These are the ppm ranges declared on the gasp table:\n\n"@
                    + markdown_table_text(ranges.map_values(|r: (u16, u16)| range_row(r))) + "\n"@,
            )] + ranges_warnings(ranges),
        )
    }
}

/// The results of `googlefonts/gasp` for the ranges of a gasp table.
pub fn gasp_ranges_check(ranges: &Vec<(u16, u16)>) -> (r: Vec<Status>)
    ensures
        r.deep_view() == gasp_ranges_result(ranges@),
{
    if ranges.len() == 0 {
        let mut m = String::new();
        m.append("The 'gasp' table has no values.\n");
        m.append(non_hinting_text());
        return just_one(StatusCode::Fail, "empty", m);
    }
    let mut i: usize = 0;
    let mut found = false;
    while i < ranges.len()
        invariant
            i <= ranges@.len(),
            found == exists|j: int| 0 <= j < i && ranges@[j].0 == ALL_SIZES,
        decreases ranges.len() - i,
    {
        if ranges[i].0 == ALL_SIZES {
            found = true;
        }
        i = i + 1;
    }
    if !found {
        return just_one(
            StatusCode::Warn,
            "lacks-ffff-range",
            "The 'gasp' table does not have an entry that applies for all font sizes. The gaspRange value for such entry should be set to 0xFFFF.".to_string(),
        );
    }
    let ghost spec_rows = ranges@.map_values(|r: (u16, u16)| range_row(r));
    let mut rows: Vec<Vec<String>> = Vec::new();
    let mut k: usize = 0;
    while k < ranges.len()
        invariant
            spec_rows == ranges@.map_values(|r: (u16, u16)| range_row(r)),
            k <= ranges@.len(),
            rows.deep_view() == spec_rows.take(k as int),
        decreases ranges.len() - k,
    {
        let mut ppm = String::new();
        ppm.append("PPM <= ");
        push_decimal(&mut ppm, ranges[k].0 as u64);
        let meaning = gasp_meaning(ranges[k].1);
        let mut row: Vec<String> = Vec::new();
        row.push(ppm);
        row.push(meaning);
        let ghost before = rows.deep_view();
        proof { assert(row.deep_view() =~= range_row(ranges@[k as int])); }
        rows.push(row);
        proof {
            assert(rows.deep_view() =~= before.push(range_row(ranges@[k as int])));
            assert(spec_rows.take(k + 1) =~= spec_rows.take(k as int).push(range_row(ranges@[k as int])));
        }
        k = k + 1;
    }
    proof { assert(spec_rows.take(ranges@.len() as int) =~= spec_rows); }
    let table = markdown_table(&rows);
    let mut info = String::new();
    info.append("These are the ppm ranges declared on the gasp table:\n\n");
    info.append(table.as_str());
    info.append("\n");
    let mut problems: Vec<Status> = Vec::new();
    problems.push(Status::new(StatusCode::Info, "ranges", info));
    let ghost first = problems.deep_view();
    let mut j: usize = 0;
    proof { assert(problems.deep_view() =~= first + ranges_warnings(ranges@.take(0))); }
    while j < ranges.len()
        invariant
            j <= ranges@.len(),
            problems.deep_view() == first + ranges_warnings(ranges@.take(j as int)),
        decreases ranges.len() - j,
    {
        let ghost before = problems.deep_view();
        let (ppem, bits) = ranges[j];
        if ppem != ALL_SIZES {
            let mut m = String::new();
            m.append("The gasp table has a range of ");
            push_decimal(&mut m, ppem as u64);
            m.append(" that may be unneccessary.");
            problems.push(Status::new(StatusCode::Warn, "non-ffff-range", m));
        } else if bits != ALL_BEHAVIORS {
            let mut m = String::new();
            m.append("The gasp range 0xFFFF value 0x");
            push_hex2(&mut m, bits as u64);
            m.append(" should be set to 0x0F.");
            problems.push(Status::new(StatusCode::Warn, "unset-flags", m));
        }
        proof {
            let t = ranges@.take(j + 1);
            assert(t.drop_last() =~= ranges@.take(j as int));
            assert(t.last() == ranges@[j as int]);
            assert(problems.deep_view() =~= before + range_warnings(ranges@[j as int]));
            assert(problems.deep_view() =~= first + ranges_warnings(t));
        }
        j = j + 1;
    }
    proof { assert(ranges@.take(ranges@.len() as int) =~= ranges@); }
    return_result(problems)
}

/// The check `googlefonts/gasp`: a TrueType font should have a gasp table
/// with a single range for all sizes that turns all four behaviors on.
pub fn gasp(font: &[u8]) -> (r: Result<Vec<Status>, CheckError>)
    ensures
        !parses_as_font(font@) ==> is_not_a_font_error(r),
        parses_as_font(font@) && (table_present(font@, TAG_CFF) || table_present(font@, TAG_CFF2)) ==> r is Ok && r.unwrap().deep_view()
            == just_one_view(StatusCode::Skip, "not-ttf"@, "Skip gasp table test, because CFF font."@),
        parses_as_font(font@) && !(table_present(font@, TAG_CFF) || table_present(font@, TAG_CFF2))
            && !table_present(font@, TAG_GASP) ==> r is Ok && r.unwrap().deep_view() == just_one_view(
            StatusCode::Fail,
            "lacks-gasp"@,
            "Font is missing the 'gasp' table. Try exporting the font with autohinting enabled.\n"@
                + non_hinting_message(),
        ),
        parses_as_font(font@) && !(table_present(font@, TAG_CFF) || table_present(font@, TAG_CFF2))
            && table_present(font@, TAG_GASP) ==> match gasp_table_ranges(font@) {
            Some(ranges) => r is Ok && r.unwrap().deep_view() == gasp_ranges_result(ranges),
            None => is_read_error(r, "gasp"@),
        },
{
    if !parses(font) {
        return Err(not_a_font());
    }
    if has_table(font, TAG_CFF) || has_table(font, TAG_CFF2) {
        return Ok(just_one(StatusCode::Skip, "not-ttf", "Skip gasp table test, because CFF font.".to_string()));
    }
    if !has_table(font, TAG_GASP) {
        let mut m = String::new();
        m.append("Font is missing the 'gasp' table. Try exporting the font with autohinting enabled.\n");
        m.append(non_hinting_text());
        return Ok(just_one(StatusCode::Fail, "lacks-gasp", m));
    }
    match read_gasp_ranges(font) {
        Some(ranges) => Ok(gasp_ranges_check(&ranges)),
        None => Err(CheckError::FontRead("gasp".to_string())),
    }
}

/// The `prep` program written by the hotfix: PUSHW[] 511 SCANCTRL[]
/// PUSHB[] 4 SCANTYPE[].
pub open spec fn hotfix_prep() -> Seq<u8> {
    seq![0xb8u8, 0x01u8, 0xffu8, 0x85u8, 0xb0u8, 0x04u8, 0x8du8]
}

/// The gasp ranges written by the hotfix: one range for all sizes with all
/// four behaviors.
pub open spec fn hotfix_ranges() -> Seq<(u16, u16)> {
    seq![(ALL_SIZES, ALL_BEHAVIORS)]
}

/// Whether a font looks unhinted: it has no `fpgm` and not both `prep` and
/// `gasp`.
pub open spec fn looks_unhinted(font: Seq<u8>) -> bool {
    !(table_present(font, TAG_FPGM) || (table_present(font, TAG_PREP) && table_present(font, TAG_GASP)))
}

/// Whether the font lists so many tables that gasp and prep cannot be
/// added: a rebuilt font holds at most 65535.
pub open spec fn too_many_tables(font: Seq<u8>) -> bool {
    directory_table_count(font) matches Some(n) && n > 0xFFFD
}

/// Whether `r` is the error for a font with too many tables to add gasp
/// and prep.
pub open spec fn is_too_many_tables_error<T>(r: Result<T, CheckError>) -> bool {
    r matches Err(CheckError::General(m)) && m@ == "The font has too many tables to add gasp and prep."@
}

/// The hotfix of `googlefonts/gasp`: gives an unhinted font a gasp table
/// (version 0) with one all-sizes range and all behaviors, and a `prep`
/// program that turns on dropout control, copying every other table.
/// Returns the new binary, or `None` when the font seems hinted and is left
/// alone.
pub fn fix_unhinted_font(font: &[u8]) -> (r: Result<Option<Vec<u8>>, CheckError>)
    ensures
        !parses_as_font(font@) ==> is_not_a_font_error(r),
        parses_as_font(font@) && !looks_unhinted(font@) ==> r matches Ok(None),
        parses_as_font(font@) && looks_unhinted(font@) && too_many_tables(font@) ==> is_too_many_tables_error(r),
        parses_as_font(font@) && looks_unhinted(font@) && !too_many_tables(font@) ==> (r matches Ok(Some(v))
            && Some(v@) == font_with_gasp_and_prep(font@, 0, hotfix_ranges(), hotfix_prep())),
        r matches Ok(Some(v)) ==> parses_as_font(v@) && gasp_table_ranges(v@) == Some(hotfix_ranges())
            && table_bytes(v@, TAG_GASP) == Some(gasp_table_bytes(0, hotfix_ranges()))
            && table_bytes(v@, TAG_PREP) == Some(hotfix_prep())
            && other_tables_kept(font@, v@, set![TAG_GASP, TAG_PREP]),
{
    if !parses(font) {
        return Err(not_a_font());
    }
    if has_table(font, TAG_FPGM) || (has_table(font, TAG_PREP) && has_table(font, TAG_GASP)) {
        return Ok(None);
    }
    match read_table_count(font) {
        Some(n) => {
            if n > 0xFFFD {
                return Err(CheckError::General("The font has too many tables to add gasp and prep.".to_string()));
            }
        },
        None => {},
    }
    let mut ranges: Vec<(u16, u16)> = Vec::new();
    ranges.push((ALL_SIZES, ALL_BEHAVIORS));
    let prep: Vec<u8> = vec![0xb8u8, 0x01u8, 0xffu8, 0x85u8, 0xb0u8, 0x04u8, 0x8du8];
    proof {
        assert(ranges@ =~= hotfix_ranges());
        assert(prep@ =~= hotfix_prep());
    }
    match rebuild_with_gasp_and_prep(font, 0, &ranges, prep.as_slice()) {
        Some(b) => {
            proof {
                assert(0x0Fu16 & 0x000Fu16 == 0x0Fu16) by (bit_vector);
                assert(defined_gasp_ranges(hotfix_ranges()) =~= hotfix_ranges());
            }
            Ok(Some(b))
        },
        None => Err(not_a_font()),
    }
}

} // verus!
