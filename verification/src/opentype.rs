//! OpenType checks: fsSelection against the style and macStyle, the
//! maximum advance width, and unique bold/italic bits within a family.
use vstd::prelude::*;
use crate::font::{FontFile, os2_fields_but_selection, head_fields_but_flags, head_flags, parses, parses_as_font, os2_fs_type, os2_vendor_tag, other_tables_kept, TAG_OS2, read_fs_selection, os2_fs_selection, read_mac_style, head_mac_style, read_advance_width_max, hhea_advance_width_max, read_hmtx_advances, hmtx_advances, rebuild_with_fs_selection, font_with_fs_selection};
use crate::status::{is_read_error, is_not_a_font_error, not_a_font, Status, StatusView, StatusCode, CheckError, just_one, just_one_pass, just_one_view, just_pass,
    status_view, result_of, return_result};
use crate::style::{font_style, style, contains_text, contains_chars};
use crate::text::{decimal, push_decimal, to_chars, str_equal};

verus! {

/// fsSelection bits.
pub const FS_ITALIC: u16 = 0x0001;
pub const FS_BOLD: u16 = 0x0020;
pub const FS_REGULAR: u16 = 0x0040;
pub const FS_USE_TYPO_METRICS: u16 = 0x0080;

/// macStyle bits.
pub const MAC_BOLD: u16 = 0x0001;
pub const MAC_ITALIC: u16 = 0x0002;

/// How a boolean prints.
pub open spec fn bool_text(b: bool) -> Seq<char> {
    if b { "true"@ } else { "false"@ }
}

fn bool_str(b: bool) -> (s: &'static str)
    ensures
        s@ == bool_text(b),
{
    if b { "true" } else { "false" }
}

/// A style is bold when it is `Bold` or `BoldItalic`.
pub open spec fn bold_expected(style: Seq<char>) -> bool {
    style == "Bold"@ || style == "BoldItalic"@
}

/// A style is italic when it contains `Italic`.
pub open spec fn italic_expected(style: Seq<char>) -> bool {
    contains_text(style, "Italic"@)
}

/// A style is regular when it is neither bold nor italic.
pub open spec fn regular_expected(style: Seq<char>) -> bool {
    !bold_expected(style) && !italic_expected(style)
}

/// The failure for one fsSelection bit that disagrees with the style.
pub open spec fn style_flag_problem(flag: bool, expected: bool, upper: Seq<char>, label: Seq<char>, style: Seq<char>) -> Seq<StatusView> {
    if flag != expected {
        seq![status_view(
            StatusCode::Fail,
            "bad-"@ + upper,
            "fsSelection "@ + label + " flag "@ + bool_text(flag) + " does not match font style "@ + style,
        )]
    } else {
        Seq::empty()
    }
}

/// The failure for one fsSelection bit that disagrees with macStyle.
pub open spec fn mac_flag_problem(flag: bool, expected: bool, lower: Seq<char>, label: Seq<char>) -> Seq<StatusView> {
    if flag != expected {
        seq![status_view(
            StatusCode::Fail,
            "fsselection-macstyle-"@ + lower,
            "fsSelection "@ + label + " flag "@ + bool_text(flag) + " does not match macStyle "@ + bool_text(expected)
                + " flag"@,
        )]
    } else {
        Seq::empty()
    }
}

/// The problems of `opentype/fsselection` for a style, fsSelection and macStyle.
pub open spec fn fsselection_problems(style: Seq<char>, fs: u16, mac: u16) -> Seq<StatusView> {
    let bold_seen = fs & FS_BOLD != 0;
    let italic_seen = fs & FS_ITALIC != 0;
    let regular_seen = fs & FS_REGULAR != 0;
    style_flag_problem(bold_seen, bold_expected(style), "BOLD"@, "Bold"@, style)
        + style_flag_problem(italic_seen, italic_expected(style), "ITALIC"@, "Italic"@, style)
        + style_flag_problem(regular_seen, regular_expected(style), "REGULAR"@, "Regular"@, style)
        + mac_flag_problem(bold_seen, mac & MAC_BOLD != 0, "bold"@, "Bold"@)
        + mac_flag_problem(italic_seen, mac & MAC_ITALIC != 0, "italic"@, "Italic"@)
}

/// Whether a style is bold, italic and regular.
fn expectations(style: &str) -> (r: (bool, bool, bool))
    ensures
        r == (bold_expected(style@), italic_expected(style@), regular_expected(style@)),
{
    let bold = str_equal(style, "Bold") || str_equal(style, "BoldItalic");
    let chars = to_chars(style);
    let it = to_chars("Italic");
    let italic = contains_chars(&chars, &it);
    (bold, italic, !bold && !italic)
}

fn push_style_problem(problems: &mut Vec<Status>, flag: bool, expected: bool, upper: &str, label: &str, style: &str)
    ensures
        final(problems).deep_view() == old(problems).deep_view() + style_flag_problem(flag, expected, upper@, label@, style@),
{
    if flag != expected {
        let mut code = String::new();
        code.append("bad-");
        code.append(upper);
        let mut m = String::new();
        m.append("fsSelection ");
        m.append(label);
        m.append(" flag ");
        m.append(bool_str(flag));
        m.append(" does not match font style ");
        m.append(style);
        let st = Status { severity: StatusCode::Fail, code: Some(code), message: Some(m) };
        let ghost before = problems.deep_view();
        problems.push(st);
        proof { assert(problems.deep_view() =~= before + style_flag_problem(flag, expected, upper@, label@, style@)); }
    } else {
        proof { assert(problems.deep_view() =~= old(problems).deep_view() + Seq::<StatusView>::empty()); }
    }
}

fn push_mac_problem(problems: &mut Vec<Status>, flag: bool, expected: bool, lower: &str, label: &str)
    ensures
        final(problems).deep_view() == old(problems).deep_view() + mac_flag_problem(flag, expected, lower@, label@),
{
    if flag != expected {
        let mut code = String::new();
        code.append("fsselection-macstyle-");
        code.append(lower);
        let mut m = String::new();
        m.append("fsSelection ");
        m.append(label);
        m.append(" flag ");
        m.append(bool_str(flag));
        m.append(" does not match macStyle ");
        m.append(bool_str(expected));
        m.append(" flag");
        let st = Status { severity: StatusCode::Fail, code: Some(code), message: Some(m) };
        let ghost before = problems.deep_view();
        problems.push(st);
        proof { assert(problems.deep_view() =~= before + mac_flag_problem(flag, expected, lower@, label@)); }
    } else {
        proof { assert(problems.deep_view() =~= old(problems).deep_view() + Seq::<StatusView>::empty()); }
    }
}

/// The problems of `opentype/fsselection` for given values.
pub fn fsselection_check(style: &str, fs: u16, mac: u16) -> (r: Vec<Status>)
    ensures
        r.deep_view() == fsselection_problems(style@, fs, mac),
{
    let (bold_exp, italic_exp, regular_exp) = expectations(style);
    let bold_seen = fs & FS_BOLD != 0;
    let italic_seen = fs & FS_ITALIC != 0;
    let regular_seen = fs & FS_REGULAR != 0;
    let mut problems: Vec<Status> = Vec::new();
    push_style_problem(&mut problems, bold_seen, bold_exp, "BOLD", "Bold", style);
    push_style_problem(&mut problems, italic_seen, italic_exp, "ITALIC", "Italic", style);
    push_style_problem(&mut problems, regular_seen, regular_exp, "REGULAR", "Regular", style);
    push_mac_problem(&mut problems, bold_seen, mac & MAC_BOLD != 0, "bold", "Bold");
    push_mac_problem(&mut problems, italic_seen, mac & MAC_ITALIC != 0, "italic", "Italic");
    proof { assert(problems.deep_view() =~= fsselection_problems(style@, fs, mac)); }
    problems
}

/// Whether `r` is the skip raised when no style can be found.
pub open spec fn is_no_style_skip<T>(r: Result<T, CheckError>) -> bool {
    r matches Err(CheckError::Skip { code, message }) && code@ == "no-style"@ && message@ == "No style detected"@
}

/// The check `opentype/fsselection`: the bold, italic and regular bits of
/// OS/2.fsSelection must match the style of the file, and the bold and
/// italic bits must match head.macStyle.
pub fn fsselection(file: &FontFile) -> (r: Result<Vec<Status>, CheckError>)
    ensures
        !parses_as_font(file.contents@) ==> is_not_a_font_error(r),
        parses_as_font(file.contents@) ==> match os2_fs_selection(file.contents@) {
            None => is_read_error(r, "OS/2"@),
            Some(fs) => match font_style(file.filename@) {
                None => is_no_style_skip(r),
                Some(st) => match head_mac_style(file.contents@) {
                    None => is_read_error(r, "head"@),
                    Some(mac) => r is Ok && r.unwrap().deep_view() == result_of(fsselection_problems(st, fs, mac)),
                },
            },
        },
{
    if !parses(file.contents.as_slice()) {
        return Err(not_a_font());
    }
    let fs = match read_fs_selection(file.contents.as_slice()) {
        Some(v) => v,
        None => return Err(CheckError::FontRead("OS/2".to_string())),
    };
    let st = match style(file.filename.as_str()) {
        Some(s) => s,
        None => return Err(CheckError::Skip { code: "no-style".to_string(), message: "No style detected".to_string() }),
    };
    let mac = match read_mac_style(file.contents.as_slice()) {
        Some(v) => v,
        None => return Err(CheckError::FontRead("head".to_string())),
    };
    Ok(return_result(fsselection_check(st.as_str(), fs, mac)))
}

/// The fsSelection bits the hotfix writes: USE_TYPO_METRICS kept, all other
/// bits cleared, and the bold, italic or regular bit set as the style asks.
pub open spec fn fixed_fs_selection(style: Seq<char>, fs: u16) -> u16 {
    (fs & FS_USE_TYPO_METRICS) | (if bold_expected(style) { FS_BOLD } else { 0 })
        | (if italic_expected(style) { FS_ITALIC } else { 0 }) | (if regular_expected(style) { FS_REGULAR } else { 0 })
}

proof fn lemma_fixed_bits_defined(fs: u16, b: u16, i: u16, r: u16)
    by (bit_vector)
    requires
        b == 0 || b == 0x20,
        i == 0 || i == 1,
        r == 0 || r == 0x40,
    ensures
        ((fs & 0x80) | b | i | r) & 0x03FF == (fs & 0x80) | b | i | r,
{
}

/// The hotfix of `opentype/fsselection`: sets the style bits of fsSelection
/// from the file's style, keeping every other OS/2 field and every other
/// table.
/// Returns the new binary, or `None` when no style can be found.
pub fn fix_fsselection(file: &FontFile) -> (r: Result<Option<Vec<u8>>, CheckError>)
    ensures
        !parses_as_font(file.contents@) ==> is_not_a_font_error(r),
        parses_as_font(file.contents@) ==> match font_style(file.filename@) {
            None => r matches Ok(None),
            Some(st) => match os2_fs_selection(file.contents@) {
                None => is_read_error(r, "OS/2"@),
                Some(fs) => r matches Ok(Some(v))
                    && Some(v@) == font_with_fs_selection(file.contents@, fixed_fs_selection(st, fs)),
            },
        },
        r matches Ok(Some(v)) ==> (font_style(file.filename@) matches Some(st)
            && os2_fs_selection(file.contents@) matches Some(fs)
            && os2_fs_selection(v@) == Some(fixed_fs_selection(st, fs))
            && parses_as_font(v@)
            && os2_fields_but_selection(v@) == os2_fields_but_selection(file.contents@)
            && os2_fs_type(v@) == os2_fs_type(file.contents@)
            && os2_vendor_tag(v@) == os2_vendor_tag(file.contents@)
            && head_mac_style(v@) == head_mac_style(file.contents@)
            && head_fields_but_flags(v@) == head_fields_but_flags(file.contents@)
            && head_flags(v@) == head_flags(file.contents@)
            && other_tables_kept(file.contents@, v@, set![TAG_OS2])),
{
    if !parses(file.contents.as_slice()) {
        return Err(not_a_font());
    }
    let st = match style(file.filename.as_str()) {
        Some(s) => s,
        None => return Ok(None),
    };
    let fs = match read_fs_selection(file.contents.as_slice()) {
        Some(v) => v,
        None => return Err(CheckError::FontRead("OS/2".to_string())),
    };
    let (bold, italic, regular) = expectations(st.as_str());
    let b: u16 = if bold { FS_BOLD } else { 0 };
    let i: u16 = if italic { FS_ITALIC } else { 0 };
    let g: u16 = if regular { FS_REGULAR } else { 0 };
    let bits: u16 = (fs & FS_USE_TYPO_METRICS) | b | i | g;
    proof { lemma_fixed_bits_defined(fs, b, i, g); }
    match rebuild_with_fs_selection(file.contents.as_slice(), bits) {
        Some(b) => Ok(Some(b)),
        None => Err(CheckError::FontRead("OS/2".to_string())),
    }
}

/// The largest of the values, zero for none.
pub open spec fn seq_max(s: Seq<u16>) -> u16
    decreases s.len(),
{
    if s.len() == 0 {
        0
    } else {
        let m = seq_max(s.drop_last());
        if s.last() > m { s.last() } else { m }
    }
}

/// The results of `opentype/maxadvancewidth` for the two maxima.
pub open spec fn maxadvancewidth_result(hhea_max: u16, hmtx_max: u16) -> Seq<StatusView> {
    if hmtx_max != hhea_max {
        just_one_view(
            StatusCode::Fail,
            "mismatch"@,
            "AdvanceWidthMax mismatch: expected "@ + decimal(hmtx_max as nat) + " from hmtx; got "@
                + decimal(hhea_max as nat) + " for hhea"@,
        )
    } else {
        just_pass()
    }
}

/// The check `opentype/maxadvancewidth`: hhea.advanceWidthMax must be the
/// largest advance in hmtx.
pub fn maxadvancewidth(font: &[u8]) -> (r: Result<Vec<Status>, CheckError>)
    ensures
        !parses_as_font(font@) ==> is_not_a_font_error(r),
        parses_as_font(font@) ==> match (hhea_advance_width_max(font@), hmtx_advances(font@)) {
            (Some(h), Some(a)) => r is Ok && r.unwrap().deep_view() == maxadvancewidth_result(h, seq_max(a)),
            (None, _) => is_read_error(r, "hhea"@),
            (Some(_), None) => is_read_error(r, "hmtx"@),
        },
{
    if !parses(font) {
        return Err(not_a_font());
    }
    let hhea_max = match read_advance_width_max(font) {
        Some(v) => v,
        None => return Err(CheckError::FontRead("hhea".to_string())),
    };
    let advances = match read_hmtx_advances(font) {
        Some(v) => v,
        None => return Err(CheckError::FontRead("hmtx".to_string())),
    };
    let mut m: u16 = 0;
    let mut i: usize = 0;
    while i < advances.len()
        invariant
            i <= advances@.len(),
            m == seq_max(advances@.take(i as int)),
        decreases advances.len() - i,
    {
        proof { assert(advances@.take(i + 1).drop_last() =~= advances@.take(i as int)); }
        if advances[i] > m {
            m = advances[i];
        }
        i = i + 1;
    }
    proof { assert(advances@.take(advances@.len() as int) =~= advances@); }
    if m != hhea_max {
        let mut msg = String::new();
        msg.append("AdvanceWidthMax mismatch: expected ");
        push_decimal(&mut msg, m as u64);
        msg.append(" from hmtx; got ");
        push_decimal(&mut msg, hhea_max as u64);
        msg.append(" for hhea");
        Ok(just_one(StatusCode::Fail, "mismatch", msg))
    } else {
        Ok(just_one_pass())
    }
}

} // verus!
