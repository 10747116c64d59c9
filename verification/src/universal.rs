//! Universal checks: integer PPEM on hinted fonts, and the decisions around
//! the family-name lookup at namecheck.fontdata.com.
use vstd::prelude::*;
use crate::font::{HEAD_FLAGS_DEFINED, has_table, table_present, read_head_flags, head_flags, rebuild_with_head_flags,
    font_with_head_flags, head_fields_but_flags, read_family_name, english_or_first_family_name, parses, parses_as_font, head_mac_style,
    other_tables_kept, TAG_HEAD, table_bytes};
use crate::gasp::TAG_FPGM;
use crate::status::{is_read_error, is_not_a_font_error, not_a_font, Status, StatusView, StatusCode, CheckError, just_one, just_one_pass, just_one_view, just_pass};

verus! {

/// Bit 3 of head.flags: force PPEM to integer values.
pub const FORCE_INTEGER_PPEM: u16 = 0b1000;

/// The results of `integer_ppem_if_hinted` for a hinted font's head.flags.
pub open spec fn integer_ppem_result(flags: u16) -> Seq<StatusView> {
    if flags & FORCE_INTEGER_PPEM == 0 {
        just_one_view(
            StatusCode::Fail,
            "bad-flags"@,
            "This is a hinted font, so it must have bit 3 set on the flags of the head table, so that PPEM values will be rounded into an integer value."@,
        )
    } else {
        just_pass()
    }
}

/// The check `integer_ppem_if_hinted`: a hinted font (one with `fpgm`) must
/// set bit 3 of head.flags.
pub fn integer_ppem_if_hinted(font: &[u8]) -> (r: Result<Vec<Status>, CheckError>)
    ensures
        !parses_as_font(font@) ==> is_not_a_font_error(r),
        parses_as_font(font@) && !table_present(font@, TAG_FPGM) ==> r is Ok && r.unwrap().deep_view() == just_one_view(
            StatusCode::Skip,
            "no-hints"@,
            "Font does not have fpgm table."@,
        ),
        parses_as_font(font@) && table_present(font@, TAG_FPGM) ==> match head_flags(font@) {
            Some(f) => r is Ok && r.unwrap().deep_view() == integer_ppem_result(f),
            None => is_read_error(r, "head"@),
        },
{
    if !parses(font) {
        return Err(not_a_font());
    }
    if !has_table(font, TAG_FPGM) {
        return Ok(just_one(StatusCode::Skip, "no-hints", "Font does not have fpgm table.".to_string()));
    }
    let flags = match read_head_flags(font) {
        Some(f) => f,
        None => return Err(CheckError::FontRead("head".to_string())),
    };
    if flags & FORCE_INTEGER_PPEM == 0 {
        Ok(just_one(
            StatusCode::Fail,
            "bad-flags",
            "This is a hinted font, so it must have bit 3 set on the flags of the head table, so that PPEM values will be rounded into an integer value.".to_string(),
        ))
    } else {
        Ok(just_one_pass())
    }
}

/// The hotfix of `integer_ppem_if_hinted`: sets bit 3 of head.flags,
/// keeping the other flags, the other head fields and every other table.
/// The fixed font parses, keeps its hinting (`fpgm`) and its head.flags
/// pass the check.
pub fn fix_integer_ppem_if_hinted(font: &[u8]) -> (r: Result<Vec<u8>, CheckError>)
    ensures
        !parses_as_font(font@) ==> is_not_a_font_error(r),
        parses_as_font(font@) ==> match head_flags(font@) {
            Some(f) => r matches Ok(v) && Some(v@) == font_with_head_flags(font@, f | FORCE_INTEGER_PPEM)
                && head_flags(v@) == Some(f | FORCE_INTEGER_PPEM),
            None => is_read_error(r, "head"@),
        },
        r matches Ok(v) ==> parses_as_font(v@)
            && head_fields_but_flags(v@) == head_fields_but_flags(font@)
            && head_mac_style(v@) == head_mac_style(font@)
            && other_tables_kept(font@, v@, set![TAG_HEAD])
            && table_present(v@, TAG_FPGM) == table_present(font@, TAG_FPGM)
            && (head_flags(v@) matches Some(f) && integer_ppem_result(f) == just_pass()),
{
    if !parses(font) {
        return Err(not_a_font());
    }
    let flags = match read_head_flags(font) {
        Some(f) => f,
        None => return Err(CheckError::FontRead("head".to_string())),
    };
    let fixed = flags | FORCE_INTEGER_PPEM;
    assert(fixed & HEAD_FLAGS_DEFINED == fixed) by (bit_vector)
        requires
            flags & 0x781F == flags,
            fixed == flags | 8u16,
            HEAD_FLAGS_DEFINED == 0x781F,
    ;
    match rebuild_with_head_flags(font, fixed) {
        Some(b) => {
            proof {
                assert(fixed & 8u16 != 0) by (bit_vector)
                    requires
                        fixed == flags | 8u16,
                ;
                assert(table_bytes(b@, TAG_FPGM) == table_bytes(font@, TAG_FPGM));
            }
            Ok(b)
        },
        None => Err(CheckError::FontRead("head".to_string())),
    }
}

/// The page that explains name collisions.
pub open spec fn namecheck_url() -> Seq<char> {
    "http://namecheck.fontdata.com/"@
}

/// What `fontdata_namecheck` does next: finish with these results, or
/// look up this family name.
pub enum NamecheckStep {
    Done(Vec<Status>),
    Lookup(String),
}

/// The first part of `fontdata_namecheck`: skipped when network checks are
/// off; otherwise the family name to look up, English if there is one. A
/// font without a family name is an error.
pub fn fontdata_namecheck_start(font: &[u8], skip_network: bool) -> (r: Result<NamecheckStep, CheckError>)
    ensures
        !parses_as_font(font@) ==> is_not_a_font_error(r),
        parses_as_font(font@) && skip_network ==> (r matches Ok(NamecheckStep::Done(v)) && v.deep_view() == just_one_view(
            StatusCode::Skip,
            "network-check"@,
            "Skipping network check"@,
        )),
        parses_as_font(font@) && !skip_network ==> match english_or_first_family_name(font@) {
            Some(n) => (r matches Ok(NamecheckStep::Lookup(name)) && name@ == n),
            None => (r matches Err(CheckError::General(m)) && m@ == "Family name not found"@),
        },
{
    if !parses(font) {
        return Err(not_a_font());
    }
    if skip_network {
        return Ok(NamecheckStep::Done(just_one(StatusCode::Skip, "network-check", "Skipping network check".to_string())));
    }
    match read_family_name(font) {
        Some(n) => Ok(NamecheckStep::Lookup(n)),
        None => Err(CheckError::General("Family name not found".to_string())),
    }
}

/// The results of `fontdata_namecheck` once the lookup has said whether the
/// name seems to be in use.
pub open spec fn namecheck_result(name: Seq<char>, in_use: bool) -> Seq<StatusView> {
    if in_use {
        just_one_view(
            StatusCode::Info,
            "name-collision"@,
            "The family name \""@ + name + "\" seems to be already in use.\nPlease visit "@ + namecheck_url()
                + " for more info."@,
        )
    } else {
        just_pass()
    }
}

/// The last part of `fontdata_namecheck`: a note when the family name seems
/// to be in use, a pass otherwise.
pub fn fontdata_namecheck_finish(name: &str, in_use: bool) -> (r: Vec<Status>)
    ensures
        r.deep_view() == namecheck_result(name@, in_use),
{
    if in_use {
        let mut m = String::new();
        m.append("The family name \"");
        m.append(name);
        m.append("\" seems to be already in use.\nPlease visit ");
        m.append("http://namecheck.fontdata.com/");
        m.append(" for more info.");
        just_one(StatusCode::Info, "name-collision", m)
    } else {
        just_one_pass()
    }
}

} // verus!
