//! Fontwerk's own checks: the embedding bit, the soft hyphen and the
//! vendor ID.
use vstd::prelude::*;
use crate::font::{read_fs_type, os2_fs_type, read_codepoints, cmap_codepoints, read_vendor_tag, os2_vendor_tag, parses, parses_as_font};
use crate::status::{is_read_error, is_not_a_font_error, not_a_font, Status, StatusCode, CheckError, just_one, just_one_pass, just_one_view, just_pass, StatusView};
use crate::text::{decimal, push_decimal, push_char, push_hex2, hex2, str_equal};

verus! {

/// The fsType required by Fontwerk: Print & Preview (bit 2, value 4).
pub const PRINT_AND_PREVIEW: u16 = 4;

/// The results of `fontwerk/embedding_bit` for an fsType value.
pub open spec fn fstype_result(fs_type: u16) -> Seq<StatusView> {
    if fs_type == PRINT_AND_PREVIEW {
        just_pass()
    } else {
        just_one_view(
            StatusCode::Fail,
            "fstype"@,
            "OS/2 fsType must be set to Print & Preview (Bit 4), found "@ + decimal(fs_type as nat) + " instead."@,
        )
    }
}

/// The check `fontwerk/embedding_bit`: OS/2.fsType must be 4.
pub fn fstype(font: &[u8]) -> (r: Result<Vec<Status>, CheckError>)
    ensures
        !parses_as_font(font@) ==> is_not_a_font_error(r),
        parses_as_font(font@) ==> match os2_fs_type(font@) {
            Some(v) => r is Ok && r.unwrap().deep_view() == fstype_result(v),
            None => is_read_error(r, "OS/2"@),
        },
{
    if !parses(font) {
        return Err(not_a_font());
    }
    let v = match read_fs_type(font) {
        Some(v) => v,
        None => return Err(CheckError::FontRead("OS/2".to_string())),
    };
    if v == PRINT_AND_PREVIEW {
        Ok(just_one_pass())
    } else {
        let mut m = String::new();
        m.append("OS/2 fsType must be set to Print & Preview (Bit 4), found ");
        push_decimal(&mut m, v as u64);
        m.append(" instead.");
        Ok(just_one(StatusCode::Fail, "fstype", m))
    }
}

/// The soft hyphen, U+00AD.
pub const SOFT_HYPHEN: u32 = 0x00AD;

/// The results of `fontwerk/soft_hyphen` for the mapped codepoints.
pub open spec fn soft_hyphen_result(codepoints: Seq<u32>) -> Seq<StatusView> {
    if codepoints.contains(SOFT_HYPHEN) {
        just_one_view(StatusCode::Fail, "softhyphen"@, "This font has a 'Soft Hyphen' character. Please remove it."@)
    } else {
        just_pass()
    }
}

/// The check `fontwerk/soft_hyphen`: the font must not map U+00AD.
pub fn soft_hyphen(font: &[u8]) -> (r: Result<Vec<Status>, CheckError>)
    ensures
        !parses_as_font(font@) ==> is_not_a_font_error(r),
        parses_as_font(font@) ==> (cmap_codepoints(font@) matches Some(cps)
            && r is Ok && r.unwrap().deep_view() == soft_hyphen_result(cps)),
{
    if !parses(font) {
        return Err(not_a_font());
    }
    let cps = match read_codepoints(font) {
        Some(c) => c,
        None => return Err(not_a_font()),
    };
    let mut i: usize = 0;
    while i < cps.len()
        invariant
            cmap_codepoints(font@) == Some(cps@),
            parses_as_font(font@),
            i <= cps@.len(),
            forall|j: int| 0 <= j < i ==> cps@[j] != SOFT_HYPHEN,
        decreases cps.len() - i,
    {
        if cps[i] == SOFT_HYPHEN {
            proof { assert(cps@.contains(SOFT_HYPHEN)); }
            return Ok(just_one(
                StatusCode::Fail,
                "softhyphen",
                "This font has a 'Soft Hyphen' character. Please remove it.".to_string(),
            ));
        }
        i = i + 1;
    }
    Ok(just_one_pass())
}

/// How a tag byte prints: itself when printable ASCII, `{0xNN}` otherwise.
pub open spec fn tag_byte_text(b: u8) -> Seq<char> {
    if 0x20 <= b <= 0x7E {
        seq![b as char]
    } else {
        "{0x"@ + hex2(b as nat) + "}"@
    }
}

/// How a four-byte tag prints, first byte first.
pub open spec fn tag_text(tag: u32) -> Seq<char> {
    tag_byte_text((tag / 0x100_0000) as u8) + tag_byte_text(((tag / 0x1_0000) % 0x100) as u8)
        + tag_byte_text(((tag / 0x100) % 0x100) as u8) + tag_byte_text((tag % 0x100) as u8)
}

fn push_tag_byte(s: &mut String, b: u8)
    ensures
        final(s)@ == old(s)@ + tag_byte_text(b),
{
    if 0x20 <= b && b <= 0x7E {
        push_char(s, b as char);
        proof { assert(s@ =~= old(s)@ + tag_byte_text(b)); }
    } else {
        s.append("{0x");
        push_hex2(s, b as u64);
        s.append("}");
        proof { assert(s@ =~= old(s)@ + tag_byte_text(b)); }
    }
}

/// The printed form of a tag.
pub fn tag_to_string(tag: u32) -> (s: String)
    ensures
        s@ == tag_text(tag),
{
    let mut s = String::new();
    push_tag_byte(&mut s, (tag / 0x100_0000) as u8);
    push_tag_byte(&mut s, ((tag / 0x1_0000) % 0x100) as u8);
    push_tag_byte(&mut s, ((tag / 0x100) % 0x100) as u8);
    push_tag_byte(&mut s, (tag % 0x100) as u8);
    proof { assert(s@ =~= tag_text(tag)); }
    s
}

/// The vendor ID required of Fontwerk fonts.
pub open spec fn fontwerk_vendor() -> Seq<char> {
    "WERK"@
}

/// The results of `fontwerk/vendor_id` for a printed vendor ID.
pub open spec fn vendor_id_result(id: Seq<char>) -> Seq<StatusView> {
    if id == fontwerk_vendor() {
        just_pass()
    } else {
        just_one_view(
            StatusCode::Fail,
            "bad-vendor-id"@,
            "OS/2 achVendID value is '"@ + id + "', but should be 'WERK'."@,
        )
    }
}

/// The check `fontwerk/vendor_id`: OS/2.achVendID must be `WERK`.
pub fn vendor_id(font: &[u8]) -> (r: Result<Vec<Status>, CheckError>)
    ensures
        !parses_as_font(font@) ==> is_not_a_font_error(r),
        parses_as_font(font@) ==> match os2_vendor_tag(font@) {
            Some(t) => r is Ok && r.unwrap().deep_view() == vendor_id_result(tag_text(t)),
            None => is_read_error(r, "OS/2"@),
        },
{
    if !parses(font) {
        return Err(not_a_font());
    }
    let tag = match read_vendor_tag(font) {
        Some(t) => t,
        None => return Err(CheckError::FontRead("OS/2".to_string())),
    };
    let id = tag_to_string(tag);
    if str_equal(id.as_str(), "WERK") {
        Ok(just_one_pass())
    } else {
        let mut m = String::new();
        m.append("OS/2 achVendID value is '");
        m.append(id.as_str());
        m.append("', but should be 'WERK'.");
        Ok(just_one(StatusCode::Fail, "bad-vendor-id", m))
    }
}

} // verus!
