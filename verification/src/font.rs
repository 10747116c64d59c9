//! What the checks read from a font binary, and the rebuilt binaries that
//! the hotfixes write. Parsing and writing OpenType is done by fontations;
//! each item here makes one such call and names its result.
use vstd::prelude::*;
use fontations::read::{FontRef, TableProvider};
use fontations::read::tables::gasp::GaspRangeBehavior;
use fontations::read::tables::os2::SelectionFlags;
use fontations::skrifa::MetadataProvider;
use fontations::types::{NameId, Tag};
use fontations::write::from_obj::ToOwnedTable;
use fontations::write::FontBuilder;
use crate::text::decimal;

verus! {

/// One record of the `name` table. `string` is `None` where the record's
/// string cannot be read from the table's string storage.
#[derive(Clone, Debug)]
pub struct NameEntry {
    pub platform_id: u16,
    pub encoding_id: u16,
    pub language_id: u16,
    pub name_id: u16,
    pub string: Option<String>,
}

/// The mathematical content of a [`NameEntry`].
pub struct NameEntryView {
    pub platform_id: u16,
    pub encoding_id: u16,
    pub language_id: u16,
    pub name_id: u16,
    pub string: Option<Seq<char>>,
}

impl DeepView for NameEntry {
    type V = NameEntryView;

    open spec fn deep_view(&self) -> NameEntryView {
        NameEntryView {
            platform_id: self.platform_id,
            encoding_id: self.encoding_id,
            language_id: self.language_id,
            name_id: self.name_id,
            string: match self.string {
                Some(s) => Some(s@),
                None => None,
            },
        }
    }
}

/// Table tags, as big-endian 32-bit values.
pub const TAG_HEAD: u32 = 0x6865_6164;
pub const TAG_OS2: u32 = 0x4F53_2F32;
pub const TAG_GASP_TABLE: u32 = 0x6761_7370;
pub const TAG_PREP_TABLE: u32 = 0x7072_6570;

/// The flag bits that head.flags defines.
pub const HEAD_FLAGS_DEFINED: u16 = 0x781F;

/// The flag bits that OS/2.fsSelection defines.
pub const FS_SELECTION_DEFINED: u16 = 0x03FF;

/// The behavior bits that a gasp range defines.
pub const GASP_BEHAVIOR_DEFINED: u16 = 0x000F;

/// Gasp ranges as they read back: behavior bits outside the defined ones
/// dropped.
pub open spec fn defined_gasp_ranges(ranges: Seq<(u16, u16)>) -> Seq<(u16, u16)> {
    ranges.map_values(|r: (u16, u16)| (r.0, r.1 & GASP_BEHAVIOR_DEFINED))
}

/// A file handed to the checks: its path as given and its contents.
#[derive(Clone, Debug)]
pub struct FontFile {
    pub filename: String,
    pub contents: Vec<u8>,
}

/// The mathematical content of a [`FontFile`].
pub struct FontFileView {
    pub filename: Seq<char>,
    pub contents: Seq<u8>,
}

impl DeepView for FontFile {
    type V = FontFileView;

    open spec fn deep_view(&self) -> FontFileView {
        FontFileView { filename: self.filename@, contents: self.contents@ }
    }
}

/// The byte sequence held by an optional vector.
pub open spec fn opt_bytes(v: Option<Vec<u8>>) -> Option<Seq<u8>> {
    match v {
        Some(b) => Some(b@),
        None => None,
    }
}

/// Whether the bytes parse as a single font.
pub uninterp spec fn parses_as_font(font: Seq<u8>) -> bool;

/// The bytes of the table `tag`, as `FontRef::table_data` finds them
/// through the table directory: `None` when the font cannot be parsed, the
/// directory does not list the tag, or the record points outside the data.
pub uninterp spec fn table_bytes(font: Seq<u8>, tag: u32) -> Option<Seq<u8>>;

/// Whether the font has readable data for the table `tag`.
pub open spec fn table_present(font: Seq<u8>, tag: u32) -> bool {
    table_bytes(font, tag) is Some
}

/// The number of records in the font's table directory, when the font can
/// be parsed.
pub uninterp spec fn directory_table_count(font: Seq<u8>) -> Option<u16>;

/// A 16-bit value as two big-endian bytes.
pub open spec fn be16(x: u16) -> Seq<u8> {
    seq![(x / 0x100) as u8, (x % 0x100) as u8]
}

/// The gasp ranges, each as its maximum ppem and its behavior bits, as
/// big-endian 16-bit values.
pub open spec fn gasp_range_bytes(ranges: Seq<(u16, u16)>) -> Seq<u8>
    decreases ranges.len(),
{
    if ranges.len() == 0 {
        Seq::empty()
    } else {
        gasp_range_bytes(ranges.drop_last()) + be16(ranges.last().0) + be16(ranges.last().1)
    }
}

/// A gasp table: its version, the number of ranges and the ranges, the
/// behavior bits that gasp does not define dropped.
pub open spec fn gasp_table_bytes(version: u16, ranges: Seq<(u16, u16)>) -> Seq<u8> {
    be16(version) + be16(ranges.len() as u16) + gasp_range_bytes(defined_gasp_ranges(ranges))
}

/// Whether two readings of a `head` table agree but for the
/// checksumAdjustment (bytes 8 to 11), which a rebuilt font recomputes.
pub open spec fn same_but_checksum(a: Option<Seq<u8>>, b: Option<Seq<u8>>) -> bool {
    match (a, b) {
        (None, None) => true,
        (Some(x), Some(y)) => x.len() == y.len()
            && forall|i: int| 0 <= i < x.len() && !(8 <= i < 12) ==> x[i] == y[i],
        _ => false,
    }
}

/// Whether every table but `head` and those in `replaced` reads back the
/// same bytes from `b` as from `a`, and `head` agrees but for its checksum.
pub open spec fn other_tables_kept(a: Seq<u8>, b: Seq<u8>, replaced: Set<u32>) -> bool {
    &&& forall|t: u32| t != TAG_HEAD && !replaced.contains(t) ==> #[trigger] table_bytes(b, t) == table_bytes(a, t)
    &&& (!replaced.contains(TAG_HEAD) ==> same_but_checksum(table_bytes(b, TAG_HEAD), table_bytes(a, TAG_HEAD)))
}

/// `OS/2.fsType`, when the font has a readable OS/2 table.
pub uninterp spec fn os2_fs_type(font: Seq<u8>) -> Option<u16>;

/// `OS/2.achVendID` as a big-endian 32-bit value.
pub uninterp spec fn os2_vendor_tag(font: Seq<u8>) -> Option<u32>;

/// The bits of `OS/2.fsSelection`.
pub uninterp spec fn os2_fs_selection(font: Seq<u8>) -> Option<u16>;

/// The bits of `head.macStyle`.
pub uninterp spec fn head_mac_style(font: Seq<u8>) -> Option<u16>;

/// `head.flags`.
pub uninterp spec fn head_flags(font: Seq<u8>) -> Option<u16>;

/// `hhea.advanceWidthMax`.
pub uninterp spec fn hhea_advance_width_max(font: Seq<u8>) -> Option<u16>;

/// The advance widths of the long metrics of `hmtx`, in order.
pub uninterp spec fn hmtx_advances(font: Seq<u8>) -> Option<Seq<u16>>;

/// The ranges of the `gasp` table, in order: the maximum ppem of each range
/// and its behavior bits.
pub uninterp spec fn gasp_table_ranges(font: Seq<u8>) -> Option<Seq<(u16, u16)>>;

/// The codepoints that the font's character map maps, in the order the
/// mapping is walked.
pub uninterp spec fn cmap_codepoints(font: Seq<u8>) -> Option<Seq<u32>>;

/// The records of the `name` table, in table order.
pub uninterp spec fn name_table_records(font: Seq<u8>) -> Option<Seq<NameEntryView>>;

/// The family name (name ID 1) in English, or else the first one found, as
/// skrifa's `LocalizedStrings::english_or_first` picks it.
pub uninterp spec fn english_or_first_family_name(font: Seq<u8>) -> Option<Seq<char>>;

/// The text fontations prints for a name ID: the name of its constant for
/// the predefined IDs 0 to 14 and 16 to 25 (such as `FULL_NAME`), `NameId`
/// and the decimal number otherwise.
pub open spec fn name_id_text(id: u16) -> Seq<char> {
    match id {
        0 => "COPYRIGHT_NOTICE"@,
        1 => "FAMILY_NAME"@,
        2 => "SUBFAMILY_NAME"@,
        3 => "UNIQUE_ID"@,
        4 => "FULL_NAME"@,
        5 => "VERSION_STRING"@,
        6 => "POSTSCRIPT_NAME"@,
        7 => "TRADEMARK"@,
        8 => "MANUFACTURER"@,
        9 => "DESIGNER"@,
        10 => "DESCRIPTION"@,
        11 => "VENDOR_URL"@,
        12 => "DESIGNER_URL"@,
        13 => "LICENSE_DESCRIPTION"@,
        14 => "LICENSE_URL"@,
        16 => "TYPOGRAPHIC_FAMILY_NAME"@,
        17 => "TYPOGRAPHIC_SUBFAMILY_NAME"@,
        18 => "COMPATIBLE_FULL_NAME"@,
        19 => "SAMPLE_TEXT"@,
        20 => "POSTSCRIPT_CID_NAME"@,
        21 => "WWS_FAMILY_NAME"@,
        22 => "WWS_SUBFAMILY_NAME"@,
        23 => "LIGHT_BACKGROUND_PALETTE"@,
        24 => "DARK_BACKGROUND_PALETTE"@,
        25 => "VARIATIONS_POSTSCRIPT_NAME_PREFIX"@,
        _ => "NameId "@ + decimal(id as nat),
    }
}

/// The font rebuilt with a new `gasp` table (of the given version and
/// ranges) and a new `prep` table, all other tables copied.
pub uninterp spec fn font_with_gasp_and_prep(
    font: Seq<u8>,
    version: u16,
    ranges: Seq<(u16, u16)>,
    prep: Seq<u8>,
) -> Option<Seq<u8>>;

/// The font rebuilt with `OS/2.fsSelection` replaced by `bits`.
pub uninterp spec fn font_with_fs_selection(font: Seq<u8>, bits: u16) -> Option<Seq<u8>>;

/// The font rebuilt with `head.flags` replaced by `flags`.
pub uninterp spec fn font_with_head_flags(font: Seq<u8>, flags: u16) -> Option<Seq<u8>>;

/// The fields of the OS/2 table but fsSelection: the table as read-fonts
/// parses it, written by write-fonts with fsSelection 0; `None` when there
/// is no readable OS/2 table.
pub uninterp spec fn os2_fields_but_selection(font: Seq<u8>) -> Option<Seq<u8>>;

/// The fields of the head table but flags and checksumAdjustment: the table
/// as read-fonts parses it, written by write-fonts with both 0; `None` when
/// there is no readable head table.
pub uninterp spec fn head_fields_but_flags(font: Seq<u8>) -> Option<Seq<u8>>;

/// Tells whether the bytes parse as a font.
///
/// Trusted: `FontRef::new`; the result is named by [`parses_as_font`].
#[verifier::external_body]
pub(crate) fn parses(font: &[u8]) -> (r: bool)
    ensures
        r == parses_as_font(font@),
{
    FontRef::new(font).is_ok()
}

/// Tells whether the font has the table `tag`.
///
/// Trusted: parses the font with `FontRef::new` and asks `FontRef::table_data`
/// for the tag; the result is named by [`table_present`].
#[verifier::external_body]
pub(crate) fn has_table(font: &[u8], tag: u32) -> (r: bool)
    ensures
        r == (table_bytes(font@, tag) is Some),
{
    match FontRef::new(font) {
        Ok(f) => f.table_data(Tag::from_u32(tag)).is_some(),
        Err(_) => false,
    }
}

/// Reads the number of records in the table directory.
///
/// Trusted: `FontRef::new`, `FontRef::table_directory` and
/// `TableDirectory::num_tables`; the result is named by
/// [`directory_table_count`].
#[verifier::external_body]
pub(crate) fn read_table_count(font: &[u8]) -> (r: Option<u16>)
    ensures
        r == directory_table_count(font@),
{
    FontRef::new(font).ok().map(|f| f.table_directory().num_tables())
}

/// Reads `OS/2.fsType`.
///
/// Trusted: `FontRef::new`, `TableProvider::os2` and `Os2::fs_type`; the
/// result is named by [`os2_fs_type`].
#[verifier::external_body]
pub(crate) fn read_fs_type(font: &[u8]) -> (r: Option<u16>)
    ensures
        r == os2_fs_type(font@),
{
    FontRef::new(font).ok()?.os2().ok().map(|t| t.fs_type())
}

/// Reads `OS/2.achVendID` as four big-endian bytes.
///
/// Trusted: `FontRef::new`, `TableProvider::os2` and `Os2::ach_vend_id`; the
/// result is named by [`os2_vendor_tag`].
#[verifier::external_body]
pub(crate) fn read_vendor_tag(font: &[u8]) -> (r: Option<u32>)
    ensures
        r == os2_vendor_tag(font@),
{
    FontRef::new(font).ok()?.os2().ok().map(|t| u32::from_be_bytes(t.ach_vend_id().to_be_bytes()))
}

/// Reads the bits of `OS/2.fsSelection`.
///
/// Trusted: `FontRef::new`, `TableProvider::os2` and `Os2::fs_selection`;
/// the result is named by [`os2_fs_selection`].
#[verifier::external_body]
pub(crate) fn read_fs_selection(font: &[u8]) -> (r: Option<u16>)
    ensures
        r == os2_fs_selection(font@),
{
    FontRef::new(font).ok()?.os2().ok().map(|t| t.fs_selection().bits())
}

/// Reads the bits of `head.macStyle`.
///
/// Trusted: `FontRef::new`, `TableProvider::head` and `Head::mac_style`; the
/// result is named by [`head_mac_style`].
#[verifier::external_body]
pub(crate) fn read_mac_style(font: &[u8]) -> (r: Option<u16>)
    ensures
        r == head_mac_style(font@),
{
    FontRef::new(font).ok()?.head().ok().map(|t| t.mac_style().bits())
}

/// Reads `head.flags`.
///
/// Trusted: `FontRef::new`, `TableProvider::head` and `Head::flags`; the
/// result is named by [`head_flags`]. read-fonts keeps only the flag bits
/// that head defines.
#[verifier::external_body]
pub(crate) fn read_head_flags(font: &[u8]) -> (r: Option<u16>)
    ensures
        r == head_flags(font@),
        r matches Some(f) ==> f & HEAD_FLAGS_DEFINED == f,
{
    FontRef::new(font).ok()?.head().ok().map(|t| t.flags().bits())
}

/// Reads `hhea.advanceWidthMax`.
///
/// Trusted: `FontRef::new`, `TableProvider::hhea` and
/// `Hhea::advance_width_max`; the result is named by [`hhea_advance_width_max`].
#[verifier::external_body]
pub(crate) fn read_advance_width_max(font: &[u8]) -> (r: Option<u16>)
    ensures
        r == hhea_advance_width_max(font@),
{
    FontRef::new(font).ok()?.hhea().ok().map(|t| t.advance_width_max().to_u16())
}

/// Reads the advance widths of the long horizontal metrics.
///
/// Trusted: `FontRef::new`, `TableProvider::hmtx` and `Hmtx::h_metrics`; the
/// result is named by [`hmtx_advances`].
#[verifier::external_body]
pub(crate) fn read_hmtx_advances(font: &[u8]) -> (r: Option<Vec<u16>>)
    ensures
        match r {
            Some(v) => hmtx_advances(font@) == Some(v@),
            None => hmtx_advances(font@) is None,
        },
{
    FontRef::new(font).ok()?.hmtx().ok().map(|t| t.h_metrics().iter().map(|m| m.advance()).collect())
}

/// Reads the ranges of the `gasp` table.
///
/// Trusted: `FontRef::new`, `TableProvider::gasp` and `Gasp::gasp_ranges`;
/// the result is named by [`gasp_table_ranges`].
#[verifier::external_body]
pub(crate) fn read_gasp_ranges(font: &[u8]) -> (r: Option<Vec<(u16, u16)>>)
    ensures
        match r {
            Some(v) => gasp_table_ranges(font@) == Some(v@),
            None => gasp_table_ranges(font@) is None,
        },
{
    FontRef::new(font).ok()?.gasp().ok().map(|t| {
        t.gasp_ranges().iter().map(|r| (r.range_max_ppem(), r.range_gasp_behavior().bits())).collect()
    })
}

/// Reads the codepoints mapped by the font's character map.
///
/// Trusted: `FontRef::new`, skrifa's `MetadataProvider::charmap` and
/// `Charmap::mappings`; the result is named by [`cmap_codepoints`]. There
/// is a result for every font that parses: a font without a usable cmap
/// maps nothing.
#[verifier::external_body]
pub(crate) fn read_codepoints(font: &[u8]) -> (r: Option<Vec<u32>>)
    ensures
        r is Some <==> parses_as_font(font@),
        match r {
            Some(v) => cmap_codepoints(font@) == Some(v@),
            None => cmap_codepoints(font@) is None,
        },
{
    Some(FontRef::new(font).ok()?.charmap().mappings().map(|(c, _)| c).collect())
}

/// Reads the records of the `name` table.
///
/// Trusted: `FontRef::new`, `TableProvider::name`, `Name::name_record` and
/// `NameRecord::string`, the string printed as its chars; the result is named
/// by [`name_table_records`].
#[verifier::external_body]
pub(crate) fn read_name_records(font: &[u8]) -> (r: Option<Vec<NameEntry>>)
    ensures
        match r {
            Some(v) => name_table_records(font@) == Some(v.deep_view()),
            None => name_table_records(font@) is None,
        },
{
    let name = FontRef::new(font).ok()?.name().ok()?;
    Some(name.name_record().iter().map(|r| NameEntry {
        platform_id: r.platform_id(),
        encoding_id: r.encoding_id(),
        language_id: r.language_id(),
        name_id: r.name_id().to_u16(),
        string: r.string(name.string_data()).ok().map(|s| s.to_string()),
    }).collect())
}

/// Reads the family name in English, or else the first one.
///
/// Trusted: `FontRef::new`, skrifa's `MetadataProvider::localized_strings`
/// and `LocalizedStrings::english_or_first`; the result is named by
/// [`english_or_first_family_name`].
#[verifier::external_body]
pub(crate) fn read_family_name(font: &[u8]) -> (r: Option<String>)
    ensures
        r.deep_view() == english_or_first_family_name(font@),
{
    FontRef::new(font).ok()?.localized_strings(NameId::FAMILY_NAME).english_or_first().map(|s| s.to_string())
}

/// The printed form of a name ID.
///
/// Trusted: `NameId`'s `Display`, which prints as its `Debug` does; the
/// result is the text [`name_id_text`] states.
#[verifier::external_body]
pub(crate) fn name_id_to_string(id: u16) -> (r: String)
    ensures
        r@ == name_id_text(id),
{
    NameId::new(id).to_string()
}

/// Rebuilds the font with new `gasp` and `prep` tables.
///
/// Trusted: write-fonts' `FontBuilder` (`add_table`, `add_raw`,
/// `copy_missing_tables`, `build`); the result is named by
/// [`font_with_gasp_and_prep`]. The builder fails only where `FontRef::new`
/// does: a gasp table of at most 65535 ranges passes validation and has no
/// offsets to pack. `build` asserts that it writes at most 65535 table
/// records, so the font may list at most 65533 before gasp and prep are
/// added. Claimed of a rebuilt font, as the builder's source shows: the
/// gasp table holds the version, the number of ranges and the ranges
/// written (behavior bits that gasp does not define dropped) and reads
/// back those ranges; the prep table holds the bytes given; every other
/// table is copied byte for byte, but that the head table gets a new
/// checksumAdjustment; and the result, which starts with a TrueType table
/// directory, parses as a font.
#[verifier::external_body]
pub(crate) fn rebuild_with_gasp_and_prep(font: &[u8], version: u16, ranges: &Vec<(u16, u16)>, prep: &[u8]) -> (r: Option<Vec<u8>>)
    requires
        ranges@.len() <= 0xFFFF,
        directory_table_count(font@) matches Some(n) ==> n <= 0xFFFD,
    ensures
        opt_bytes(r) == font_with_gasp_and_prep(font@, version, ranges@, prep@),
        r is Some <==> parses_as_font(font@),
        r matches Some(b) ==> gasp_table_ranges(b@) == Some(defined_gasp_ranges(ranges@)),
        r matches Some(b) ==> table_bytes(b@, TAG_GASP_TABLE) == Some(gasp_table_bytes(version, ranges@)),
        r matches Some(b) ==> table_bytes(b@, TAG_PREP_TABLE) == Some(prep@),
        r matches Some(b) ==> other_tables_kept(font@, b@, set![TAG_GASP_TABLE, TAG_PREP_TABLE]),
        r matches Some(b) ==> parses_as_font(b@),
{
    let gasp = fontations::write::tables::gasp::Gasp::new(version, ranges.len() as u16, ranges.iter().map(|(p, b)| {
        fontations::write::tables::gasp::GaspRange::new(*p, GaspRangeBehavior::from_bits_truncate(*b))
    }).collect());
    let mut builder = FontBuilder::new();
    builder.add_table(&gasp).ok()?;
    builder.add_raw(Tag::new(b"prep"), prep.to_vec());
    builder.copy_missing_tables(FontRef::new(font).ok()?);
    Some(builder.build())
}

/// Rebuilds the font with `OS/2.fsSelection` set to `bits`.
///
/// Trusted: `TableProvider::os2`, `ToOwnedTable` and write-fonts'
/// `FontBuilder`; the result is named by [`font_with_fs_selection`]. The
/// builder fails only where the OS/2 table cannot be read: a table read by
/// read-fonts has the fields its version asks for, passes validation and
/// has no offsets to pack. Claimed of a rebuilt font, as the builder's
/// source shows: it parses as a font; its OS/2 table, written from the
/// fields read, gives back `bits` as fsSelection and the same values in
/// every other field; every other table is copied byte for byte, but that
/// the head table gets a new checksumAdjustment, so its fields read the
/// same.
#[verifier::external_body]
pub(crate) fn rebuild_with_fs_selection(font: &[u8], bits: u16) -> (r: Option<Vec<u8>>)
    requires
        bits & FS_SELECTION_DEFINED == bits,
    ensures
        opt_bytes(r) == font_with_fs_selection(font@, bits),
        r is Some <==> os2_fs_selection(font@) is Some,
        r matches Some(b) ==> parses_as_font(b@),
        r matches Some(b) ==> os2_fs_selection(b@) == Some(bits),
        r matches Some(b) ==> os2_fields_but_selection(b@) == os2_fields_but_selection(font@),
        r matches Some(b) ==> os2_fs_type(b@) == os2_fs_type(font@) && os2_vendor_tag(b@) == os2_vendor_tag(font@),
        r matches Some(b) ==> head_mac_style(b@) == head_mac_style(font@) && head_flags(b@) == head_flags(font@)
            && head_fields_but_flags(b@) == head_fields_but_flags(font@),
        r matches Some(b) ==> other_tables_kept(font@, b@, set![TAG_OS2]),
{
    let f = FontRef::new(font).ok()?;
    let mut os2: fontations::write::tables::os2::Os2 = f.os2().ok()?.to_owned_table();
    os2.fs_selection = SelectionFlags::from_bits_truncate(bits);
    let mut builder = FontBuilder::new();
    builder.add_table(&os2).ok()?;
    builder.copy_missing_tables(f);
    Some(builder.build())
}

/// Rebuilds the font with `head.flags` set to `flags`.
///
/// Trusted: `TableProvider::head`, `ToOwnedTable` and write-fonts'
/// `FontBuilder`; the result is named by [`font_with_head_flags`]. The
/// builder fails only where the head table cannot be read: head has no
/// validation and no offsets. Claimed of a rebuilt font, as the builder's
/// source shows: it parses as a font; its head table, written from the
/// fields read, gives back `flags` and the same values in every other
/// field but checksumAdjustment, which the builder recomputes; every other
/// table is copied byte for byte.
#[verifier::external_body]
pub(crate) fn rebuild_with_head_flags(font: &[u8], flags: u16) -> (r: Option<Vec<u8>>)
    requires
        flags & HEAD_FLAGS_DEFINED == flags,
    ensures
        opt_bytes(r) == font_with_head_flags(font@, flags),
        r is Some <==> head_flags(font@) is Some,
        r matches Some(b) ==> parses_as_font(b@),
        r matches Some(b) ==> head_flags(b@) == Some(flags),
        r matches Some(b) ==> head_fields_but_flags(b@) == head_fields_but_flags(font@)
            && head_mac_style(b@) == head_mac_style(font@),
        r matches Some(b) ==> other_tables_kept(font@, b@, set![TAG_HEAD]),
{
    let f = FontRef::new(font).ok()?;
    let mut head: fontations::write::tables::head::Head = f.head().ok()?.to_owned_table();
    head.flags = fontations::read::tables::head::Flags::from_bits_truncate(flags);
    let mut builder = FontBuilder::new();
    builder.add_table(&head).ok()?;
    builder.copy_missing_tables(f);
    Some(builder.build())
}

} // verus!
