//! The family check `opentype/family/bold_italic_unique_for_nameid1`:
//! within a family name, each Regular/Italic/Bold/Bold Italic font must
//! have its own bold and italic bits.
use vstd::prelude::*;
use crate::font::{FontFile, FontFileView, read_fs_selection, os2_fs_selection, read_name_records, parses, parses_as_font};
use crate::names::{name_strings, records_or_empty, get_name_entry_strings, FAMILY_NAME};
use crate::opentype::{FS_BOLD, FS_ITALIC};
use crate::status::{is_read_error, Status, StatusView, StatusCode, CheckError, status_view, result_of, return_result};
use crate::style::{file_name, is_ribbi, ribbi};
use crate::text::{to_chars};

verus! {

/// Whether a file name has a font extension (`.ttf` or `.otf`).
pub open spec fn has_font_extension(path: Seq<char>) -> bool {
    let n = file_name(path);
    n.len() >= 4 && (n.skip(n.len() - 4) == ".ttf"@ || n.skip(n.len() - 4) == ".otf"@)
}

/// Whether the check looks at a file: a parsable font file whose style is
/// Regular, Italic, Bold or Bold Italic.
pub open spec fn considered(f: FontFileView) -> bool {
    has_font_extension(f.filename) && parses_as_font(f.contents) && is_ribbi(f.filename)
}

/// The first family name (name ID 1) of a font, whatever its platform.
pub open spec fn first_family_name(font: Seq<u8>) -> Option<Seq<char>> {
    let names = name_strings(records_or_empty(font), FAMILY_NAME);
    if names.len() > 0 { Some(names[0]) } else { None }
}

/// The bold bit, the italic bit and the first family name of a font.
pub type SelectionKey = (bool, bool, Option<Seq<char>>);

/// The key of a font whose fsSelection can be read.
pub open spec fn selection_key(f: FontFileView) -> SelectionKey {
    let fs = os2_fs_selection(f.contents).unwrap();
    (fs & FS_BOLD != 0, fs & FS_ITALIC != 0, first_family_name(f.contents))
}

/// The keys of the considered files.
pub open spec fn seen_keys(files: Seq<FontFileView>) -> Set<SelectionKey> {
    Set::new(|k: SelectionKey| exists|i: int| 0 <= i < files.len() && considered(files[i]) && selection_key(files[i]) == k)
}

/// Whether every considered file has a readable fsSelection.
pub open spec fn all_selections_readable(files: Seq<FontFileView>) -> bool {
    forall|i: int| 0 <= i < files.len() && considered(#[trigger] files[i]) ==> os2_fs_selection(files[i].contents) is Some
}

/// How Rust's `{:?}` prints an optional string.
pub uninterp spec fn option_debug_text(o: Option<Seq<char>>) -> Seq<char>;

/// Prints an optional string as `{:?}` does.
///
/// Trusted: `format!("{:?}")` on `Option<String>`; the result is named by
/// [`option_debug_text`].
#[verifier::external_body]
fn option_debug(o: &Option<String>) -> (s: String)
    ensures
        s@ == option_debug_text(o.deep_view()),
{
    format!("{:?}", o)
}

/// The failure for a font whose key was seen before.
pub open spec fn duplicate_message(f: FontFileView) -> Seq<char> {
    let k = selection_key(f);
    "Font "@ + f.filename + " has the same selection flags ("@ + (if k.0 { "bold"@ } else { ""@ })
        + (if k.0 && k.1 { " & "@ } else { ""@ }) + (if k.1 { "italic"@ } else { ""@ }) + ") as another font ("@
        + option_debug_text(k.2) + ")"@
}

/// The failures, in order: one for each considered font whose key an
/// earlier considered font already had.
pub open spec fn duplicate_problems(files: Seq<FontFileView>) -> Seq<StatusView>
    decreases files.len(),
{
    if files.len() == 0 {
        Seq::empty()
    } else {
        let prev = files.drop_last();
        let f = files.last();
        duplicate_problems(prev) + if considered(f) && seen_keys(prev).contains(selection_key(f)) {
            seq![status_view(StatusCode::Fail, "unique-fsselection"@, duplicate_message(f))]
        } else {
            Seq::<StatusView>::empty()
        }
    }
}

/// The key of a view of the exec key.
pub open spec fn key_view(k: (bool, bool, Option<String>)) -> SelectionKey {
    (k.0, k.1, k.2.deep_view())
}

/// Whether a path names a font file (`.ttf` or `.otf`).
pub fn is_font_file(path: &str) -> (r: bool)
    ensures
        r == has_font_extension(path@),
{
    let p = to_chars(path);
    let n = p.len();
    if n < 4 {
        proof {
            p@.index_of_last_ensures('/');
            match p@.index_of_last('/') {
                Some(i) => assert(file_name(path@).len() <= p@.len()),
                None => {},
            }
        }
        return false;
    }
    let ext = [p[n - 4], p[n - 3], p[n - 2], p[n - 1]];
    let has_slash = p[n - 1] == '/' || p[n - 2] == '/' || p[n - 3] == '/' || p[n - 4] == '/';
    let r = !has_slash && ext[0] == '.' && ((ext[1] == 't' && ext[2] == 't' && ext[3] == 'f')
        || (ext[1] == 'o' && ext[2] == 't' && ext[3] == 'f'));
    proof {
        reveal_strlit(".ttf");
        reveal_strlit(".otf");
        p@.index_of_last_ensures('/');
        let name = file_name(path@);
        if !has_slash {
            match p@.index_of_last('/') {
                Some(i) => {
                    assert(i < n - 4);
                    assert(name == p@.skip(i + 1));
                    assert(name.skip(name.len() - 4) =~= p@.skip(n - 4));
                },
                None => {
                    assert(name.skip(name.len() - 4) =~= p@.skip(n - 4));
                },
            }
            let tail = p@.skip(n - 4);
            assert(tail.len() == 4);
            assert(tail[0] == p@[n - 4] && tail[1] == p@[n - 3] && tail[2] == p@[n - 2] && tail[3] == p@[n - 1]);
            assert(".ttf"@.len() == 4 && ".ttf"@[0] == '.' && ".ttf"@[1] == 't' && ".ttf"@[2] == 't' && ".ttf"@[3] == 'f');
            assert(".otf"@.len() == 4 && ".otf"@[0] == '.' && ".otf"@[1] == 'o' && ".otf"@[2] == 't' && ".otf"@[3] == 'f');
            if tail[0] == '.' && tail[1] == 't' && tail[2] == 't' && tail[3] == 'f' {
                assert(tail =~= ".ttf"@);
            }
            if tail[0] == '.' && tail[1] == 'o' && tail[2] == 't' && tail[3] == 'f' {
                assert(tail =~= ".otf"@);
            }
            assert(r == has_font_extension(path@));
        } else {
            let k = choose|k: int| n - 4 <= k < n && p@[k] == '/';
            let i = p@.index_of_last('/')->0;
            assert(i >= k);
            assert(name == p@.skip(i + 1));
            if name.len() >= 4 {
                assert(false);
            }
        }
    }
    r
}

/// Whether the key is among the ones seen.
fn key_seen(flags: &Vec<(bool, bool, Option<String>)>, key: &(bool, bool, Option<String>)) -> (r: bool)
    ensures
        r == flags@.map_values(|k: (bool, bool, Option<String>)| key_view(k)).contains(key_view(*key)),
{
    let ghost keys = flags@.map_values(|k: (bool, bool, Option<String>)| key_view(k));
    let mut i: usize = 0;
    while i < flags.len()
        invariant
            keys == flags@.map_values(|k: (bool, bool, Option<String>)| key_view(k)),
            i <= flags@.len(),
            forall|j: int| 0 <= j < i ==> keys[j] != key_view(*key),
        decreases flags.len() - i,
    {
        let f = &flags[i];
        let same_name = match (&f.2, &key.2) {
            (Some(a), Some(b)) => *a == *b,
            (None, None) => true,
            _ => false,
        };
        if f.0 == key.0 && f.1 == key.1 && same_name {
            proof { assert(keys[i as int] == key_view(*key)); }
            return true;
        }
        i = i + 1;
    }
    false
}

/// The check `opentype/family/bold_italic_unique_for_nameid1`: among the
/// Regular, Italic, Bold and Bold Italic fonts of the collection, no two may
/// share the bold bit, the italic bit and the first family name.
pub fn bold_italic_unique_for_nameid1(files: &Vec<FontFile>) -> (r: Result<Vec<Status>, CheckError>)
    ensures
        all_selections_readable(files.deep_view()) ==> r is Ok && r.unwrap().deep_view() == result_of(
            duplicate_problems(files.deep_view()),
        ),
        !all_selections_readable(files.deep_view()) ==> is_read_error(r, "OS/2"@),
{
    let ghost fv = files.deep_view();
    let mut flags: Vec<(bool, bool, Option<String>)> = Vec::new();
    let mut problems: Vec<Status> = Vec::new();
    let mut i: usize = 0;
    proof {
        assert(fv.take(0) =~= Seq::<FontFileView>::empty());
        assert(seen_keys(fv.take(0)) =~= Set::<SelectionKey>::empty());
    }
    while i < files.len()
        invariant
            fv == files.deep_view(),
            i <= files.len(),
            all_selections_readable(fv.take(i as int)),
            flags@.map_values(|k: (bool, bool, Option<String>)| key_view(k)).to_set() == seen_keys(fv.take(i as int)),
            problems.deep_view() == duplicate_problems(fv.take(i as int)),
        decreases files.len() - i,
    {
        let f = &files[i];
        let ghost prev = fv.take(i as int);
        let ghost cur = fv.take(i + 1);
        proof {
            assert(cur.drop_last() =~= prev);
            assert(cur.last() == fv[i as int]);
            assert(fv[i as int] == f.deep_view());
        }
        let ghost keys0 = flags@.map_values(|k: (bool, bool, Option<String>)| key_view(k));
        let ghost problems0 = problems.deep_view();
        if is_font_file(f.filename.as_str()) && parses(f.contents.as_slice()) && ribbi(f.filename.as_str()) {
            let fs = match read_fs_selection(f.contents.as_slice()) {
                Some(v) => v,
                None => {
                    proof {
                        assert(considered(fv[i as int]));
                        assert(!all_selections_readable(fv));
                    }
                    return Err(CheckError::FontRead("OS/2".to_string()));
                },
            };
            let records = match read_name_records(f.contents.as_slice()) {
                Some(r) => r,
                None => Vec::new(),
            };
            proof { assert(records.deep_view() =~= records_or_empty(f.contents@)); }
            let names = get_name_entry_strings(&records, FAMILY_NAME);
            let first: Option<String> = if names.len() > 0 { Some(names[0].clone()) } else { None };
            let key = (fs & FS_BOLD != 0, fs & FS_ITALIC != 0, first);
            proof { assert(key_view(key) == selection_key(fv[i as int])); }
            if key_seen(&flags, &key) {
                let mut m = String::new();
                m.append("Font ");
                m.append(f.filename.as_str());
                m.append(" has the same selection flags (");
                if key.0 {
                    m.append("bold");
                } else {
                    m.append("");
                }
                if key.0 && key.1 {
                    m.append(" & ");
                } else {
                    m.append("");
                }
                if key.1 {
                    m.append("italic");
                } else {
                    m.append("");
                }
                m.append(") as another font (");
                let dbg = option_debug(&key.2);
                m.append(dbg.as_str());
                m.append(")");
                problems.push(Status::new(StatusCode::Fail, "unique-fsselection", m));
                proof {
                    assert(keys0.to_set().contains(key_view(key)));
                    assert(problems.deep_view() =~= duplicate_problems(cur));
                    assert(seen_keys(cur) =~= seen_keys(prev)) by {
                        assert forall|k: SelectionKey| #[trigger] seen_keys(cur).contains(k) implies seen_keys(prev).contains(k) by {
                            let j = choose|j: int| 0 <= j < cur.len() && considered(cur[j]) && selection_key(cur[j]) == k;
                            if j < i {
                                assert(prev[j] == cur[j]);
                            }
                        }
                        assert forall|k: SelectionKey| #[trigger] seen_keys(prev).contains(k) implies seen_keys(cur).contains(k) by {
                            let j = choose|j: int| 0 <= j < prev.len() && considered(prev[j]) && selection_key(prev[j]) == k;
                            assert(prev[j] == cur[j]);
                        }
                    }
                }
            } else {
                flags.push(key);
                proof {
                    let keys1 = flags@.map_values(|k: (bool, bool, Option<String>)| key_view(k));
                    assert(keys1 =~= keys0.push(key_view(key)));
                    assert(keys1.to_set() =~= keys0.to_set().insert(key_view(key))) by {
                        assert forall|k: SelectionKey| #[trigger] keys1.to_set().contains(k) <==> keys0.to_set().insert(key_view(key)).contains(k) by {
                            if keys1.contains(k) {
                                let j = choose|j: int| 0 <= j < keys1.len() && keys1[j] == k;
                                if j < keys0.len() {
                                    assert(keys0[j] == k);
                                }
                            }
                            if keys0.contains(k) {
                                let j = choose|j: int| 0 <= j < keys0.len() && keys0[j] == k;
                                assert(keys1[j] == k);
                            }
                            if k == key_view(key) {
                                assert(keys1[keys0.len() as int] == k);
                            }
                        }
                    }
                    assert(seen_keys(cur) =~= seen_keys(prev).insert(key_view(key))) by {
                        assert forall|k: SelectionKey| #[trigger] seen_keys(cur).contains(k) <==> seen_keys(prev).insert(key_view(key)).contains(k) by {
                            if seen_keys(cur).contains(k) {
                                let j = choose|j: int| 0 <= j < cur.len() && considered(cur[j]) && selection_key(cur[j]) == k;
                                if j < i {
                                    assert(prev[j] == cur[j]);
                                }
                            }
                            if seen_keys(prev).contains(k) {
                                let j = choose|j: int| 0 <= j < prev.len() && considered(prev[j]) && selection_key(prev[j]) == k;
                                assert(prev[j] == cur[j]);
                            }
                            if k == key_view(key) {
                                assert(considered(cur[i as int]));
                            }
                        }
                    }
                    assert(!seen_keys(prev).contains(selection_key(fv[i as int])));
                    assert(problems.deep_view() =~= duplicate_problems(cur));
                }
            }
        } else {
            proof {
                assert(!considered(fv[i as int]));
                assert(problems.deep_view() =~= duplicate_problems(cur));
                assert(seen_keys(cur) =~= seen_keys(prev)) by {
                    assert forall|k: SelectionKey| #[trigger] seen_keys(cur).contains(k) implies seen_keys(prev).contains(k) by {
                        let j = choose|j: int| 0 <= j < cur.len() && considered(cur[j]) && selection_key(cur[j]) == k;
                        assert(j != i);
                        assert(prev[j] == cur[j]);
                    }
                    assert forall|k: SelectionKey| #[trigger] seen_keys(prev).contains(k) implies seen_keys(cur).contains(k) by {
                        let j = choose|j: int| 0 <= j < prev.len() && considered(prev[j]) && selection_key(prev[j]) == k;
                        assert(prev[j] == cur[j]);
                    }
                }
            }
        }
        proof {
            assert forall|j: int| 0 <= j < cur.len() && considered(#[trigger] cur[j]) implies os2_fs_selection(cur[j].contents) is Some by {
                if j < i {
                    assert(prev[j] == cur[j]);
                }
            }
        }
        i = i + 1;
    }
    proof { assert(fv.take(files.len() as int) =~= fv); }
    Ok(return_result(problems))
}

} // verus!
