//! A font's style as its file name gives it, Google Fonts style:
//! `Family-Style.ttf` for static fonts, `Family[axes].ttf` or
//! `Family-Italic[axes].ttf` for variable ones.
use vstd::prelude::*;
use crate::text::{to_chars, from_chars};

verus! {

/// The last path component of `path`.
pub open spec fn file_name(path: Seq<char>) -> Seq<char> {
    match path.index_of_last('/') {
        Some(i) => path.skip(i + 1),
        None => path,
    }
}

/// A file name without its extension: what precedes the last dot, unless
/// that dot begins the name.
pub open spec fn file_stem(name: Seq<char>) -> Seq<char> {
    match name.index_of_last('.') {
        Some(i) => if i > 0 { name.take(i) } else { name },
        None => name,
    }
}

/// Whether `sub` occurs in `s`.
pub open spec fn contains_text(s: Seq<char>, sub: Seq<char>) -> bool {
    exists|i: int| 0 <= i && i + sub.len() <= s.len() && #[trigger] s.subrange(i, i + sub.len()) == sub
}

/// The style names of static fonts, without spaces.
pub open spec fn is_static_style(s: Seq<char>) -> bool {
    ||| s == "Thin"@ ||| s == "ExtraLight"@ ||| s == "Light"@ ||| s == "Regular"@ ||| s == "Medium"@
    ||| s == "SemiBold"@ ||| s == "Bold"@ ||| s == "ExtraBold"@ ||| s == "Black"@
    ||| s == "ThinItalic"@ ||| s == "ExtraLightItalic"@ ||| s == "LightItalic"@ ||| s == "Italic"@
    ||| s == "MediumItalic"@ ||| s == "SemiBoldItalic"@ ||| s == "BoldItalic"@ ||| s == "ExtraBoldItalic"@
    ||| s == "BlackItalic"@
}

/// The part of a stem between its first hyphen and the next one (or its end).
pub open spec fn style_segment(stem: Seq<char>) -> Option<Seq<char>> {
    match stem.index_of_first('-') {
        Some(i) => {
            let rest = stem.skip(i + 1);
            match rest.index_of_first('-') {
                Some(j) => Some(rest.take(j)),
                None => Some(rest),
            }
        },
        None => None,
    }
}

/// The style of a font file: for a variable font (a `[` in the stem)
/// `Italic` or `Regular` as the name does or does not hold `Italic`; for a
/// static font the segment after the first hyphen, when it is a static
/// style name.
pub open spec fn font_style(path: Seq<char>) -> Option<Seq<char>> {
    let name = file_name(path);
    let stem = file_stem(name);
    if stem.contains('[') {
        if contains_text(name, "Italic"@) { Some("Italic"@) } else { Some("Regular"@) }
    } else {
        match style_segment(stem) {
            Some(seg) => if is_static_style(seg) { Some(seg) } else { None },
            None => None,
        }
    }
}

/// Whether a style is one of Regular, Italic, Bold and Bold Italic.
pub open spec fn is_ribbi_style(style: Seq<char>) -> bool {
    style == "Regular"@ || style == "Italic"@ || style == "Bold"@ || style == "BoldItalic"@
}

/// Whether a font file's style is one of Regular, Italic, Bold and Bold
/// Italic.
pub open spec fn is_ribbi(path: Seq<char>) -> bool {
    match font_style(path) {
        Some(s) => is_ribbi_style(s),
        None => false,
    }
}

/// An optional position as an integer.
pub open spec fn opt_int(r: Option<usize>) -> Option<int> {
    match r {
        Some(i) => Some(i as int),
        None => None,
    }
}

/// Position of the last `c` in `s`.
fn last_index(s: &Vec<char>, c: char) -> (r: Option<usize>)
    ensures
        opt_int(r) == s@.index_of_last(c),
{
    proof { s@.index_of_last_ensures(c); }
    let mut i: usize = s.len();
    while i > 0
        invariant
            i <= s@.len(),
            forall|j: int| i <= j < s@.len() ==> s@[j] != c,
        decreases i,
    {
        if s[i - 1] == c {
            proof {
                s@.index_of_last_ensures(c);
                assert(s@.contains(c));
                let k = s@.index_of_last(c)->0;
                if k < i - 1 {
                    assert(s@[i - 1] != c);
                }
                assert(k == i - 1);
            }
            return Some(i - 1);
        }
        i = i - 1;
    }
    proof {
        s@.index_of_last_ensures(c);
        if s@.index_of_last(c) is Some {
            let k = s@.index_of_last(c)->0;
            assert(s@[k] == c);
        }
    }
    None
}

/// Position of the first `c` in `s`.
fn first_index(s: &Vec<char>, c: char) -> (r: Option<usize>)
    ensures
        opt_int(r) == s@.index_of_first(c),
{
    proof { s@.index_of_first_ensures(c); }
    let mut i: usize = 0;
    while i < s.len()
        invariant
            i <= s@.len(),
            forall|j: int| 0 <= j < i ==> s@[j] != c,
        decreases s.len() - i,
    {
        if s[i] == c {
            proof {
                s@.index_of_first_ensures(c);
                assert(s@.contains(c));
                let k = s@.index_of_first(c)->0;
                if k > i {
                    assert(s@[i as int] != c);
                }
                assert(k == i);
            }
            return Some(i);
        }
        i = i + 1;
    }
    proof {
        s@.index_of_first_ensures(c);
        if s@.index_of_first(c) is Some {
            let k = s@.index_of_first(c)->0;
            assert(s@[k] == c);
        }
    }
    None
}

/// The characters of `s` from `from` to `to`.
fn slice_chars(s: &Vec<char>, from: usize, to: usize) -> (r: Vec<char>)
    requires
        from <= to <= s@.len(),
    ensures
        r@ == s@.subrange(from as int, to as int),
{
    let mut r: Vec<char> = Vec::new();
    let mut k = from;
    while k < to
        invariant
            from <= k <= to <= s@.len(),
            r@ == s@.subrange(from as int, k as int),
        decreases to - k,
    {
        r.push(s[k]);
        proof { assert(r@ =~= s@.subrange(from as int, k + 1)); }
        k = k + 1;
    }
    r
}

/// Whether `sub` occurs in `s`.
pub fn contains_chars(s: &Vec<char>, sub: &Vec<char>) -> (r: bool)
    ensures
        r == contains_text(s@, sub@),
{
    if sub.len() > s.len() {
        return false;
    }
    let mut i: usize = 0;
    while i <= s.len() - sub.len()
        invariant
            sub.len() <= s.len(),
            i <= s.len(),
            forall|k: int| 0 <= k < i ==> #[trigger] s@.subrange(k, k + sub@.len()) != sub@,
        decreases s.len() - i,
    {
        let mut m: usize = 0;
        let mut same = true;
        while m < sub.len()
            invariant
                sub.len() <= s.len(),
                i <= s.len() - sub.len(),
                m <= sub.len(),
                same == forall|q: int| 0 <= q < m ==> s@[i + q] == sub@[q],
            decreases sub.len() - m,
        {
            if s[i + m] != sub[m] {
                same = false;
            }
            m = m + 1;
        }
        if same {
            proof { assert(s@.subrange(i as int, i + sub@.len()) =~= sub@); }
            return true;
        }
        proof {
            let q = choose|q: int| 0 <= q < sub@.len() && s@[i + q] != sub@[q];
            assert(s@.subrange(i as int, i + sub@.len())[q] != sub@[q]);
        }
        i = i + 1;
    }
    proof {
        assert forall|k: int| 0 <= k && k + sub@.len() <= s@.len() implies #[trigger] s@.subrange(k, k + sub@.len()) != sub@ by {
            assert(k < i);
        }
    }
    false
}

/// Whether `s` holds exactly the characters `lit`.
fn is_text(s: &Vec<char>, lit: &str) -> (r: bool)
    ensures
        r == (s@ == lit@),
{
    let l = to_chars(lit);
    if l.len() != s.len() {
        return false;
    }
    let mut i: usize = 0;
    while i < s.len()
        invariant
            l@ == lit@,
            l@.len() == s@.len(),
            i <= s@.len(),
            forall|k: int| 0 <= k < i ==> s@[k] == l@[k],
        decreases s.len() - i,
    {
        if s[i] != l[i] {
            return false;
        }
        i = i + 1;
    }
    proof { assert(s@ =~= l@); }
    true
}

fn static_style(s: &Vec<char>) -> (r: bool)
    ensures
        r == is_static_style(s@),
{
    is_text(s, "Thin") || is_text(s, "ExtraLight") || is_text(s, "Light") || is_text(s, "Regular")
        || is_text(s, "Medium") || is_text(s, "SemiBold") || is_text(s, "Bold") || is_text(s, "ExtraBold")
        || is_text(s, "Black") || is_text(s, "ThinItalic") || is_text(s, "ExtraLightItalic")
        || is_text(s, "LightItalic") || is_text(s, "Italic") || is_text(s, "MediumItalic")
        || is_text(s, "SemiBoldItalic") || is_text(s, "BoldItalic") || is_text(s, "ExtraBoldItalic")
        || is_text(s, "BlackItalic")
}

/// The style of a font file, from its path.
pub fn style(path: &str) -> (r: Option<String>)
    ensures
        r.deep_view() == font_style(path@),
{
    let p = to_chars(path);
    proof { p@.index_of_last_ensures('/'); }
    let name = match last_index(&p, '/') {
        Some(i) => {
            assert(i < p.len());
            slice_chars(&p, i + 1, p.len())
        },
        None => slice_chars(&p, 0, p.len()),
    };
    proof { assert(p@.subrange(0, p@.len() as int) =~= p@); }
    assert(name@ == file_name(path@));
    proof { name@.index_of_last_ensures('.'); }
    let stem = match last_index(&name, '.') {
        Some(i) => if i > 0 { slice_chars(&name, 0, i) } else { slice_chars(&name, 0, name.len()) },
        None => slice_chars(&name, 0, name.len()),
    };
    proof { assert(name@.subrange(0, name@.len() as int) =~= name@); }
    assert(stem@ == file_stem(name@));
    if first_index(&stem, '[').is_some() {
        proof { stem@.index_of_first_ensures('['); }
        let italic = to_chars("Italic");
        if contains_chars(&name, &italic) {
            return Some("Italic".to_string());
        } else {
            return Some("Regular".to_string());
        }
    }
    proof { stem@.index_of_first_ensures('['); }
    proof { stem@.index_of_first_ensures('-'); }
    match first_index(&stem, '-') {
        Some(i) => {
            let rest = slice_chars(&stem, i + 1, stem.len());
            proof {
                assert(rest@ =~= stem@.skip(i + 1));
                rest@.index_of_first_ensures('-');
            }
            let seg = match first_index(&rest, '-') {
                Some(j) => slice_chars(&rest, 0, j),
                None => slice_chars(&rest, 0, rest.len()),
            };
            proof { assert(rest@.subrange(0, rest@.len() as int) =~= rest@); }
            if static_style(&seg) {
                Some(from_chars(seg.as_slice()))
            } else {
                None
            }
        },
        None => None,
    }
}

/// Whether a style is one of Regular, Italic, Bold and Bold Italic.
pub fn ribbi_style(style: &str) -> (r: bool)
    ensures
        r == is_ribbi_style(style@),
{
    let s = to_chars(style);
    is_text(&s, "Regular") || is_text(&s, "Italic") || is_text(&s, "Bold") || is_text(&s, "BoldItalic")
}

/// Whether a font file's style is one of Regular, Italic, Bold and Bold
/// Italic.
pub fn ribbi(path: &str) -> (r: bool)
    ensures
        r == is_ribbi(path@),
{
    match style(path) {
        Some(s) => ribbi_style(s.as_str()),
        None => false,
    }
}

} // verus!
