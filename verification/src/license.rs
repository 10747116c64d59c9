//! The family check `googlefonts/family/has_license`.
use vstd::prelude::*;
use crate::status::{Status, StatusView, StatusCode, just_one, just_one_pass, just_one_view, just_pass, bullet_list, bullet_list_spec};
use crate::style::file_name;
use crate::text::{to_chars, from_chars, str_equal};

verus! {

/// Whether a file is a license file: `OFL.txt` or `LICENSE.txt`.
pub open spec fn is_license_file(path: Seq<char>) -> bool {
    file_name(path) == "OFL.txt"@ || file_name(path) == "LICENSE.txt"@
}

/// The file names of the license files among `paths`, in order.
pub open spec fn license_names(paths: Seq<Seq<char>>) -> Seq<Seq<char>>
    decreases paths.len(),
{
    if paths.len() == 0 {
        Seq::empty()
    } else {
        license_names(paths.drop_last()) + if is_license_file(paths.last()) {
            seq![file_name(paths.last())]
        } else {
            Seq::<Seq<char>>::empty()
        }
    }
}

/// The `/`-separated components of a path, empty ones included.
pub open spec fn components(p: Seq<char>) -> Seq<Seq<char>>
    decreases p.len(),
{
    if p.len() == 0 {
        seq![Seq::<char>::empty()]
    } else if p.last() == '/' {
        components(p.drop_last()).push(Seq::<char>::empty())
    } else {
        let c = components(p.drop_last());
        c.update(c.len() - 1, c.last().push(p.last()))
    }
}

/// The directories of the google/fonts repository that hold families by
/// licence.
pub open spec fn is_license_dir(name: Seq<char>) -> bool {
    name == "ofl"@ || name == "ufl"@ || name == "apache"@
}

/// Whether a path lies in a family directory of the google/fonts
/// repository: its component two above the file is `ofl`, `ufl` or
/// `apache`.
pub open spec fn in_gf_family_dir(p: Seq<char>) -> bool {
    let c = components(p);
    c.len() >= 3 && is_license_dir(c[c.len() - 3])
}

/// Whether any of `paths` lies in a family directory of the google/fonts
/// repository.
pub open spec fn seems_like_gf_repo_spec(paths: Seq<Seq<char>>) -> bool {
    exists|i: int| 0 <= i < paths.len() && in_gf_family_dir(#[trigger] paths[i])
}

/// The components of a path.
fn path_components(path: &str) -> (r: Vec<Vec<char>>)
    ensures
        r@.map_values(|c: Vec<char>| c@) == components(path@),
{
    let p = to_chars(path);
    let mut comps: Vec<Vec<char>> = Vec::new();
    comps.push(Vec::new());
    let mut i: usize = 0;
    proof {
        assert(p@.take(0) =~= Seq::<char>::empty());
        assert(comps@.map_values(|c: Vec<char>| c@) =~= seq![Seq::<char>::empty()]);
    }
    while i < p.len()
        invariant
            i <= p@.len(),
            p@ == path@,
            comps@.map_values(|c: Vec<char>| c@) == components(p@.take(i as int)),
            comps@.len() >= 1,
        decreases p.len() - i,
    {
        let ghost before = comps@.map_values(|c: Vec<char>| c@);
        proof {
            assert(p@.take(i + 1).drop_last() =~= p@.take(i as int));
            assert(p@.take(i + 1).last() == p@[i as int]);
        }
        if p[i] == '/' {
            comps.push(Vec::new());
            proof {
                assert(comps@.map_values(|c: Vec<char>| c@) =~= before.push(Seq::<char>::empty()));
            }
        } else {
            let mut last = comps.pop().unwrap();
            let ghost lv = last@;
            last.push(p[i]);
            comps.push(last);
            proof {
                assert(lv == before.last());
                assert(comps@.map_values(|c: Vec<char>| c@) =~= before.update(before.len() - 1, before.last().push(p@[i as int])));
            }
        }
        i = i + 1;
    }
    proof { assert(p@.take(p@.len() as int) =~= p@); }
    comps
}

/// Whether the path lies in a family directory of the google/fonts
/// repository.
fn in_family_dir(path: &str) -> (r: bool)
    ensures
        r == in_gf_family_dir(path@),
{
    let comps = path_components(path);
    if comps.len() < 3 {
        return false;
    }
    let dir = from_chars(comps[comps.len() - 3].as_slice());
    proof { assert(dir@ == components(path@)[comps@.len() - 3]); }
    str_equal(dir.as_str(), "ofl") || str_equal(dir.as_str(), "ufl") || str_equal(dir.as_str(), "apache")
}

/// Whether the collection seems to be (a part of) the google/fonts
/// repository: one of its files lies in a family directory under `ofl`,
/// `ufl` or `apache`.
pub fn seems_like_gf_repo(paths: &Vec<String>) -> (r: bool)
    ensures
        r == seems_like_gf_repo_spec(paths.deep_view()),
{
    let ghost pv = paths.deep_view();
    let mut i: usize = 0;
    while i < paths.len()
        invariant
            pv == paths.deep_view(),
            i <= pv.len(),
            forall|j: int| 0 <= j < i ==> !in_gf_family_dir(#[trigger] pv[j]),
        decreases paths.len() - i,
    {
        if in_family_dir(paths[i].as_str()) {
            proof { assert(in_gf_family_dir(pv[i as int])); }
            return true;
        }
        i = i + 1;
    }
    false
}

/// The results of `googlefonts/family/has_license` for the file paths of a
/// collection, whether it seems to be the google/fonts repository, and
/// whether lists are shown in full.
pub open spec fn has_license_result(paths: Seq<Seq<char>>, gf_repo: bool, full_lists: bool) -> Seq<StatusView> {
    let licenses = license_names(paths);
    if licenses.len() > 1 {
        just_one_view(
            StatusCode::Fail,
            "multiple"@,
            "More than a single license file found: "@ + bullet_list_spec(licenses, full_lists),
        )
    } else if licenses.len() == 0 {
        if !gf_repo {
            just_one_view(
                StatusCode::Skip,
                "not-in-google-fonts-repo"@,
                "This check is only relevant for the google/fonts repository"@,
            )
        } else {
            just_one_view(
                StatusCode::Fail,
                "no-license"@,
                "No license file was found. Please add an OFL.txt or a LICENSE.txt file."@,
            )
        }
    } else {
        just_pass()
    }
}

/// The file name of a path.
fn base_name(path: &str) -> (r: String)
    ensures
        r@ == file_name(path@),
{
    let p = to_chars(path);
    proof { p@.index_of_last_ensures('/'); }
    let mut i: usize = p.len();
    while i > 0 && p[i - 1] != '/'
        invariant
            i <= p@.len(),
            forall|j: int| i <= j < p@.len() ==> p@[j] != '/',
        decreases i,
    {
        i = i - 1;
    }
    let mut out: Vec<char> = Vec::new();
    let mut k = i;
    while k < p.len()
        invariant
            i <= k <= p@.len(),
            out@ == p@.subrange(i as int, k as int),
        decreases p.len() - k,
    {
        out.push(p[k]);
        proof { assert(out@ =~= p@.subrange(i as int, k + 1)); }
        k = k + 1;
    }
    proof {
        p@.index_of_last_ensures('/');
        if i > 0 {
            assert(p@.contains('/'));
            let l = p@.index_of_last('/')->0;
            assert(l == i - 1);
            assert(out@ =~= p@.skip(i as int));
        } else {
            if p@.contains('/') {
                let l = p@.index_of_last('/')->0;
                assert(p@[l] == '/');
            }
            assert(out@ =~= p@);
        }
    }
    from_chars(out.as_slice())
}

/// The check `googlefonts/family/has_license`: a collection needs exactly
/// one license file. Without one the check fails in the google/fonts
/// repository and is skipped elsewhere.
pub fn has_license(paths: &Vec<String>, full_lists: bool) -> (r: Vec<Status>)
    ensures
        r.deep_view() == has_license_result(
            paths.deep_view(),
            seems_like_gf_repo_spec(paths.deep_view()),
            full_lists,
        ),
{
    let ghost pv = paths.deep_view();
    let mut licenses: Vec<String> = Vec::new();
    let mut i: usize = 0;
    while i < paths.len()
        invariant
            pv == paths.deep_view(),
            i <= paths.len(),
            licenses.deep_view() == license_names(pv.take(i as int)),
        decreases paths.len() - i,
    {
        let name = base_name(paths[i].as_str());
        proof {
            assert(pv.take(i + 1).drop_last() =~= pv.take(i as int));
            assert(pv.take(i + 1).last() == paths@[i as int]@);
        }
        let ghost before = licenses.deep_view();
        if str_equal(name.as_str(), "OFL.txt") || str_equal(name.as_str(), "LICENSE.txt") {
            let ghost nv = name@;
            licenses.push(name);
            proof { assert(licenses.deep_view() =~= before.push(nv)); }
        }
        proof { assert(licenses.deep_view() =~= license_names(pv.take(i + 1))); }
        i = i + 1;
    }
    proof { assert(pv.take(paths.len() as int) =~= pv); }
    if licenses.len() > 1 {
        let mut m = String::new();
        m.append("More than a single license file found: ");
        let list = bullet_list(&licenses, full_lists);
        m.append(list.as_str());
        just_one(StatusCode::Fail, "multiple", m)
    } else if licenses.len() == 0 {
        if !seems_like_gf_repo(paths) {
            just_one(
                StatusCode::Skip,
                "not-in-google-fonts-repo",
                "This check is only relevant for the google/fonts repository".to_string(),
            )
        } else {
            just_one(
                StatusCode::Fail,
                "no-license",
                "No license file was found. Please add an OFL.txt or a LICENSE.txt file.".to_string(),
            )
        }
    } else {
        just_one_pass()
    }
}

} // verus!
