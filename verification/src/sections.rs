//! Sections of a profile: merging the sections of another profile into
//! them, and leaving out checks.
use vstd::prelude::*;
use crate::text::str_equal;

verus! {

/// `checks` with each of `more` that it does not hold yet appended, in the
/// order of `more`.
pub open spec fn append_new(checks: Seq<Seq<char>>, more: Seq<Seq<char>>) -> Seq<Seq<char>>
    decreases more.len(),
{
    if more.len() == 0 {
        checks
    } else {
        let acc = append_new(checks, more.drop_last());
        if acc.contains(more.last()) {
            acc
        } else {
            acc.push(more.last())
        }
    }
}

/// Whether `i` is the first of `secs` named `name`.
pub open spec fn is_first_named(secs: Seq<(Seq<char>, Seq<Seq<char>>)>, name: Seq<char>, i: int) -> bool {
    &&& 0 <= i < secs.len()
    &&& secs[i].0 == name
    &&& forall|j: int| 0 <= j < i ==> (#[trigger] secs[j]).0 != name
}

/// Whether one of `secs` is named `name`.
pub open spec fn has_named(secs: Seq<(Seq<char>, Seq<Seq<char>>)>, name: Seq<char>) -> bool {
    exists|i: int| 0 <= i < secs.len() && (#[trigger] secs[i]).0 == name
}

/// `secs` with `sec` merged in: its checks are appended, those not there
/// yet, to the first section of the same name, or `sec` is appended whole
/// when there is none.
pub open spec fn merge_section(
    secs: Seq<(Seq<char>, Seq<Seq<char>>)>,
    sec: (Seq<char>, Seq<Seq<char>>),
) -> Seq<(Seq<char>, Seq<Seq<char>>)> {
    if has_named(secs, sec.0) {
        let i = choose|i: int| is_first_named(secs, sec.0, i);
        secs.update(i, (sec.0, append_new(secs[i].1, sec.1)))
    } else {
        secs.push(sec)
    }
}

/// `secs` with each of `incoming` merged in, in order.
pub open spec fn merge_all(
    secs: Seq<(Seq<char>, Seq<Seq<char>>)>,
    incoming: Seq<(Seq<char>, Seq<Seq<char>>)>,
) -> Seq<(Seq<char>, Seq<Seq<char>>)>
    decreases incoming.len(),
{
    if incoming.len() == 0 {
        secs
    } else {
        merge_section(merge_all(secs, incoming.drop_last()), incoming.last())
    }
}

/// `checks` without those in `excluded`, in order.
pub open spec fn without(checks: Seq<Seq<char>>, excluded: Seq<Seq<char>>) -> Seq<Seq<char>>
    decreases checks.len(),
{
    if checks.len() == 0 {
        checks
    } else {
        let rest = without(checks.drop_last(), excluded);
        if excluded.contains(checks.last()) {
            rest
        } else {
            rest.push(checks.last())
        }
    }
}

/// Each of `secs`, under its name, without the checks in `excluded`.
pub open spec fn without_excluded(
    secs: Seq<(Seq<char>, Seq<Seq<char>>)>,
    excluded: Seq<Seq<char>>,
) -> Seq<(Seq<char>, Seq<Seq<char>>)> {
    Seq::new(secs.len(), |i: int| (secs[i].0, without(secs[i].1, excluded)))
}

/// A check that is left is one of the checks and not excluded.
pub proof fn lemma_without_contains(checks: Seq<Seq<char>>, excluded: Seq<Seq<char>>, c: Seq<char>)
    ensures
        without(checks, excluded).contains(c) <==> (checks.contains(c) && !excluded.contains(c)),
    decreases checks.len(),
{
    if checks.len() > 0 {
        let prev = checks.drop_last();
        lemma_without_contains(prev, excluded, c);
        if checks.contains(c) && c != checks.last() {
            let j = choose|j: int| 0 <= j < checks.len() && checks[j] == c;
            assert(prev[j] == c);
        }
        if prev.contains(c) {
            let j = choose|j: int| 0 <= j < prev.len() && prev[j] == c;
            assert(checks[j] == c);
        }
        let rest = without(prev, excluded);
        let l = checks.last();
        assert(checks[checks.len() - 1] == l);
        if !excluded.contains(l) {
            let out = rest.push(l);
            assert(out[rest.len() as int] == l);
            if out.contains(c) {
                let j = choose|j: int| 0 <= j < out.len() && out[j] == c;
                if j < rest.len() {
                    assert(rest[j] == c);
                }
            }
            if rest.contains(c) {
                let j = choose|j: int| 0 <= j < rest.len() && rest[j] == c;
                assert(out[j] == c);
            }
        }
    }
}

/// Whether one of `secs` holds the check `c`.
pub open spec fn runs(secs: Seq<(Seq<char>, Seq<Seq<char>>)>, c: Seq<char>) -> bool {
    exists|i: int| 0 <= i < secs.len() && (#[trigger] secs[i]).1.contains(c)
}

/// A check is among `checks` with `more` appended when it is among either.
pub proof fn lemma_append_new_contains(checks: Seq<Seq<char>>, more: Seq<Seq<char>>, c: Seq<char>)
    ensures
        append_new(checks, more).contains(c) <==> (checks.contains(c) || more.contains(c)),
    decreases more.len(),
{
    if more.len() > 0 {
        let prev = more.drop_last();
        lemma_append_new_contains(checks, prev, c);
        let acc = append_new(checks, prev);
        let l = more.last();
        assert(more[more.len() - 1] == l);
        if more.contains(c) && c != l {
            let j = choose|j: int| 0 <= j < more.len() && more[j] == c;
            assert(prev[j] == c);
        }
        if prev.contains(c) {
            let j = choose|j: int| 0 <= j < prev.len() && prev[j] == c;
            assert(more[j] == c);
        }
        if !acc.contains(l) {
            let out = acc.push(l);
            assert(out[acc.len() as int] == l);
            if out.contains(c) {
                let j = choose|j: int| 0 <= j < out.len() && out[j] == c;
                if j < acc.len() {
                    assert(acc[j] == c);
                }
            }
            if acc.contains(c) {
                let j = choose|j: int| 0 <= j < acc.len() && acc[j] == c;
                assert(out[j] == c);
            }
        }
    }
}

/// After merging `sec` in, a check runs when it ran before or `sec` holds it.
pub proof fn lemma_merge_section_runs(
    secs: Seq<(Seq<char>, Seq<Seq<char>>)>,
    sec: (Seq<char>, Seq<Seq<char>>),
    c: Seq<char>,
)
    ensures
        runs(merge_section(secs, sec), c) <==> (runs(secs, c) || sec.1.contains(c)),
{
    let out = merge_section(secs, sec);
    if has_named(secs, sec.0) {
        let w = choose|w: int| 0 <= w < secs.len() && (#[trigger] secs[w]).0 == sec.0;
        lemma_first_named_exists(secs, sec.0, w);
        let i = choose|i: int| is_first_named(secs, sec.0, i);
        lemma_append_new_contains(secs[i].1, sec.1, c);
        if runs(out, c) {
            let k = choose|k: int| 0 <= k < out.len() && (#[trigger] out[k]).1.contains(c);
            if k != i {
                assert(secs[k] == out[k]);
            }
        }
        if runs(secs, c) {
            let k = choose|k: int| 0 <= k < secs.len() && (#[trigger] secs[k]).1.contains(c);
            if k != i {
                assert(secs[k] == out[k]);
            } else {
                assert(out[i].1.contains(c));
            }
        }
        if sec.1.contains(c) {
            assert(out[i].1.contains(c));
        }
    } else {
        assert(out[secs.len() as int] == sec);
        if runs(out, c) {
            let k = choose|k: int| 0 <= k < out.len() && (#[trigger] out[k]).1.contains(c);
            if k < secs.len() {
                assert(secs[k] == out[k]);
            }
        }
        if runs(secs, c) {
            let k = choose|k: int| 0 <= k < secs.len() && (#[trigger] secs[k]).1.contains(c);
            assert(secs[k] == out[k]);
        }
    }
}

/// Where some section has a name, a first one has it.
pub proof fn lemma_first_named_exists(secs: Seq<(Seq<char>, Seq<Seq<char>>)>, name: Seq<char>, w: int)
    requires
        0 <= w < secs.len(),
        secs[w].0 == name,
    ensures
        exists|i: int| is_first_named(secs, name, i),
    decreases w,
{
    if exists|j: int| 0 <= j < w && (#[trigger] secs[j]).0 == name {
        let j = choose|j: int| 0 <= j < w && (#[trigger] secs[j]).0 == name;
        lemma_first_named_exists(secs, name, j);
    } else {
        assert(is_first_named(secs, name, w));
    }
}

/// After merging `incoming` in, a check runs when it ran before or one of
/// `incoming` holds it.
pub proof fn lemma_merge_all_runs(
    secs: Seq<(Seq<char>, Seq<Seq<char>>)>,
    incoming: Seq<(Seq<char>, Seq<Seq<char>>)>,
    c: Seq<char>,
)
    ensures
        runs(merge_all(secs, incoming), c) <==> (runs(secs, c) || runs(incoming, c)),
    decreases incoming.len(),
{
    if incoming.len() > 0 {
        let prev = incoming.drop_last();
        lemma_merge_all_runs(secs, prev, c);
        lemma_merge_section_runs(merge_all(secs, prev), incoming.last(), c);
        assert(incoming[incoming.len() - 1] == incoming.last());
        if runs(incoming, c) {
            let k = choose|k: int| 0 <= k < incoming.len() && (#[trigger] incoming[k]).1.contains(c);
            if k < prev.len() {
                assert(prev[k] == incoming[k]);
            }
        }
        if runs(prev, c) {
            let k = choose|k: int| 0 <= k < prev.len() && (#[trigger] prev[k]).1.contains(c);
            assert(prev[k] == incoming[k]);
        }
    }
}

/// Leaving out the checks in `excluded`, a check runs when it ran and is
/// not excluded.
pub proof fn lemma_without_excluded_runs(
    secs: Seq<(Seq<char>, Seq<Seq<char>>)>,
    excluded: Seq<Seq<char>>,
    c: Seq<char>,
)
    ensures
        runs(without_excluded(secs, excluded), c) <==> (runs(secs, c) && !excluded.contains(c)),
{
    let out = without_excluded(secs, excluded);
    if runs(out, c) {
        let k = choose|k: int| 0 <= k < out.len() && (#[trigger] out[k]).1.contains(c);
        lemma_without_contains(secs[k].1, excluded, c);
    }
    if runs(secs, c) && !excluded.contains(c) {
        let k = choose|k: int| 0 <= k < secs.len() && (#[trigger] secs[k]).1.contains(c);
        lemma_without_contains(secs[k].1, excluded, c);
        assert(out[k].1.contains(c));
    }
}

/// Whether `ids` holds `id`.
pub fn contains_id(ids: &Vec<String>, id: &str) -> (r: bool)
    ensures
        r == ids.deep_view().contains(id@),
{
    let ghost v = ids.deep_view();
    let mut i: usize = 0;
    while i < ids.len()
        invariant
            v == ids.deep_view(),
            i <= v.len(),
            forall|j: int| 0 <= j < i ==> v[j] != id@,
        decreases ids.len() - i,
    {
        if str_equal(ids[i].as_str(), id) {
            proof { assert(v[i as int] == id@); }
            return true;
        }
        i = i + 1;
    }
    false
}

/// Appends to `checks` each of `more` that it does not hold yet.
fn append_new_checks(checks: &mut Vec<String>, more: &Vec<String>)
    ensures
        final(checks).deep_view() == append_new(old(checks).deep_view(), more.deep_view()),
{
    let ghost c0 = checks.deep_view();
    let ghost m = more.deep_view();
    let mut i: usize = 0;
    proof { assert(m.take(0) =~= Seq::<Seq<char>>::empty()); }
    while i < more.len()
        invariant
            m == more.deep_view(),
            i <= m.len(),
            checks.deep_view() == append_new(c0, m.take(i as int)),
        decreases more.len() - i,
    {
        proof {
            assert(m.take(i + 1).drop_last() =~= m.take(i as int));
            assert(m.take(i + 1).last() == m[i as int]);
        }
        if !contains_id(checks, more[i].as_str()) {
            let ghost before = checks.deep_view();
            checks.push(more[i].clone());
            proof { assert(checks.deep_view() =~= before.push(m[i as int])); }
        }
        i = i + 1;
    }
    proof { assert(m.take(m.len() as int) =~= m); }
}

/// The index of the first of `secs` named `name`.
fn first_named(secs: &Vec<(String, Vec<String>)>, name: &str) -> (r: Option<usize>)
    ensures
        match r {
            Some(i) => is_first_named(secs.deep_view(), name@, i as int),
            None => !has_named(secs.deep_view(), name@),
        },
{
    let ghost v = secs.deep_view();
    let mut i: usize = 0;
    while i < secs.len()
        invariant
            v == secs.deep_view(),
            i <= v.len(),
            forall|j: int| 0 <= j < i ==> (#[trigger] v[j]).0 != name@,
        decreases secs.len() - i,
    {
        if str_equal(secs[i].0.as_str(), name) {
            proof { assert(v[i as int].0 == name@); }
            return Some(i);
        }
        i = i + 1;
    }
    None
}

/// Merges the section `name` with `checks` into `secs`.
pub fn merge_section_into(secs: &mut Vec<(String, Vec<String>)>, name: &str, checks: &Vec<String>)
    ensures
        final(secs).deep_view() == merge_section(old(secs).deep_view(), (name@, checks.deep_view())),
{
    let ghost s0 = secs.deep_view();
    match first_named(secs, name) {
        Some(i) => {
            let mut merged = secs[i].1.clone();
            proof { assert(merged.deep_view() =~= s0[i as int].1); }
            append_new_checks(&mut merged, checks);
            let label = secs[i].0.clone();
            let ghost mv = merged.deep_view();
            secs.set(i, (label, merged));
            proof {
                assert(has_named(s0, name@));
                let k = choose|k: int| is_first_named(s0, name@, k);
                if k < i {
                    assert(s0[k].0 != name@);
                } else if k > i {
                    assert(s0[i as int].0 != name@);
                }
                assert(secs.deep_view() =~= s0.update(i as int, (name@, mv)));
            }
        },
        None => {
            let entry = (name.to_string(), checks.clone());
            proof { assert(entry.1.deep_view() =~= checks.deep_view()); }
            secs.push(entry);
            proof { assert(secs.deep_view() =~= s0.push((name@, checks.deep_view()))); }
        },
    }
}

/// Merges each of `incoming` into `secs`, in order.
pub fn merge_sections_into(secs: &mut Vec<(String, Vec<String>)>, incoming: &Vec<(String, Vec<String>)>)
    ensures
        final(secs).deep_view() == merge_all(old(secs).deep_view(), incoming.deep_view()),
{
    let ghost s0 = secs.deep_view();
    let ghost inc = incoming.deep_view();
    let mut k: usize = 0;
    proof { assert(inc.take(0) =~= Seq::<(Seq<char>, Seq<Seq<char>>)>::empty()); }
    while k < incoming.len()
        invariant
            inc == incoming.deep_view(),
            k <= inc.len(),
            secs.deep_view() == merge_all(s0, inc.take(k as int)),
        decreases incoming.len() - k,
    {
        proof {
            assert(inc.take(k + 1).drop_last() =~= inc.take(k as int));
            assert(inc.take(k + 1).last() == inc[k as int]);
        }
        merge_section_into(secs, incoming[k].0.as_str(), &incoming[k].1);
        k = k + 1;
    }
    proof { assert(inc.take(inc.len() as int) =~= inc); }
}

/// The checks of `checks` that are not in `excluded`, in order.
fn kept_checks(checks: &Vec<String>, excluded: &Vec<String>) -> (r: Vec<String>)
    ensures
        r.deep_view() == without(checks.deep_view(), excluded.deep_view()),
{
    let ghost c = checks.deep_view();
    let ghost ex = excluded.deep_view();
    let mut kept: Vec<String> = Vec::new();
    let mut i: usize = 0;
    proof {
        assert(c.take(0) =~= Seq::<Seq<char>>::empty());
        assert(kept.deep_view() =~= Seq::<Seq<char>>::empty());
    }
    while i < checks.len()
        invariant
            c == checks.deep_view(),
            ex == excluded.deep_view(),
            i <= c.len(),
            kept.deep_view() == without(c.take(i as int), ex),
        decreases checks.len() - i,
    {
        proof {
            assert(c.take(i + 1).drop_last() =~= c.take(i as int));
            assert(c.take(i + 1).last() == c[i as int]);
        }
        if !contains_id(excluded, checks[i].as_str()) {
            let ghost before = kept.deep_view();
            kept.push(checks[i].clone());
            proof { assert(kept.deep_view() =~= before.push(c[i as int])); }
        }
        i = i + 1;
    }
    proof { assert(c.take(c.len() as int) =~= c); }
    kept
}

/// Each of `secs`, under its name, without the checks in `excluded`.
pub fn remove_excluded(secs: &Vec<(String, Vec<String>)>, excluded: &Vec<String>) -> (r: Vec<(String, Vec<String>)>)
    ensures
        r.deep_view() == without_excluded(secs.deep_view(), excluded.deep_view()),
{
    let ghost s = secs.deep_view();
    let ghost ex = excluded.deep_view();
    let mut out: Vec<(String, Vec<String>)> = Vec::new();
    let mut i: usize = 0;
    while i < secs.len()
        invariant
            s == secs.deep_view(),
            ex == excluded.deep_view(),
            i <= s.len(),
            out.deep_view().len() == i,
            forall|j: int| 0 <= j < i ==> #[trigger] out.deep_view()[j] == (s[j].0, without(s[j].1, ex)),
        decreases secs.len() - i,
    {
        let kept = kept_checks(&secs[i].1, excluded);
        let label = secs[i].0.clone();
        let ghost before = out.deep_view();
        out.push((label, kept));
        proof {
            assert(out.deep_view() =~= before.push((s[i as int].0, without(s[i as int].1, ex))));
        }
        i = i + 1;
    }
    proof { assert(out.deep_view() =~= without_excluded(s, ex)); }
    out
}

} // verus!
