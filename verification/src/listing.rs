//! The registered checks as the registered profiles list them: for each
//! check, the sections it stands in and the profiles that run it.
use vstd::prelude::*;
use crate::profile::{Registry, RegistryView, ProfileView, section_order};
use crate::sections::{runs, contains_id};
use crate::text::str_equal;

verus! {

/// A registered check, the sections it stands in and the profiles that
/// list it, a profile once for each of its sections that lists the check.
pub struct CheckListing {
    pub check_id: String,
    pub sections: Vec<String>,
    pub profiles: Vec<String>,
}

impl DeepView for CheckListing {
    type V = (Seq<char>, Seq<Seq<char>>, Seq<Seq<char>>);

    open spec fn deep_view(&self) -> (Seq<char>, Seq<Seq<char>>, Seq<Seq<char>>) {
        (self.check_id@, self.sections.deep_view(), self.profiles.deep_view())
    }
}

/// Each check of the profiles named in `order`, profile by profile and in
/// the order each profile runs them: the profile's name, the section and
/// the check.
pub open spec fn occurrences(order: Seq<Seq<char>>, profiles: Map<Seq<char>, ProfileView>) -> Seq<(Seq<char>, Seq<char>, Seq<char>)>
    decreases order.len(),
{
    if order.len() == 0 {
        Seq::empty()
    } else {
        let name = order.last();
        occurrences(order.drop_last(), profiles)
            + section_order(profiles[name].sections).map_values(|sc: (Seq<char>, Seq<char>)| (name, sc.0, sc.1))
    }
}

/// Whether `i` is the first entry of `listing` for the check `c`.
pub open spec fn is_first_listed(listing: Seq<(Seq<char>, Seq<Seq<char>>, Seq<Seq<char>>)>, c: Seq<char>, i: int) -> bool {
    &&& 0 <= i < listing.len()
    &&& listing[i].0 == c
    &&& forall|j: int| 0 <= j < i ==> (#[trigger] listing[j]).0 != c
}

/// Whether `listing` has an entry for the check `c`.
pub open spec fn is_listed(listing: Seq<(Seq<char>, Seq<Seq<char>>, Seq<Seq<char>>)>, c: Seq<char>) -> bool {
    exists|i: int| 0 <= i < listing.len() && (#[trigger] listing[i]).0 == c
}

/// `listing` after the occurrence `occ`: nothing changes for a check that
/// is not registered; else the check's entry gets the section, unless it
/// has it, and the profile, or a new entry is appended.
pub open spec fn listed(
    listing: Seq<(Seq<char>, Seq<Seq<char>>, Seq<Seq<char>>)>,
    occ: (Seq<char>, Seq<char>, Seq<char>),
    checks: Set<Seq<char>>,
) -> Seq<(Seq<char>, Seq<Seq<char>>, Seq<Seq<char>>)> {
    let (name, section, c) = occ;
    if !checks.contains(c) {
        listing
    } else if is_listed(listing, c) {
        let i = choose|i: int| is_first_listed(listing, c, i);
        let e = listing[i];
        let sections = if e.1.contains(section) { e.1 } else { e.1.push(section) };
        listing.update(i, (c, sections, e.2.push(name)))
    } else {
        listing.push((c, seq![section], seq![name]))
    }
}

/// The listing of all of `occs`, in order.
pub open spec fn listing_of(
    occs: Seq<(Seq<char>, Seq<char>, Seq<char>)>,
    checks: Set<Seq<char>>,
) -> Seq<(Seq<char>, Seq<Seq<char>>, Seq<Seq<char>>)>
    decreases occs.len(),
{
    if occs.len() == 0 {
        Seq::empty()
    } else {
        listed(listing_of(occs.drop_last(), checks), occs.last(), checks)
    }
}

/// The listing of the registered checks of a registry.
pub open spec fn registry_listing(r: RegistryView) -> Seq<(Seq<char>, Seq<Seq<char>>, Seq<Seq<char>>)> {
    listing_of(occurrences(r.order, r.profiles), r.checks)
}

/// Whether one of `occs` is of the check `c`.
pub open spec fn mentions(occs: Seq<(Seq<char>, Seq<char>, Seq<char>)>, c: Seq<char>) -> bool {
    exists|k: int| 0 <= k < occs.len() && (#[trigger] occs[k]).2 == c
}

/// The listing has an entry for a check exactly when the check is
/// registered and one of the occurrences is of it.
pub proof fn lemma_listing_lists(occs: Seq<(Seq<char>, Seq<char>, Seq<char>)>, checks: Set<Seq<char>>, c: Seq<char>)
    ensures
        is_listed(listing_of(occs, checks), c) <==> (checks.contains(c) && mentions(occs, c)),
    decreases occs.len(),
{
    if occs.len() > 0 {
        let prev = occs.drop_last();
        let acc = listing_of(prev, checks);
        let occ = occs.last();
        lemma_listing_lists(prev, checks, c);
        assert(occs[occs.len() - 1] == occ);
        let out = listed(acc, occ, checks);
        if mentions(occs, c) && occ.2 != c {
            let k = choose|k: int| 0 <= k < occs.len() && (#[trigger] occs[k]).2 == c;
            assert(prev[k] == occs[k]);
        }
        if mentions(prev, c) {
            let k = choose|k: int| 0 <= k < prev.len() && (#[trigger] prev[k]).2 == c;
            assert(occs[k] == prev[k]);
        }
        if checks.contains(occ.2) {
            if is_listed(acc, occ.2) {
                let w = choose|w: int| 0 <= w < acc.len() && (#[trigger] acc[w]).0 == occ.2;
                lemma_first_listed_exists(acc, occ.2, w);
                let i = choose|i: int| is_first_listed(acc, occ.2, i);
                if is_listed(out, c) {
                    let k = choose|k: int| 0 <= k < out.len() && (#[trigger] out[k]).0 == c;
                    if k != i {
                        assert(acc[k] == out[k]);
                    }
                }
                if is_listed(acc, c) {
                    let k = choose|k: int| 0 <= k < acc.len() && (#[trigger] acc[k]).0 == c;
                    if k != i {
                        assert(acc[k] == out[k]);
                    } else {
                        assert(out[i].0 == c);
                    }
                }
            } else {
                assert(out[acc.len() as int].0 == occ.2);
                if is_listed(out, c) {
                    let k = choose|k: int| 0 <= k < out.len() && (#[trigger] out[k]).0 == c;
                    if k < acc.len() {
                        assert(acc[k] == out[k]);
                    }
                }
                if is_listed(acc, c) {
                    let k = choose|k: int| 0 <= k < acc.len() && (#[trigger] acc[k]).0 == c;
                    assert(acc[k] == out[k]);
                }
            }
        }
    }
}

/// Where some entry is for a check, a first one is.
pub proof fn lemma_first_listed_exists(listing: Seq<(Seq<char>, Seq<Seq<char>>, Seq<Seq<char>>)>, c: Seq<char>, w: int)
    requires
        0 <= w < listing.len(),
        listing[w].0 == c,
    ensures
        exists|i: int| is_first_listed(listing, c, i),
    decreases w,
{
    if exists|j: int| 0 <= j < w && (#[trigger] listing[j]).0 == c {
        let j = choose|j: int| 0 <= j < w && (#[trigger] listing[j]).0 == c;
        lemma_first_listed_exists(listing, c, j);
    } else {
        assert(is_first_listed(listing, c, w));
    }
}

/// The occurrences of the profiles in `order` are of a check exactly when
/// one of those profiles runs it.
pub proof fn lemma_occurrences_mention(order: Seq<Seq<char>>, profiles: Map<Seq<char>, ProfileView>, c: Seq<char>)
    ensures
        mentions(occurrences(order, profiles), c)
            <==> exists|j: int| 0 <= j < order.len() && runs(profiles[#[trigger] order[j]].sections, c),
    decreases order.len(),
{
    if order.len() > 0 {
        let prev = order.drop_last();
        let name = order.last();
        lemma_occurrences_mention(prev, profiles, c);
        let a = occurrences(prev, profiles);
        let pairs = section_order(profiles[name].sections);
        let b = pairs.map_values(|sc: (Seq<char>, Seq<char>)| (name, sc.0, sc.1));
        let all = occurrences(order, profiles);
        assert(all == a + b);
        assert(order[order.len() - 1] == name);
        lemma_section_order_runs(profiles[name].sections, c);
        if mentions(all, c) {
            let k = choose|k: int| 0 <= k < all.len() && (#[trigger] all[k]).2 == c;
            if k < a.len() {
                assert(a[k] == all[k]);
                let j = choose|j: int| 0 <= j < prev.len() && runs(profiles[#[trigger] prev[j]].sections, c);
                assert(order[j] == prev[j]);
            } else {
                assert(b[k - a.len()] == all[k]);
                assert(pairs[k - a.len()].1 == c);
            }
        }
        if exists|j: int| 0 <= j < order.len() && runs(profiles[#[trigger] order[j]].sections, c) {
            let j = choose|j: int| 0 <= j < order.len() && runs(profiles[#[trigger] order[j]].sections, c);
            if j < prev.len() {
                assert(prev[j] == order[j]);
                let k = choose|k: int| 0 <= k < a.len() && (#[trigger] a[k]).2 == c;
                assert(all[k] == a[k]);
            } else {
                let k = choose|k: int| 0 <= k < pairs.len() && (#[trigger] pairs[k]).1 == c;
                assert(all[a.len() + k] == b[k]);
            }
        }
    }
}

/// The checks in order of a profile's sections are those its sections hold.
pub proof fn lemma_section_order_runs(secs: Seq<(Seq<char>, Seq<Seq<char>>)>, c: Seq<char>)
    ensures
        (exists|k: int| 0 <= k < section_order(secs).len() && (#[trigger] section_order(secs)[k]).1 == c)
            <==> runs(secs, c),
    decreases secs.len(),
{
    if secs.len() > 0 {
        let prev = secs.drop_last();
        let last = secs.last();
        lemma_section_order_runs(prev, c);
        let a = section_order(prev);
        let b = last.1.map_values(|x: Seq<char>| (last.0, x));
        let all = section_order(secs);
        assert(all == a + b);
        assert(secs[secs.len() - 1] == last);
        if exists|k: int| 0 <= k < all.len() && (#[trigger] all[k]).1 == c {
            let k = choose|k: int| 0 <= k < all.len() && (#[trigger] all[k]).1 == c;
            if k < a.len() {
                assert(a[k] == all[k]);
                let i = choose|i: int| 0 <= i < prev.len() && (#[trigger] prev[i]).1.contains(c);
                assert(secs[i] == prev[i]);
            } else {
                assert(b[k - a.len()] == all[k]);
                assert(last.1[k - a.len()] == c);
                assert(secs[secs.len() - 1].1.contains(c));
            }
        }
        if runs(secs, c) {
            let i = choose|i: int| 0 <= i < secs.len() && (#[trigger] secs[i]).1.contains(c);
            if i < prev.len() {
                assert(prev[i] == secs[i]);
                let k = choose|k: int| 0 <= k < a.len() && (#[trigger] a[k]).1 == c;
                assert(all[k] == a[k]);
            } else {
                let m = choose|m: int| 0 <= m < last.1.len() && last.1[m] == c;
                assert(all[a.len() + m] == b[m]);
            }
        }
    }
}

/// Adds the occurrence of the check `c` in `section` of the profile `name`
/// to `out`.
fn add_occurrence(out: &mut Vec<CheckListing>, name: &str, section: &str, c: &str, registered: bool)
    ensures
        final(out).deep_view() == listed(
            old(out).deep_view(),
            (name@, section@, c@),
            if registered { set![c@] } else { Set::<Seq<char>>::empty() },
        ),
{
    let ghost l0 = out.deep_view();
    let ghost checks = if registered { set![c@] } else { Set::<Seq<char>>::empty() };
    if !registered {
        return;
    }
    let mut i: usize = 0;
    while i < out.len()
        invariant
            l0 == out.deep_view(),
            l0 == old(out).deep_view(),
            registered,
            checks == set![c@],
            i <= l0.len(),
            forall|j: int| 0 <= j < i ==> (#[trigger] l0[j]).0 != c@,
        decreases out.len() - i,
    {
        if str_equal(out[i].check_id.as_str(), c) {
            proof {
                assert(l0[i as int].0 == c@);
                assert(is_listed(l0, c@));
                assert(is_first_listed(l0, c@, i as int));
                let k = choose|k: int| is_first_listed(l0, c@, k);
                if k < i {
                    assert(l0[k].0 != c@);
                } else if k > i {
                    assert(l0[i as int].0 != c@);
                }
                assert(k == i);
            }
            let mut sections = out[i].sections.clone();
            let mut profiles = out[i].profiles.clone();
            proof {
                assert(sections.deep_view() =~= l0[i as int].1);
                assert(profiles.deep_view() =~= l0[i as int].2);
            }
            if !contains_id(&sections, section) {
                let ghost before = sections.deep_view();
                sections.push(section.to_string());
                proof { assert(sections.deep_view() =~= before.push(section@)); }
            }
            let ghost pbefore = profiles.deep_view();
            profiles.push(name.to_string());
            proof { assert(profiles.deep_view() =~= pbefore.push(name@)); }
            let entry = CheckListing { check_id: c.to_string(), sections, profiles };
            let ghost ev = entry.deep_view();
            out.set(i, entry);
            proof { assert(out.deep_view() =~= l0.update(i as int, ev)); }
            return;
        }
        i = i + 1;
    }
    let mut sections: Vec<String> = Vec::new();
    sections.push(section.to_string());
    let mut profiles: Vec<String> = Vec::new();
    profiles.push(name.to_string());
    proof {
        assert(sections.deep_view() =~= seq![section@]);
        assert(profiles.deep_view() =~= seq![name@]);
        assert(!is_listed(l0, c@));
    }
    let entry = CheckListing { check_id: c.to_string(), sections, profiles };
    out.push(entry);
    proof { assert(out.deep_view() =~= l0.push((c@, seq![section@], seq![name@]))); }
}

/// The registered checks as the registered profiles list them, each with
/// the sections it stands in, in order of first mention, and the profiles
/// that list it, once for each section of theirs that lists it.
pub fn check_listing(registry: &Registry) -> (r: Vec<CheckListing>)
    ensures
        r.deep_view() == registry_listing(registry.view()),
{
    let ghost rv = registry.view();
    let names = registry.profile_names();
    let ghost order = names.deep_view();
    let mut out: Vec<CheckListing> = Vec::new();
    let mut p: usize = 0;
    proof {
        assert(order.take(0) =~= Seq::<Seq<char>>::empty());
        assert(out.deep_view() =~= Seq::<(Seq<char>, Seq<Seq<char>>, Seq<Seq<char>>)>::empty());
    }
    while p < names.len()
        invariant
            rv == registry.view(),
            order == names.deep_view(),
            order == rv.order,
            forall|n: Seq<char>| #[trigger] order.contains(n) <==> rv.profiles.contains_key(n),
            p <= order.len(),
            out.deep_view() == listing_of(occurrences(order.take(p as int), rv.profiles), rv.checks),
        decreases names.len() - p,
    {
        let ghost done = occurrences(order.take(p as int), rv.profiles);
        proof {
            assert(order.take(p + 1).drop_last() =~= order.take(p as int));
            assert(order.take(p + 1).last() == order[p as int]);
            assert(order.contains(order[p as int]));
        }
        match registry.get_profile(names[p].as_str()) {
            Some(profile) => {
                let pairs = profile.check_order();
                let ghost pv = pairs.deep_view();
                let ghost name = order[p as int];
                let ghost added = pv.map_values(|sc: (Seq<char>, Seq<char>)| (name, sc.0, sc.1));
                let mut k: usize = 0;
                proof { assert(done + added.take(0) =~= done); }
                while k < pairs.len()
                    invariant
                        rv == registry.view(),
                        pv == pairs.deep_view(),
                        name == names.deep_view()[p as int],
                        p < names.len(),
                        added == pv.map_values(|sc: (Seq<char>, Seq<char>)| (name, sc.0, sc.1)),
                        k <= pv.len(),
                        out.deep_view() == listing_of(done + added.take(k as int), rv.checks),
                    decreases pairs.len() - k,
                {
                    let registered = registry.has_check(pairs[k].1.as_str());
                    let ghost before = out.deep_view();
                    add_occurrence(&mut out, names[p].as_str(), pairs[k].0.as_str(), pairs[k].1.as_str(), registered);
                    proof {
                        let occ = (name, pv[k as int].0, pv[k as int].1);
                        let occs = done + added.take(k + 1);
                        assert(occs.drop_last() =~= done + added.take(k as int));
                        assert(occs.last() == occ);
                        let single = if registered { set![occ.2] } else { Set::<Seq<char>>::empty() };
                        assert(single.contains(occ.2) == rv.checks.contains(occ.2));
                        assert(listed(before, occ, single) == listed(before, occ, rv.checks));
                    }
                    k = k + 1;
                }
                proof {
                    assert(added.take(pv.len() as int) =~= added);
                    assert(occurrences(order.take(p + 1), rv.profiles) =~= done + added);
                }
            },
            None => {
                proof { assert(false); }
            },
        }
        p = p + 1;
    }
    proof { assert(order.take(order.len() as int) =~= order); }
    out
}

} // verus!
