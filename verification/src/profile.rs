//! Profiles: named selections of checks, grouped in sections, that may
//! include other profiles, exclude checks and give checks default
//! configuration; and the registry that holds registered checks and
//! profiles.
use vstd::prelude::*;
use crate::text::{str_equal, lemma_push_to_set};
use crate::sections::{merge_all, merge_sections_into, remove_excluded, without_excluded, runs, lemma_merge_all_runs};

verus! {

/// A profile.
#[derive(Clone, Debug)]
pub struct Profile {
    /// Sections in order: a name and the IDs of its checks.
    pub sections: Vec<(String, Vec<String>)>,
    /// Profiles whose checks this profile also runs.
    pub include_profiles: Vec<String>,
    /// Checks of included profiles that this profile does not run.
    pub exclude_checks: Vec<String>,
    /// Default configuration: a check ID and its key/value pairs.
    pub configuration_defaults: Vec<(String, Vec<(String, String)>)>,
}

/// The mathematical content of a [`Profile`].
pub struct ProfileView {
    pub sections: Seq<(Seq<char>, Seq<Seq<char>>)>,
    pub include_profiles: Seq<Seq<char>>,
    pub exclude_checks: Seq<Seq<char>>,
    pub configuration_defaults: Seq<(Seq<char>, Seq<(Seq<char>, Seq<char>)>)>,
}

impl DeepView for Profile {
    type V = ProfileView;

    open spec fn deep_view(&self) -> ProfileView {
        ProfileView {
            sections: self.sections.deep_view(),
            include_profiles: self.include_profiles.deep_view(),
            exclude_checks: self.exclude_checks.deep_view(),
            configuration_defaults: self.configuration_defaults.deep_view(),
        }
    }
}

/// The checks of `secs` in order, each with the name of its section.
pub open spec fn section_order(secs: Seq<(Seq<char>, Seq<Seq<char>>)>) -> Seq<(Seq<char>, Seq<char>)>
    decreases secs.len(),
{
    if secs.len() == 0 {
        Seq::empty()
    } else {
        let last = secs.last();
        section_order(secs.drop_last()) + last.1.map_values(|c: Seq<char>| (last.0, c))
    }
}

impl Profile {
    /// The checks the profile runs, in order, each with the name of its
    /// section.
    pub fn check_order(&self) -> (r: Vec<(String, String)>)
        ensures
            r.deep_view() == section_order(self.deep_view().sections),
    {
        let ghost secs = self.sections.deep_view();
        let mut order: Vec<(String, String)> = Vec::new();
        let mut i: usize = 0;
        proof {
            assert(secs.take(0) =~= Seq::<(Seq<char>, Seq<Seq<char>>)>::empty());
            assert(order.deep_view() =~= Seq::<(Seq<char>, Seq<char>)>::empty());
        }
        while i < self.sections.len()
            invariant
                secs == self.sections.deep_view(),
                i <= secs.len(),
                order.deep_view() == section_order(secs.take(i as int)),
            decreases self.sections.len() - i,
        {
            let ghost start = order.deep_view();
            let ghost sec = secs[i as int];
            let mut k: usize = 0;
            while k < self.sections[i].1.len()
                invariant
                    secs == self.sections.deep_view(),
                    i < secs.len(),
                    sec == secs[i as int],
                    k <= sec.1.len(),
                    order.deep_view() == start + sec.1.take(k as int).map_values(|c: Seq<char>| (sec.0, c)),
                decreases self.sections[i as int].1.len() - k,
            {
                let ghost before = order.deep_view();
                let label = self.sections[i].0.clone();
                let id = self.sections[i].1[k].clone();
                proof {
                    assert(label@ == sec.0);
                    assert(self.sections[i as int].1.deep_view()[k as int] == sec.1[k as int]);
                    assert(id@ == sec.1[k as int]);
                }
                order.push((label, id));
                proof {
                    assert(order.deep_view() =~= before.push((sec.0, sec.1[k as int])));
                    assert(sec.1.take(k + 1).map_values(|c: Seq<char>| (sec.0, c))
                        =~= sec.1.take(k as int).map_values(|c: Seq<char>| (sec.0, c)).push((sec.0, sec.1[k as int])));
                    assert(order.deep_view() =~= start + sec.1.take(k + 1).map_values(|c: Seq<char>| (sec.0, c)));
                }
                k = k + 1;
            }
            proof {
                assert(sec.1.take(sec.1.len() as int) =~= sec.1);
                assert(secs.take(i + 1).drop_last() =~= secs.take(i as int));
                assert(secs.take(i + 1).last() == sec);
            }
            i = i + 1;
        }
        proof { assert(secs.take(secs.len() as int) =~= secs); }
        order
    }
}

/// A profile under construction, and the checks it will register.
pub struct ProfileBuilder {
    profile: Profile,
    checks: Vec<String>,
}

/// The mathematical content of a [`ProfileBuilder`].
pub struct ProfileBuilderView {
    pub profile: ProfileView,
    pub checks: Seq<Seq<char>>,
}

/// The empty profile.
pub open spec fn empty_profile() -> ProfileView {
    ProfileView {
        sections: Seq::empty(),
        include_profiles: Seq::empty(),
        exclude_checks: Seq::empty(),
        configuration_defaults: Seq::empty(),
    }
}

/// A profile with a check added to its last section, if it has one.
pub open spec fn add_to_last_section(p: ProfileView, check: Seq<char>) -> ProfileView {
    if p.sections.len() == 0 {
        p
    } else {
        let last = p.sections.last();
        ProfileView { sections: p.sections.drop_last().push((last.0, last.1.push(check))), ..p }
    }
}

impl ProfileBuilder {
    pub closed spec fn view(&self) -> ProfileBuilderView {
        ProfileBuilderView { profile: self.profile.deep_view(), checks: self.checks.deep_view() }
    }

    /// An empty builder.
    pub fn new() -> (b: Self)
        ensures
            b.view() == (ProfileBuilderView { profile: empty_profile(), checks: Seq::empty() }),
    {
        let b = ProfileBuilder {
            profile: Profile {
                sections: Vec::new(),
                include_profiles: Vec::new(),
                exclude_checks: Vec::new(),
                configuration_defaults: Vec::new(),
            },
            checks: Vec::new(),
        };
        proof {
            assert(b.view().profile.sections =~= Seq::<(Seq<char>, Seq<Seq<char>>)>::empty());
            assert(b.view().profile.include_profiles =~= Seq::<Seq<char>>::empty());
            assert(b.view().profile.exclude_checks =~= Seq::<Seq<char>>::empty());
            assert(b.view().profile.configuration_defaults =~= Seq::<(Seq<char>, Seq<(Seq<char>, Seq<char>)>)>::empty());
            assert(b.view().checks =~= Seq::<Seq<char>>::empty());
        }
        b
    }

    /// Includes the profile `name`.
    pub fn include_profile(self, name: &str) -> (b: Self)
        ensures
            b.view() == (ProfileBuilderView {
                profile: ProfileView {
                    include_profiles: self.view().profile.include_profiles.push(name@),
                    ..self.view().profile
                },
                ..self.view()
            }),
    {
        let mut b = self;
        let ghost before = b.profile.include_profiles.deep_view();
        b.profile.include_profiles.push(name.to_string());
        proof { assert(b.profile.include_profiles.deep_view() =~= before.push(name@)); }
        b
    }

    /// Excludes the check `check_id` of the included profiles.
    pub fn exclude_check(self, check_id: &str) -> (b: Self)
        ensures
            b.view() == (ProfileBuilderView {
                profile: ProfileView {
                    exclude_checks: self.view().profile.exclude_checks.push(check_id@),
                    ..self.view().profile
                },
                ..self.view()
            }),
    {
        let mut b = self;
        let ghost before = b.profile.exclude_checks.deep_view();
        b.profile.exclude_checks.push(check_id.to_string());
        proof { assert(b.profile.exclude_checks.deep_view() =~= before.push(check_id@)); }
        b
    }

    /// Starts a new, empty section.
    pub fn add_section(self, name: &str) -> (b: Self)
        ensures
            b.view() == (ProfileBuilderView {
                profile: ProfileView {
                    sections: self.view().profile.sections.push((name@, Seq::<Seq<char>>::empty())),
                    ..self.view().profile
                },
                ..self.view()
            }),
    {
        let mut b = self;
        let ghost before = b.profile.sections.deep_view();
        let checks: Vec<String> = Vec::new();
        b.profile.sections.push((name.to_string(), checks));
        proof {
            assert(checks.deep_view() =~= Seq::<Seq<char>>::empty());
            assert(b.profile.sections.deep_view() =~= before.push((name@, Seq::<Seq<char>>::empty())));
        }
        b
    }

    /// Adds the check `check_id` to the current (last) section and registers
    /// it when the profile is built.
    pub fn add_and_register_check(self, check_id: &str) -> (b: Self)
        ensures
            b.view() == (ProfileBuilderView {
                profile: add_to_last_section(self.view().profile, check_id@),
                checks: self.view().checks.push(check_id@),
            }),
    {
        let mut b = self;
        let ghost p0 = b.profile.deep_view();
        let ghost c0 = b.checks.deep_view();
        b.checks.push(check_id.to_string());
        proof { assert(b.checks.deep_view() =~= c0.push(check_id@)); }
        let ghost s0 = b.profile.sections.deep_view();
        match b.profile.sections.pop() {
            Some(last) => {
                let (name, mut checks) = last;
                let ghost cs = checks.deep_view();
                checks.push(check_id.to_string());
                proof { assert(checks.deep_view() =~= cs.push(check_id@)); }
                let ghost s1 = b.profile.sections.deep_view();
                b.profile.sections.push((name, checks));
                proof {
                    assert(s1 =~= s0.drop_last());
                    assert(b.profile.sections.deep_view() =~= s0.drop_last().push((s0.last().0, s0.last().1.push(check_id@))));
                    assert(b.profile.deep_view() =~= add_to_last_section(p0, check_id@));
                }
            },
            None => {
                proof { assert(b.profile.deep_view() =~= add_to_last_section(p0, check_id@)); }
            },
        }
        b
    }

    /// Gives the check `check_id` default configuration values.
    pub fn with_configuration_defaults(self, check_id: &str, values: Vec<(String, String)>) -> (b: Self)
        ensures
            b.view() == (ProfileBuilderView {
                profile: ProfileView {
                    configuration_defaults: self.view().profile.configuration_defaults.push(
                        (check_id@, values.deep_view()),
                    ),
                    ..self.view().profile
                },
                ..self.view()
            }),
    {
        let mut b = self;
        let ghost before = b.profile.configuration_defaults.deep_view();
        let ghost vv = values.deep_view();
        b.profile.configuration_defaults.push((check_id.to_string(), values));
        proof { assert(b.profile.configuration_defaults.deep_view() =~= before.push((check_id@, vv))); }
        b
    }

    /// Registers the builder's checks and the profile under `name`. Fails,
    /// changing nothing, when an included profile is not registered.
    pub fn build(self, name: &str, registry: &mut Registry) -> (r: Result<(), String>)
        ensures
            match first_unknown_profile(self.view().profile.include_profiles, old(registry).view().profiles) {
                Some(p) => (r matches Err(m) && m@ == "Unknown profile: "@ + p) && final(registry).view() == old(registry).view(),
                None => r is Ok && final(registry).view() == registered(old(registry).view(), name@, self.view()),
            },
    {
        let mut i: usize = 0;
        let ghost incl = self.profile.include_profiles.deep_view();
        let ghost known = registry.view().profiles;
        proof { assert(incl.skip(0) =~= incl); }
        while i < self.profile.include_profiles.len()
            invariant
                incl == self.profile.include_profiles.deep_view(),
                known == registry.view().profiles,
                i <= incl.len(),
                first_unknown_profile(incl, known) == first_unknown_profile(incl.skip(i as int), known),
            decreases self.profile.include_profiles.len() - i,
        {
            proof {
                assert(incl.skip(i as int)[0] == incl[i as int]);
                assert(incl.skip(i as int).drop_first() =~= incl.skip(i + 1));
            }
            if !registry.has_profile(self.profile.include_profiles[i].as_str()) {
                let mut m = String::new();
                m.append("Unknown profile: ");
                m.append(self.profile.include_profiles[i].as_str());
                return Err(m);
            }
            i = i + 1;
        }
        proof {
            assert(incl.skip(i as int) =~= Seq::<Seq<char>>::empty());
            lemma_no_unknown_profile(incl, known);
        }
        let ghost r0 = registry.view();
        let ProfileBuilder { profile, checks } = self;
        let ghost pv = profile.deep_view();
        let Profile { sections, include_profiles, exclude_checks, configuration_defaults } = profile;
        let mut merged = sections;
        let mut j: usize = 0;
        proof { assert(incl.take(0) =~= Seq::<Seq<char>>::empty()); }
        while j < include_profiles.len()
            invariant
                incl == include_profiles.deep_view(),
                known == registry.view().profiles,
                j <= incl.len(),
                forall|m: int| 0 <= m < incl.len() ==> known.contains_key(#[trigger] incl[m]),
                merged.deep_view() == merge_includes(pv.sections, incl.take(j as int), known),
            decreases include_profiles.len() - j,
        {
            proof {
                assert(incl.take(j + 1).drop_last() =~= incl.take(j as int));
                assert(incl.take(j + 1).last() == incl[j as int]);
                assert(known.contains_key(incl[j as int]));
            }
            match registry.get_profile(include_profiles[j].as_str()) {
                Some(p) => merge_sections_into(&mut merged, &p.sections),
                None => {},
            }
            j = j + 1;
        }
        proof { assert(incl.take(incl.len() as int) =~= incl); }
        let kept = remove_excluded(&merged, &exclude_checks);
        let profile = Profile { sections: kept, include_profiles, exclude_checks, configuration_defaults };
        proof { assert(profile.deep_view() == resolved(pv, known)); }
        let mut k: usize = 0;
        let ghost cv = checks.deep_view();
        proof {
            assert(cv.take(0).to_set() =~= Set::<Seq<char>>::empty());
            assert(r0.checks.union(cv.take(0).to_set()) =~= r0.checks);
        }
        while k < checks.len()
            invariant
                cv == checks.deep_view(),
                k <= cv.len(),
                registry.view() == (RegistryView { checks: r0.checks.union(cv.take(k as int).to_set()), ..r0 }),
            decreases checks.len() - k,
        {
            let ghost before = registry.view();
            registry.register_check(checks[k].as_str());
            proof {
                assert(cv.take(k + 1) =~= cv.take(k as int).push(cv[k as int]));
                lemma_push_to_set(cv.take(k as int), cv[k as int]);
                assert(registry.view().checks =~= r0.checks.union(cv.take(k + 1).to_set()));
            }
            k = k + 1;
        }
        proof { assert(cv.take(cv.len() as int) =~= cv); }
        registry.register_profile(name, profile);
        Ok(())
    }
}

/// The first of `includes` that is not among the registered profiles.
pub open spec fn first_unknown_profile(includes: Seq<Seq<char>>, profiles: Map<Seq<char>, ProfileView>) -> Option<Seq<char>>
    decreases includes.len(),
{
    if includes.len() == 0 {
        None
    } else if !profiles.contains_key(includes[0]) {
        Some(includes[0])
    } else {
        first_unknown_profile(includes.drop_first(), profiles)
    }
}

/// Every one of `includes` is among the registered profiles when none is
/// unknown.
pub proof fn lemma_no_unknown_profile(includes: Seq<Seq<char>>, profiles: Map<Seq<char>, ProfileView>)
    requires
        first_unknown_profile(includes, profiles) is None,
    ensures
        forall|j: int| 0 <= j < includes.len() ==> profiles.contains_key(#[trigger] includes[j]),
    decreases includes.len(),
{
    if includes.len() > 0 {
        lemma_no_unknown_profile(includes.drop_first(), profiles);
        assert forall|j: int| 0 <= j < includes.len() implies profiles.contains_key(#[trigger] includes[j]) by {
            if j > 0 {
                assert(includes.drop_first()[j - 1] == includes[j]);
            }
        }
    }
}

/// `secs` with the sections of each of the profiles `includes` merged in,
/// in order.
pub open spec fn merge_includes(
    secs: Seq<(Seq<char>, Seq<Seq<char>>)>,
    includes: Seq<Seq<char>>,
    profiles: Map<Seq<char>, ProfileView>,
) -> Seq<(Seq<char>, Seq<Seq<char>>)>
    decreases includes.len(),
{
    if includes.len() == 0 {
        secs
    } else {
        merge_all(merge_includes(secs, includes.drop_last(), profiles), profiles[includes.last()].sections)
    }
}

/// Whether a section of one of the profiles `includes` holds the check `c`.
pub open spec fn included_runs(includes: Seq<Seq<char>>, profiles: Map<Seq<char>, ProfileView>, c: Seq<char>) -> bool {
    exists|j: int| 0 <= j < includes.len() && runs(profiles[#[trigger] includes[j]].sections, c)
}

/// After merging in the sections of `includes`, a check runs when it ran
/// before or a section of one of them holds it.
pub proof fn lemma_merge_includes_runs(
    secs: Seq<(Seq<char>, Seq<Seq<char>>)>,
    includes: Seq<Seq<char>>,
    profiles: Map<Seq<char>, ProfileView>,
    c: Seq<char>,
)
    ensures
        runs(merge_includes(secs, includes, profiles), c) <==> (runs(secs, c) || included_runs(includes, profiles, c)),
    decreases includes.len(),
{
    if includes.len() > 0 {
        let prev = includes.drop_last();
        lemma_merge_includes_runs(secs, prev, profiles, c);
        lemma_merge_all_runs(merge_includes(secs, prev, profiles), profiles[includes.last()].sections, c);
        assert(includes[includes.len() - 1] == includes.last());
        if included_runs(includes, profiles, c) {
            let j = choose|j: int| 0 <= j < includes.len() && runs(profiles[#[trigger] includes[j]].sections, c);
            if j < prev.len() {
                assert(prev[j] == includes[j]);
            }
        }
        if included_runs(prev, profiles, c) {
            let j = choose|j: int| 0 <= j < prev.len() && runs(profiles[#[trigger] prev[j]].sections, c);
            assert(prev[j] == includes[j]);
        }
    }
}

/// A profile as it is registered: its sections with those of the profiles
/// it includes merged in, without the checks it excludes.
pub open spec fn resolved(p: ProfileView, profiles: Map<Seq<char>, ProfileView>) -> ProfileView {
    ProfileView {
        sections: without_excluded(merge_includes(p.sections, p.include_profiles, profiles), p.exclude_checks),
        ..p
    }
}

/// The registry after a builder's checks and profile were registered.
pub open spec fn registered(r: RegistryView, name: Seq<char>, b: ProfileBuilderView) -> RegistryView {
    RegistryView {
        checks: r.checks.union(b.checks.to_set()),
        profiles: r.profiles.insert(name, resolved(b.profile, r.profiles)),
        order: named_in_order(r, name),
    }
}

/// The names of the registered profiles in order of first registration,
/// after a profile was registered under `name`.
pub open spec fn named_in_order(r: RegistryView, name: Seq<char>) -> Seq<Seq<char>> {
    if r.profiles.contains_key(name) {
        r.order
    } else {
        r.order.push(name)
    }
}

/// The registered checks and profiles.
pub struct Registry {
    checks: Vec<String>,
    profiles: Vec<(String, Profile)>,
}

/// The mathematical content of a [`Registry`]: the IDs of the registered
/// checks, the registered profiles by name, and their names in order of
/// first registration.
pub struct RegistryView {
    pub checks: Set<Seq<char>>,
    pub profiles: Map<Seq<char>, ProfileView>,
    pub order: Seq<Seq<char>>,
}

/// Whether no two of `entries` carry the same name.
pub open spec fn names_unique(entries: Seq<(Seq<char>, ProfileView)>) -> bool {
    forall|i: int, j: int| 0 <= i < j < entries.len() ==> (#[trigger] entries[i]).0 != (#[trigger] entries[j]).0
}

/// The profiles by name, a later registration replacing an earlier one.
pub open spec fn profile_map(entries: Seq<(Seq<char>, ProfileView)>) -> Map<Seq<char>, ProfileView>
    decreases entries.len(),
{
    if entries.len() == 0 {
        Map::empty()
    } else {
        profile_map(entries.drop_last()).insert(entries.last().0, entries.last().1)
    }
}

impl Registry {
    pub closed spec fn view(&self) -> RegistryView {
        RegistryView {
            checks: self.checks.deep_view().to_set(),
            profiles: profile_map(self.profiles.deep_view()),
            order: self.profiles.deep_view().map_values(|e: (Seq<char>, ProfileView)| e.0),
        }
    }

    /// A name is registered once.
    #[verifier::type_invariant]
    closed spec fn names_are_unique(&self) -> bool {
        names_unique(self.profiles.deep_view())
    }

    /// An empty registry.
    pub fn new() -> (r: Self)
        ensures
            r.view().checks == Set::<Seq<char>>::empty(),
            r.view().profiles == Map::<Seq<char>, ProfileView>::empty(),
            r.view().order == Seq::<Seq<char>>::empty(),
    {
        let r = Registry { checks: Vec::new(), profiles: Vec::new() };
        proof {
            assert(r.checks.deep_view() =~= Seq::<Seq<char>>::empty());
            assert(r.view().checks =~= Set::<Seq<char>>::empty());
            assert(r.profiles.deep_view() =~= Seq::<(Seq<char>, ProfileView)>::empty());
            assert(r.view().order =~= Seq::<Seq<char>>::empty());
        }
        r
    }

    /// Registers the check `check_id`.
    pub fn register_check(&mut self, check_id: &str)
        ensures
            final(self).view() == (RegistryView { checks: old(self).view().checks.insert(check_id@), ..old(self).view() }),
    {
        proof { use_type_invariant(&*self); }
        let ghost c0 = self.checks.deep_view();
        let mut checks: Vec<String> = Vec::new();
        std::mem::swap(&mut checks, &mut self.checks);
        checks.push(check_id.to_string());
        self.checks = checks;
        proof {
            assert(self.checks.deep_view() =~= c0.push(check_id@));
            lemma_push_to_set(c0, check_id@);
        }
    }

    /// The index of the entry named `name`.
    fn entry_index(&self, name: &str) -> (r: Option<usize>)
        ensures
            match r {
                Some(i) => i < self.profiles.len() && self.profiles.deep_view()[i as int].0 == name@,
                None => forall|j: int| 0 <= j < self.profiles.len() ==> (#[trigger] self.profiles.deep_view()[j]).0 != name@,
            },
    {
        let ghost pv = self.profiles.deep_view();
        let mut i: usize = 0;
        while i < self.profiles.len()
            invariant
                pv == self.profiles.deep_view(),
                i <= pv.len(),
                forall|j: int| 0 <= j < i ==> (#[trigger] pv[j]).0 != name@,
            decreases self.profiles.len() - i,
        {
            if str_equal(self.profiles[i].0.as_str(), name) {
                proof { assert(pv[i as int].0 == name@); }
                return Some(i);
            }
            i = i + 1;
        }
        None
    }

    /// Registers `profile` under `name`, replacing a profile of that name.
    pub fn register_profile(&mut self, name: &str, profile: Profile)
        ensures
            final(self).view() == (RegistryView {
                checks: old(self).view().checks,
                profiles: old(self).view().profiles.insert(name@, profile.deep_view()),
                order: if old(self).view().profiles.contains_key(name@) {
                    old(self).view().order
                } else {
                    old(self).view().order.push(name@)
                },
            }),
    {
        proof { use_type_invariant(&*self); }
        let ghost p0 = self.profiles.deep_view();
        let ghost pv = profile.deep_view();
        proof { lemma_profile_map_domain(p0); }
        let found = self.entry_index(name);
        let mut entries: Vec<(String, Profile)> = Vec::new();
        std::mem::swap(&mut entries, &mut self.profiles);
        match found {
            Some(i) => {
                entries.set(i, (name.to_string(), profile));
                proof {
                    let p1 = entries.deep_view();
                    assert(p1 =~= p0.update(i as int, (name@, pv)));
                    lemma_profile_map_update(p0, i as int, pv);
                    assert(p1.map_values(|e: (Seq<char>, ProfileView)| e.0)
                        =~= p0.map_values(|e: (Seq<char>, ProfileView)| e.0));
                    assert(profile_map(p0).contains_key(name@));
                }
            },
            None => {
                entries.push((name.to_string(), profile));
                proof {
                    let p1 = entries.deep_view();
                    assert(p1 =~= p0.push((name@, pv)));
                    assert(p1.drop_last() =~= p0);
                    assert(p1.map_values(|e: (Seq<char>, ProfileView)| e.0)
                        =~= p0.map_values(|e: (Seq<char>, ProfileView)| e.0).push(name@));
                    assert(!profile_map(p0).contains_key(name@));
                    assert forall|a: int, b: int| 0 <= a < b < p1.len() implies (#[trigger] p1[a]).0 != (#[trigger] p1[b]).0 by {
                        if b < p0.len() {
                            assert(p0[a] == p1[a] && p0[b] == p1[b]);
                        } else {
                            assert(p0[a] == p1[a]);
                        }
                    }
                }
            },
        }
        self.profiles = entries;
    }

    /// The names of the registered profiles, in order of first registration.
    pub fn profile_names(&self) -> (r: Vec<String>)
        ensures
            r.deep_view() == self.view().order,
            r.deep_view().no_duplicates(),
            forall|n: Seq<char>| #[trigger] r.deep_view().contains(n) <==> self.view().profiles.contains_key(n),
    {
        proof { use_type_invariant(self); }
        let ghost pv = self.profiles.deep_view();
        let mut names: Vec<String> = Vec::new();
        let mut i: usize = 0;
        while i < self.profiles.len()
            invariant
                pv == self.profiles.deep_view(),
                i <= pv.len(),
                names.deep_view() == pv.take(i as int).map_values(|e: (Seq<char>, ProfileView)| e.0),
            decreases self.profiles.len() - i,
        {
            let ghost before = names.deep_view();
            names.push(self.profiles[i].0.clone());
            proof {
                assert(names.deep_view() =~= before.push(pv[i as int].0));
                assert(pv.take(i + 1).map_values(|e: (Seq<char>, ProfileView)| e.0)
                    =~= pv.take(i as int).map_values(|e: (Seq<char>, ProfileView)| e.0).push(pv[i as int].0));
            }
            i = i + 1;
        }
        proof {
            assert(pv.take(pv.len() as int) =~= pv);
            lemma_profile_map_domain(pv);
            let nv = names.deep_view();
            assert forall|a: int, b: int| 0 <= a < nv.len() && 0 <= b < nv.len() && a != b implies nv[a] != nv[b] by {
                if a < b {
                    assert(pv[a].0 != pv[b].0);
                } else {
                    assert(pv[b].0 != pv[a].0);
                }
            }
            assert forall|n: Seq<char>| #[trigger] names.deep_view().contains(n) <==> self.view().profiles.contains_key(n) by {
                if names.deep_view().contains(n) {
                    let j = choose|j: int| 0 <= j < names.deep_view().len() && names.deep_view()[j] == n;
                    assert(pv[j].0 == n);
                }
                if self.view().profiles.contains_key(n) {
                    let j = choose|j: int| 0 <= j < pv.len() && (#[trigger] pv[j]).0 == n;
                    assert(names.deep_view()[j] == n);
                }
            }
        }
        names
    }

    /// Whether a profile is registered under `name`.
    pub fn has_profile(&self, name: &str) -> (r: bool)
        ensures
            r == self.view().profiles.contains_key(name@),
    {
        self.get_profile(name).is_some()
    }

    /// The IDs of the registered checks, in order of registration; an ID
    /// registered more than once is listed once per registration.
    pub fn check_ids(&self) -> (r: Vec<String>)
        ensures
            r.deep_view().to_set() == self.view().checks,
    {
        let ids = self.checks.clone();
        proof { assert(ids.deep_view() =~= self.checks.deep_view()); }
        ids
    }

    /// Whether the check `check_id` is registered.
    pub fn has_check(&self, check_id: &str) -> (r: bool)
        ensures
            r == self.view().checks.contains(check_id@),
    {
        let ghost cv = self.checks.deep_view();
        let mut i: usize = 0;
        while i < self.checks.len()
            invariant
                cv == self.checks.deep_view(),
                i <= cv.len(),
                forall|j: int| 0 <= j < i ==> cv[j] != check_id@,
            decreases self.checks.len() - i,
        {
            if str_equal(self.checks[i].as_str(), check_id) {
                proof { assert(cv[i as int] == check_id@); assert(cv.contains(check_id@)); }
                return true;
            }
            i = i + 1;
        }
        false
    }

    /// The profile registered under `name`.
    pub fn get_profile(&self, name: &str) -> (r: Option<&Profile>)
        ensures
            match r {
                Some(p) => self.view().profiles.contains_key(name@) && self.view().profiles[name@] == p.deep_view(),
                None => !self.view().profiles.contains_key(name@),
            },
    {
        let ghost pv = self.profiles.deep_view();
        let mut i: usize = self.profiles.len();
        proof { assert(pv.take(pv.len() as int) =~= pv); }
        while i > 0
            invariant
                pv == self.profiles.deep_view(),
                i <= pv.len(),
                profile_map(pv).contains_key(name@) == profile_map(pv.take(i as int)).contains_key(name@),
                profile_map(pv).contains_key(name@) ==> profile_map(pv)[name@] == profile_map(pv.take(i as int))[name@],
            decreases i,
        {
            proof { assert(pv.take(i as int).drop_last() =~= pv.take(i - 1)); }
            if str_equal(self.profiles[i - 1].0.as_str(), name) {
                proof { assert(pv.take(i as int).last() == pv[i - 1]); }
                return Some(&self.profiles[i - 1].1);
            }
            i = i - 1;
        }
        None
    }
}

/// A name has a profile exactly when some entry carries it.
pub proof fn lemma_profile_map_domain(entries: Seq<(Seq<char>, ProfileView)>)
    ensures
        forall|n: Seq<char>| #[trigger] profile_map(entries).contains_key(n)
            <==> exists|j: int| 0 <= j < entries.len() && (#[trigger] entries[j]).0 == n,
    decreases entries.len(),
{
    if entries.len() > 0 {
        let prev = entries.drop_last();
        lemma_profile_map_domain(prev);
        assert forall|n: Seq<char>| #[trigger] profile_map(entries).contains_key(n)
            <==> exists|j: int| 0 <= j < entries.len() && (#[trigger] entries[j]).0 == n by {
            if profile_map(entries).contains_key(n) {
                if n != entries.last().0 {
                    assert(profile_map(prev).contains_key(n));
                    let j = choose|j: int| 0 <= j < prev.len() && (#[trigger] prev[j]).0 == n;
                    assert(prev[j] == entries[j]);
                } else {
                    assert(entries[entries.len() - 1].0 == n);
                }
            }
            if exists|j: int| 0 <= j < entries.len() && (#[trigger] entries[j]).0 == n {
                let j = choose|j: int| 0 <= j < entries.len() && (#[trigger] entries[j]).0 == n;
                if j < prev.len() {
                    assert(prev[j] == entries[j]);
                    assert(profile_map(prev).contains_key(n));
                }
            }
        }
    }
}

/// Replacing the profile of the one entry named like the `i`th gives the
/// map with that name mapped to the new profile.
pub proof fn lemma_profile_map_update(entries: Seq<(Seq<char>, ProfileView)>, i: int, p: ProfileView)
    requires
        names_unique(entries),
        0 <= i < entries.len(),
    ensures
        profile_map(entries.update(i, (entries[i].0, p))) == profile_map(entries).insert(entries[i].0, p),
    decreases entries.len(),
{
    let n = entries[i].0;
    let updated = entries.update(i, (n, p));
    let prev = entries.drop_last();
    if i == entries.len() - 1 {
        assert(updated.drop_last() =~= prev);
        assert(profile_map(updated) =~= profile_map(entries).insert(n, p));
    } else {
        assert(updated.drop_last() =~= prev.update(i, (n, p)));
        assert(prev[i] == entries[i]);
        assert(names_unique(prev)) by {
            assert forall|a: int, b: int| 0 <= a < b < prev.len() implies (#[trigger] prev[a]).0 != (#[trigger] prev[b]).0 by {
                assert(prev[a] == entries[a] && prev[b] == entries[b]);
            }
        }
        lemma_profile_map_update(prev, i, p);
        let l = entries.last();
        assert(entries[entries.len() - 1] == l);
        assert(l.0 != n);
        assert(updated.last() == l);
        assert(profile_map(updated) =~= profile_map(entries).insert(n, p));
    }
}

/// Registering a profile and looking it up gives back the profile.
pub proof fn lemma_profile_read_back(before: RegistryView, after: RegistryView, name: Seq<char>, p: ProfileView)
    requires
        after.profiles == before.profiles.insert(name, p),
    ensures
        after.profiles.contains_key(name),
        after.profiles[name] == p,
        forall|other: Seq<char>| other != name ==> #[trigger] after.profiles.contains_key(other)
            == before.profiles.contains_key(other) && (before.profiles.contains_key(other)
            ==> after.profiles[other] == before.profiles[other]),
{
}

} // verus!
