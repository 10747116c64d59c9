//! The Fontwerk and ISO 15009 profiles and their registration.
use vstd::prelude::*;
use crate::profile::{ProfileBuilder, ProfileBuilderView, ProfileView, Registry, first_unknown_profile, registered};

verus! {

/// The ID of the check that compares name table entries with the
/// configuration.
pub open spec fn name_entries_id() -> Seq<char> {
    "fontwerk/name_entries"@
}

/// The licence text Fontwerk fonts carry.
pub open spec fn fontwerk_license_description() -> Seq<char> {
    "This Font Software is the property of Fontwerk GmbH its use by you is covered under the terms of an End-User License Agreement (EULA). Unless you have entered into a specific license agreement granting you additional rights, your use of this Font Software is limited by the terms of the actual license agreement you have entered into with Fontwerk. If you have any questions concerning your rights you should review the EULA you received with the software or contact Fontwerk. A copy of the EULA for this Font Software can be found on https://fontwerk.com/licensing."@
}

/// The Google Fonts checks that the Fontwerk profile does not run.
pub open spec fn fontwerk_excluded_checks() -> Seq<Seq<char>> {
    seq![
        "googlefonts/canonical_filename"@,
        "googlefonts/family/italics_have_roman_counterparts"@,
        "googlefonts/font_copyright"@,
        "googlefonts/fstype"@,
        "googlefonts/gasp"@,
        "googlefonts/metadata/includes_production_subsets"@,
        "googlefonts/meta/script_lang_tags"@,
        "googlefonts/name/description_max_length"@,
        "googlefonts/name/line_breaks"@,
        "googlefonts/production_glyphs_similarity"@,
        "googlefonts/vendor_id"@,
        "googlefonts/version_bump"@,
        "fontdata_namecheck"@,
    ]
}

/// The Fontwerk profile: the Google Fonts profile without the checks above,
/// the OpenType profile, a Fontwerk section, and default configuration for
/// the vendor ID and the name table entries.
pub open spec fn fontwerk_builder() -> ProfileBuilderView {
    ProfileBuilderView {
        profile: ProfileView {
            sections: seq![("Fontwerk Checks"@, seq![name_entries_id()])],
            include_profiles: seq!["googlefonts"@, "opentype"@],
            exclude_checks: fontwerk_excluded_checks(),
            configuration_defaults: seq![
                ("opentype/vendor_id"@, seq![("vendor_id"@, "WERK"@)]),
                (
                    name_entries_id(),
                    seq![
                        ("MANUFACTURER"@, "Fontwerk"@),
                        ("VENDOR_URL"@, "https://fontwerk.com"@),
                        ("LICENSE_DESCRIPTION"@, fontwerk_license_description()),
                        ("LICENSE_URL"@, "https://fontwerk.com"@),
                    ],
                ),
            ],
        },
        checks: seq![name_entries_id()],
    }
}

/// The Fontwerk profile.
pub struct Fontwerk;

fn pair(k: &str, v: &str) -> (r: (String, String))
    ensures
        r.0@ == k@,
        r.1@ == v@,
{
    (k.to_string(), v.to_string())
}

impl Fontwerk {
    /// Registers the `fontwerk/name_entries` check and the profile
    /// `fontwerk`. Fails, changing nothing, unless the `googlefonts` and
    /// `opentype` profiles are registered.
    pub fn register(&self, cr: &mut Registry) -> (r: Result<(), String>)
        ensures
            match first_unknown_profile(seq!["googlefonts"@, "opentype"@], old(cr).view().profiles) {
                Some(p) => (r matches Err(m) && m@ == "Unknown profile: "@ + p) && final(cr).view() == old(cr).view(),
                None => r is Ok && final(cr).view() == registered(old(cr).view(), "fontwerk"@, fontwerk_builder()),
            },
    {
        let b = ProfileBuilder::new()
            .include_profile("googlefonts")
            .exclude_check("googlefonts/canonical_filename")
            .exclude_check("googlefonts/family/italics_have_roman_counterparts")
            .exclude_check("googlefonts/font_copyright")
            .exclude_check("googlefonts/fstype")
            .exclude_check("googlefonts/gasp")
            .exclude_check("googlefonts/metadata/includes_production_subsets")
            .exclude_check("googlefonts/meta/script_lang_tags")
            .exclude_check("googlefonts/name/description_max_length")
            .exclude_check("googlefonts/name/line_breaks")
            .exclude_check("googlefonts/production_glyphs_similarity")
            .exclude_check("googlefonts/vendor_id")
            .exclude_check("googlefonts/version_bump")
            .exclude_check("fontdata_namecheck")
            .include_profile("opentype")
            .add_section("Fontwerk Checks")
            .add_and_register_check("fontwerk/name_entries");
        let mut vendor: Vec<(String, String)> = Vec::new();
        vendor.push(pair("vendor_id", "WERK"));
        proof { assert(vendor.deep_view() =~= seq![("vendor_id"@, "WERK"@)]); }
        let b = b.with_configuration_defaults("opentype/vendor_id", vendor);
        let mut names: Vec<(String, String)> = Vec::new();
        names.push(pair("MANUFACTURER", "Fontwerk"));
        names.push(pair("VENDOR_URL", "https://fontwerk.com"));
        names.push(pair(
            "LICENSE_DESCRIPTION",
            "This Font Software is the property of Fontwerk GmbH its use by you is covered under the terms of an End-User License Agreement (EULA). Unless you have entered into a specific license agreement granting you additional rights, your use of this Font Software is limited by the terms of the actual license agreement you have entered into with Fontwerk. If you have any questions concerning your rights you should review the EULA you received with the software or contact Fontwerk. A copy of the EULA for this Font Software can be found on https://fontwerk.com/licensing.",
        ));
        names.push(pair("LICENSE_URL", "https://fontwerk.com"));
        proof {
            assert(names.deep_view() =~= seq![
                ("MANUFACTURER"@, "Fontwerk"@),
                ("VENDOR_URL"@, "https://fontwerk.com"@),
                ("LICENSE_DESCRIPTION"@, fontwerk_license_description()),
                ("LICENSE_URL"@, "https://fontwerk.com"@),
            ]);
        }
        let b = b.with_configuration_defaults("fontwerk/name_entries", names);
        proof {
            assert(b.view().profile.sections =~~= fontwerk_builder().profile.sections);
            assert(b.view().profile.include_profiles =~= fontwerk_builder().profile.include_profiles);
            assert(b.view().profile.exclude_checks =~= fontwerk_builder().profile.exclude_checks);
            assert(b.view().profile.configuration_defaults =~~= fontwerk_builder().profile.configuration_defaults);
            assert(b.view().checks =~= fontwerk_builder().checks);
            assert(b.view() == fontwerk_builder());
        }
        b.build("fontwerk", cr)
    }
}

/// The checks of the ISO 15009 profile.
pub open spec fn iso15009_checks() -> Seq<Seq<char>> {
    seq![
        "iso15009/intercharacter_spacing"@,
        "iso15009/interline_spacing"@,
        "iso15009/interword_spacing"@,
        "iso15009/proportions"@,
        "iso15009/stem_width"@,
    ]
}

/// The ISO 15009 profile: one section with the spacing, proportion and stem
/// width checks.
pub open spec fn iso15009_builder() -> ProfileBuilderView {
    ProfileBuilderView {
        profile: ProfileView {
            sections: seq![("iso15009 Fonts Checks"@, iso15009_checks())],
            include_profiles: Seq::empty(),
            exclude_checks: Seq::empty(),
            configuration_defaults: Seq::empty(),
        },
        checks: iso15009_checks(),
    }
}

/// The ISO 15009 profile.
pub struct Iso15009;

impl Iso15009 {
    /// Registers the five ISO 15009 checks and the profile `iso15009`.
    pub fn register(&self, cr: &mut Registry) -> (r: Result<(), String>)
        ensures
            r is Ok,
            final(cr).view() == registered(old(cr).view(), "iso15009"@, iso15009_builder()),
    {
        let b = ProfileBuilder::new()
            .add_section("iso15009 Fonts Checks")
            .add_and_register_check("iso15009/intercharacter_spacing")
            .add_and_register_check("iso15009/interline_spacing")
            .add_and_register_check("iso15009/interword_spacing")
            .add_and_register_check("iso15009/proportions")
            .add_and_register_check("iso15009/stem_width");
        proof {
            assert(b.view().profile.sections =~~= iso15009_builder().profile.sections);
            assert(b.view().checks =~= iso15009_builder().checks);
            assert(b.view() == iso15009_builder());
        }
        b.build("iso15009", cr)
    }
}

} // verus!
