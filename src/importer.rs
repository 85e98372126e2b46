//! The template importer: one settings resolver and one helper resolver,
//! paired for a rendering context.

use vstd::prelude::*;
use crate::engine::StaticHelper;
use crate::helpers::{catalog_view, FakeHelperResolver, HelperResolver};
use crate::settings::{FakeSettingsResolver, SettingsResolver};

verus! {

/// What a render depends on: one settings resolver and one helper resolver,
/// held for the importer's lifetime.
pub trait TemplateImporter {
    type SettingsResolver: SettingsResolver;

    type HelperResolver: HelperResolver;

    /// The importer's settings resolver.
    spec fn settings(&self) -> Self::SettingsResolver;

    /// The importer's helper resolver.
    spec fn helpers(&self) -> Self::HelperResolver;

    fn settings_resolver(&self) -> (r: &Self::SettingsResolver)
        ensures
            *r == self.settings(),
    ;

    fn helper_resolver(&self) -> (r: &Self::HelperResolver)
        ensures
            *r == self.helpers(),
    ;
}

/// An importer whose resolvers both work from in-memory data: a backing
/// settings document and a helper catalog.
pub struct FakeImporter {
    settings_resolver: FakeSettingsResolver,
    helper_resolver: FakeHelperResolver,
}

impl FakeImporter {
    pub fn new(
        settings: serde_json::Value,
        helpers: Vec<(&'static str, &'static str, StaticHelper)>,
    ) -> (r: Self)
        ensures
            r.settings().backing() == settings,
            r.helpers().catalog() == catalog_view(helpers@),
    {
        FakeImporter {
            settings_resolver: FakeSettingsResolver::new(settings),
            helper_resolver: FakeHelperResolver::new(helpers),
        }
    }
}

impl TemplateImporter for FakeImporter {
    type SettingsResolver = FakeSettingsResolver;

    type HelperResolver = FakeHelperResolver;

    closed spec fn settings(&self) -> FakeSettingsResolver {
        self.settings_resolver
    }

    closed spec fn helpers(&self) -> FakeHelperResolver {
        self.helper_resolver
    }

    fn settings_resolver(&self) -> (r: &FakeSettingsResolver) {
        &self.settings_resolver
    }

    fn helper_resolver(&self) -> (r: &FakeHelperResolver) {
        &self.helper_resolver
    }
}

} // verus!
