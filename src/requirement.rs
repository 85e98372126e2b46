//! An extension requirement: a template's declared dependency on one named
//! extension, with an optional version constraint.

use vstd::prelude::*;

verus! {

/// What a requirement is, as plain values.
pub struct RequirementView {
    pub name: Seq<char>,
    pub version: Option<Seq<char>>,
}

/// A template's dependency on the extension `name`. The version constraint is
/// carried along but not enforced by resolution.
#[derive(Debug)]
pub struct ExtensionRequirement {
    pub name: String,
    pub version: Option<String>,
}

pub open spec fn version_view(v: Option<String>) -> Option<Seq<char>> {
    match v {
        Some(s) => Some(s@),
        None => None,
    }
}

impl View for ExtensionRequirement {
    type V = RequirementView;

    open spec fn view(&self) -> RequirementView {
        RequirementView { name: self.name@, version: version_view(self.version) }
    }
}

/// The views of a sequence of requirements.
pub open spec fn requirements_view(reqs: Seq<ExtensionRequirement>) -> Seq<RequirementView> {
    reqs.map_values(|r: ExtensionRequirement| r@)
}

/// The extension names of a sequence of requirements.
pub open spec fn requirement_names(reqs: Seq<RequirementView>) -> Set<Seq<char>> {
    reqs.map_values(|r: RequirementView| r.name).to_set()
}

impl ExtensionRequirement {
    pub fn new(name: String, version: Option<String>) -> (r: Self)
        ensures
            r.name@ == name@,
            version_view(r.version) == version_view(version),
    {
        ExtensionRequirement { name, version }
    }
}

} // verus!
