//! Settings resolution: from a full settings document to the minimal one that
//! a set of extension requirements calls for.

use vstd::prelude::*;
use crate::json::{
    as_object, empty_entries, entries_of, object_entries, object_get, object_insert, object_new,
    object_value, JsonObject,
};
use crate::requirement::{requirement_names, requirements_view, ExtensionRequirement, RequirementView};

verus! {

/// The entries of a settings document, by top-level key.
pub type Entries = Map<Seq<char>, serde_json::Value>;

/// The entries of the object stored under `key` in `response`, if there is one.
pub open spec fn key_object(key: Seq<char>, response: Entries) -> Option<Entries> {
    if response.contains_key(key) {
        entries_of(response[key])
    } else {
        None
    }
}

/// The settings groups of a backing document shaped `{"settings": {...}}`.
pub open spec fn backing_settings(doc: serde_json::Value) -> Option<Entries> {
    match entries_of(doc) {
        Some(top) => key_object("settings"@, top),
        None => None,
    }
}

/// The settings groups that `names` ask for: those of `all` whose key is one of
/// the names. Names that `all` lacks are left out.
pub open spec fn minimized(all: Entries, names: Set<Seq<char>>) -> Entries {
    all.restrict(names)
}

/// `v` is the render context `{"settings": scope}`, and holds nothing else.
pub open spec fn wraps_settings(v: serde_json::Value, scope: Entries) -> bool {
    match entries_of(v) {
        Some(top) => {
            &&& top.dom() =~= set!["settings"@]
            &&& entries_of(top["settings"@]) == Some(scope)
        },
        None => false,
    }
}

/// Minimization: a fetched document holds the `settings` key alone, and under
/// it exactly the groups that some requirement names and the backing document
/// holds, each with its backing value. A named group that the backing
/// document lacks is left out, not an error.
pub proof fn lemma_minimization_correct(
    backing: Entries,
    reqs: Seq<RequirementView>,
    fetched: serde_json::Value,
)
    requires
        wraps_settings(fetched, minimized(backing, requirement_names(reqs))),
    ensures
        entries_of(fetched) matches Some(top) && top.dom() == set!["settings"@],
        backing_settings(fetched) matches Some(scope) && (forall|k: Seq<char>|
            scope.contains_key(k) <==> (backing.contains_key(k) && exists|i: int|
                0 <= i < reqs.len() && reqs[i].name == k)) && (forall|k: Seq<char>|
            #[trigger] scope.contains_key(k) ==> scope[k] == backing[k]),
{
    let scope = minimized(backing, requirement_names(reqs));
    assert forall|k: Seq<char>|
        backing.contains_key(k) && (exists|i: int| 0 <= i < reqs.len() && reqs[i].name == k)
            implies scope.contains_key(k) by {
        let i = choose|i: int| 0 <= i < reqs.len() && reqs[i].name == k;
        assert(reqs.map_values(|r: RequirementView| r.name)[i] == k);
    }
}

/// Why a settings document could not be fetched.
#[derive(Debug)]
pub enum SettingsFetchError {
    /// The backing document is not an object holding a `settings` object,
    /// the shape that fetching needs.
    MalformedBackingDocument,
    /// The backing store could not be read; its message.
    StoreUnavailable(String),
}

/// Builds the render context `{"settings": scope}` around a minimized map.
pub fn wrap_settings(scope: JsonObject) -> (r: serde_json::Value)
    ensures
        wraps_settings(r, object_entries(scope)),
{
    let ghost entries = object_entries(scope);
    let inner = object_value(scope);
    let mut top = object_new();
    object_insert(&mut top, String::from_str("settings"), inner);
    let r = object_value(top);
    assert(object_entries(top) =~= empty_entries().insert("settings"@, inner));
    r
}

/// A settings resolver: produces the minimized settings document for a set of
/// extension requirements from its backing store.
pub trait SettingsResolver {
    /// The settings groups of the backing store, where it can be read.
    spec fn settings_groups(&self) -> Option<Entries>;

    /// Whether fetching may fail for a reason of the store's own, such as an
    /// unreachable settings service.
    spec fn fetch_may_fail(&self) -> bool;

    /// The render context `{"settings": minimized}` for the requirements,
    /// where `minimized` holds exactly the store's groups that they name.
    fn fetch_settings(&self, extension_requirements: &[ExtensionRequirement]) -> (r: Result<
        serde_json::Value,
        SettingsFetchError,
    >)
        ensures
            r matches Ok(v) ==> self.settings_groups() matches Some(all) && wraps_settings(
                v,
                minimized(all, requirement_names(requirements_view(extension_requirements@))),
            ),
            self.settings_groups() is None ==> r is Err,
            self.settings_groups() is Some && !self.fetch_may_fail() ==> r is Ok,
    ;
}

/// A settings resolver over an in-memory backing document of the shape
/// `{"settings": {...}}`.
pub struct FakeSettingsResolver {
    settings: serde_json::Value,
}

impl FakeSettingsResolver {
    pub fn new(settings: serde_json::Value) -> (r: Self)
        ensures
            r.backing() == settings,
    {
        FakeSettingsResolver { settings }
    }

    /// The backing document.
    pub closed spec fn backing(&self) -> serde_json::Value {
        self.settings
    }

    /// The settings groups of `all_settings` that the requirements name, each
    /// under its own key. Version constraints play no part.
    pub fn minimize_settings(
        all_settings: &JsonObject,
        extension_requirements: &[ExtensionRequirement],
    ) -> (r: JsonObject)
        ensures
            object_entries(r) == minimized(
                object_entries(*all_settings),
                requirement_names(requirements_view(extension_requirements@)),
            ),
    {
        let ghost all = object_entries(*all_settings);
        let ghost reqs = requirements_view(extension_requirements@);
        let mut out = object_new();
        let n = extension_requirements.len();
        for i in 0..n
            invariant
                n == extension_requirements@.len(),
                reqs == requirements_view(extension_requirements@),
                all == object_entries(*all_settings),
                object_entries(out) == minimized(all, requirement_names(reqs.take(i as int))),
        {
            let name = &extension_requirements[i].name;
            let ghost before = reqs.take(i as int);
            let ghost after = reqs.take(i + 1);
            assert(after =~= before.push(reqs[i as int]));
            assert(requirement_names(after) =~= requirement_names(before).insert(name@)) by {
                let f = |r: RequirementView| r.name;
                assert(reqs[i as int].name == name@);
                before.lemma_push_map_commute(f, reqs[i as int]);
                before.map_values(f).lemma_push_to_set_commute(name@);
            }
            match object_get(all_settings, name.as_str()) {
                Some(value) => {
                    object_insert(&mut out, name.clone(), value.clone());
                    assert(object_entries(out) =~= minimized(all, requirement_names(after)));
                },
                None => {
                    assert(object_entries(out) =~= minimized(all, requirement_names(after)));
                },
            }
        }
        assert(reqs.take(n as int) =~= reqs);
        out
    }

    /// The object stored under `key` in `response`, or `None` where there is no
    /// such key or its value is not an object.
    pub fn extract_key_from_api_response<'a>(key: &str, response: &'a JsonObject) -> (r: Option<
        &'a JsonObject,
    >)
        ensures
            match r {
                Some(m) => key_object(key@, object_entries(*response)) == Some(object_entries(*m)),
                None => key_object(key@, object_entries(*response)) is None,
            },
    {
        match object_get(response, key) {
            Some(v) => as_object(v),
            None => None,
        }
    }

    /// Whether the backing document has the shape `{"settings": {...}}` that
    /// `fetch_settings` needs.
    pub fn has_settings_shape(&self) -> (r: bool)
        ensures
            r == backing_settings(self.backing()) is Some,
    {
        match as_object(&self.settings) {
            Some(top) => Self::extract_key_from_api_response("settings", top).is_some(),
            None => false,
        }
    }

    /// The render context `{"settings": minimized}` for the requirements, where
    /// `minimized` holds exactly the backing settings groups that they name.
    pub fn fetch_settings(&self, extension_requirements: &[ExtensionRequirement]) -> (r:
        serde_json::Value)
        requires
            backing_settings(self.backing()) is Some,
        ensures
            wraps_settings(
                r,
                minimized(
                    backing_settings(self.backing())->0,
                    requirement_names(requirements_view(extension_requirements@)),
                ),
            ),
    {
        let top = as_object(&self.settings).unwrap();
        let all = Self::extract_key_from_api_response("settings", top).unwrap();
        let minimized = Self::minimize_settings(all, extension_requirements);
        wrap_settings(minimized)
    }
}

impl SettingsResolver for FakeSettingsResolver {
    open spec fn settings_groups(&self) -> Option<Entries> {
        backing_settings(self.backing())
    }

    /// The in-memory document is always at hand.
    open spec fn fetch_may_fail(&self) -> bool {
        false
    }

    fn fetch_settings(&self, extension_requirements: &[ExtensionRequirement]) -> (r: Result<
        serde_json::Value,
        SettingsFetchError,
    >) {
        if self.has_settings_shape() {
            Ok(FakeSettingsResolver::fetch_settings(self, extension_requirements))
        } else {
            Err(SettingsFetchError::MalformedBackingDocument)
        }
    }
}

} // verus!
