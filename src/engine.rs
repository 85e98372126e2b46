//! The render backend: a handlebars registry, its helper table, and the
//! render call, which is given only what `guard` accepts.

use vstd::prelude::*;
use crate::guard::backend_accepts;

verus! {

#[verifier::external_type_specification]
#[verifier::external_body]
pub struct ExHandlebars<'reg>(handlebars::Handlebars<'reg>);

/// The render engine that one render call owns.
pub type Engine = handlebars::Handlebars<'static>;

/// A rendering helper: a plain function with handlebars' helper signature.
#[verifier::external_body]
pub struct StaticHelper {
    pub function: fn(
        &handlebars::Helper,
        &handlebars::Handlebars,
        &handlebars::Context,
        &mut handlebars::RenderContext<'_, '_>,
        &mut dyn handlebars::Output,
    ) -> handlebars::HelperResult,
}

/// An engine's helper table: the helper stored under each name.
pub uninterp spec fn helper_table(e: Engine) -> Map<Seq<char>, StaticHelper>;

/// What an engine holds besides its helpers (all but its escape function).
pub struct EngineConfig {
    pub templates: Set<Seq<char>>,
    pub decorators: Set<Seq<char>>,
    pub strict_mode: bool,
    pub dev_mode: bool,
    pub prevent_indent: bool,
}

/// An engine's registered templates, decorators and modes.
pub uninterp spec fn engine_config(e: Engine) -> EngineConfig;

/// An engine with its helper table left out: everything else it holds,
/// escape function included.
pub uninterp spec fn without_helpers(e: Engine) -> Engine;

/// The names in an engine's helper table.
pub open spec fn helper_names(e: Engine) -> Set<Seq<char>> {
    helper_table(e).dom()
}

/// The helpers that handlebars registers in every new registry (its default
/// features, which add no string helpers).
pub open spec fn builtin_helpers() -> Set<Seq<char>> {
    set![
        "if"@,
        "unless"@,
        "each"@,
        "with"@,
        "lookup"@,
        "raw"@,
        "log"@,
        "eq"@,
        "ne"@,
        "gt"@,
        "gte"@,
        "lt"@,
        "lte"@,
        "and"@,
        "or"@,
        "not"@,
        "len"@,
    ]
}

/// The configuration of a new registry: no templates, the `inline`
/// decorator, every mode off.
pub open spec fn fresh_config() -> EngineConfig {
    EngineConfig {
        templates: Set::empty(),
        decorators: set!["inline"@],
        strict_mode: false,
        dev_mode: false,
        prevent_indent: false,
    }
}

/// Relies on `Handlebars::new`: a new registry holds the built-in helpers,
/// the `inline` decorator, no templates, and every mode off.
#[verifier::external_body]
pub(crate) fn new_engine() -> (r: Engine)
    ensures
        helper_names(r) == builtin_helpers(),
        engine_config(r) == fresh_config(),
{
    handlebars::Handlebars::new()
}

/// Relies on `Handlebars::register_helper`: the helper is stored under `name`,
/// replacing any earlier one of that name; nothing else changes.
#[verifier::external_body]
pub(crate) fn register_helper(engine: &mut Engine, name: &str, helper: &StaticHelper)
    ensures
        helper_table(*final(engine)) == helper_table(*old(engine)).insert(name@, *helper),
        engine_config(*final(engine)) == engine_config(*old(engine)),
        without_helpers(*final(engine)) == without_helpers(*old(engine)),
{
    engine.register_helper(name, Box::new(helper.function));
}

/// Relies on `Handlebars::render_template`: renders `template` against
/// `data`, or reports the backend's error in its displayed form. What comes
/// out depends on the helpers' own code.
#[verifier::external_body]
pub(crate) fn render_template(engine: &Engine, template: &str, data: &serde_json::Value) -> (r:
    Result<String, String>)
    requires
        backend_accepts(template@),
{
    engine.render_template(template, data).map_err(|e| e.to_string())
}

} // verus!
