//! The render pipeline: extraction, settings resolution, helper registration
//! into a fresh engine, then the render itself.

use vstd::prelude::*;
use crate::engine::{
    builtin_helpers, engine_config, fresh_config,
    helper_names, helper_table, new_engine, render_template, Engine,
};
use crate::guard::{backend_accepts, backend_accepts_template};
use crate::extract::{parse_template, parse_template_spec, ExtractionError, ExtractionFailure};
use crate::helpers::{
    first_repeat, helper_plan, lemma_plan_table_names, lemma_plan_table_union, plan_helpers,
    plan_table, EntryView, HelperRegistrationError, HelperResolver, HelperTable,
};
use crate::importer::TemplateImporter;
use crate::requirement::{requirement_names, RequirementView};
use crate::json::entries_of;
use crate::settings::{
    backing_settings, minimized, wraps_settings, Entries, SettingsFetchError, SettingsResolver,
};

verus! {

/// Why a render failed. A failed render produces no output.
#[derive(Debug)]
pub enum RenderError {
    /// The template's declaration block could not be read.
    Extraction(ExtractionError),
    /// The settings resolver could not produce a settings document.
    SettingsFetch(SettingsFetchError),
    /// The helpers for the template could not be registered.
    HelperRegistration(HelperRegistrationError),
    /// The template body uses what the render backend is not given: partials,
    /// raw blocks, or more nesting than `MAX_NESTING` allows.
    UnsupportedTemplate,
    /// The render backend failed on the template; its message.
    RenderBackend(String),
}

/// What the steps before the render make of a template, as plain values.
pub enum RenderPlan {
    ExtractionFailed(ExtractionFailure),
    SettingsFetchFailed,
    DuplicateHelper(Seq<char>),
    /// The body to render, the settings groups of its context, the helper
    /// names that its engine holds, and the helpers registered for the
    /// template's extensions.
    Ready { body: Seq<char>, scope: Entries, helpers: Set<Seq<char>>, table: HelperTable },
}

/// The plan for rendering `template` against the settings groups of a
/// backing store (`None` where it cannot be read) and a helper catalog.
pub open spec fn render_plan(
    groups: Option<Entries>,
    catalog: Seq<EntryView>,
    template: Seq<char>,
) -> RenderPlan {
    match parse_template_spec(template) {
        Err(f) => RenderPlan::ExtractionFailed(f),
        Ok((reqs, body)) => match groups {
            None => RenderPlan::SettingsFetchFailed,
            Some(all) => match first_repeat(helper_plan(catalog, reqs)) {
                Some(name) => RenderPlan::DuplicateHelper(name),
                None => RenderPlan::Ready {
                    body,
                    scope: minimized(all, requirement_names(reqs)),
                    helpers: builtin_helpers() + helper_plan(catalog, reqs).to_set(),
                    table: plan_table(Map::empty(), catalog, reqs),
                },
            },
        },
    }
}

/// Isolation: the settings a render sees come from its own importer's backing
/// store alone. Every group in the planned scope is a group of that store,
/// with that store's value, so nothing of another document
/// (another importer's, another concurrent render's) can appear in it.
pub proof fn lemma_render_isolation(
    groups: Option<Entries>,
    catalog: Seq<EntryView>,
    template: Seq<char>,
)
    ensures
        render_plan(groups, catalog, template) matches RenderPlan::Ready { scope, .. } ==> (
        groups matches Some(all) && forall|k: Seq<char>|
            #[trigger] scope.contains_key(k) ==> all.contains_key(k) && scope[k] == all[k]),
{
}

/// Idempotence of the steps before the render: with resolvers that decide
/// nothing of their own, two preparations of one (template, settings, helper
/// catalog) fail alike, or both yield the
/// same body, the same settings scope, the same helper names with the same
/// helper under each name of the template's extensions, and the same
/// configuration.
pub proof fn lemma_prepare_idempotent(
    groups: Option<Entries>,
    catalog: Seq<EntryView>,
    template: Seq<char>,
    first: Result<RenderJob, RenderError>,
    second: Result<RenderJob, RenderError>,
)
    requires
        carries_out(first, render_plan(groups, catalog, template), false, false),
        carries_out(second, render_plan(groups, catalog, template), false, false),
    ensures
        first is Ok <==> second is Ok,
        first matches Err(RenderError::Extraction(e1)) ==> second matches Err(
            RenderError::Extraction(e2),
        ) && e1@ == e2@,
        first matches Err(RenderError::SettingsFetch(_)) ==> second matches Err(
            RenderError::SettingsFetch(_),
        ),
        first matches Err(RenderError::HelperRegistration(e1)) ==> second matches Err(
            RenderError::HelperRegistration(e2),
        ) && e1@ == e2@,
        first matches Ok(j1) ==> second matches Ok(j2) && j1.body@ == j2.body@ && backing_settings(
            j1.context,
        ) == backing_settings(j2.context) && helper_names(j1.engine) == helper_names(j2.engine)
            && engine_config(j1.engine) == engine_config(j2.engine) && (forall|n: Seq<char>|
            #[trigger] plan_table(Map::empty(), catalog, parse_template_spec(template)->Ok_0.0).contains_key(n)
                ==> helper_table(j1.engine)[n] == helper_table(j2.engine)[n]),
{
    if let (Ok(j1), Ok(j2)) = (first, second) {
        let top1 = entries_of(j1.context)->0;
        let top2 = entries_of(j2.context)->0;
        assert(top1.contains_key("settings"@));
        assert(top2.contains_key("settings"@));
        if let RenderPlan::Ready { table, .. } = render_plan(groups, catalog, template) {
            assert(table == plan_table(Map::empty(), catalog, parse_template_spec(template)->Ok_0.0));
            assert forall|n: Seq<char>| #[trigger] table.contains_key(n) implies helper_table(
                j1.engine,
            )[n] == helper_table(j2.engine)[n] by {
                assert(helper_table(j1.engine)[n] == table[n]);
            }
        }
    }
}

/// Everything one render call needs, owned by that call alone.
pub struct RenderJob {
    pub body: String,
    pub context: serde_json::Value,
    pub engine: Engine,
}

/// A prepared job that carries out `plan` exactly: the job it describes, or
/// the error it fails with.
pub open spec fn carries_out_exactly(r: Result<RenderJob, RenderError>, plan: RenderPlan) -> bool {
    match plan {
        RenderPlan::ExtractionFailed(f) => r matches Err(RenderError::Extraction(e)) && e@ == f,
        RenderPlan::SettingsFetchFailed => r matches Err(RenderError::SettingsFetch(_)),
        RenderPlan::DuplicateHelper(name) => r matches Err(RenderError::HelperRegistration(e))
            && e@ == name,
        RenderPlan::Ready { body, scope, helpers, table } => r matches Ok(job) && job.body@ == body
            && wraps_settings(job.context, scope) && helper_names(job.engine) == helpers && (
        forall|n: Seq<char>| #[trigger]
            table.contains_key(n) ==> helper_table(job.engine)[n] == table[n]) && engine_config(
            job.engine,
        ) == fresh_config(),
    }
}

/// A prepared job that carries out `plan`, but where the settings resolver
/// may fail of its own (`fetch_may_fail`) once the template is read, or the
/// helper resolver may (`registration_may_fail`) once the plan is ready.
pub open spec fn carries_out(
    r: Result<RenderJob, RenderError>,
    plan: RenderPlan,
    fetch_may_fail: bool,
    registration_may_fail: bool,
) -> bool {
    ||| carries_out_exactly(r, plan)
    ||| fetch_may_fail && !(plan is ExtractionFailed) && r matches Err(RenderError::SettingsFetch(_))
    ||| registration_may_fail && plan is Ready && r matches Err(RenderError::HelperRegistration(_))
}

/// The plan for `template` under `importer`'s resolvers.
pub open spec fn importer_plan<I: TemplateImporter>(importer: &I, template: Seq<char>) -> RenderPlan {
    render_plan(importer.settings().settings_groups(), importer.helpers().helper_catalog(), template)
}

/// Runs the steps before the render: extracts the template's requirements,
/// fetches the minimized settings for them, and registers their helpers in a
/// fresh engine. Nothing is registered where two helpers share a name.
pub fn prepare_render<I: TemplateImporter>(importer: &I, template: &str) -> (r: Result<
    RenderJob,
    RenderError,
>)
    ensures
        carries_out(
            r,
            importer_plan(importer, template@),
            importer.settings().fetch_may_fail(),
            importer.helpers().registration_may_fail(),
        ),
{
    let parsed = match parse_template(template) {
        Ok(p) => p,
        Err(e) => {
            return Err(RenderError::Extraction(e));
        },
    };
    let ghost reqs = crate::requirement::requirements_view(parsed.requirements@);
    let context = match importer.settings_resolver().fetch_settings(parsed.requirements.as_slice()) {
        Ok(v) => v,
        Err(e) => {
            return Err(RenderError::SettingsFetch(e));
        },
    };
    let resolver = importer.helper_resolver();
    let ghost catalog = resolver.helper_catalog();
    match plan_helpers(resolver, parsed.requirements.as_slice()) {
        Ok(_) => {},
        Err(e) => {
            return Err(RenderError::HelperRegistration(e));
        },
    }
    assert(importer_plan(importer, template@) is Ready);
    let mut engine = new_engine();
    let ghost fresh = helper_table(engine);
    let n = parsed.requirements.len();
    for i in 0..n
        invariant
            n == parsed.requirements@.len(),
            reqs == crate::requirement::requirements_view(parsed.requirements@),
            *resolver == importer.helpers(),
            catalog == resolver.helper_catalog(),
            first_repeat(helper_plan(catalog, reqs)) is None,
            importer_plan(importer, template@) is Ready,
            helper_table(engine) == plan_table(fresh, catalog, reqs.take(i as int)),
            engine_config(engine) == fresh_config(),
    {
        assert(reqs.take(i + 1).drop_last() =~= reqs.take(i as int));
        match resolver.register_template_helpers(&mut engine, &parsed.requirements[i]) {
            Ok(()) => {},
            Err(e) => {
                return Err(RenderError::HelperRegistration(e));
            },
        }
    }
    assert(reqs.take(n as int) =~= reqs);
    proof {
        lemma_plan_table_union(fresh, catalog, reqs);
        lemma_plan_table_names(catalog, reqs);
        assert(helper_names(engine) =~= builtin_helpers() + helper_plan(catalog, reqs).to_set());
    }
    Ok(RenderJob { body: parsed.body, context, engine })
}

/// Renders `template` with the importer's resolvers: the steps of
/// `prepare_render`, then the backend on the body, with `{"settings": ...}`
/// as context and the registered helpers. Fails as `prepare_render` does; a
/// body that the backend is not given is refused; past that, the only failure
/// is the backend's own.
pub fn render_template_str<I: TemplateImporter>(importer: &I, template: &str) -> (r: Result<
    String,
    RenderError,
>)
    ensures
        r matches Err(RenderError::Extraction(e)) ==> importer_plan(
            importer,
            template@,
        ) == RenderPlan::ExtractionFailed(e@),
        match importer_plan(importer, template@) {
            RenderPlan::ExtractionFailed(f) => r matches Err(RenderError::Extraction(e)) && e@
                == f,
            RenderPlan::SettingsFetchFailed => r matches Err(RenderError::SettingsFetch(_)),
            RenderPlan::DuplicateHelper(name) => (r matches Err(RenderError::HelperRegistration(e))
                && e@ == name) || (importer.settings().fetch_may_fail() && r matches Err(
                RenderError::SettingsFetch(_),
            )),
            RenderPlan::Ready { body, .. } => (if backend_accepts(body) {
                r is Ok || r matches Err(RenderError::RenderBackend(_))
            } else {
                r matches Err(RenderError::UnsupportedTemplate)
            }) || (importer.settings().fetch_may_fail() && r matches Err(
                RenderError::SettingsFetch(_),
            )) || (importer.helpers().registration_may_fail() && r matches Err(
                RenderError::HelperRegistration(_),
            )),
        },
{
    let job = match prepare_render(importer, template) {
        Ok(job) => job,
        Err(e) => {
            return Err(e);
        },
    };
    if !backend_accepts_template(job.body.as_str()) {
        return Err(RenderError::UnsupportedTemplate);
    }
    match render_template(&job.engine, job.body.as_str(), &job.context) {
        Ok(text) => Ok(text),
        Err(message) => Err(RenderError::RenderBackend(message)),
    }
}

} // verus!
