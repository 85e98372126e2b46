use handlebars::{Context, Handlebars, Helper, HelperResult, JsonRender, Output, RenderContext};
use schnauzer::engine::StaticHelper;
use schnauzer::helpers::{plan_helpers, HelperRegistrationError, HelperResolver};
use schnauzer::importer::{FakeImporter, TemplateImporter};
use schnauzer::render::{prepare_render, render_template_str, RenderError};
use schnauzer::guard::{backend_accepts_template, MAX_NESTING};
use schnauzer::requirement::ExtensionRequirement;
use schnauzer::settings::SettingsFetchError;

fn doc(text: &str) -> serde_json::Value {
    serde_json::from_str(text).unwrap()
}

fn shout(
    h: &Helper,
    _: &Handlebars,
    _: &Context,
    _: &mut RenderContext<'_, '_>,
    out: &mut dyn Output,
) -> HelperResult {
    let value = h.param(0).map(|p| p.value().render()).unwrap_or_default();
    out.write(&value.to_uppercase())?;
    Ok(())
}

fn whisper(
    h: &Helper,
    _: &Handlebars,
    _: &Context,
    _: &mut RenderContext<'_, '_>,
    out: &mut dyn Output,
) -> HelperResult {
    let value = h.param(0).map(|p| p.value().render()).unwrap_or_default();
    out.write(&value.to_lowercase())?;
    Ok(())
}

fn backing() -> serde_json::Value {
    doc(r#"{"settings": {"kubernetes": {"cluster_name": "prod"}, "aws": {"region": "us-west-2"}, "ecs": {"cluster": "Main"}}}"#)
}

fn importer() -> FakeImporter {
    FakeImporter::new(
        backing(),
        vec![
            ("ecs", "ecs_shout", StaticHelper { function: shout }),
            ("aws", "aws_whisper", StaticHelper { function: whisper }),
        ],
    )
}

#[test]
fn renders_required_settings() {
    let out = render_template_str(
        &importer(),
        "kubernetes = \"v1\"\n+++\ncluster={{settings.kubernetes.cluster_name}}",
    )
    .unwrap();
    assert_eq!(out, "cluster=prod");
}

#[test]
fn unrequired_settings_are_not_visible() {
    let out = render_template_str(
        &importer(),
        "kubernetes\n+++\n[{{settings.aws.region}}]",
    )
    .unwrap();
    assert_eq!(out, "[]");
}

#[test]
fn prepared_context_is_minimized() {
    let job = prepare_render(&importer(), "kubernetes\n+++\nx").unwrap();
    assert_eq!(
        job.context,
        doc(r#"{"settings": {"kubernetes": {"cluster_name": "prod"}}}"#)
    );
    assert_eq!(job.body, "x");
}

#[test]
fn unknown_extension_renders_with_empty_scope() {
    let job = prepare_render(&importer(), "unknown-ext\n+++\nok").unwrap();
    assert_eq!(job.context, doc(r#"{"settings": {}}"#));
    let out = render_template_str(&importer(), "unknown-ext\n+++\nok").unwrap();
    assert_eq!(out, "ok");
}

#[test]
fn template_without_declarations_renders() {
    let job = prepare_render(&importer(), "static text").unwrap();
    assert_eq!(job.context, doc(r#"{"settings": {}}"#));
    assert_eq!(
        render_template_str(&importer(), "static text").unwrap(),
        "static text"
    );
    assert_eq!(
        render_template_str(&importer(), "+++\n{{#if true}}yes{{/if}}").unwrap(),
        "yes"
    );
}

#[test]
fn helper_of_required_extension_is_callable() {
    let out = render_template_str(
        &importer(),
        "ecs\n+++\n{{ecs_shout settings.ecs.cluster}}",
    )
    .unwrap();
    assert_eq!(out, "MAIN");
}

#[test]
fn helper_of_unrequired_extension_is_not_registered() {
    let result = render_template_str(&importer(), "aws\n+++\n{{ecs_shout \"x\"}}");
    assert!(matches!(result, Err(RenderError::RenderBackend(_))));
    let result = render_template_str(&importer(), "+++\n{{ecs_shout \"x\"}}");
    assert!(matches!(result, Err(RenderError::RenderBackend(_))));
    let out = render_template_str(&importer(), "aws\n+++\n{{aws_whisper \"LoUd\"}}").unwrap();
    assert_eq!(out, "loud");
}

#[test]
fn helpers_of_several_extensions_compose() {
    let out = render_template_str(
        &importer(),
        "aws\necs\n+++\n{{aws_whisper \"A\"}}{{ecs_shout \"b\"}}",
    )
    .unwrap();
    assert_eq!(out, "aB");
}

#[test]
fn renders_are_isolated_between_documents() {
    let template = "kubernetes\n+++\n{{settings.kubernetes.cluster_name}}";
    let a = FakeImporter::new(
        doc(r#"{"settings": {"kubernetes": {"cluster_name": "alpha"}}}"#),
        vec![],
    );
    let b = FakeImporter::new(
        doc(r#"{"settings": {"kubernetes": {"cluster_name": "beta"}}}"#),
        vec![],
    );
    let first_a = render_template_str(&a, template).unwrap();
    let first_b = render_template_str(&b, template).unwrap();
    let second_a = render_template_str(&a, template).unwrap();
    assert_eq!(first_a, "alpha");
    assert_eq!(first_b, "beta");
    assert_eq!(second_a, "alpha");
}

#[test]
fn rendering_twice_is_identical() {
    let template = "ecs\nkubernetes\n+++\n{{ecs_shout settings.ecs.cluster}}-{{settings.kubernetes.cluster_name}}";
    let imp = importer();
    let one = render_template_str(&imp, template).unwrap();
    let two = render_template_str(&imp, template).unwrap();
    assert_eq!(one, two);
    assert_eq!(one, "MAIN-prod");
}

#[test]
fn extraction_error_surfaces_from_render() {
    let result = render_template_str(&importer(), "bad line here\n+++\nx");
    assert!(matches!(result, Err(RenderError::Extraction(_))));
}

#[test]
fn fetch_error_surfaces_from_render() {
    let imp = FakeImporter::new(doc(r#"{"kubernetes": {}}"#), vec![]);
    let result = render_template_str(&imp, "kubernetes\n+++\nx");
    assert!(matches!(
        result,
        Err(RenderError::SettingsFetch(SettingsFetchError::MalformedBackingDocument))
    ));
}

#[test]
fn duplicate_helper_names_fail_registration() {
    let imp = FakeImporter::new(
        backing(),
        vec![
            ("ecs", "shared", StaticHelper { function: shout }),
            ("aws", "shared", StaticHelper { function: whisper }),
        ],
    );
    match render_template_str(&imp, "ecs\naws\n+++\n{{shared \"x\"}}") {
        Err(RenderError::HelperRegistration(HelperRegistrationError::DuplicateHelper(n))) => {
            assert_eq!(n, "shared")
        }
        other => panic!("unexpected: {:?}", other),
    }
    assert_eq!(
        render_template_str(&imp, "ecs\n+++\n{{shared \"x\"}}").unwrap(),
        "X"
    );
}

#[test]
fn backend_error_surfaces_from_render() {
    let result = render_template_str(&importer(), "+++\n{{#if true}}unclosed");
    assert!(matches!(result, Err(RenderError::RenderBackend(_))));
}

#[test]
fn plan_lists_helpers_by_requirement() {
    let imp = importer();
    let reqs = vec![
        ExtensionRequirement::new("aws".to_string(), None),
        ExtensionRequirement::new("kubernetes".to_string(), None),
        ExtensionRequirement::new("ecs".to_string(), None),
    ];
    let plan = plan_helpers(imp.helper_resolver(), &reqs).unwrap();
    assert_eq!(plan, vec!["aws_whisper".to_string(), "ecs_shout".to_string()]);
    let names = imp.helper_resolver().helper_names_for("ecs");
    assert_eq!(names, vec!["ecs_shout".to_string()]);
    assert!(imp.helper_resolver().helper_names_for("none").is_empty());
}

#[test]
fn partials_are_refused_before_the_backend() {
    for body in [
        "{{#*inline \"p\"}}{{> p}}{{/inline}}{{> p}}",
        "{{~> p}}",
        "{{ > p }}",
        "{{#> layout}}x{{/layout}}",
        "{{~#~>layout}}x{{/layout}}",
    ] {
        assert!(!backend_accepts_template(body), "{:?}", body);
        let template = format!("+++\n{}", body);
        let result = render_template_str(&importer(), &template);
        assert!(matches!(result, Err(RenderError::UnsupportedTemplate)), "{:?}", body);
    }
    assert!(backend_accepts_template("a > b {{x}} >"));
}

#[test]
fn flat_templates_of_any_size_render() {
    let headers: String = (0..300).map(|k| format!("[section{}]\nkey = 1\n", k)).collect();
    assert!(backend_accepts_template(&headers));
    let out = render_template_str(&importer(), &format!("+++\n{}", headers)).unwrap();
    assert_eq!(out, headers);

    let blocks = "{{#if true}}a{{/if}}".repeat(300);
    assert!(backend_accepts_template(&blocks));
    assert_eq!(
        render_template_str(&importer(), &format!("+++\n{}", blocks)).unwrap(),
        "a".repeat(300)
    );

    let tags = "{{len (lookup (lookup \"ab\" 0) 0)}}".repeat(200);
    assert!(backend_accepts_template(&tags));
}

#[test]
fn nesting_up_to_the_bound_renders() {
    let n = MAX_NESTING;
    let blocks = format!("{}x{}", "{{#if true}}".repeat(n), "{{/if}}".repeat(n));
    assert!(backend_accepts_template(&blocks));
    assert_eq!(render_template_str(&importer(), &format!("+++\n{}", blocks)).unwrap(), "x");

    let subexpressions = format!("{{{{len {}\"ab\"{}}}}}", "(lookup ".repeat(n), " 0)".repeat(n));
    assert!(backend_accepts_template(&subexpressions));
    let _ = render_template_str(&importer(), &format!("+++\n{}", subexpressions));

    let arrays = format!("{{{{len {}1{}}}}}", "[".repeat(n), "]".repeat(n));
    assert!(backend_accepts_template(&arrays));
    let _ = render_template_str(&importer(), &format!("+++\n{}", arrays));

    let objects = format!("{{{{len {}1{}}}}}", "{\"a\": ".repeat(n), " }".repeat(n));
    assert!(backend_accepts_template(&objects));
    let _ = render_template_str(&importer(), &format!("+++\n{}", objects));

    let both = format!(
        "{}{}{}",
        "{{#if true}}".repeat(n),
        subexpressions,
        "{{/if}}".repeat(n)
    );
    assert!(backend_accepts_template(&both));
    let _ = render_template_str(&importer(), &format!("+++\n{}", both));
}

#[test]
fn nesting_past_the_bound_is_refused() {
    let n = MAX_NESTING + 1;
    let blocks = format!("{}x{}", "{{#if true}}".repeat(n), "{{/if}}".repeat(n));
    assert!(!backend_accepts_template(&blocks));
    let result = render_template_str(&importer(), &format!("+++\n{}", blocks));
    assert!(matches!(result, Err(RenderError::UnsupportedTemplate)));
    let subexpressions = format!("{{{{len {}\"ab\"{}}}}}", "(lookup ".repeat(n), " 0)".repeat(n));
    assert!(!backend_accepts_template(&subexpressions));
}

#[test]
fn closing_tags_in_comments_strings_and_escapes_close_nothing() {
    let n = MAX_NESTING + 1;
    for fake in ["{{!-- {{/if}} --}}", "{{! }}{{!-- }} {{/if}} --}}", "{{x \"{{/if}}\"}}", "\\{{/if}}"] {
        let template = format!("{}x{}", format!("{{{{#if true}}}}{}", fake).repeat(n), "{{/if}}".repeat(n));
        assert!(!backend_accepts_template(&template), "{:?}", fake);
    }
}

#[test]
fn raw_blocks_are_refused() {
    assert!(!backend_accepts_template("{{{{raw}}}}{{x}}{{{{/raw}}}}"));
    let result = render_template_str(&importer(), "+++\n{{{{raw}}}}x{{{{/raw}}}}");
    assert!(matches!(result, Err(RenderError::UnsupportedTemplate)));
}

#[test]
fn unknown_extension_registers_nothing() {
    let imp = importer();
    let mut engine = Handlebars::new();
    let req = ExtensionRequirement::new("unknown".to_string(), None);
    assert!(imp.helper_resolver().register_template_helpers(&mut engine, &req).is_ok());
    assert!(engine.render_template("{{ecs_shout \"x\"}}", &doc("{}")).is_err());
    let req = ExtensionRequirement::new("ecs".to_string(), None);
    assert!(imp.helper_resolver().register_template_helpers(&mut engine, &req).is_ok());
    assert_eq!(engine.render_template("{{ecs_shout \"x\"}}", &doc("{}")).unwrap(), "X");
}
