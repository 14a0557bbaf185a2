use rust_zero::render::{render, Context, RenderError, Value};

#[test]
fn render_plain_text_is_unchanged() {
    let ctx = Context::new().set_str("a", "x".to_string());
    assert_eq!(render("no actions here } at all", &ctx).unwrap(), "no actions here } at all");
    assert_eq!(render("", &ctx).unwrap(), "");
}

#[test]
fn render_substitutes_variables_case_insensitively() {
    let ctx = Context::new().set_str("serviceName", "user".to_string());
    assert_eq!(render("svc={{.serviceName}};", &ctx).unwrap(), "svc=user;");
    assert_eq!(render("svc={{ .SERVICENAME }};", &ctx).unwrap(), "svc=user;");
    assert_eq!(render("svc={{servicename}};", &ctx).unwrap(), "svc=user;");
}

#[test]
fn render_unknown_variable_is_empty() {
    let ctx = Context::new();
    assert_eq!(render("[{{.missing}}]", &ctx).unwrap(), "[]");
}

#[test]
fn render_bool_values_as_words() {
    let ctx = Context::new().set_bool("on", true).set_bool("off", false);
    assert_eq!(render("{{.on}}/{{.off}}", &ctx).unwrap(), "true/false");
}

#[test]
fn render_if_else_picks_branch() {
    let t = "{{if .flag}}yes{{else}}no{{end}}!";
    assert_eq!(render(t, &Context::new().set_bool("flag", true)).unwrap(), "yes!");
    assert_eq!(render(t, &Context::new().set_bool("flag", false)).unwrap(), "no!");
    assert_eq!(render(t, &Context::new().set_str("flag", String::new())).unwrap(), "no!");
    assert_eq!(render(t, &Context::new().set_str("flag", "x".to_string())).unwrap(), "yes!");
    assert_eq!(render(t, &Context::new()).unwrap(), "no!");
}

#[test]
fn render_nested_if_in_inactive_branch_stays_inactive() {
    let t = "{{if .a}}A{{if .b}}B{{end}}{{else}}C{{end}}";
    let ctx = Context::new().set_bool("a", false).set_bool("b", true);
    assert_eq!(render(t, &ctx).unwrap(), "C");
    let ctx = Context::new().set_bool("a", true).set_bool("b", true);
    assert_eq!(render(t, &ctx).unwrap(), "AB");
}

#[test]
fn render_later_binding_shadows_earlier() {
    let ctx = Context::new().set_str("k", "1".to_string()).set_str("K", "2".to_string());
    assert_eq!(render("{{.k}}", &ctx).unwrap(), "2");
}

#[test]
fn render_errors() {
    let ctx = Context::new();
    assert_eq!(render("a {{ .x", &ctx).unwrap_err(), RenderError::UnterminatedAction);
    assert_eq!(render("{{else}}", &ctx).unwrap_err(), RenderError::UnexpectedElse);
    assert_eq!(render("{{if .x}}{{else}}{{else}}{{end}}", &ctx).unwrap_err(), RenderError::DuplicateElse);
    assert_eq!(render("{{end}}", &ctx).unwrap_err(), RenderError::UnexpectedEnd);
    assert_eq!(render("{{if .x}}open", &ctx).unwrap_err(), RenderError::UnclosedIf);
    assert_eq!(RenderError::UnclosedIf.message(), "unclosed {if} block");
    assert_eq!(RenderError::UnterminatedAction.message(), "unterminated template action");
}

#[test]
fn context_get_and_clone() {
    let ctx = Context::new().set_str("Name", "v".to_string());
    match ctx.get("NAME") {
        Some(Value::Str(s)) => assert_eq!(s, "v"),
        _ => panic!("missing binding"),
    }
    assert!(ctx.get("other").is_none());
    let c2 = ctx.clone();
    assert_eq!(render("{{.name}}", &c2).unwrap(), "v");
    let d = Context::default();
    assert!(d.get("name").is_none());
}

#[test]
fn value_truthiness_and_text() {
    assert!(Value::Bool(true).truthy());
    assert!(!Value::Str(String::new()).truthy());
    assert_eq!(Value::Bool(false).as_str(), "false");
    assert_eq!(Value::Str("s".to_string()).as_str(), "s");
}
