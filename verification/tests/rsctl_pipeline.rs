use rust_zero::rsctl::api::{config, prepare, run_config, ApiError, Options};
use rust_zero::rsctl::args::RsArgs;
use rust_zero::rsctl::cli::{MysqlArgs, PgArgs};
use rust_zero::rsctl::model::{mysql, pg};
use rust_zero::rsctl::pipeline::{
    check_required, cleanup_paths, clone_dir_name, default_template_root, framework_of,
    home_dir, looks_like_url_or_git, preprocess_argv_for_legacy_flags, remote_repo_basename,
    resolve_template_root, rsctl_home, rsctl_templates, rsctl_version_dir, should_write, template_root_of,
    Framework, HomeDir, PipelineError, TemplateSource,
};
use rust_zero::rsctl::semantic::SemanticError;

fn v(xs: &[&str]) -> Vec<String> {
    xs.iter().map(|s| s.to_string()).collect()
}

#[test]
fn legacy_rs_flag_is_rewritten_once() {
    assert_eq!(
        preprocess_argv_for_legacy_flags(v(&["rsctl", "api", "-rs", "--dir", "x"])),
        v(&["rsctl", "api", "rs", "--dir", "x"])
    );
    assert_eq!(
        preprocess_argv_for_legacy_flags(v(&["rsctl", "api", "rs", "--dir"])),
        v(&["rsctl", "api", "rs", "--dir"])
    );
    // the pair must be followed by at least one more argument
    assert_eq!(preprocess_argv_for_legacy_flags(v(&["rsctl", "api", "-rs"])), v(&["rsctl", "api", "-rs"]));
}

#[test]
fn urls_and_git_addresses_are_remote() {
    assert!(looks_like_url_or_git("https://github.com/a/b"));
    assert!(looks_like_url_or_git("http://x"));
    assert!(looks_like_url_or_git("git@github.com:a/b"));
    assert!(looks_like_url_or_git("ssh://host/repo"));
    assert!(looks_like_url_or_git("/tmp/repo.git"));
    assert!(!looks_like_url_or_git("./templates"));
}

#[test]
fn template_source_resolution() {
    assert!(matches!(resolve_template_root(None), TemplateSource::Default));
    assert!(matches!(resolve_template_root(Some("   ")), TemplateSource::Default));
    match resolve_template_root(Some("  ./tpl  ")) {
        TemplateSource::Local(s) => assert_eq!(s, "./tpl"),
        _ => panic!("expected a local source"),
    }
    match resolve_template_root(Some(" https://github.com/a/tpl.git ")) {
        TemplateSource::Remote(s) => assert_eq!(s, "https://github.com/a/tpl.git"),
        _ => panic!("expected a remote source"),
    }
}

#[test]
fn remote_basename_and_clone_dir() {
    assert_eq!(remote_repo_basename("https://github.com/a/templates.git"), Some("templates".to_string()));
    assert_eq!(remote_repo_basename("git@github.com:org/repo.git"), Some("repo".to_string()));
    assert_eq!(remote_repo_basename("https://github.com/a/"), None);
    assert_eq!(clone_dir_name("https://github.com/a/tpl.git", 1700), "tpl-1700");
    assert_eq!(clone_dir_name("https://x/", 5), "templates-5");
}

#[test]
fn default_template_root_lookup_order() {
    let home = Some("/home/u".to_string());
    assert_eq!(rsctl_home("/home/u"), "/home/u/.rsctl");
    assert_eq!(rsctl_templates("/home/u/"), "/home/u/.rsctl/templates");
    assert_eq!(rsctl_version_dir("/home/u", "1.2.0"), "/home/u/.rsctl/1.2.0");
    assert_eq!(
        default_template_root(home.clone(), "1.2.0", true, true, true, None),
        Some("/home/u/.rsctl/1.2.0".to_string())
    );
    assert_eq!(
        default_template_root(home.clone(), "1.2.0", false, true, true, Some("/w/templates".to_string())),
        Some("/home/u/.rsctl/templates".to_string())
    );
    assert_eq!(
        default_template_root(home.clone(), "1.2.0", false, false, true, None),
        Some("/home/u/.rsctl".to_string())
    );
    assert_eq!(
        default_template_root(home, "1.2.0", false, false, false, Some("/w/templates".to_string())),
        Some("/w/templates".to_string())
    );
    assert_eq!(
        default_template_root(None, "1.2.0", true, true, true, Some("/w/templates".to_string())),
        Some("/w/templates".to_string())
    );
    assert_eq!(default_template_root(None, "1.2.0", true, true, true, None), None);
}

#[test]
fn home_dir_sources() {
    let s = |x: &str| Some(x.to_string());
    assert!(matches!(home_dir(s("/h"), s("/u"), None, None), Some(HomeDir::Dir(d)) if d == "/h"));
    assert!(matches!(home_dir(s(""), s("/u"), None, None), Some(HomeDir::Dir(d)) if d == "/u"));
    assert!(matches!(
        home_dir(None, s(""), s("C:"), s("\\Users\\x")),
        Some(HomeDir::DriveAndPath(d, p)) if d == "C:" && p == "\\Users\\x"
    ));
    assert!(home_dir(None, None, s("C:"), s("")).is_none());
}

#[test]
fn required_options() {
    assert!(matches!(check_required("", "a.api"), Err(PipelineError::DirRequired)));
    assert!(matches!(check_required("out", ""), Err(PipelineError::ApiRequired)));
    assert!(check_required("out", "a.api").is_ok());
}

#[test]
fn framework_names() {
    assert!(matches!(framework_of("axum"), Ok(Framework::Axum)));
    assert!(matches!(framework_of("actix"), Ok(Framework::Actix)));
    match framework_of("rocket") {
        Err(PipelineError::UnsupportedWeb(w)) => assert_eq!(w, "rocket"),
        _ => panic!("expected an unsupported web"),
    }
    assert_eq!(Framework::Actix.name(), "actix");
}

#[test]
fn cleanup_and_write_decisions() {
    assert!(cleanup_paths(false, &v(&["user.rs"])).is_empty());
    assert_eq!(
        cleanup_paths(true, &v(&["Cargo.toml", "user.rs"])),
        v(&["main.rs", "middleware/jwt.rs", "handler/routes.rs", "server.rs"])
    );
    assert_eq!(
        cleanup_paths(true, &v(&["main.rs"])),
        v(&["middleware/jwt.rs", "handler/routes.rs", "server.rs"])
    );
    assert!(should_write(false, false));
    assert!(!should_write(false, true));
    assert!(should_write(true, true));
}

#[test]
fn config_keeps_options_and_web() {
    let opts = Options {
        out_dir: "out".to_string(),
        api_file: "a.api".to_string(),
        style: Some("rustZero".to_string()),
        remote: None,
        merge: false,
        overwrite: true,
        web: "ignored".to_string(),
    };
    let c = config(opts.clone(), "actix", "/t".to_string()).ok().unwrap();
    assert_eq!(c.out_dir, "out");
    assert_eq!(c.api_file, "a.api");
    assert_eq!(c.style, Some("rustZero".to_string()));
    assert_eq!(c.template_root, "/t");
    assert!(!c.merge && c.overwrite);
    assert_eq!(c.web, "actix");
    let mut bad = opts;
    bad.out_dir = String::new();
    assert!(matches!(config(bad, "axum", "/t".to_string()), Err(PipelineError::DirRequired)));
}

#[test]
fn run_config_resolves_the_template_root() {
    let opts = |remote: Option<&str>| Options {
        out_dir: "out".to_string(),
        api_file: "a.api".to_string(),
        style: None,
        remote: remote.map(|r| r.to_string()),
        merge: true,
        overwrite: false,
        web: "axum".to_string(),
    };
    let c = run_config(opts(None), Some("/home/u/.rsctl/templates".to_string()), None, false).ok().unwrap();
    assert_eq!(c.template_root, "/home/u/.rsctl/templates");
    assert_eq!(c.web, "axum");
    let c = run_config(opts(Some("  ")), None, None, false).ok().unwrap();
    assert_eq!(c.template_root, "templates");
    let c = run_config(opts(Some(" ./tpl ")), Some("/ignored".to_string()), None, false).ok().unwrap();
    assert_eq!(c.template_root, "./tpl");
    let c = run_config(opts(Some("https://x/r.git")), None, Some("/tmp/r".to_string()), true).ok().unwrap();
    assert_eq!(c.template_root, "/tmp/r/templates");
    let c = run_config(opts(Some("git@h:r")), None, Some("/tmp/r".to_string()), false).ok().unwrap();
    assert_eq!(c.template_root, "/tmp/r");
    let mut bad = opts(None);
    bad.api_file = String::new();
    assert!(matches!(run_config(bad, None, None, false), Err(PipelineError::ApiRequired)));
    assert_eq!(template_root_of(&TemplateSource::Local("/l".to_string()), None, None, false), "/l");
}

#[test]
fn prepare_names_project_and_style() {
    let p = prepare("service user {\n  @handler a\n  get /a\n}\n", Some("file".to_string()), None, "axum")
        .ok()
        .unwrap();
    assert_eq!(p.service_name, "user");
    assert_eq!(p.style, "rust_zero");
    assert!(matches!(p.framework, Framework::Axum));
    assert_eq!(p.spec.services.len(), 1);
    let q = prepare("get /ping\n", Some("demo".to_string()), Some("RustZero".to_string()), "actix")
        .ok()
        .unwrap();
    assert_eq!(q.service_name, "demo");
    assert_eq!(q.style, "RustZero");
    assert_eq!(q.spec.routes.len(), 1);
    let r = prepare("get /ping\n", None, None, "axum").ok().unwrap();
    assert_eq!(r.service_name, "api");
}

#[test]
fn prepare_errors_in_order() {
    assert!(matches!(prepare("service {", None, None, "axum"), Err(ApiError::Parse(_))));
    match prepare("fetch /x\n", None, None, "axum") {
        Err(ApiError::Semantic(SemanticError::UnsupportedMethod(m))) => assert_eq!(m, "fetch"),
        _ => panic!("expected an unsupported method"),
    }
    match prepare("service a {\n}\nservice b {\n}\n", None, None, "rocket") {
        Err(ApiError::Pipeline(PipelineError::MultipleServiceNames(ns))) => {
            assert_eq!(ns, v(&["a", "b"]))
        }
        _ => panic!("expected multiple service names"),
    }
    match prepare("service a {\n}\n", None, None, "rocket") {
        Err(ApiError::Pipeline(PipelineError::UnsupportedWeb(w))) => assert_eq!(w, "rocket"),
        _ => panic!("expected an unsupported web"),
    }
}

#[test]
fn command_line_arguments_become_options() {
    let a = RsArgs {
        dir: ".".to_string(),
        api: "x.api".to_string(),
        style: Some("rust_zero".to_string()),
        remote: None,
        merge: true,
        overwrite: false,
        web: "axum".to_string(),
    };
    let o = a.options();
    assert_eq!(o.out_dir, ".");
    assert_eq!(o.api_file, "x.api");
    assert!(o.merge && !o.overwrite);
    assert_eq!(o.web, "axum");
    let m = MysqlArgs { cache: true, dir: "m".to_string(), remote: None, style: None }.options();
    assert!(m.cache);
    assert_eq!(m.out_dir, "m");
    let p = PgArgs { cache: false, dir: "p".to_string(), remote: Some("r".to_string()), style: None }.options();
    assert_eq!(p.remote, Some("r".to_string()));
}

#[test]
fn model_runs_need_a_dir() {
    let o = mysql::Options { out_dir: String::new(), cache: false, style: None, remote: None };
    assert!(matches!(mysql::run(o, "t".to_string()), Err(PipelineError::DirRequired)));
    let o = pg::Options { out_dir: "d".to_string(), cache: true, style: None, remote: None };
    let c = pg::run(o, "t".to_string()).ok().unwrap();
    assert_eq!(c.out_dir, "d");
    assert!(c.cache);
    assert_eq!(c.template_root, "t");
}
