use puppeteer_cli::cli::{
    classify_repl_line, describe_variable, dirs_history_path, is_skipped_line, script_opens_page,
    split_inline_commands, ReplInput,
};
use puppeteer_cli::launch::{plan_browser, resolve_verbose, BrowserPlan, CliOptions, Config};
use puppeteer_cli::variables::{JsonValue, Variable, Variables};

#[test]
fn repl_lines() {
    assert!(matches!(classify_repl_line("   ", false), ReplInput::Blank));
    for l in ["exit", " quit ", ".exit"] {
        assert!(matches!(classify_repl_line(l, false), ReplInput::Exit));
    }
    assert!(matches!(classify_repl_line("help", false), ReplInput::Help));
    assert!(matches!(classify_repl_line(".vars", true), ReplInput::ShowVars));
    assert!(matches!(classify_repl_line("config", true), ReplInput::ShowConfig));
    match classify_repl_line(" config ", false) {
        ReplInput::Run(l) => assert_eq!(l, "config"),
        other => panic!("{other:?}"),
    }
    match classify_repl_line("  page.title()  ", true) {
        ReplInput::Run(l) => assert_eq!(l, "page.title()"),
        other => panic!("{other:?}"),
    }
}

#[test]
fn skipped_lines() {
    assert!(is_skipped_line(""));
    assert!(is_skipped_line("   // note"));
    assert!(is_skipped_line("\t# note"));
    assert!(!is_skipped_line("page.title()"));
    assert!(!is_skipped_line("/ page"));
}

#[test]
fn inline_scripts() {
    assert_eq!(
        split_inline_commands(" a(); b() ;; c ;"),
        vec!["a()".to_string(), "b()".to_string(), "c".to_string()]
    );
    assert!(split_inline_commands(" ; ;").is_empty());
    assert!(script_opens_page(&vec!["x".to_string(), "const p = await browser.newPage();".to_string()]));
    assert!(!script_opens_page(&vec!["page.goto('u')".to_string()]));
}

#[test]
fn variable_listing() {
    let n = "v".to_string();
    assert_eq!(
        describe_variable(&n, &Variable::ElementSelector("#a".to_string())),
        "  v = [Element: #a]"
    );
    assert_eq!(describe_variable(&n, &Variable::StringValue("hi".to_string())), "  v = \"hi\"");
    let long = "x".repeat(81);
    assert_eq!(
        describe_variable(&n, &Variable::StringValue(long)),
        format!("  v = \"{}...\"", "x".repeat(80))
    );
    let exact = "y".repeat(80);
    assert_eq!(
        describe_variable(&n, &Variable::StringValue(exact.clone())),
        format!("  v = \"{exact}\"")
    );
    let wide = format!("{}é{}", "z".repeat(78), "w".repeat(5));
    assert_eq!(
        describe_variable(&n, &Variable::StringValue(wide)),
        format!("  v = \"{}é...\"", "z".repeat(78))
    );
    assert_eq!(
        describe_variable(&n, &Variable::JsonValue(JsonValue::Str { content: "a".to_string(), json: "\"a\"".to_string() })),
        "  v = \"a\""
    );
    assert_eq!(describe_variable(&n, &Variable::JsonValue(JsonValue::Null)), "  v = null");
}

#[test]
fn whole_variable_table() {
    let mut vars = Variables::new();
    assert!(puppeteer_cli::cli::can_list(&vars));
    assert_eq!(puppeteer_cli::cli::variable_listing(&vars), vec!["No variables stored.".to_string()]);
    vars.insert("h".to_string(), Variable::ElementSelector("#a".to_string()));
    vars.insert("t".to_string(), Variable::StringValue("Title".to_string()));
    vars.insert("h".to_string(), Variable::ElementSelector("#b".to_string()));
    assert_eq!(
        puppeteer_cli::cli::variable_listing(&vars),
        vec![
            "Variables:".to_string(),
            "  h = [Element: #b]".to_string(),
            "  t = \"Title\"".to_string(),
        ]
    );
    vars.insert("w".to_string(), Variable::StringValue(format!("{}é", "z".repeat(79))));
    assert!(!puppeteer_cli::cli::can_list(&vars));
}

#[test]
fn history_file() {
    assert_eq!(
        dirs_history_path(Some("/home/me".to_string())),
        Some("/home/me/.puppeteer_cli_history".to_string())
    );
    assert_eq!(dirs_history_path(None), None);
}

fn empty_config() -> Config {
    Config {
        headless: None,
        sandbox: None,
        devtools: None,
        enable_gpu: None,
        enable_logging: None,
        width: None,
        height: None,
        port: None,
        ignore_certificate_errors: None,
        chrome_path: None,
        user_data_dir: None,
        disable_default_args: None,
        idle_browser_timeout_secs: None,
        proxy_server: None,
        chrome_args: None,
        process_envs: None,
        verbose: None,
        url: None,
    }
}

fn no_flags() -> CliOptions {
    CliOptions { headful: None, port: None, url: None, width: None, height: None, verbose: None, chrome_args: vec![] }
}

#[test]
fn launch_defaults() {
    match plan_browser(no_flags(), empty_config()) {
        BrowserPlan::Launch(s) => {
            assert!(s.headless && s.sandbox && !s.devtools && !s.enable_gpu && !s.enable_logging);
            assert!(s.ignore_certificate_errors && !s.disable_default_args);
            assert_eq!((s.width, s.height, s.port, s.idle_browser_timeout_secs), (1280, 720, None, 30));
            assert!(s.args.is_empty());
        }
        BrowserPlan::Connect(u) => panic!("{u}"),
    }
}

#[test]
fn flags_override_configuration() {
    let mut cfg = empty_config();
    cfg.width = Some(800);
    cfg.height = Some(600);
    cfg.headless = Some(true);
    cfg.port = Some(9000);
    cfg.chrome_args = Some(vec!["--a".to_string()]);
    cfg.sandbox = Some(false);
    let mut cli = no_flags();
    cli.width = Some(1920);
    cli.headful = Some(true);
    cli.chrome_args = vec!["--b".to_string()];
    match plan_browser(cli, cfg) {
        BrowserPlan::Launch(s) => {
            assert_eq!(s.width, 1920);
            assert_eq!(s.height, 600);
            assert!(!s.headless);
            assert!(!s.sandbox);
            assert_eq!(s.port, Some(9000));
            assert_eq!(s.args, vec!["--a".to_string(), "--b".to_string()]);
        }
        BrowserPlan::Connect(u) => panic!("{u}"),
    }
    let mut cfg = empty_config();
    cfg.url = Some("ws://cfg".to_string());
    let mut cli = no_flags();
    cli.url = Some("ws://flag".to_string());
    assert!(matches!(plan_browser(cli, cfg), BrowserPlan::Connect(u) if u == "ws://flag"));
    let mut cfg = empty_config();
    cfg.url = Some("ws://cfg".to_string());
    assert!(matches!(plan_browser(no_flags(), cfg), BrowserPlan::Connect(u) if u == "ws://cfg"));
}

#[test]
fn verbosity() {
    assert!(!resolve_verbose(None, None));
    assert!(resolve_verbose(None, Some(true)));
    assert!(!resolve_verbose(Some(false), Some(true)));
}
