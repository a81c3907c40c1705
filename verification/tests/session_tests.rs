use puppeteer_cli::parser::{parse_line, Command};
use puppeteer_cli::session::{format_remote_object_value, Action, Outcome, Session};
use puppeteer_cli::variables::{JsonValue, Variable};

fn cmd(line: &str) -> Command {
    parse_line(line).unwrap()
}

fn open(verbose: bool) -> Session {
    let mut s = Session::new(verbose);
    let c = cmd("const page = await browser.newPage();");
    assert!(matches!(s.begin(&c), Ok(Action::OpenPage)));
    s.complete(&c, Outcome::Done);
    s
}

#[test]
fn page_commands_are_refused_without_a_page() {
    let s = Session::new(true);
    for line in [
        "page.goto('u')",
        "page.setViewport({width: 1, height: 2})",
        "page.keyboard.press('a')",
        "page.click('#a')",
        "page.title()",
        "page.reload()",
        "el.evaluate(e => e)",
        "page.mouse.click(1, 2)",
    ] {
        match s.begin(&cmd(line)) {
            Err(e) => assert_eq!(e, "No page open. Use `browser.newPage()` first."),
            Ok(a) => panic!("{line}: {a:?}"),
        }
    }
    assert!(matches!(s.begin(&cmd("console.log('x')")), Ok(Action::Nothing)));
    assert!(matches!(s.begin(&cmd("// note")), Ok(Action::Nothing)));
    assert!(matches!(s.begin(&cmd("browser.close()")), Ok(Action::ClosePage)));
}

#[test]
fn opening_and_closing_the_page() {
    let mut s = Session::new(false);
    let c = cmd("browser.newPage()");
    assert_eq!(s.complete(&c, Outcome::Done), Some("New page created.".to_string()));
    assert!(s.page_open);
    let mut v = Session::new(true);
    let c = cmd("const page = await browser.newPage()");
    assert_eq!(v.complete(&c, Outcome::Done), Some("Page created → page".to_string()));
    let close = cmd("await browser.close();");
    assert_eq!(v.complete(&close, Outcome::Done), Some("Browser closed.".to_string()));
    assert!(!v.page_open);
}

#[test]
fn navigation_reports_only_when_verbose() {
    let quiet = open(false);
    let c = cmd("page.goto('https://example.com')");
    match quiet.begin(&c) {
        Ok(Action::Navigate { url }) => assert_eq!(url, "https://example.com"),
        other => panic!("{other:?}"),
    }
    let mut quiet = quiet;
    assert_eq!(quiet.complete(&c, Outcome::Done), None);
    let mut loud = open(true);
    assert_eq!(
        loud.complete(&c, Outcome::Done),
        Some("Navigated to https://example.com".to_string())
    );
    let vp = cmd("page.setViewport({width: 1080, height: 1024})");
    assert_eq!(
        loud.complete(&vp, Outcome::Done),
        Some("Viewport set to 1080x1024".to_string())
    );
    let fill = cmd("page.locator('#q').fill('abc')");
    assert_eq!(
        loud.complete(&fill, Outcome::Done),
        Some("Filled '#q' with: abc".to_string())
    );
    let ty = cmd("page.type('#q', 'abc')");
    assert_eq!(
        loud.complete(&ty, Outcome::Done),
        Some("Typed into '#q': abc".to_string())
    );
    assert_eq!(
        loud.complete(&cmd("page.goBack()"), Outcome::Done),
        Some("Navigated back.".to_string())
    );
    assert_eq!(loud.complete(&cmd("page.mouse.click(1, 2)"), Outcome::Done), None);
}

#[test]
fn actions_carry_what_the_browser_needs() {
    let s = open(false);
    match s.begin(&cmd("page.evaluate(() => document.title)")) {
        Ok(Action::Evaluate { script }) => assert_eq!(script, "document.title"),
        other => panic!("{other:?}"),
    }
    match s.begin(&cmd("page.evaluate(() => { return 1; })")) {
        Ok(Action::Evaluate { script }) => assert_eq!(script, "(function() { return 1; })()"),
        other => panic!("{other:?}"),
    }
    match s.begin(&cmd("page.screenshot()")) {
        Ok(Action::Screenshot { path }) => assert_eq!(path, "screenshot.png"),
        other => panic!("{other:?}"),
    }
    match s.begin(&cmd("page.pdf({path: 'a.pdf'})")) {
        Ok(Action::PrintPdf { path }) => assert_eq!(path, "a.pdf"),
        other => panic!("{other:?}"),
    }
    match s.begin(&cmd("page.setCookie({\"name\": \"a\", \"value\": \"b\"})")) {
        Ok(Action::SetCookies { json }) => assert_eq!(json, "[{\"name\": \"a\", \"value\": \"b\"}]"),
        other => panic!("{other:?}"),
    }
    match s.begin(&cmd("page.goForward()")) {
        Ok(Action::RunScriptAndPause { script }) => assert_eq!(script, "window.history.forward()"),
        other => panic!("{other:?}"),
    }
    match s.begin(&cmd("page.locator('::-p-text(Hi)').click()")) {
        Ok(Action::Click { selector }) => assert_eq!(selector, "//*[text()[contains(., 'Hi')]]"),
        other => panic!("{other:?}"),
    }
}

#[test]
fn element_handles_are_stored_and_evaluated() {
    let mut s = open(false);
    let wait = cmd("const textSelector = await page.locator('::-p-text(Customize)').waitHandle();");
    assert_eq!(
        s.complete(&wait, Outcome::Done),
        Some("Element found: //*[text()[contains(., 'Customize')]]".to_string())
    );
    let eval = cmd("const fullTitle = await textSelector?.evaluate(el => el.textContent);");
    match s.begin(&eval) {
        Ok(Action::CallOnElement { selector, function }) => {
            assert_eq!(selector, "//*[text()[contains(., 'Customize')]]");
            assert_eq!(function, "function(el) { return el.textContent; }");
        }
        other => panic!("{other:?}"),
    }
    let out = s.complete(
        &eval,
        Outcome::Value(Some(JsonValue::Str {
            content: "Customize and automate".to_string(),
            json: "\"Customize and automate\"".to_string(),
        })),
    );
    assert_eq!(out, Some("Customize and automate".to_string()));
    let log = cmd(r#"console.log('The title of this blog post is "%s".', fullTitle);"#);
    assert_eq!(
        s.complete(&log, Outcome::Done),
        Some("The title of this blog post is \"Customize and automate\".".to_string())
    );
    let mut verbose = open(true);
    let wait = cmd("const h = await page.waitForSelector('#x');");
    assert_eq!(
        verbose.complete(&wait, Outcome::Done),
        Some("Element '#x' found → h".to_string())
    );
}

#[test]
fn evaluation_on_a_name_without_element_is_refused() {
    let mut s = open(false);
    match s.begin(&cmd("x.evaluate(e => e)")) {
        Err(e) => assert_eq!(e, "Unknown variable: x"),
        other => panic!("{other:?}"),
    }
    s.complete(&cmd("const x = await page.title();"), Outcome::Text("T".to_string()));
    match s.begin(&cmd("x.evaluate(e => e)")) {
        Err(e) => assert_eq!(e, "Variable 'x' is not an element handle"),
        other => panic!("{other:?}"),
    }
}

#[test]
fn evaluation_results_are_stored() {
    let mut s = open(false);
    let c = cmd("const n = await page.evaluate(() => 1 + 1);");
    let out = s.complete(&c, Outcome::Value(Some(JsonValue::Other { json: "2".to_string() })));
    assert_eq!(out, Some("2".to_string()));
    match s.variables.get(&['n']) {
        Some(Variable::JsonValue(JsonValue::Other { json })) => assert_eq!(json, "2"),
        other => panic!("{other:?}"),
    }
    let c = cmd("const u = await page.evaluate(() => undefined);");
    assert_eq!(s.complete(&c, Outcome::Value(None)), Some("undefined".to_string()));
    match s.variables.get(&['u']) {
        Some(Variable::StringValue(v)) => assert_eq!(v, "undefined"),
        other => panic!("{other:?}"),
    }
    let c = cmd("const z = await page.evaluate(() => null);");
    assert_eq!(s.complete(&c, Outcome::Value(Some(JsonValue::Null))), Some("null".to_string()));
    assert_eq!(
        s.complete(&cmd("console.log('%s %s %s', n, u, z)"), Outcome::Done),
        Some("2 undefined null".to_string())
    );
}

#[test]
fn content_length_is_counted_in_bytes() {
    let mut s = open(false);
    assert_eq!(
        s.complete(&cmd("page.content()"), Outcome::Text("héllo".to_string())),
        Some("Page content: 6 chars".to_string())
    );
    let mut v = open(true);
    assert_eq!(
        v.complete(&cmd("const html = await page.content()"), Outcome::Text("<p>".to_string())),
        Some("Content stored in html (3 chars)".to_string())
    );
}

#[test]
fn saved_files_are_reported() {
    let mut s = open(false);
    assert_eq!(
        s.complete(&cmd("page.screenshot()"), Outcome::Saved(10)),
        Some("Screenshot saved to screenshot.png (10 bytes)".to_string())
    );
    assert_eq!(
        s.complete(&cmd("page.pdf({path: 'x.pdf'})"), Outcome::Saved(12345)),
        Some("PDF saved to x.pdf (12345 bytes)".to_string())
    );
    assert_eq!(
        s.complete(&cmd("page.pdf()"), Outcome::Saved(0)),
        Some("PDF saved to page.pdf (0 bytes)".to_string())
    );
}

#[test]
fn an_outcome_of_another_kind_changes_nothing() {
    let mut s = open(false);
    assert_eq!(s.complete(&cmd("const t = await page.title()"), Outcome::Done), None);
    assert_eq!(s.variables.len(), 0);
    assert_eq!(s.complete(&cmd("page.goto('u')"), Outcome::Saved(3)), None);
    assert!(s.page_open);
}

#[test]
fn console_log_substitutes_in_order() {
    let mut s = open(false);
    s.complete(&cmd("const a = await page.title()"), Outcome::Text("A".to_string()));
    let out = s.complete(&cmd("console.log(\"%s-%s-%s\", a, 'lit', b)"), Outcome::Done);
    assert_eq!(out, Some("A-'lit'-b".to_string()));
    let out = s.complete(&cmd("console.log('plain, text')"), Outcome::Done);
    assert_eq!(out, Some("plain, text".to_string()));
    let out = s.complete(&cmd("console.log()"), Outcome::Done);
    assert_eq!(out, Some(String::new()));
    s.complete(&cmd("const h = await page.waitForSelector('#x')"), Outcome::Done);
    let out = s.complete(&cmd("console.log('%s', h)"), Outcome::Done);
    assert_eq!(out, Some("[Element: #x]".to_string()));
}

#[test]
fn remote_values_are_shown_as_text() {
    assert_eq!(format_remote_object_value(&None), "undefined");
    assert_eq!(format_remote_object_value(&Some(JsonValue::Null)), "null");
    assert_eq!(
        format_remote_object_value(&Some(JsonValue::Str { content: "a\"b".to_string(), json: "\"a\\\"b\"".to_string() })),
        "a\"b"
    );
    assert_eq!(
        format_remote_object_value(&Some(JsonValue::Other { json: "[1,2]".to_string() })),
        "[1,2]"
    );
}

#[test]
fn a_stored_title_is_what_console_log_prints() {
    let mut s = open(false);
    let t = "Some title, with comma".to_string();
    assert_eq!(s.complete(&cmd("const name = await page.title()"), Outcome::Text(t.clone())), Some(t.clone()));
    assert_eq!(s.complete(&cmd("console.log('%s', name)"), Outcome::Done), Some(t));
}

#[test]
fn a_failed_action_changes_nothing() {
    let mut s = open(true);
    let wait = cmd("const h = await page.waitForSelector('#x');");
    assert_eq!(s.finish(&wait, Err("timed out".to_string())), Err("timed out".to_string()));
    assert_eq!(s.variables.len(), 0);
    assert!(s.page_open);
    assert_eq!(s.finish(&wait, Ok(Outcome::Done)), Ok(Some("Element '#x' found → h".to_string())));
    assert_eq!(s.variables.len(), 1);
    let close = cmd("browser.close()");
    assert_eq!(s.finish(&close, Err("gone".to_string())), Err("gone".to_string()));
    assert!(s.page_open);
}

#[test]
fn assignment_names_only_results() {
    match (cmd("const t = await page.title();"), cmd("await page.title();")) {
        (Command::PageTitle { assign_to: a }, Command::PageTitle { assign_to: b }) => {
            assert_eq!(a, Some("t".to_string()));
            assert_eq!(b, None);
        }
        other => panic!("{other:?}"),
    }
    match cmd("const g = await page.goto('u');") {
        Command::PageGoto { url } => assert_eq!(url, "u"),
        other => panic!("{other:?}"),
    }
    assert_eq!(
        parse_line("const x = page.nothing()").unwrap_err(),
        parse_line("page.nothing()").unwrap_err()
    );
}
