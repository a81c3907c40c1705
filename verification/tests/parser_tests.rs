use puppeteer_cli::parser::{parse_line, Command};

#[test]
fn test_parse_goto() {
    match parse_line("await page.goto('https://example.com');").unwrap() {
        Command::PageGoto { url } => assert_eq!(url, "https://example.com"),
        other => panic!("Expected PageGoto, got: {other:?}"),
    }
}

#[test]
fn test_parse_viewport() {
    match parse_line("await page.setViewport({width: 1080, height: 1024});").unwrap() {
        Command::PageSetViewport { width, height } => {
            assert_eq!(width, 1080);
            assert_eq!(height, 1024);
        }
        other => panic!("Expected PageSetViewport, got: {other:?}"),
    }
}

#[test]
fn test_parse_keyboard_press() {
    match parse_line("await page.keyboard.press('/');").unwrap() {
        Command::PageKeyboardPress { key } => assert_eq!(key, "/"),
        other => panic!("Expected PageKeyboardPress, got: {other:?}"),
    }
}

#[test]
fn test_parse_locator_fill() {
    match parse_line("await page.locator('::-p-aria(Search)').fill('automate beyond recorder');").unwrap() {
        Command::PageLocatorFill { selector, text } => {
            assert_eq!(selector, "::-p-aria(Search)");
            assert_eq!(text, "automate beyond recorder");
        }
        other => panic!("Expected PageLocatorFill, got: {other:?}"),
    }
}

#[test]
fn test_parse_locator_click() {
    match parse_line("await page.locator('.devsite-result-item-link').click();").unwrap() {
        Command::PageLocatorClick { selector } => {
            assert_eq!(selector, ".devsite-result-item-link");
        }
        other => panic!("Expected PageLocatorClick, got: {other:?}"),
    }
}

#[test]
fn test_parse_assignment() {
    match parse_line("const page = await browser.newPage();").unwrap() {
        Command::BrowserNewPage { assign_to } => {
            assert_eq!(assign_to, Some("page".to_string()));
        }
        other => panic!("Expected BrowserNewPage, got: {other:?}"),
    }
}

#[test]
fn test_parse_locator_wait_handle() {
    let line = "const textSelector = await page.locator('::-p-text(Customize and automate)').waitHandle();";
    match parse_line(line).unwrap() {
        Command::PageLocatorWaitHandle { selector, assign_to } => {
            assert_eq!(selector, "::-p-text(Customize and automate)");
            assert_eq!(assign_to, Some("textSelector".to_string()));
        }
        other => panic!("Expected PageLocatorWaitHandle, got: {other:?}"),
    }
}

#[test]
fn test_parse_element_evaluate() {
    let line = "const fullTitle = await textSelector?.evaluate(el => el.textContent);";
    match parse_line(line).unwrap() {
        Command::ElementEvaluate { variable, js_fn, assign_to } => {
            assert_eq!(variable, "textSelector");
            assert_eq!(js_fn, "el => el.textContent");
            assert_eq!(assign_to, Some("fullTitle".to_string()));
        }
        other => panic!("Expected ElementEvaluate, got: {other:?}"),
    }
}

#[test]
fn test_parse_console_log() {
    match parse_line(r#"console.log('The title of this blog post is "%s".', fullTitle);"#).unwrap() {
        Command::ConsoleLog { expression } => {
            assert!(expression.contains("fullTitle"));
        }
        other => panic!("Expected ConsoleLog, got: {other:?}"),
    }
}

#[test]
fn test_parse_screenshot() {
    match parse_line("await page.screenshot({path: 'screenshot.png'});").unwrap() {
        Command::PageScreenshot { path } => {
            assert_eq!(path, Some("screenshot.png".to_string()));
        }
        other => panic!("Expected PageScreenshot, got: {other:?}"),
    }
}

#[test]
fn test_parse_noop() {
    assert!(matches!(parse_line("").unwrap(), Command::Noop));
    assert!(matches!(parse_line("// comment").unwrap(), Command::Noop));
    assert!(matches!(parse_line("  # comment").unwrap(), Command::Noop));
}

#[test]
fn test_parse_browser_close() {
    assert!(matches!(
        parse_line("await browser.close();").unwrap(),
        Command::BrowserClose
    ));
}
