use puppeteer_cli::parser::{parse_line, try_parse_line, Command};

fn err(line: &str) -> String {
    match parse_line(line) {
        Err(e) => e,
        Ok(c) => panic!("expected an error for {line:?}, got {c:?}"),
    }
}

#[test]
fn unknown_command_is_refused() {
    assert_eq!(err("foo()"), "Unknown command: foo()");
    assert_eq!(err("await   page.frobnicate('x');"), "Unknown command: page.frobnicate('x')");
}

#[test]
fn string_argument_errors() {
    assert_eq!(err("page.goto()"), "Expected a string argument");
    assert_eq!(err("page.goto(  )"), "Expected a string argument");
    assert_eq!(err("page.goto(abc)"), "Expected string argument, got: abc");
    assert_eq!(err("page.goto('abc)"), "Unterminated string: 'abc");
    assert_eq!(err("page.click('a\\')"), "Unterminated string: 'a\\'");
}

#[test]
fn escaped_quote_stays_escaped() {
    match parse_line(r"page.goto('it\'s');").unwrap() {
        Command::PageGoto { url } => assert_eq!(url, r"it\'s"),
        other => panic!("{other:?}"),
    }
}

#[test]
fn text_after_the_closing_quote_is_ignored() {
    match parse_line("page.goto('a' junk)").unwrap() {
        Command::PageGoto { url } => assert_eq!(url, "a"),
        other => panic!("{other:?}"),
    }
}

#[test]
fn every_quote_kind_is_accepted() {
    for line in ["page.click(\"#b\")", "page.click('#b')", "page.click(`#b`)"] {
        match parse_line(line).unwrap() {
            Command::PageClick { selector } => assert_eq!(selector, "#b"),
            other => panic!("{other:?}"),
        }
    }
}

#[test]
fn type_takes_two_strings() {
    match parse_line("await page.type('#q', \"hello, world\");").unwrap() {
        Command::PageType { selector, text } => {
            assert_eq!(selector, "#q");
            assert_eq!(text, "hello, world");
        }
        other => panic!("{other:?}"),
    }
    assert_eq!(err("page.type('a' 'b')"), "Expected comma between arguments");
    assert_eq!(err("page.type('a', b)"), "Expected string argument, got: b");
}

#[test]
fn viewport_errors_and_forms() {
    assert_eq!(err("page.setViewport(1, 2)"), "Expected {width: N, height: N}, got: 1, 2");
    assert_eq!(
        err("page.setViewport({width: x, height: 2})"),
        "Invalid width: invalid digit found in string"
    );
    assert_eq!(
        err("page.setViewport({width: , height: 2})"),
        "Invalid width: cannot parse integer from empty string"
    );
    assert_eq!(
        err("page.setViewport({width: 99999999999, height: 2})"),
        "Invalid width: number too large to fit in target type"
    );
    assert_eq!(
        err("page.setViewport({width: 1, height: -3})"),
        "Invalid height: invalid digit found in string"
    );
    assert_eq!(err("page.setViewport({height: 5})"), "Missing width in viewport");
    assert_eq!(err("page.setViewport({width: 5})"), "Missing height in viewport");
    match parse_line("page.setViewport({ height : 8, width: +7, width:4294967295 })").unwrap() {
        Command::PageSetViewport { width, height } => {
            assert_eq!(width, 4294967295);
            assert_eq!(height, 8);
        }
        other => panic!("{other:?}"),
    }
    match parse_line("page.setViewport({width: +7, height: 8, depth: 3})").unwrap() {
        Command::PageSetViewport { width, height } => {
            assert_eq!(width, 7);
            assert_eq!(height, 8);
        }
        other => panic!("{other:?}"),
    }
    assert_eq!(
        err("page.setViewport({width: 4294967296, height: 2})"),
        "Invalid width: number too large to fit in target type"
    );
}

#[test]
fn mouse_coordinates() {
    match parse_line("await page.mouse.click(10, 20.5);").unwrap() {
        Command::PageMouseClick { x, y } => {
            assert_eq!(x, "10");
            assert_eq!(y, "20.5");
        }
        other => panic!("{other:?}"),
    }
    match parse_line("page.mouse.move(1e3, -INF)").unwrap() {
        Command::PageMouseMove { x, y } => {
            assert_eq!(x, "1e3");
            assert_eq!(y, "-INF");
            assert_eq!(x.parse::<f64>().unwrap(), 1000.0);
            assert!(y.parse::<f64>().unwrap().is_infinite());
        }
        other => panic!("{other:?}"),
    }
    assert_eq!(err("page.mouse.click(1)"), "Expected two numbers, got: 1");
    assert_eq!(err("page.mouse.click(1, 2, 3)"), "Expected two numbers, got: 1, 2, 3");
    assert_eq!(err("page.mouse.move(a, 2)"), "Invalid x: invalid float literal");
    assert_eq!(err("page.mouse.move(1, )"), "Invalid y: cannot parse float from empty string");
    assert_eq!(err("page.mouse.move(1.2.3, 4)"), "Invalid x: invalid float literal");
    for (a, b) in [("NaN", "+2."), (".5", "6E-2"), ("infinity", "7")] {
        match parse_line(&format!("page.mouse.move({a}, {b})")).unwrap() {
            Command::PageMouseMove { x, y } => {
                assert!(x.parse::<f64>().is_ok());
                assert!(y.parse::<f64>().is_ok());
            }
            other => panic!("{other:?}"),
        }
    }
}

#[test]
fn paths_of_capture_options() {
    match parse_line("page.pdf()").unwrap() {
        Command::PagePdf { path } => assert_eq!(path, None),
        other => panic!("{other:?}"),
    }
    match parse_line("page.pdf({format: 'A4', path : 'out.pdf'})").unwrap() {
        Command::PagePdf { path } => assert_eq!(path, Some("out.pdf".to_string())),
        other => panic!("{other:?}"),
    }
    match parse_line("page.screenshot({path: shot})").unwrap() {
        Command::PageScreenshot { path } => assert_eq!(path, None),
        other => panic!("{other:?}"),
    }
    match parse_line("page.screenshot(path: 'x')").unwrap() {
        Command::PageScreenshot { path } => assert_eq!(path, None),
        other => panic!("{other:?}"),
    }
}

#[test]
fn element_evaluate_forms() {
    match parse_line("el.evaluate(x => x.value)").unwrap() {
        Command::ElementEvaluate { variable, js_fn, assign_to } => {
            assert_eq!(variable, "el");
            assert_eq!(js_fn, "x => x.value");
            assert_eq!(assign_to, None);
        }
        other => panic!("{other:?}"),
    }
    match parse_line("let v = await café_1?.evaluate(e => e.id);").unwrap() {
        Command::ElementEvaluate { variable, js_fn, assign_to } => {
            assert_eq!(variable, "café_1");
            assert_eq!(js_fn, "e => e.id");
            assert_eq!(assign_to, Some("v".to_string()));
        }
        other => panic!("{other:?}"),
    }
    assert_eq!(err("a-b.evaluate(f)"), "Unknown command: a-b.evaluate(f)");
    assert_eq!(err(".evaluate(f)"), "Unknown command: .evaluate(f)");
}

#[test]
fn declarations_and_semicolons() {
    match parse_line("  var  t =   await page.title() ;;; ").unwrap() {
        Command::PageTitle { assign_to } => assert_eq!(assign_to, Some("t".to_string())),
        other => panic!("{other:?}"),
    }
    match parse_line("let u = page.url()").unwrap() {
        Command::PageUrl { assign_to } => assert_eq!(assign_to, Some("u".to_string())),
        other => panic!("{other:?}"),
    }
    match parse_line("const x page.content()").unwrap_err() {
        e => assert_eq!(e, "Unknown command: const x page.content()"),
    }
    match parse_line("await page.reload();;;").unwrap() {
        Command::PageReload => {}
        other => panic!("{other:?}"),
    }
}

#[test]
fn assignment_is_ignored_by_commands_without_result() {
    match parse_line("const nav = await page.goto('u');").unwrap() {
        Command::PageGoto { url } => assert_eq!(url, "u"),
        other => panic!("{other:?}"),
    }
}

#[test]
fn other_page_commands() {
    let cases: Vec<(&str, Box<dyn Fn(&Command) -> bool>)> = vec![
        ("page.keyboard.type('abc')", Box::new(|c| matches!(c, Command::PageKeyboardType { text } if text == "abc"))),
        ("page.waitForSelector('#x')", Box::new(|c| matches!(c, Command::PageWaitForSelector { selector, assign_to: None } if selector == "#x"))),
        ("page.evaluate(() => 1 + 1)", Box::new(|c| matches!(c, Command::PageEvaluate { expression, .. } if expression == "() => 1 + 1"))),
        ("page.setUserAgent('UA/1')", Box::new(|c| matches!(c, Command::PageSetUserAgent { user_agent } if user_agent == "UA/1"))),
        ("page.goBack()", Box::new(|c| matches!(c, Command::PageGoBack))),
        ("page.goForward()", Box::new(|c| matches!(c, Command::PageGoForward))),
        ("page.setCookie({name: 'a', value: 'b'})", Box::new(|c| matches!(c, Command::PageSetCookie { cookies_json } if cookies_json == "{name: 'a', value: 'b'}"))),
        ("page.cookies()", Box::new(|c| matches!(c, Command::PageCookies { assign_to: None }))),
        ("page.content()", Box::new(|c| matches!(c, Command::PageContent { assign_to: None }))),
        ("console.log()", Box::new(|c| matches!(c, Command::ConsoleLog { expression } if expression.is_empty()))),
        ("page.locator('#a' )  .fill('t')", Box::new(|c| matches!(c, Command::PageLocatorFill { selector, text } if selector == "#a" && text == "t"))),
    ];
    for (line, check) in cases {
        let c = parse_line(line).unwrap();
        assert!(check(&c), "{line}: {c:?}");
    }
}

#[test]
fn locator_chain_must_follow_directly() {
    assert_eq!(
        err("page.locator('#a')  .  fill('t')"),
        "Unknown command: page.locator('#a')  .  fill('t')"
    );
}

#[test]
fn locator_with_unknown_chain_falls_through() {
    assert_eq!(err("page.locator('#a').hover()"), "Unknown command: page.locator('#a').hover()");
}

#[test]
fn locator_argument_with_leading_space() {
    assert_eq!(
        err("page.locator( 'x').click()"),
        "Unknown command: page.locator( 'x').click()"
    );
    // Two spaces before a two-byte char: the cut falls inside it.
    assert!(try_parse_line("page.locator(  'é').click()").is_none());
    assert!(try_parse_line("page.locator('é').click()").is_some());
}
