use puppeteer_cli::arguments::{
    extract_string_arg, extract_two_string_args, find_string_arg_end, parse_assignment,
    parse_path_from_options, parse_viewport_args, strip_await, strip_method_call,
};
use puppeteer_cli::console::{split_console_log_args, unquote_string};
use puppeteer_cli::js::{
    arrow_fn_to_function, is_xpath, normalize_evaluate_expression, resolve_selector,
};
use puppeteer_cli::numbers::{check_float, decimal_chars, parse_u32, FloatError, IntError};

fn c(s: &str) -> Vec<char> {
    s.chars().collect()
}

fn text(v: &[char]) -> String {
    v.iter().collect()
}

#[test]
fn decimal_digits_read_back() {
    for n in [0u32, 7, 10, 1080, 65535, 4294967295] {
        let d = decimal_chars(n as u128);
        assert_eq!(text(&d), n.to_string());
        assert_eq!(parse_u32(&d), Ok(n));
    }
}

#[test]
fn integer_parsing_matches_std() {
    for s in ["", "+", "-", "+5", "-5", "12a", "4294967295", "4294967296", "99999999999x", " 1", "007"] {
        let std = s.parse::<u32>().map_err(|e| e.to_string());
        let ours = parse_u32(&c(s)).map_err(|e| puppeteer_cli::numbers::int_error_message(e).to_string());
        assert_eq!(ours, std, "{s:?}");
    }
    assert_eq!(parse_u32(&c("")), Err(IntError::Empty));
    assert_eq!(parse_u32(&c("99999999999x")), Err(IntError::PosOverflow));
}

#[test]
fn float_checking_matches_std() {
    for s in [
        "", "1", "-1.5", "+.5", "5.", ".", "e5", "1e", "1e+", "1E-7", "inf", "-Infinity", "NaN", "nan1",
        "1_0", " 1", "0x10", "1.2.3", "+", "infinit", "INFINITY",
    ] {
        let std = s.parse::<f64>().map_err(|e| e.to_string());
        let ours = match check_float(&c(s)) {
            None => Ok(s.parse::<f64>().unwrap()),
            Some(e) => Err(puppeteer_cli::numbers::float_error_message(e).to_string()),
        };
        match (&ours, &std) {
            (Ok(a), Ok(b)) => assert!(a == b || (a.is_nan() && b.is_nan()), "{s:?}"),
            _ => assert_eq!(ours.clone().err(), std.clone().err(), "{s:?}"),
        }
    }
    assert_eq!(check_float(&c("")), Some(FloatError::Empty));
}

#[test]
fn quoted_arguments() {
    assert_eq!(find_string_arg_end(&c("  'ab' x")), Some(4));
    assert_eq!(find_string_arg_end(&c("'a\\'b'")), Some(6));
    assert_eq!(find_string_arg_end(&c("ab")), None);
    assert_eq!(extract_string_arg(&c(" \"x y\" ")), Ok("x y".to_string()));
    assert_eq!(
        extract_two_string_args(&c("'a' ,  'b'")),
        Ok(("a".to_string(), "b".to_string()))
    );
    assert_eq!(extract_two_string_args(&c("'a'")), Err("Expected comma between arguments".to_string()));
}

#[test]
fn calls_declarations_and_await() {
    assert_eq!(strip_method_call(&c("page.goto('x')"), "page.goto").map(text), Some("'x'".to_string()));
    assert_eq!(strip_method_call(&c("page.goto('x'"), "page.goto"), None);
    assert_eq!(strip_method_call(&c("page.gotoX('x')"), "page.goto"), None);
    assert_eq!(strip_method_call(&c("page.goto ('x')"), "page.goto"), None);
    assert_eq!(strip_method_call(&c("m(a(b))"), "m").map(text), Some("a(b)".to_string()));
    let line = c("let   x  =  await page.title()");
    let (name, rest) = parse_assignment(&line);
    assert_eq!(name, Some("x".to_string()));
    assert_eq!(text(rest), "await page.title()");
    assert_eq!(text(strip_await(rest)), "page.title()");
    let line = c("x = 1");
    let (name, rest) = parse_assignment(&line);
    assert_eq!(name, None);
    assert_eq!(text(rest), "x = 1");
}

#[test]
fn option_objects() {
    assert_eq!(parse_viewport_args(&c("{width:1,height:2}")), Ok((1, 2)));
    assert_eq!(parse_path_from_options(&c("")), None);
    assert_eq!(parse_path_from_options(&c("{ path: \"p.png\" }")), Some("p.png".to_string()));
    assert_eq!(parse_path_from_options(&c("{quality: 5}")), None);
}

#[test]
fn javascript_forms() {
    assert_eq!(arrow_fn_to_function(&c("el => el.textContent")), "function(el) { return el.textContent; }");
    assert_eq!(arrow_fn_to_function(&c("(a, b) => a + b")), "function(a, b) { return a + b; }");
    assert_eq!(arrow_fn_to_function(&c("el => { return 1; }")), "function(el) { return 1; }");
    assert_eq!(arrow_fn_to_function(&c(" function(x) { return x; } ")), "function(x) { return x; }");
    assert_eq!(arrow_fn_to_function(&c("x")), "function() { return x; }");
    assert_eq!(normalize_evaluate_expression(&c("() => document.title")), "document.title");
    assert_eq!(normalize_evaluate_expression(&c("() => { return 1 }")), "(function() { return 1 })()");
    assert_eq!(normalize_evaluate_expression(&c("function() { return 2 }")), "(function() { return 2 })()");
    assert_eq!(normalize_evaluate_expression(&c(" 1 + 2 ")), "1 + 2");
    assert_eq!(resolve_selector("::-p-text(x)"), "//*[text()[contains(., 'x')]]");
    assert_eq!(
        resolve_selector("::-p-text(it's \"x\" o'k)"),
        "//*[text()[contains(., concat('it', \"'\", 's \"x\" o', \"'\", 'k'))]]"
    );
    assert_eq!(resolve_selector("::-p-aria(Search)"), "::-p-aria(Search)");
    assert_eq!(resolve_selector("::-p-text(x"), "::-p-text(x");
    assert_eq!(resolve_selector(".a"), ".a");
    assert!(is_xpath(&resolve_selector("::-p-text(x)")));
    assert!(!is_xpath(".a > b"));
    assert_eq!(
        normalize_evaluate_expression(&c("function() { return [1].map(x => x); }")),
        "(function() { return [1].map(x => x); })()"
    );
}

#[test]
fn console_arguments() {
    assert_eq!(
        split_console_log_args(&c("'a, b', x , \"c\\\"d\", ")),
        vec!["'a, b'".to_string(), "x".to_string(), "\"c\\\"d\"".to_string()]
    );
    assert_eq!(split_console_log_args(&c(", ,x")), vec!["".to_string(), "".to_string(), "x".to_string()]);
    assert_eq!(unquote_string(&c(" 'x' ")), "x");
    assert_eq!(unquote_string(&c("'x\"")), "'x\"");
    assert_eq!(unquote_string(&c("'")), "'");
    assert_eq!(unquote_string(&c("``")), "");
}
