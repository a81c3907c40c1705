//! The parser of Puppeteer-style command lines.
//!
//! A line such as `const page = await browser.newPage();` or
//! `await page.locator('.item').fill('text');` becomes a [`Command`].
use vstd::prelude::*;
use crate::arguments::{
    assignment, call_args, extract_string_arg, extract_two_string_args, is_simple_identifier,
    locate, locator_chain, parse_assignment, parse_path_from_options, parse_two_numbers,
    parse_viewport_args, path_option, simple_identifier, string_arg, strip_await,
    strip_method_call, two_numbers, two_string_args, viewport_args, without_await,
};
use crate::text::{
    before_suffix, chars_of, equals, find, first_index, has_prefix, result_view, starts_with,
    string_from, strip_suffix, text_then, trim, trim_end_matches, trimmed, without_trailing,
};

verus! {

/// A parsed command line.
#[derive(Debug, Clone)]
pub enum Command {
    /// `browser.newPage()`
    BrowserNewPage {
        /// The variable that the page is assigned to (as in `const page = ...`)
        assign_to: Option<String>,
    },
    /// `browser.close()`
    BrowserClose,
    /// `page.goto(url)`
    PageGoto { url: String },
    /// `page.setViewport({width, height})`
    PageSetViewport { width: u32, height: u32 },
    /// `page.keyboard.press(key)`
    PageKeyboardPress { key: String },
    /// `page.keyboard.type(text)`
    PageKeyboardType { text: String },
    /// `page.locator(selector).click()`
    PageLocatorClick { selector: String },
    /// `page.locator(selector).fill(text)`
    PageLocatorFill { selector: String, text: String },
    /// `page.locator(selector).waitHandle()`
    PageLocatorWaitHandle { selector: String, assign_to: Option<String> },
    /// `page.waitForSelector(selector)`
    PageWaitForSelector { selector: String, assign_to: Option<String> },
    /// `page.type(selector, text)`
    PageType { selector: String, text: String },
    /// `page.click(selector)`
    PageClick { selector: String },
    /// `page.evaluate(expression)`
    PageEvaluate { expression: String, assign_to: Option<String> },
    /// `element.evaluate(fn)`, as in `textSelector?.evaluate(el => el.textContent)`
    ElementEvaluate { variable: String, js_fn: String, assign_to: Option<String> },
    /// `page.screenshot({path: 'file.png'})`
    PageScreenshot { path: Option<String> },
    /// `page.content()`
    PageContent { assign_to: Option<String> },
    /// `page.title()`
    PageTitle { assign_to: Option<String> },
    /// `page.url()`
    PageUrl { assign_to: Option<String> },
    /// `page.pdf({path: 'file.pdf'})`
    PagePdf { path: Option<String> },
    /// `console.log(expression)`
    ConsoleLog { expression: String },
    /// `page.mouse.click(x, y)`; each coordinate is kept as its text, which
    /// `str::parse::<f64>` accepts
    PageMouseClick { x: String, y: String },
    /// `page.mouse.move(x, y)`; each coordinate is kept as its text, which
    /// `str::parse::<f64>` accepts
    PageMouseMove { x: String, y: String },
    /// `page.setUserAgent(ua)`
    PageSetUserAgent { user_agent: String },
    /// `page.goBack()`
    PageGoBack,
    /// `page.goForward()`
    PageGoForward,
    /// `page.reload()`
    PageReload,
    /// `page.setCookie(...cookies)`
    PageSetCookie { cookies_json: String },
    /// `page.cookies()`
    PageCookies { assign_to: Option<String> },
    /// An empty line or a comment
    Noop,
}

/// The mathematical value of a [`Command`]: its texts as sequences of chars.
pub enum CommandModel {
    BrowserNewPage { assign_to: Option<Seq<char>> },
    BrowserClose,
    PageGoto { url: Seq<char> },
    PageSetViewport { width: u32, height: u32 },
    PageKeyboardPress { key: Seq<char> },
    PageKeyboardType { text: Seq<char> },
    PageLocatorClick { selector: Seq<char> },
    PageLocatorFill { selector: Seq<char>, text: Seq<char> },
    PageLocatorWaitHandle { selector: Seq<char>, assign_to: Option<Seq<char>> },
    PageWaitForSelector { selector: Seq<char>, assign_to: Option<Seq<char>> },
    PageType { selector: Seq<char>, text: Seq<char> },
    PageClick { selector: Seq<char> },
    PageEvaluate { expression: Seq<char>, assign_to: Option<Seq<char>> },
    ElementEvaluate { variable: Seq<char>, js_fn: Seq<char>, assign_to: Option<Seq<char>> },
    PageScreenshot { path: Option<Seq<char>> },
    PageContent { assign_to: Option<Seq<char>> },
    PageTitle { assign_to: Option<Seq<char>> },
    PageUrl { assign_to: Option<Seq<char>> },
    PagePdf { path: Option<Seq<char>> },
    ConsoleLog { expression: Seq<char> },
    PageMouseClick { x: Seq<char>, y: Seq<char> },
    PageMouseMove { x: Seq<char>, y: Seq<char> },
    PageSetUserAgent { user_agent: Seq<char> },
    PageGoBack,
    PageGoForward,
    PageReload,
    PageSetCookie { cookies_json: Seq<char> },
    PageCookies { assign_to: Option<Seq<char>> },
    Noop,
}

impl View for Command {
    type V = CommandModel;

    open spec fn view(&self) -> CommandModel {
        match self {
            Command::BrowserNewPage { assign_to } => CommandModel::BrowserNewPage {
                assign_to: assign_to.deep_view(),
            },
            Command::BrowserClose => CommandModel::BrowserClose,
            Command::PageGoto { url } => CommandModel::PageGoto { url: url@ },
            Command::PageSetViewport { width, height } => CommandModel::PageSetViewport {
                width: *width,
                height: *height,
            },
            Command::PageKeyboardPress { key } => CommandModel::PageKeyboardPress { key: key@ },
            Command::PageKeyboardType { text } => CommandModel::PageKeyboardType { text: text@ },
            Command::PageLocatorClick { selector } => CommandModel::PageLocatorClick {
                selector: selector@,
            },
            Command::PageLocatorFill { selector, text } => CommandModel::PageLocatorFill {
                selector: selector@,
                text: text@,
            },
            Command::PageLocatorWaitHandle { selector, assign_to } =>
                CommandModel::PageLocatorWaitHandle {
                selector: selector@,
                assign_to: assign_to.deep_view(),
            },
            Command::PageWaitForSelector { selector, assign_to } =>
                CommandModel::PageWaitForSelector {
                selector: selector@,
                assign_to: assign_to.deep_view(),
            },
            Command::PageType { selector, text } => CommandModel::PageType {
                selector: selector@,
                text: text@,
            },
            Command::PageClick { selector } => CommandModel::PageClick { selector: selector@ },
            Command::PageEvaluate { expression, assign_to } => CommandModel::PageEvaluate {
                expression: expression@,
                assign_to: assign_to.deep_view(),
            },
            Command::ElementEvaluate { variable, js_fn, assign_to } =>
                CommandModel::ElementEvaluate {
                variable: variable@,
                js_fn: js_fn@,
                assign_to: assign_to.deep_view(),
            },
            Command::PageScreenshot { path } => CommandModel::PageScreenshot {
                path: path.deep_view(),
            },
            Command::PageContent { assign_to } => CommandModel::PageContent {
                assign_to: assign_to.deep_view(),
            },
            Command::PageTitle { assign_to } => CommandModel::PageTitle {
                assign_to: assign_to.deep_view(),
            },
            Command::PageUrl { assign_to } => CommandModel::PageUrl {
                assign_to: assign_to.deep_view(),
            },
            Command::PagePdf { path } => CommandModel::PagePdf { path: path.deep_view() },
            Command::ConsoleLog { expression } => CommandModel::ConsoleLog {
                expression: expression@,
            },
            Command::PageMouseClick { x, y } => CommandModel::PageMouseClick { x: x@, y: y@ },
            Command::PageMouseMove { x, y } => CommandModel::PageMouseMove { x: x@, y: y@ },
            Command::PageSetUserAgent { user_agent } => CommandModel::PageSetUserAgent {
                user_agent: user_agent@,
            },
            Command::PageGoBack => CommandModel::PageGoBack,
            Command::PageGoForward => CommandModel::PageGoForward,
            Command::PageReload => CommandModel::PageReload,
            Command::PageSetCookie { cookies_json } => CommandModel::PageSetCookie {
                cookies_json: cookies_json@,
            },
            Command::PageCookies { assign_to } => CommandModel::PageCookies {
                assign_to: assign_to.deep_view(),
            },
            Command::Noop => CommandModel::Noop,
        }
    }
}

/// The mathematical value of a parse result.
pub open spec fn parse_view(r: Result<Command, String>) -> Result<CommandModel, Seq<char>> {
    match r {
        Ok(c) => Ok(c@),
        Err(e) => Err(e@),
    }
}


/// The mathematical value of a parse result that may stand for a panic (`None`).
pub open spec fn outcome_view(r: Option<Result<Command, String>>) -> Option<Result<CommandModel, Seq<char>>> {
    match r {
        Some(x) => Some(parse_view(x)),
        None => None,
    }
}

/// `variable?.evaluate(fn)` where `pat` is `?.evaluate(` (or `.evaluate(`).
pub open spec fn element_evaluate_at(
    line: Seq<char>,
    pat: Seq<char>,
    assign: Option<Seq<char>>,
) -> Option<CommandModel> {
    match first_index(line, pat) {
        None => None,
        Some(pos) => {
            let variable = trimmed(line.take(pos));
            if is_simple_identifier(variable) {
                match before_suffix(line.skip(pos + pat.len()), ")"@) {
                    Some(js) => Some(
                        CommandModel::ElementEvaluate { variable, js_fn: js, assign_to: assign },
                    ),
                    None => None,
                }
            } else {
                None
            }
        },
    }
}

/// `variable?.evaluate(fn)` or `variable.evaluate(fn)`.
pub open spec fn element_evaluate(line: Seq<char>, assign: Option<Seq<char>>) -> Option<CommandModel> {
    match element_evaluate_at(line, "?.evaluate("@, assign) {
        Some(c) => Some(c),
        None => element_evaluate_at(line, ".evaluate("@, assign),
    }
}

fn element_evaluate_with(line: &[char], pat: &str, assign_to: Option<String>) -> (r: Option<Command>)
    ensures
        r matches Some(c) ==> element_evaluate_at(line@, pat@, assign_to.deep_view()) == Some(c@),
        r is None ==> element_evaluate_at(line@, pat@, assign_to.deep_view()) is None,
{
    let pos = match find(line, pat) {
        None => return None,
        Some(p) => p,
    };
    let variable = trim(&line[0..pos]);
    assert(line@.subrange(0, pos as int) =~= line@.take(pos as int));
    if !simple_identifier(variable) {
        return None;
    }
    let plen = pat.unicode_len();
    let n = line.len();
    let rest = &line[pos + plen..n];
    assert(rest@ =~= line@.skip(pos + pat@.len()));
    match strip_suffix(rest, ")") {
        Some(js) => Some(
            Command::ElementEvaluate {
                variable: string_from(variable),
                js_fn: string_from(js),
                assign_to,
            },
        ),
        None => None,
    }
}

/// Reads `variable?.evaluate(fn)` or `variable.evaluate(fn)`, where the variable is a
/// simple identifier.
pub fn try_parse_element_evaluate(line: &[char], assign_to: Option<String>) -> (r: Option<Command>)
    ensures
        r matches Some(c) ==> element_evaluate(line@, assign_to.deep_view()) == Some(c@),
        r is None ==> element_evaluate(line@, assign_to.deep_view()) is None,
{
    let again = assign_to.clone();
    assert(again.deep_view() == assign_to.deep_view());
    if let Some(c) = element_evaluate_with(line, "?.evaluate(", assign_to) {
        return Some(c);
    }
    element_evaluate_with(line, ".evaluate(", again)
}

/// The commands tried before the locator chain.
pub open spec fn early_command(line: Seq<char>, assign: Option<Seq<char>>) -> Option<Result<CommandModel, Seq<char>>> {
    if let Some(args) = call_args(line, "console.log"@) {
        Some(Ok(CommandModel::ConsoleLog { expression: args }))
    } else if line == "browser.newPage()"@ {
        Some(Ok(CommandModel::BrowserNewPage { assign_to: assign }))
    } else if line == "browser.close()"@ {
        Some(Ok(CommandModel::BrowserClose))
    } else if let Some(args) = call_args(line, "page.goto"@) {
        Some(
            match string_arg(args) {
                Ok(url) => Ok(CommandModel::PageGoto { url }),
                Err(e) => Err(e),
            },
        )
    } else if let Some(args) = call_args(line, "page.setViewport"@) {
        Some(
            match viewport_args(args) {
                Ok((width, height)) => Ok(CommandModel::PageSetViewport { width, height }),
                Err(e) => Err(e),
            },
        )
    } else if let Some(args) = call_args(line, "page.keyboard.press"@) {
        Some(
            match string_arg(args) {
                Ok(key) => Ok(CommandModel::PageKeyboardPress { key }),
                Err(e) => Err(e),
            },
        )
    } else if let Some(args) = call_args(line, "page.keyboard.type"@) {
        Some(
            match string_arg(args) {
                Ok(text) => Ok(CommandModel::PageKeyboardType { text }),
                Err(e) => Err(e),
            },
        )
    } else {
        None
    }
}

/// The command that the chain after `page.locator(selector)` makes, if any.
pub open spec fn locator_command(
    selector: Seq<char>,
    chain: Seq<char>,
    assign: Option<Seq<char>>,
) -> Option<Result<CommandModel, Seq<char>>> {
    if let Some(args) = call_args(chain, ".fill"@) {
        Some(
            match string_arg(args) {
                Ok(text) => Ok(CommandModel::PageLocatorFill { selector, text }),
                Err(e) => Err(e),
            },
        )
    } else if chain == ".click()"@ {
        Some(Ok(CommandModel::PageLocatorClick { selector }))
    } else if chain == ".waitHandle()"@ {
        Some(Ok(CommandModel::PageLocatorWaitHandle { selector, assign_to: assign }))
    } else {
        None
    }
}

/// The page commands tried after the locator chain, up to `page.pdf`.
pub open spec fn page_command(line: Seq<char>, assign: Option<Seq<char>>) -> Option<Result<CommandModel, Seq<char>>> {
    if let Some(args) = call_args(line, "page.waitForSelector"@) {
        Some(
            match string_arg(args) {
                Ok(selector) => Ok(CommandModel::PageWaitForSelector { selector, assign_to: assign }),
                Err(e) => Err(e),
            },
        )
    } else if let Some(args) = call_args(line, "page.type"@) {
        Some(
            match two_string_args(args) {
                Ok((selector, text)) => Ok(CommandModel::PageType { selector, text }),
                Err(e) => Err(e),
            },
        )
    } else if let Some(args) = call_args(line, "page.click"@) {
        Some(
            match string_arg(args) {
                Ok(selector) => Ok(CommandModel::PageClick { selector }),
                Err(e) => Err(e),
            },
        )
    } else if let Some(args) = call_args(line, "page.evaluate"@) {
        Some(Ok(CommandModel::PageEvaluate { expression: args, assign_to: assign }))
    } else if let Some(args) = call_args(line, "page.screenshot"@) {
        Some(Ok(CommandModel::PageScreenshot { path: path_option(args) }))
    } else if line == "page.content()"@ {
        Some(Ok(CommandModel::PageContent { assign_to: assign }))
    } else if line == "page.title()"@ {
        Some(Ok(CommandModel::PageTitle { assign_to: assign }))
    } else if line == "page.url()"@ {
        Some(Ok(CommandModel::PageUrl { assign_to: assign }))
    } else if let Some(args) = call_args(line, "page.pdf"@) {
        Some(Ok(CommandModel::PagePdf { path: path_option(args) }))
    } else {
        None
    }
}

/// The commands tried last, ending with `variable.evaluate(fn)` and the refusal.
pub open spec fn last_command(line: Seq<char>, assign: Option<Seq<char>>) -> Result<CommandModel, Seq<char>> {
    if let Some(args) = call_args(line, "page.mouse.click"@) {
        match two_numbers(args) {
            Ok((x, y)) => Ok(CommandModel::PageMouseClick { x, y }),
            Err(e) => Err(e),
        }
    } else if let Some(args) = call_args(line, "page.mouse.move"@) {
        match two_numbers(args) {
            Ok((x, y)) => Ok(CommandModel::PageMouseMove { x, y }),
            Err(e) => Err(e),
        }
    } else if let Some(args) = call_args(line, "page.setUserAgent"@) {
        match string_arg(args) {
            Ok(user_agent) => Ok(CommandModel::PageSetUserAgent { user_agent }),
            Err(e) => Err(e),
        }
    } else if line == "page.goBack()"@ {
        Ok(CommandModel::PageGoBack)
    } else if line == "page.goForward()"@ {
        Ok(CommandModel::PageGoForward)
    } else if line == "page.reload()"@ {
        Ok(CommandModel::PageReload)
    } else if let Some(args) = call_args(line, "page.setCookie"@) {
        Ok(CommandModel::PageSetCookie { cookies_json: args })
    } else if line == "page.cookies()"@ {
        Ok(CommandModel::PageCookies { assign_to: assign })
    } else {
        match element_evaluate(line, assign) {
            Some(c) => Ok(c),
            None => Err("Unknown command: "@ + line),
        }
    }
}

/// The command that `line` (without declaration and `await`) stands for; `None` on the lines
/// that have no reading (see [`locator_chain`]).
pub open spec fn command_of(line: Seq<char>, assign: Option<Seq<char>>) -> Option<Result<CommandModel, Seq<char>>> {
    match early_command(line, assign) {
        Some(r) => Some(r),
        None => match locator_chain(line) {
            None => None,
            Some(lc) => {
                let located = match lc {
                    Some((selector, chain)) => locator_command(selector, chain, assign),
                    None => None,
                };
                match located {
                    Some(r) => Some(r),
                    None => match page_command(line, assign) {
                        Some(r) => Some(r),
                        None => Some(last_command(line, assign)),
                    },
                }
            },
        },
    }
}

/// What a whole line parses to; `None` on the lines that have no reading.
pub open spec fn parsed_line(line: Seq<char>) -> Option<Result<CommandModel, Seq<char>>> {
    let t = trimmed(line);
    if t.len() == 0 || has_prefix(t, "//"@) || has_prefix(t, "#"@) {
        Some(Ok(CommandModel::Noop))
    } else {
        let u = trimmed(without_trailing(t, ';'));
        let (assign, rest) = assignment(u);
        command_of(without_await(rest), assign)
    }
}

fn string_command(line: &[char], method: &str) -> (r: Option<Result<String, String>>)
    ensures
        r matches Some(x) ==> call_args(line@, method@) matches Some(a) && result_view(x)
            == string_arg(a),
        r is None ==> call_args(line@, method@) is None,
{
    match strip_method_call(line, method) {
        Some(args) => Some(extract_string_arg(args)),
        None => None,
    }
}

fn early_command_exec(line: &[char], assign_to: &Option<String>) -> (r: Option<Result<Command, String>>)
    ensures
        outcome_view(r) == early_command(line@, assign_to.deep_view()),
{
    if let Some(args) = strip_method_call(line, "console.log") {
        return Some(Ok(Command::ConsoleLog { expression: string_from(args) }));
    }
    if equals(line, "browser.newPage()") {
        let a = assign_to.clone();
        assert(a.deep_view() == assign_to.deep_view());
        return Some(Ok(Command::BrowserNewPage { assign_to: a }));
    }
    if equals(line, "browser.close()") {
        return Some(Ok(Command::BrowserClose));
    }
    if let Some(r) = string_command(line, "page.goto") {
        return Some(
            match r {
                Ok(url) => Ok(Command::PageGoto { url }),
                Err(e) => Err(e),
            },
        );
    }
    if let Some(args) = strip_method_call(line, "page.setViewport") {
        return Some(
            match parse_viewport_args(args) {
                Ok((width, height)) => Ok(Command::PageSetViewport { width, height }),
                Err(e) => Err(e),
            },
        );
    }
    if let Some(r) = string_command(line, "page.keyboard.press") {
        return Some(
            match r {
                Ok(key) => Ok(Command::PageKeyboardPress { key }),
                Err(e) => Err(e),
            },
        );
    }
    if let Some(r) = string_command(line, "page.keyboard.type") {
        return Some(
            match r {
                Ok(text) => Ok(Command::PageKeyboardType { text }),
                Err(e) => Err(e),
            },
        );
    }
    None
}

fn locator_command_exec(selector: String, chain: &[char], assign_to: &Option<String>) -> (r: Option<Result<Command, String>>)
    ensures
        outcome_view(r) == locator_command(selector@, chain@, assign_to.deep_view()),
{
    if let Some(r) = string_command(chain, ".fill") {
        return Some(
            match r {
                Ok(text) => Ok(Command::PageLocatorFill { selector, text }),
                Err(e) => Err(e),
            },
        );
    }
    if equals(chain, ".click()") {
        return Some(Ok(Command::PageLocatorClick { selector }));
    }
    if equals(chain, ".waitHandle()") {
        let a = assign_to.clone();
        assert(a.deep_view() == assign_to.deep_view());
        return Some(Ok(Command::PageLocatorWaitHandle { selector, assign_to: a }));
    }
    None
}

fn page_command_exec(line: &[char], assign_to: &Option<String>) -> (r: Option<Result<Command, String>>)
    ensures
        outcome_view(r) == page_command(line@, assign_to.deep_view()),
{
    let a = assign_to.clone();
    assert(a.deep_view() == assign_to.deep_view());
    if let Some(r) = string_command(line, "page.waitForSelector") {
        return Some(
            match r {
                Ok(selector) => Ok(Command::PageWaitForSelector { selector, assign_to: a }),
                Err(e) => Err(e),
            },
        );
    }
    if let Some(args) = strip_method_call(line, "page.type") {
        return Some(
            match extract_two_string_args(args) {
                Ok((selector, text)) => Ok(Command::PageType { selector, text }),
                Err(e) => Err(e),
            },
        );
    }
    if let Some(r) = string_command(line, "page.click") {
        return Some(
            match r {
                Ok(selector) => Ok(Command::PageClick { selector }),
                Err(e) => Err(e),
            },
        );
    }
    if let Some(args) = strip_method_call(line, "page.evaluate") {
        return Some(Ok(Command::PageEvaluate { expression: string_from(args), assign_to: a }));
    }
    if let Some(args) = strip_method_call(line, "page.screenshot") {
        return Some(Ok(Command::PageScreenshot { path: parse_path_from_options(args) }));
    }
    if equals(line, "page.content()") {
        return Some(Ok(Command::PageContent { assign_to: a }));
    }
    if equals(line, "page.title()") {
        return Some(Ok(Command::PageTitle { assign_to: a }));
    }
    if equals(line, "page.url()") {
        return Some(Ok(Command::PageUrl { assign_to: a }));
    }
    if let Some(args) = strip_method_call(line, "page.pdf") {
        return Some(Ok(Command::PagePdf { path: parse_path_from_options(args) }));
    }
    None
}

fn last_command_exec(line: &[char], assign_to: Option<String>) -> (r: Result<Command, String>)
    ensures
        parse_view(r) == last_command(line@, assign_to.deep_view()),
{
    if let Some(args) = strip_method_call(line, "page.mouse.click") {
        return match parse_two_numbers(args) {
            Ok((x, y)) => Ok(Command::PageMouseClick { x, y }),
            Err(e) => Err(e),
        };
    }
    if let Some(args) = strip_method_call(line, "page.mouse.move") {
        return match parse_two_numbers(args) {
            Ok((x, y)) => Ok(Command::PageMouseMove { x, y }),
            Err(e) => Err(e),
        };
    }
    if let Some(r) = string_command(line, "page.setUserAgent") {
        return match r {
            Ok(user_agent) => Ok(Command::PageSetUserAgent { user_agent }),
            Err(e) => Err(e),
        };
    }
    if equals(line, "page.goBack()") {
        return Ok(Command::PageGoBack);
    }
    if equals(line, "page.goForward()") {
        return Ok(Command::PageGoForward);
    }
    if equals(line, "page.reload()") {
        return Ok(Command::PageReload);
    }
    if let Some(args) = strip_method_call(line, "page.setCookie") {
        return Ok(Command::PageSetCookie { cookies_json: string_from(args) });
    }
    if equals(line, "page.cookies()") {
        return Ok(Command::PageCookies { assign_to });
    }
    match try_parse_element_evaluate(line, assign_to) {
        Some(c) => Ok(c),
        None => Err(text_then("Unknown command: ", line)),
    }
}

/// Parses `line` (already stripped of declaration and `await`); `None` on the lines that
/// have no reading (see [`locator_chain`]).
pub fn try_parse_command(line: &[char], assign_to: Option<String>) -> (r: Option<Result<Command, String>>)
    ensures
        outcome_view(r) == command_of(line@, assign_to.deep_view()),
{
    if let Some(r) = early_command_exec(line, &assign_to) {
        return Some(r);
    }
    let located = match locate(line) {
        None => return None,
        Some(lc) => lc,
    };
    if let Some((selector, chain)) = located {
        if let Some(r) = locator_command_exec(selector, chain, &assign_to) {
            return Some(r);
        }
    }
    if let Some(r) = page_command_exec(line, &assign_to) {
        return Some(r);
    }
    Some(last_command_exec(line, assign_to))
}

/// Parses a command (already stripped of declaration and `await`), with the variable that
/// its result is assigned to.
pub fn parse_command(line: &[char], assign_to: Option<String>) -> (r: Result<Command, String>)
    requires
        command_of(line@, assign_to.deep_view()) is Some,
    ensures
        command_of(line@, assign_to.deep_view()) == Some(parse_view(r)),
{
    match try_parse_command(line, assign_to) {
        Some(r) => r,
        None => Err(String::new()),
    }
}

/// Parses a line of a script; `None` on the lines that have no reading.
pub fn try_parse_line(line: &str) -> (r: Option<Result<Command, String>>)
    ensures
        outcome_view(r) == parsed_line(line@),
{
    let chars = chars_of(line);
    let t = trim(chars.as_slice());
    if t.len() == 0 || starts_with(t, "//") || starts_with(t, "#") {
        return Some(Ok(Command::Noop));
    }
    let u = trim(trim_end_matches(t, ';'));
    let (assign_to, rest) = parse_assignment(u);
    let rest = strip_await(rest);
    try_parse_command(rest, assign_to)
}

/// Parses a line of a script: an empty line or a comment is [`Command::Noop`]; otherwise an
/// optional declaration `const name = `, an optional `await`, and a command, with trailing
/// semicolons ignored.
pub fn parse_line(line: &str) -> (r: Result<Command, String>)
    requires
        parsed_line(line@) is Some,
    ensures
        parsed_line(line@) == Some(parse_view(r)),
{
    match try_parse_line(line) {
        Some(r) => r,
        None => Err(String::new()),
    }
}

} // verus!
