//! The decisions of a browser session: for each command, what the browser must do, and
//! once it has done it, what the session prints and remembers.
//!
//! The browser itself stays outside: [`Session::begin`] says which [`Action`] to perform
//! (or refuses the command), and [`Session::complete`] takes the [`Outcome`] of that action.
use vstd::prelude::*;
use crate::console::{console_output, resolve_console_log};
use crate::js::{
    arrow_fn_to_function, evaluation_script, function_form, normalize_evaluate_expression,
    resolve_selector, resolved_selector,
};
use crate::numbers::{byte_len, decimal, decimal_chars, utf8_len};
use crate::parser::{Command, CommandModel};
use crate::text::{chars_of, push_chars, result_view};
use crate::variables::{JsonModel, JsonValue, Variable, VariableModel, Variables};

verus! {

/// What the browser must do for a command.
#[derive(Debug)]
pub enum Action {
    /// Open a new tab and make it the page
    OpenPage,
    /// Drop the page
    ClosePage,
    /// Navigate to `url` and wait until navigated
    Navigate { url: String },
    /// Override the device metrics with this size
    SetViewport { width: u32, height: u32 },
    /// Press a key
    PressKey { key: String },
    /// Type text
    TypeText { text: String },
    /// Wait for the element and click it
    Click { selector: String },
    /// Wait for the element, click it, then type text
    ClickAndType { selector: String, text: String },
    /// Wait for the element
    WaitFor { selector: String },
    /// Evaluate a script, awaiting its promise
    Evaluate { script: String },
    /// Wait for the element, then call a function on it, awaiting its promise
    CallOnElement { selector: String, function: String },
    /// Capture a PNG screenshot and save it at `path`
    Screenshot { path: String },
    /// Read the HTML of the page
    GetContent,
    /// Read the title
    GetTitle,
    /// Read the URL
    GetUrl,
    /// Print the page to PDF and save it at `path`
    PrintPdf { path: String },
    /// Click at the point whose coordinates these texts give
    MouseClick { x: String, y: String },
    /// Move the mouse to the point whose coordinates these texts give
    MouseMove { x: String, y: String },
    /// Set the user agent
    SetUserAgent { user_agent: String },
    /// Evaluate a script without awaiting it, then pause half a second
    RunScriptAndPause { script: String },
    /// Reload the page
    Reload,
    /// Set the cookies that this JSON array describes
    SetCookies { json: String },
    /// Read the cookies, as pretty JSON
    GetCookies,
    /// Nothing
    Nothing,
}

pub enum ActionModel {
    OpenPage,
    ClosePage,
    Navigate { url: Seq<char> },
    SetViewport { width: u32, height: u32 },
    PressKey { key: Seq<char> },
    TypeText { text: Seq<char> },
    Click { selector: Seq<char> },
    ClickAndType { selector: Seq<char>, text: Seq<char> },
    WaitFor { selector: Seq<char> },
    Evaluate { script: Seq<char> },
    CallOnElement { selector: Seq<char>, function: Seq<char> },
    Screenshot { path: Seq<char> },
    GetContent,
    GetTitle,
    GetUrl,
    PrintPdf { path: Seq<char> },
    MouseClick { x: Seq<char>, y: Seq<char> },
    MouseMove { x: Seq<char>, y: Seq<char> },
    SetUserAgent { user_agent: Seq<char> },
    RunScriptAndPause { script: Seq<char> },
    Reload,
    SetCookies { json: Seq<char> },
    GetCookies,
    Nothing,
}

impl View for Action {
    type V = ActionModel;

    open spec fn view(&self) -> ActionModel {
        match self {
            Action::OpenPage => ActionModel::OpenPage,
            Action::ClosePage => ActionModel::ClosePage,
            Action::Navigate { url } => ActionModel::Navigate { url: url@ },
            Action::SetViewport { width, height } => ActionModel::SetViewport {
                width: *width,
                height: *height,
            },
            Action::PressKey { key } => ActionModel::PressKey { key: key@ },
            Action::TypeText { text } => ActionModel::TypeText { text: text@ },
            Action::Click { selector } => ActionModel::Click { selector: selector@ },
            Action::ClickAndType { selector, text } => ActionModel::ClickAndType {
                selector: selector@,
                text: text@,
            },
            Action::WaitFor { selector } => ActionModel::WaitFor { selector: selector@ },
            Action::Evaluate { script } => ActionModel::Evaluate { script: script@ },
            Action::CallOnElement { selector, function } => ActionModel::CallOnElement {
                selector: selector@,
                function: function@,
            },
            Action::Screenshot { path } => ActionModel::Screenshot { path: path@ },
            Action::GetContent => ActionModel::GetContent,
            Action::GetTitle => ActionModel::GetTitle,
            Action::GetUrl => ActionModel::GetUrl,
            Action::PrintPdf { path } => ActionModel::PrintPdf { path: path@ },
            Action::MouseClick { x, y } => ActionModel::MouseClick { x: x@, y: y@ },
            Action::MouseMove { x, y } => ActionModel::MouseMove { x: x@, y: y@ },
            Action::SetUserAgent { user_agent } => ActionModel::SetUserAgent {
                user_agent: user_agent@,
            },
            Action::RunScriptAndPause { script } => ActionModel::RunScriptAndPause {
                script: script@,
            },
            Action::Reload => ActionModel::Reload,
            Action::SetCookies { json } => ActionModel::SetCookies { json: json@ },
            Action::GetCookies => ActionModel::GetCookies,
            Action::Nothing => ActionModel::Nothing,
        }
    }
}

/// What the browser gave back once it performed an action.
#[derive(Debug)]
pub enum Outcome {
    /// The action succeeded and gives nothing back
    Done,
    /// A text that the browser read (content, title, URL, cookies)
    Text(String),
    /// The value that an evaluation returned (`None`: `undefined`)
    Value(Option<JsonValue>),
    /// A file was saved, of this many bytes
    Saved(usize),
}

pub enum OutcomeModel {
    Done,
    Text(Seq<char>),
    Value(Option<JsonModel>),
    Saved(nat),
}

impl View for Outcome {
    type V = OutcomeModel;

    open spec fn view(&self) -> OutcomeModel {
        match self {
            Outcome::Done => OutcomeModel::Done,
            Outcome::Text(t) => OutcomeModel::Text(t@),
            Outcome::Value(v) => OutcomeModel::Value(
                match v {
                    Some(j) => Some(j@),
                    None => None,
                },
            ),
            Outcome::Saved(n) => OutcomeModel::Saved(*n as nat),
        }
    }
}

/// The state of a session: whether a page is open, whether output is verbose, and the
/// variables.
pub struct Session {
    pub page_open: bool,
    pub verbose: bool,
    pub variables: Variables,
}

pub struct SessionModel {
    pub page_open: bool,
    pub verbose: bool,
    pub vars: Map<Seq<char>, VariableModel>,
}

impl View for Session {
    type V = SessionModel;

    open spec fn view(&self) -> SessionModel {
        SessionModel { page_open: self.page_open, verbose: self.verbose, vars: self.variables@ }
    }
}

/// The refusal of a page command while no page is open.
pub open spec fn no_page_error() -> Seq<char> {
    "No page open. Use `browser.newPage()` first."@
}

/// The commands that act on the open page.
pub open spec fn needs_page(cmd: CommandModel) -> bool {
    match cmd {
        CommandModel::BrowserNewPage { .. } => false,
        CommandModel::BrowserClose => false,
        CommandModel::ConsoleLog { .. } => false,
        CommandModel::Noop => false,
        _ => true,
    }
}

/// `path`, or `default` where none is given.
pub open spec fn path_or(path: Option<Seq<char>>, default: Seq<char>) -> Seq<char> {
    match path {
        Some(p) => p,
        None => default,
    }
}

/// The action for a page command, while a page is open.
pub open spec fn page_action(vars: Map<Seq<char>, VariableModel>, cmd: CommandModel) -> Result<ActionModel, Seq<char>> {
    match cmd {
        CommandModel::PageGoto { url } => Ok(ActionModel::Navigate { url }),
        CommandModel::PageSetViewport { width, height } => Ok(ActionModel::SetViewport { width, height }),
        CommandModel::PageKeyboardPress { key } => Ok(ActionModel::PressKey { key }),
        CommandModel::PageKeyboardType { text } => Ok(ActionModel::TypeText { text }),
        CommandModel::PageLocatorClick { selector } => Ok(
            ActionModel::Click { selector: resolved_selector(selector) },
        ),
        CommandModel::PageLocatorFill { selector, text } => Ok(
            ActionModel::ClickAndType { selector: resolved_selector(selector), text },
        ),
        CommandModel::PageLocatorWaitHandle { selector, .. } => Ok(
            ActionModel::WaitFor { selector: resolved_selector(selector) },
        ),
        CommandModel::PageWaitForSelector { selector, .. } => Ok(ActionModel::WaitFor { selector }),
        CommandModel::PageType { selector, text } => Ok(ActionModel::ClickAndType { selector, text }),
        CommandModel::PageClick { selector } => Ok(ActionModel::Click { selector }),
        CommandModel::PageEvaluate { expression, .. } => Ok(
            ActionModel::Evaluate { script: evaluation_script(expression) },
        ),
        CommandModel::ElementEvaluate { variable, js_fn, .. } => if vars.contains_key(variable) {
            match vars[variable] {
                VariableModel::ElementSelector(selector) => Ok(
                    ActionModel::CallOnElement { selector, function: function_form(js_fn) },
                ),
                _ => Err("Variable '"@ + variable + "' is not an element handle"@),
            }
        } else {
            Err("Unknown variable: "@ + variable)
        },
        CommandModel::PageScreenshot { path } => Ok(
            ActionModel::Screenshot { path: path_or(path, "screenshot.png"@) },
        ),
        CommandModel::PageContent { .. } => Ok(ActionModel::GetContent),
        CommandModel::PageTitle { .. } => Ok(ActionModel::GetTitle),
        CommandModel::PageUrl { .. } => Ok(ActionModel::GetUrl),
        CommandModel::PagePdf { path } => Ok(ActionModel::PrintPdf { path: path_or(path, "page.pdf"@) }),
        CommandModel::PageMouseClick { x, y } => Ok(ActionModel::MouseClick { x, y }),
        CommandModel::PageMouseMove { x, y } => Ok(ActionModel::MouseMove { x, y }),
        CommandModel::PageSetUserAgent { user_agent } => Ok(ActionModel::SetUserAgent { user_agent }),
        CommandModel::PageGoBack => Ok(ActionModel::RunScriptAndPause { script: "window.history.back()"@ }),
        CommandModel::PageGoForward => Ok(
            ActionModel::RunScriptAndPause { script: "window.history.forward()"@ },
        ),
        CommandModel::PageReload => Ok(ActionModel::Reload),
        CommandModel::PageSetCookie { cookies_json } => Ok(
            ActionModel::SetCookies { json: "["@ + cookies_json + "]"@ },
        ),
        CommandModel::PageCookies { .. } => Ok(ActionModel::GetCookies),
        _ => Ok(ActionModel::Nothing),
    }
}

/// The action for a command, or its refusal.
pub open spec fn planned(st: SessionModel, cmd: CommandModel) -> Result<ActionModel, Seq<char>> {
    match cmd {
        CommandModel::BrowserNewPage { .. } => Ok(ActionModel::OpenPage),
        CommandModel::BrowserClose => Ok(ActionModel::ClosePage),
        CommandModel::ConsoleLog { .. } => Ok(ActionModel::Nothing),
        CommandModel::Noop => Ok(ActionModel::Nothing),
        _ => if !st.page_open {
            Err(no_page_error())
        } else {
            page_action(st.vars, cmd)
        },
    }
}

/// The text that an evaluation's result shows as.
pub open spec fn remote_text(v: Option<JsonModel>) -> Seq<char> {
    match v {
        Some(JsonModel::Str { content, .. }) => content,
        Some(JsonModel::Null) => "null"@,
        Some(JsonModel::Other { json }) => json,
        None => "undefined"@,
    }
}

/// The variables once the result of an evaluation is stored under `assign`.
pub open spec fn store_result(
    vars: Map<Seq<char>, VariableModel>,
    assign: Option<Seq<char>>,
    v: Option<JsonModel>,
) -> Map<Seq<char>, VariableModel> {
    match assign {
        Some(name) => match v {
            Some(j) => vars.insert(name, VariableModel::JsonValue(j)),
            None => vars.insert(name, VariableModel::StringValue(remote_text(v))),
        },
        None => vars,
    }
}

/// The variables once `value` is stored under `assign`, if there is a name.
pub open spec fn store(
    vars: Map<Seq<char>, VariableModel>,
    assign: Option<Seq<char>>,
    value: VariableModel,
) -> Map<Seq<char>, VariableModel> {
    match assign {
        Some(name) => vars.insert(name, value),
        None => vars,
    }
}

/// `msg` if the session is verbose.
pub open spec fn when_verbose(st: SessionModel, msg: Seq<char>) -> Option<Seq<char>> {
    if st.verbose {
        Some(msg)
    } else {
        None
    }
}

/// The report that an element was found.
pub open spec fn found_report(st: SessionModel, selector: Seq<char>, assign: Option<Seq<char>>) -> Seq<char> {
    match assign {
        Some(name) if st.verbose => "Element '"@ + selector + "' found → "@ + name,
        _ => "Element found: "@ + selector,
    }
}

/// The state and the printed reply once the browser has performed the action for `cmd`
/// with outcome `out`. An outcome of another kind than the action gives changes nothing.
pub open spec fn completed(st: SessionModel, cmd: CommandModel, out: OutcomeModel) -> (SessionModel, Option<Seq<char>>) {
    let same = (st, None::<Seq<char>>);
    match out {
        OutcomeModel::Done => match cmd {
            CommandModel::BrowserNewPage { assign_to } => (
                SessionModel { page_open: true, ..st },
                Some(
                    match assign_to {
                        Some(name) if st.verbose => "Page created → "@ + name,
                        _ => "New page created."@,
                    },
                ),
            ),
            CommandModel::BrowserClose => (
                SessionModel { page_open: false, ..st },
                Some("Browser closed."@),
            ),
            CommandModel::PageGoto { url } => (st, when_verbose(st, "Navigated to "@ + url)),
            CommandModel::PageSetViewport { width, height } => (
                st,
                when_verbose(
                    st,
                    "Viewport set to "@ + decimal(width as nat) + "x"@ + decimal(height as nat),
                ),
            ),
            CommandModel::PageKeyboardPress { key } => (st, when_verbose(st, "Pressed key: "@ + key)),
            CommandModel::PageKeyboardType { text } => (st, when_verbose(st, "Typed: "@ + text)),
            CommandModel::PageLocatorClick { selector } => (
                st,
                when_verbose(st, "Clicked: "@ + resolved_selector(selector)),
            ),
            CommandModel::PageLocatorFill { selector, text } => (
                st,
                when_verbose(st, "Filled '"@ + resolved_selector(selector) + "' with: "@ + text),
            ),
            CommandModel::PageLocatorWaitHandle { selector, assign_to } => (
                SessionModel {
                    vars: store(
                        st.vars,
                        assign_to,
                        VariableModel::ElementSelector(resolved_selector(selector)),
                    ),
                    ..st
                },
                Some(found_report(st, resolved_selector(selector), assign_to)),
            ),
            CommandModel::PageWaitForSelector { selector, assign_to } => (
                SessionModel {
                    vars: store(st.vars, assign_to, VariableModel::ElementSelector(selector)),
                    ..st
                },
                Some(found_report(st, selector, assign_to)),
            ),
            CommandModel::PageType { selector, text } => (
                st,
                when_verbose(st, "Typed into '"@ + selector + "': "@ + text),
            ),
            CommandModel::PageClick { selector } => (st, when_verbose(st, "Clicked: "@ + selector)),
            CommandModel::ConsoleLog { expression } => (
                st,
                Some(console_output(expression, st.vars)),
            ),
            CommandModel::PageMouseClick { .. } => (st, None),
            CommandModel::PageMouseMove { .. } => (st, None),
            CommandModel::PageSetUserAgent { user_agent } => (
                st,
                when_verbose(st, "User agent set to: "@ + user_agent),
            ),
            CommandModel::PageGoBack => (st, when_verbose(st, "Navigated back."@)),
            CommandModel::PageGoForward => (st, when_verbose(st, "Navigated forward."@)),
            CommandModel::PageReload => (st, when_verbose(st, "Page reloaded."@)),
            CommandModel::PageSetCookie { .. } => (st, Some("Cookies set."@)),
            _ => same,
        },
        OutcomeModel::Text(t) => match cmd {
            CommandModel::PageContent { assign_to } => (
                SessionModel { vars: store(st.vars, assign_to, VariableModel::StringValue(t)), ..st },
                Some(
                    match assign_to {
                        Some(name) if st.verbose => "Content stored in "@ + name + " ("@ + decimal(
                            utf8_len(t),
                        ) + " chars)"@,
                        _ => "Page content: "@ + decimal(utf8_len(t)) + " chars"@,
                    },
                ),
            ),
            CommandModel::PageTitle { assign_to } => (
                SessionModel { vars: store(st.vars, assign_to, VariableModel::StringValue(t)), ..st },
                Some(t),
            ),
            CommandModel::PageUrl { assign_to } => (
                SessionModel { vars: store(st.vars, assign_to, VariableModel::StringValue(t)), ..st },
                Some(t),
            ),
            CommandModel::PageCookies { assign_to } => (
                SessionModel { vars: store(st.vars, assign_to, VariableModel::StringValue(t)), ..st },
                Some(t),
            ),
            _ => same,
        },
        OutcomeModel::Value(v) => match cmd {
            CommandModel::PageEvaluate { assign_to, .. } => (
                SessionModel { vars: store_result(st.vars, assign_to, v), ..st },
                Some(remote_text(v)),
            ),
            CommandModel::ElementEvaluate { assign_to, .. } => (
                SessionModel { vars: store_result(st.vars, assign_to, v), ..st },
                Some(remote_text(v)),
            ),
            _ => same,
        },
        OutcomeModel::Saved(n) => match cmd {
            CommandModel::PageScreenshot { path } => (
                st,
                Some(
                    "Screenshot saved to "@ + path_or(path, "screenshot.png"@) + " ("@ + decimal(n)
                        + " bytes)"@,
                ),
            ),
            CommandModel::PagePdf { path } => (
                st,
                Some("PDF saved to "@ + path_or(path, "page.pdf"@) + " ("@ + decimal(n) + " bytes)"@),
            ),
            _ => same,
        },
    }
}

/// The mathematical value of an optional evaluation result.
pub open spec fn value_view(v: Option<JsonValue>) -> Option<JsonModel> {
    match v {
        Some(j) => Some(j@),
        None => None,
    }
}

/// The text that an evaluation's result shows as: a string's content, `null`, the JSON
/// text of another value, or `undefined` where there is no value.
pub fn format_remote_object_value(value: &Option<JsonValue>) -> (r: String)
    ensures
        r@ == remote_text(value_view(*value)),
{
    match value {
        Some(JsonValue::Str { content, .. }) => content.clone(),
        Some(JsonValue::Null) => String::from_str("null"),
        Some(JsonValue::Other { json }) => json.clone(),
        None => String::from_str("undefined"),
    }
}

/// The mathematical value of what the browser gave back for an action: its outcome, or
/// the failure.
pub open spec fn result_model(r: Result<Outcome, String>) -> Result<OutcomeModel, Seq<char>> {
    match r {
        Ok(o) => Ok(o@),
        Err(e) => Err(e@),
    }
}

/// The state and the answer once the browser has performed the action planned for `cmd`
/// with `result`: a failure is the answer and leaves the state as it was; an outcome
/// completes the command.
pub open spec fn finished(
    st: SessionModel,
    cmd: CommandModel,
    result: Result<OutcomeModel, Seq<char>>,
) -> (SessionModel, Result<Option<Seq<char>>, Seq<char>>) {
    match result {
        Err(e) => (st, Err(e)),
        Ok(out) => (completed(st, cmd, out).0, Ok(completed(st, cmd, out).1)),
    }
}

/// A whole command run in state `st`: a refusal of the plan is the answer and leaves the
/// state as it was; otherwise the browser's `result` finishes it.
pub open spec fn executed(
    st: SessionModel,
    cmd: CommandModel,
    result: Result<OutcomeModel, Seq<char>>,
) -> (SessionModel, Result<Option<Seq<char>>, Seq<char>>) {
    match planned(st, cmd) {
        Err(e) => (st, Err(e)),
        Ok(_) => finished(st, cmd, result),
    }
}

/// The mathematical value of a planned action or its refusal.
pub open spec fn plan_view(r: Result<Action, String>) -> Result<ActionModel, Seq<char>> {
    match r {
        Ok(a) => Ok(a@),
        Err(e) => Err(e@),
    }
}

fn message(lit: &str, tail: &String) -> (r: String)
    ensures
        r@ == lit@ + tail@,
{
    let mut m = String::from_str(lit);
    m.append(tail.as_str());
    m
}

fn push_decimal(s: &mut String, n: u128)
    ensures
        final(s)@ == old(s)@ + decimal(n as nat),
{
    let d = decimal_chars(n);
    push_chars(s, d.as_slice());
}

fn verbose_message(verbose: bool, lit: &str, tail: &String) -> (r: Option<String>)
    ensures
        r.deep_view() == (if verbose {
            Some(lit@ + tail@)
        } else {
            None
        }),
{
    if verbose {
        Some(message(lit, tail))
    } else {
        None
    }
}

fn owned_path(path: &Option<String>, default: &str) -> (r: String)
    ensures
        r@ == path_or(path.deep_view(), default@),
{
    match path {
        Some(p) => p.clone(),
        None => String::from_str(default),
    }
}

impl Session {
    /// A session with no page open and no variables.
    pub fn new(verbose: bool) -> (r: Session)
        ensures
            r@.page_open == false,
            r@.verbose == verbose,
            r@.vars == Map::<Seq<char>, VariableModel>::empty(),
    {
        Session { page_open: false, verbose, variables: Variables::new() }
    }

    fn page_action(&self, cmd: &Command) -> (r: Result<Action, String>)
        requires
            needs_page(cmd@),
        ensures
            plan_view(r) == page_action(self@.vars, cmd@),
    {
        match cmd {
            Command::PageGoto { url } => Ok(Action::Navigate { url: url.clone() }),
            Command::PageSetViewport { width, height } => Ok(
                Action::SetViewport { width: *width, height: *height },
            ),
            Command::PageKeyboardPress { key } => Ok(Action::PressKey { key: key.clone() }),
            Command::PageKeyboardType { text } => Ok(Action::TypeText { text: text.clone() }),
            Command::PageLocatorClick { selector } => Ok(
                Action::Click { selector: resolve_selector(selector.as_str()) },
            ),
            Command::PageLocatorFill { selector, text } => Ok(
                Action::ClickAndType {
                    selector: resolve_selector(selector.as_str()),
                    text: text.clone(),
                },
            ),
            Command::PageLocatorWaitHandle { selector, .. } => Ok(
                Action::WaitFor { selector: resolve_selector(selector.as_str()) },
            ),
            Command::PageWaitForSelector { selector, .. } => Ok(
                Action::WaitFor { selector: selector.clone() },
            ),
            Command::PageType { selector, text } => Ok(
                Action::ClickAndType { selector: selector.clone(), text: text.clone() },
            ),
            Command::PageClick { selector } => Ok(Action::Click { selector: selector.clone() }),
            Command::PageEvaluate { expression, .. } => {
                let e = chars_of(expression.as_str());
                Ok(Action::Evaluate { script: normalize_evaluate_expression(e.as_slice()) })
            },
            Command::ElementEvaluate { variable, js_fn, .. } => {
                let name = chars_of(variable.as_str());
                match self.variables.get(name.as_slice()) {
                    Some(Variable::ElementSelector(sel)) => {
                        let f = chars_of(js_fn.as_str());
                        Ok(
                            Action::CallOnElement {
                                selector: sel.clone(),
                                function: arrow_fn_to_function(f.as_slice()),
                            },
                        )
                    },
                    Some(_) => {
                        let mut m = message("Variable '", variable);
                        m.append("' is not an element handle");
                        Err(m)
                    },
                    None => Err(message("Unknown variable: ", variable)),
                }
            },
            Command::PageScreenshot { path } => Ok(
                Action::Screenshot { path: owned_path(path, "screenshot.png") },
            ),
            Command::PageContent { .. } => Ok(Action::GetContent),
            Command::PageTitle { .. } => Ok(Action::GetTitle),
            Command::PageUrl { .. } => Ok(Action::GetUrl),
            Command::PagePdf { path } => Ok(Action::PrintPdf { path: owned_path(path, "page.pdf") }),
            Command::PageMouseClick { x, y } => Ok(Action::MouseClick { x: x.clone(), y: y.clone() }),
            Command::PageMouseMove { x, y } => Ok(Action::MouseMove { x: x.clone(), y: y.clone() }),
            Command::PageSetUserAgent { user_agent } => Ok(
                Action::SetUserAgent { user_agent: user_agent.clone() },
            ),
            Command::PageGoBack => Ok(
                Action::RunScriptAndPause { script: String::from_str("window.history.back()") },
            ),
            Command::PageGoForward => Ok(
                Action::RunScriptAndPause { script: String::from_str("window.history.forward()") },
            ),
            Command::PageReload => Ok(Action::Reload),
            Command::PageSetCookie { cookies_json } => {
                let mut j = message("[", cookies_json);
                j.append("]");
                Ok(Action::SetCookies { json: j })
            },
            Command::PageCookies { .. } => Ok(Action::GetCookies),
            _ => Ok(Action::Nothing),
        }
    }

    /// What the browser must do for `cmd`: a page command while no page is open is refused,
    /// and so is an element evaluation on a variable that holds no element.
    pub fn begin(&self, cmd: &Command) -> (r: Result<Action, String>)
        ensures
            plan_view(r) == planned(self@, cmd@),
    {
        match cmd {
            Command::BrowserNewPage { .. } => Ok(Action::OpenPage),
            Command::BrowserClose => Ok(Action::ClosePage),
            Command::ConsoleLog { .. } => Ok(Action::Nothing),
            Command::Noop => Ok(Action::Nothing),
            _ => {
                if !self.page_open {
                    Err(String::from_str("No page open. Use `browser.newPage()` first."))
                } else {
                    self.page_action(cmd)
                }
            },
        }
    }

    fn store(&mut self, assign_to: &Option<String>, value: Variable)
        ensures
            final(self)@ == (SessionModel {
                vars: store(old(self)@.vars, assign_to.deep_view(), value@),
                ..old(self)@
            }),
    {
        if let Some(name) = assign_to {
            self.variables.insert(name.clone(), value);
        }
    }

    fn found(&mut self, selector: &String, assign_to: &Option<String>) -> (r: Option<String>)
        ensures
            final(self)@ == (SessionModel {
                vars: store(
                    old(self)@.vars,
                    assign_to.deep_view(),
                    VariableModel::ElementSelector(selector@),
                ),
                ..old(self)@
            }),
            r.deep_view() == Some(found_report(old(self)@, selector@, assign_to.deep_view())),
    {
        self.store(assign_to, Variable::ElementSelector(selector.clone()));
        match assign_to {
            Some(name) => {
                if self.verbose {
                    let mut m = message("Element '", selector);
                    m.append("' found → ");
                    m.append(name.as_str());
                    return Some(m);
                }
            },
            None => {},
        }
        Some(message("Element found: ", selector))
    }

    fn complete_done(&mut self, cmd: &Command) -> (r: Option<String>)
        ensures
            (final(self)@, r.deep_view()) == completed(old(self)@, cmd@, OutcomeModel::Done),
    {
        let v = self.verbose;
        match cmd {
            Command::BrowserNewPage { assign_to } => {
                self.page_open = true;
                match assign_to {
                    Some(name) => {
                        if v {
                            return Some(message("Page created → ", name));
                        }
                    },
                    None => {},
                }
                Some(String::from_str("New page created."))
            },
            Command::BrowserClose => {
                self.page_open = false;
                Some(String::from_str("Browser closed."))
            },
            Command::PageGoto { url } => verbose_message(v, "Navigated to ", url),
            Command::PageSetViewport { width, height } => {
                if v {
                    let mut m = String::from_str("Viewport set to ");
                    push_decimal(&mut m, *width as u128);
                    m.append("x");
                    push_decimal(&mut m, *height as u128);
                    Some(m)
                } else {
                    None
                }
            },
            Command::PageKeyboardPress { key } => verbose_message(v, "Pressed key: ", key),
            Command::PageKeyboardType { text } => verbose_message(v, "Typed: ", text),
            Command::PageLocatorClick { selector } => {
                let selector = resolve_selector(selector.as_str());
                verbose_message(v, "Clicked: ", &selector)
            },
            Command::PageLocatorFill { selector, text } => {
                if v {
                    let selector = resolve_selector(selector.as_str());
                    let mut m = message("Filled '", &selector);
                    m.append("' with: ");
                    m.append(text.as_str());
                    Some(m)
                } else {
                    None
                }
            },
            Command::PageLocatorWaitHandle { selector, assign_to } => {
                let selector = resolve_selector(selector.as_str());
                self.found(&selector, assign_to)
            },
            Command::PageWaitForSelector { selector, assign_to } => self.found(selector, assign_to),
            Command::PageType { selector, text } => {
                if v {
                    let mut m = message("Typed into '", selector);
                    m.append("': ");
                    m.append(text.as_str());
                    Some(m)
                } else {
                    None
                }
            },
            Command::PageClick { selector } => verbose_message(v, "Clicked: ", selector),
            Command::ConsoleLog { expression } => {
                let e = chars_of(expression.as_str());
                Some(resolve_console_log(e.as_slice(), &self.variables))
            },
            Command::PageMouseClick { .. } => None,
            Command::PageMouseMove { .. } => None,
            Command::PageSetUserAgent { user_agent } => verbose_message(
                v,
                "User agent set to: ",
                user_agent,
            ),
            Command::PageGoBack => if v {
                Some(String::from_str("Navigated back."))
            } else {
                None
            },
            Command::PageGoForward => if v {
                Some(String::from_str("Navigated forward."))
            } else {
                None
            },
            Command::PageReload => if v {
                Some(String::from_str("Page reloaded."))
            } else {
                None
            },
            Command::PageSetCookie { .. } => Some(String::from_str("Cookies set.")),
            _ => None,
        }
    }

    fn complete_text(&mut self, cmd: &Command, t: String) -> (r: Option<String>)
        ensures
            (final(self)@, r.deep_view()) == completed(old(self)@, cmd@, OutcomeModel::Text(t@)),
    {
        match cmd {
            Command::PageContent { assign_to } => {
                let chars = chars_of(t.as_str());
                let len = byte_len(chars.as_slice());
                self.store(assign_to, Variable::StringValue(t));
                match assign_to {
                    Some(name) => {
                        if self.verbose {
                            let mut m = message("Content stored in ", name);
                            m.append(" (");
                            push_decimal(&mut m, len);
                            m.append(" chars)");
                            return Some(m);
                        }
                    },
                    None => {},
                }
                let mut m = String::from_str("Page content: ");
                push_decimal(&mut m, len);
                m.append(" chars");
                Some(m)
            },
            Command::PageTitle { assign_to } => {
                self.store(assign_to, Variable::StringValue(t.clone()));
                Some(t)
            },
            Command::PageUrl { assign_to } => {
                self.store(assign_to, Variable::StringValue(t.clone()));
                Some(t)
            },
            Command::PageCookies { assign_to } => {
                self.store(assign_to, Variable::StringValue(t.clone()));
                Some(t)
            },
            _ => None,
        }
    }

    fn store_value(&mut self, assign_to: &Option<String>, v: Option<JsonValue>) -> (r: String)
        ensures
            final(self)@ == (SessionModel {
                vars: store_result(old(self)@.vars, assign_to.deep_view(), value_view(v)),
                ..old(self)@
            }),
            r@ == remote_text(value_view(v)),
    {
        let text = format_remote_object_value(&v);
        if let Some(name) = assign_to {
            match v {
                Some(j) => self.variables.insert(name.clone(), Variable::JsonValue(j)),
                None => self.variables.insert(name.clone(), Variable::StringValue(text.clone())),
            }
        }
        text
    }

    fn complete_value(&mut self, cmd: &Command, v: Option<JsonValue>) -> (r: Option<String>)
        ensures
            (final(self)@, r.deep_view()) == completed(
                old(self)@,
                cmd@,
                OutcomeModel::Value(value_view(v)),
            ),
    {
        match cmd {
            Command::PageEvaluate { assign_to, .. } => Some(self.store_value(assign_to, v)),
            Command::ElementEvaluate { assign_to, .. } => Some(self.store_value(assign_to, v)),
            _ => None,
        }
    }

    fn complete_saved(&self, cmd: &Command, n: usize) -> (r: Option<String>)
        ensures
            (self@, r.deep_view()) == completed(self@, cmd@, OutcomeModel::Saved(n as nat)),
    {
        match cmd {
            Command::PageScreenshot { path } => {
                let mut m = String::from_str("Screenshot saved to ");
                let p = owned_path(path, "screenshot.png");
                m.append(p.as_str());
                m.append(" (");
                push_decimal(&mut m, n as u128);
                m.append(" bytes)");
                Some(m)
            },
            Command::PagePdf { path } => {
                let mut m = String::from_str("PDF saved to ");
                let p = owned_path(path, "page.pdf");
                m.append(p.as_str());
                m.append(" (");
                push_decimal(&mut m, n as u128);
                m.append(" bytes)");
                Some(m)
            },
            _ => None,
        }
    }

    /// Takes the outcome of the action that [`Session::begin`] gave for `cmd`: updates the
    /// page state and the variables, and gives what to print.
    pub fn complete(&mut self, cmd: &Command, outcome: Outcome) -> (r: Option<String>)
        ensures
            (final(self)@, r.deep_view()) == completed(old(self)@, cmd@, outcome@),
    {
        match outcome {
            Outcome::Done => self.complete_done(cmd),
            Outcome::Text(t) => self.complete_text(cmd, t),
            Outcome::Value(v) => self.complete_value(cmd, v),
            Outcome::Saved(n) => self.complete_saved(cmd, n),
        }
    }

    /// Takes what the browser gave back for the action that [`Session::begin`] gave for
    /// `cmd`: a failure is returned and changes nothing; an outcome is completed as by
    /// [`Session::complete`].
    pub fn finish(&mut self, cmd: &Command, result: Result<Outcome, String>) -> (r: Result<
        Option<String>,
        String,
    >)
        ensures
            (final(self)@, result_view(r)) == finished(old(self)@, cmd@, result_model(result)),
    {
        match result {
            Err(e) => Err(e),
            Ok(out) => Ok(self.complete(cmd, out)),
        }
    }
}

} // verus!
