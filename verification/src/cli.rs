//! What the command-line programs decide about their input lines: blank and comment lines,
//! the REPL's own commands, inline scripts, and how variables are listed.
use vstd::prelude::*;
use crate::numbers::{take_byte_prefix, take_bytes, utf8_len};
use crate::text::{
    chars_of, equals, find, find_char, first_index, has_prefix, lemma_find_from_bounds,
    push_chars, starts_with, string_from, trim, trimmed,
};
use crate::variables::{JsonValue, Variable, VariableModel, Variables};

verus! {

/// A line that a script skips: blank, or a comment (`//` or `#`).
pub open spec fn skipped(line: Seq<char>) -> bool {
    let t = trimmed(line);
    t.len() == 0 || has_prefix(t, "//"@) || has_prefix(t, "#"@)
}

/// Whether a script skips `line`: it is blank, or a comment.
pub fn is_skipped_line(line: &str) -> (r: bool)
    ensures
        r == skipped(line@),
{
    let c = chars_of(line);
    let t = trim(c.as_slice());
    t.len() == 0 || starts_with(t, "//") || starts_with(t, "#")
}

/// What a line typed at the REPL asks for.
#[derive(Debug)]
pub enum ReplInput {
    /// Nothing (a blank line)
    Blank,
    /// Leave the REPL (`exit`, `quit`, `.exit`)
    Exit,
    /// Show the help (`help`, `.help`)
    Help,
    /// Show the variables (`vars`, `.vars`)
    ShowVars,
    /// Show the configuration (`config`, `.config`), where the program has one
    ShowConfig,
    /// Run this (trimmed) line as a command
    Run(String),
}

pub enum ReplInputModel {
    Blank,
    Exit,
    Help,
    ShowVars,
    ShowConfig,
    Run(Seq<char>),
}

impl View for ReplInput {
    type V = ReplInputModel;

    open spec fn view(&self) -> ReplInputModel {
        match self {
            ReplInput::Blank => ReplInputModel::Blank,
            ReplInput::Exit => ReplInputModel::Exit,
            ReplInput::Help => ReplInputModel::Help,
            ReplInput::ShowVars => ReplInputModel::ShowVars,
            ReplInput::ShowConfig => ReplInputModel::ShowConfig,
            ReplInput::Run(s) => ReplInputModel::Run(s@),
        }
    }
}

/// What the REPL line `line` asks for; `config` is a command only where `with_config`.
pub open spec fn repl_input(line: Seq<char>, with_config: bool) -> ReplInputModel {
    let t = trimmed(line);
    if t.len() == 0 {
        ReplInputModel::Blank
    } else if t == "exit"@ || t == "quit"@ || t == ".exit"@ {
        ReplInputModel::Exit
    } else if t == "help"@ || t == ".help"@ {
        ReplInputModel::Help
    } else if t == "vars"@ || t == ".vars"@ {
        ReplInputModel::ShowVars
    } else if with_config && (t == "config"@ || t == ".config"@) {
        ReplInputModel::ShowConfig
    } else {
        ReplInputModel::Run(t)
    }
}

/// Reads a line typed at the REPL: its own commands, or a command to run.
pub fn classify_repl_line(line: &str, with_config: bool) -> (r: ReplInput)
    ensures
        r@ == repl_input(line@, with_config),
{
    let c = chars_of(line);
    let t = trim(c.as_slice());
    if t.len() == 0 {
        ReplInput::Blank
    } else if equals(t, "exit") || equals(t, "quit") || equals(t, ".exit") {
        ReplInput::Exit
    } else if equals(t, "help") || equals(t, ".help") {
        ReplInput::Help
    } else if equals(t, "vars") || equals(t, ".vars") {
        ReplInput::ShowVars
    } else if with_config && (equals(t, "config") || equals(t, ".config")) {
        ReplInput::ShowConfig
    } else {
        ReplInput::Run(string_from(t))
    }
}

/// The commands of an inline script: the pieces between semicolons, trimmed, without the
/// blank ones.
pub open spec fn inline_commands(s: Seq<char>) -> Seq<Seq<char>>
    decreases s.len(),
{
    match first_index(s, seq![';']) {
        None => if trimmed(s).len() > 0 {
            seq![trimmed(s)]
        } else {
            Seq::empty()
        },
        Some(i) => {
            proof {
                lemma_find_from_bounds(s, seq![';'], 0);
            }
            let head = trimmed(s.take(i));
            let rest = inline_commands(s.skip(i + 1));
            if head.len() > 0 {
                seq![head] + rest
            } else {
                rest
            }
        },
    }
}

/// Splits an inline script at its semicolons into commands.
pub fn split_inline_commands(script: &str) -> (r: Vec<String>)
    ensures
        r.deep_view() == inline_commands(script@),
{
    let c = chars_of(script);
    let mut out: Vec<String> = Vec::new();
    let mut rest = c.as_slice();
    loop
        invariant
            inline_commands(script@) == out.deep_view() + inline_commands(rest@),
        decreases rest@.len(),
    {
        match find_char(rest, ';') {
            None => {
                let t = trim(rest);
                if t.len() > 0 {
                    let ghost before = out.deep_view();
                    out.push(string_from(t));
                    assert(out.deep_view() =~= before + seq![t@]);
                } else {
                    assert(out.deep_view() + Seq::<Seq<char>>::empty() =~= out.deep_view());
                }
                return out;
            },
            Some(i) => {
                let n = rest.len();
                let head = trim(&rest[0..i]);
                assert(rest@.subrange(0, i as int) =~= rest@.take(i as int));
                let next = &rest[i + 1..n];
                assert(next@ =~= rest@.skip(i + 1));
                if head.len() > 0 {
                    let ghost before = out.deep_view();
                    out.push(string_from(head));
                    assert(out.deep_view() =~= before + seq![head@]);
                    assert(before + (seq![head@] + inline_commands(next@)) =~= out.deep_view()
                        + inline_commands(next@));
                }
                rest = next;
            },
        }
    }
}

/// Some line names `browser.newPage()`.
pub open spec fn opens_page(lines: Seq<Seq<char>>) -> bool {
    exists|i: int| 0 <= i < lines.len() && first_index(lines[i], "browser.newPage()"@) is Some
}

/// Whether some line of the script opens a page with `browser.newPage()`.
pub fn script_opens_page(lines: &Vec<String>) -> (r: bool)
    ensures
        r == opens_page(lines.deep_view()),
{
    let mut i: usize = 0;
    while i < lines.len()
        invariant
            i <= lines@.len(),
            forall|k: int|
                0 <= k < i ==> first_index(#[trigger] lines.deep_view()[k], "browser.newPage()"@)
                    is None,
        decreases lines@.len() - i,
    {
        let c = chars_of(lines[i].as_str());
        if find(c.as_slice(), "browser.newPage()").is_some() {
            assert(lines.deep_view()[i as int] == c@);
            return true;
        }
        assert(lines.deep_view()[i as int] == c@);
        i = i + 1;
    }
    false
}

/// The text of a string value as the variable listing shows it: cut after 80 bytes, with
/// `...` after the cut.
pub open spec fn shortened(s: Seq<char>) -> Seq<char> {
    if utf8_len(s) > 80 {
        take_bytes(s, 80).unwrap() + "..."@
    } else {
        s
    }
}

/// A string value can be listed: where it has more than 80 bytes, a char starts at byte 80
/// (where none does, the cut panics).
pub open spec fn listable(v: VariableModel) -> bool {
    match v {
        VariableModel::StringValue(s) => utf8_len(s) > 80 ==> take_bytes(s, 80) is Some,
        _ => true,
    }
}

/// The line that lists the variable `name`.
pub open spec fn listing(name: Seq<char>, v: VariableModel) -> Seq<char> {
    match v {
        VariableModel::ElementSelector(sel) => "  "@ + name + " = [Element: "@ + sel + "]"@,
        VariableModel::StringValue(s) => "  "@ + name + " = \""@ + shortened(s) + "\""@,
        VariableModel::JsonValue(j) => "  "@ + name + " = "@ + match j {
            crate::variables::JsonModel::Str { json, .. } => json,
            crate::variables::JsonModel::Null => "null"@,
            crate::variables::JsonModel::Other { json } => json,
        },
    }
}

/// The line that lists a variable, as `name = value`.
pub fn describe_variable(name: &String, v: &Variable) -> (r: String)
    requires
        listable(v@),
    ensures
        r@ == listing(name@, v@),
{
    let mut m = String::from_str("  ");
    m.append(name.as_str());
    match v {
        Variable::ElementSelector(sel) => {
            m.append(" = [Element: ");
            m.append(sel.as_str());
            m.append("]");
        },
        Variable::StringValue(s) => {
            m.append(" = \"");
            let c = chars_of(s.as_str());
            let n = crate::numbers::byte_len(c.as_slice());
            if n > 80 {
                match take_byte_prefix(c.as_slice(), 80) {
                    Some(head) => push_chars(&mut m, head),
                    None => {},
                }
                m.append("...");
            } else {
                m.append(s.as_str());
            }
            m.append("\"");
        },
        Variable::JsonValue(j) => {
            m.append(" = ");
            match j {
                JsonValue::Str { json, .. } => m.append(json.as_str()),
                JsonValue::Null => m.append("null"),
                JsonValue::Other { json } => m.append(json.as_str()),
            }
        },
    }
    m
}

/// The REPL's history file in the home directory `home`.
pub fn dirs_history_path(home: Option<String>) -> (r: Option<String>)
    ensures
        r.deep_view() == (match home {
            Some(h) => Some(h@ + "/.puppeteer_cli_history"@),
            None => None,
        }),
{
    match home {
        Some(h) => {
            let mut p = h;
            p.append("/.puppeteer_cli_history");
            Some(p)
        },
        None => None,
    }
}

/// Every variable can be listed.
pub open spec fn all_listable(vars: Map<Seq<char>, VariableModel>) -> bool {
    forall|k: Seq<char>| vars.contains_key(k) ==> listable(#[trigger] vars[k])
}

/// The lines that list the variables named `names` (in that order): a message where there
/// are none, else a heading and one line per variable.
pub open spec fn listing_lines(vars: Map<Seq<char>, VariableModel>, names: Seq<Seq<char>>) -> Seq<
    Seq<char>,
> {
    if names.len() == 0 {
        seq!["No variables stored."@]
    } else {
        seq!["Variables:"@] + names.map_values(|k: Seq<char>| listing(k, vars[k]))
    }
}

fn is_listable(v: &Variable) -> (r: bool)
    ensures
        r == listable(v@),
{
    match v {
        Variable::StringValue(s) => {
            let c = chars_of(s.as_str());
            if crate::numbers::byte_len(c.as_slice()) > 80 {
                take_byte_prefix(c.as_slice(), 80).is_some()
            } else {
                true
            }
        },
        _ => true,
    }
}

/// Whether every variable can be listed: no string value is cut inside a char at byte 80.
pub fn can_list(vars: &Variables) -> (r: bool)
    ensures
        r == all_listable(vars@),
{
    let n = vars.len();
    let mut i: usize = 0;
    while i < n
        invariant
            n == vars.names().len(),
            n == vars@.len(),
            i <= n,
            forall|k: Seq<char>| vars@.contains_key(k) <==> vars.names().contains(k),
            forall|j: int| 0 <= j < i ==> listable(#[trigger] vars@[vars.names()[j]]),
        decreases n - i,
    {
        let (name, v) = vars.entry(i);
        if !is_listable(v) {
            assert(vars@.contains_key(name@));
            return false;
        }
        i = i + 1;
    }
    assert forall|k: Seq<char>| vars@.contains_key(k) implies listable(#[trigger] vars@[k]) by {
        assert(vars.names().contains(k));
        let j = choose|j: int| 0 <= j < vars.names().len() && vars.names()[j] == k;
        assert(listable(vars@[vars.names()[j]]));
    }
    true
}

/// The lines that list all variables, in the order of [`Variables::names`]: `No variables
/// stored.` where there are none, else `Variables:` and one [`describe_variable`] line per
/// variable.
pub fn variable_listing(vars: &Variables) -> (r: Vec<String>)
    requires
        all_listable(vars@),
    ensures
        r.deep_view() == listing_lines(vars@, vars.names()),
        vars.names().len() == vars@.len(),
        vars.names().no_duplicates(),
        forall|k: Seq<char>| vars@.contains_key(k) <==> vars.names().contains(k),
{
    let n = vars.len();
    let mut r: Vec<String> = Vec::new();
    if n == 0 {
        r.push(String::from_str("No variables stored."));
        assert(r.deep_view() =~= seq!["No variables stored."@]);
        return r;
    }
    r.push(String::from_str("Variables:"));
    let ghost ns = vars.names();
    let mut i: usize = 0;
    while i < n
        invariant
            n == ns.len(),
            n == vars@.len(),
            ns == vars.names(),
            n > 0,
            i <= n,
            all_listable(vars@),
            forall|k: Seq<char>| vars@.contains_key(k) <==> ns.contains(k),
            r.deep_view() =~= seq!["Variables:"@] + ns.take(i as int).map_values(
                |k: Seq<char>| listing(k, vars@[k]),
            ),
        decreases n - i,
    {
        let (name, v) = vars.entry(i);
        assert(listable(vars@[name@]));
        let line = describe_variable(name, v);
        let ghost before = r.deep_view();
        r.push(line);
        assert(ns.take(i + 1) =~= ns.take(i as int).push(ns[i as int]));
        assert(r.deep_view() =~= before.push(line@));
        i = i + 1;
    }
    assert(ns.take(n as int) =~= ns);
    r
}

} // verus!
