//! `console.log(format, args...)`: splitting the arguments, and filling the `%s` slots of the
//! format with the values of variables.
use vstd::prelude::*;
use crate::arguments::is_quote;
use crate::text::{first_index, lemma_find_from_bounds, push_chars, string_from, trim, trimmed};
use crate::variables::{JsonModel, JsonValue, Variable, VariableModel, Variables};

verus! {

/// Where the splitting of `console.log` arguments stands after some chars.
#[verifier::ext_equal]
pub struct SplitState {
    /// The arguments completed so far, trimmed
    pub parts: Seq<Seq<char>>,
    /// The argument being read
    pub current: Seq<char>,
    /// Inside a quoted string
    pub in_string: bool,
    /// The quote that opened that string
    pub quote: char,
    /// Just after a backslash inside a string
    pub escaped: bool,
}

pub open spec fn split_start() -> SplitState {
    SplitState { parts: Seq::empty(), current: Seq::empty(), in_string: false, quote: ' ', escaped: false }
}

/// Reads one more char: commas outside quoted strings end an argument; inside a string, a
/// backslash takes the next char as it is.
pub open spec fn split_step(st: SplitState, c: char) -> SplitState {
    if st.in_string {
        if st.escaped {
            SplitState { current: st.current.push(c), escaped: false, ..st }
        } else if c == '\\' {
            SplitState { current: st.current.push(c), escaped: true, ..st }
        } else if c == st.quote {
            SplitState { current: st.current.push(c), in_string: false, ..st }
        } else {
            SplitState { current: st.current.push(c), ..st }
        }
    } else if is_quote(c) {
        SplitState { current: st.current.push(c), in_string: true, quote: c, ..st }
    } else if c == ',' {
        SplitState { parts: st.parts.push(trimmed(st.current)), current: Seq::empty(), ..st }
    } else {
        SplitState { current: st.current.push(c), ..st }
    }
}

pub open spec fn split_state(s: Seq<char>) -> SplitState
    decreases s.len(),
{
    if s.len() == 0 {
        split_start()
    } else {
        split_step(split_state(s.drop_last()), s.last())
    }
}

/// The arguments of `console.log`, split at the commas outside quoted strings and trimmed;
/// a blank last argument is left out.
pub open spec fn console_args(s: Seq<char>) -> Seq<Seq<char>> {
    let st = split_state(s);
    if trimmed(st.current).len() > 0 {
        st.parts.push(trimmed(st.current))
    } else {
        st.parts
    }
}

/// Splits the arguments of `console.log` at the commas that stand outside quoted strings.
pub fn split_console_log_args(expr: &[char]) -> (r: Vec<String>)
    ensures
        r.deep_view() == console_args(expr@),
{
    let mut parts: Vec<String> = Vec::new();
    let mut current: Vec<char> = Vec::new();
    let mut in_string = false;
    let mut quote = ' ';
    let mut escaped = false;
    let mut i: usize = 0;
    while i < expr.len()
        invariant
            i <= expr@.len(),
            ({
                let st = split_state(expr@.take(i as int));
                &&& parts.deep_view() == st.parts
                &&& current@ == st.current
                &&& in_string == st.in_string
                &&& quote == st.quote
                &&& escaped == st.escaped
            }),
        decreases expr@.len() - i,
    {
        let c = expr[i];
        assert(expr@.take(i + 1).drop_last() =~= expr@.take(i as int));
        if in_string {
            current.push(c);
            if escaped {
                escaped = false;
            } else if c == '\\' {
                escaped = true;
            } else if c == quote {
                in_string = false;
            }
        } else if c == '\'' || c == '"' || c == '`' {
            in_string = true;
            quote = c;
            current.push(c);
        } else if c == ',' {
            let ghost before = parts.deep_view();
            parts.push(string_from(trim(current.as_slice())));
            assert(parts.deep_view() =~= before.push(trimmed(current@)));
            current = Vec::new();
        } else {
            current.push(c);
        }
        i = i + 1;
    }
    assert(expr@.take(expr@.len() as int) =~= expr@);
    let last = trim(current.as_slice());
    if last.len() > 0 {
        let ghost before = parts.deep_view();
        parts.push(string_from(last));
        assert(parts.deep_view() =~= before.push(trimmed(current@)));
    }
    parts
}

/// `s` trimmed, without the quotes around it if it starts and ends with the same quote.
pub open spec fn unquoted(s: Seq<char>) -> Seq<char> {
    let t = trimmed(s);
    if t.len() >= 2 && is_quote(t[0]) && t[0] == t.last() {
        t.subrange(1, t.len() - 1)
    } else {
        t
    }
}

/// Removes the quotes around a string literal.
pub fn unquote_string(s: &[char]) -> (r: String)
    ensures
        r@ == unquoted(s@),
{
    let t = trim(s);
    let n = t.len();
    if n >= 2 {
        let first = t[0];
        let last = t[n - 1];
        if (first == '\'' || first == '"' || first == '`') && first == last {
            return string_from(&t[1..n - 1]);
        }
    }
    string_from(t)
}

/// The text that `console.log` prints for a JSON value.
pub open spec fn json_text(j: JsonModel) -> Seq<char> {
    match j {
        JsonModel::Str { content, .. } => content,
        JsonModel::Null => "null"@,
        JsonModel::Other { json } => json,
    }
}

/// The text that an argument of `console.log` stands for: the value of the variable that it
/// names, or else the argument itself.
pub open spec fn argument_text(arg: Seq<char>, vars: Map<Seq<char>, VariableModel>) -> Seq<char> {
    if vars.contains_key(arg) {
        match vars[arg] {
            VariableModel::StringValue(s) => s,
            VariableModel::JsonValue(j) => json_text(j),
            VariableModel::ElementSelector(s) => "[Element: "@ + s + "]"@,
        }
    } else {
        arg
    }
}

/// `text` with its first `%s` replaced by `arg`.
pub open spec fn fill_first(text: Seq<char>, arg: Seq<char>) -> Seq<char> {
    match first_index(text, "%s"@) {
        Some(p) => text.take(p) + arg + text.skip(p + 2),
        None => text,
    }
}

/// `text` with its `%s` slots filled by `args` in order, each in the first slot left.
pub open spec fn fill_all(text: Seq<char>, args: Seq<Seq<char>>) -> Seq<char>
    decreases args.len(),
{
    if args.len() == 0 {
        text
    } else {
        fill_all(fill_first(text, args[0]), args.drop_first())
    }
}

/// The line that `console.log(expression)` prints, given the variables.
pub open spec fn console_output(expression: Seq<char>, vars: Map<Seq<char>, VariableModel>) -> Seq<char> {
    let parts = console_args(trimmed(expression));
    if parts.len() == 0 {
        Seq::empty()
    } else {
        fill_all(
            unquoted(parts[0]),
            parts.drop_first().map_values(|a: Seq<char>| argument_text(trimmed(a), vars)),
        )
    }
}

fn json_text_exec(j: &JsonValue) -> (r: String)
    ensures
        r@ == json_text(j@),
{
    match j {
        JsonValue::Str { content, .. } => content.clone(),
        JsonValue::Null => String::from_str("null"),
        JsonValue::Other { json } => json.clone(),
    }
}

fn argument_text_exec(arg: &[char], vars: &Variables) -> (r: String)
    ensures
        r@ == argument_text(arg@, vars@),
{
    match vars.get(arg) {
        Some(Variable::StringValue(s)) => s.clone(),
        Some(Variable::JsonValue(j)) => json_text_exec(j),
        Some(Variable::ElementSelector(s)) => {
            let mut r = String::from_str("[Element: ");
            r.append(s.as_str());
            r.append("]");
            r
        },
        None => string_from(arg),
    }
}

fn fill_first_exec(text: String, arg: &str) -> (r: String)
    ensures
        r@ == fill_first(text@, arg@),
{
    proof {
        reveal_strlit("%s");
        lemma_find_from_bounds(text@, "%s"@, 0);
    }
    let t = crate::text::chars_of(text.as_str());
    match crate::text::find(t.as_slice(), "%s") {
        Some(p) => {
            let n = t.len();
            let mut r = string_from(&t[0..p]);
            r.append(arg);
            push_chars(&mut r, &t[p + 2..n]);
            assert(t@.subrange(0, p as int) =~= t@.take(p as int));
            assert(t@.subrange(p + 2, n as int) =~= t@.skip(p + 2));
            r
        },
        None => text,
    }
}

/// Prints what `console.log(expression)` prints: the format string (its quotes removed)
/// with each `%s` slot filled, in order, by the next argument; an argument that names a
/// variable stands for its value.
pub fn resolve_console_log(expression: &[char], vars: &Variables) -> (r: String)
    ensures
        r@ == console_output(expression@, vars@),
{
    let parts = split_console_log_args(trim(expression));
    let ghost ps = parts.deep_view();
    if parts.len() == 0 {
        return String::new();
    }
    let first = crate::text::chars_of(parts[0].as_str());
    let mut result = unquote_string(first.as_slice());
    let ghost args = ps.drop_first().map_values(|a: Seq<char>| argument_text(trimmed(a), vars@));
    let mut i: usize = 1;
    assert(args.skip(0) =~= args);
    while i < parts.len()
        invariant
            1 <= i <= parts@.len(),
            parts.deep_view() == ps,
            ps.len() == parts@.len(),
            args == ps.drop_first().map_values(|a: Seq<char>| argument_text(trimmed(a), vars@)),
            console_output(expression@, vars@) == fill_all(result@, args.skip(i - 1)),
        decreases parts@.len() - i,
    {
        let a = crate::text::chars_of(parts[i].as_str());
        let arg = argument_text_exec(trim(a.as_slice()), vars);
        assert(arg@ == args[i - 1]);
        assert(args.skip(i - 1).drop_first() =~= args.skip(i as int));
        result = fill_first_exec(result, arg.as_str());
        i = i + 1;
    }
    assert(args.skip(i - 1).len() == 0);
    result
}

} // verus!
