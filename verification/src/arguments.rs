//! Readers for the arguments of commands: quoted strings, option objects, numbers,
//! method calls, variable declarations and locator chains.
use vstd::prelude::*;
use crate::numbers::{
    byte_len, check_float, decimal_u32, float_error_message, float_error_text, float_refusal,
    int_error_message, int_error_text, parse_u32, skip_byte_prefix, skip_bytes, utf8_len,
};
use crate::text::{
    after_prefix, before_suffix, find_char, first_index, lemma_find_from_bounds,
    lemma_trimmed_idempotent, result_view, string_from, strip_prefix, strip_suffix, text_then,
    trim, trim_start, trimmed, trimmed_start,
};

verus! {

/// The quote characters that open and close a string argument.
pub open spec fn is_quote(c: char) -> bool {
    c == '\'' || c == '"' || c == '`'
}

/// Scans `s` from position `i` for the closing quote `q`, skipping the char after each
/// backslash; gives the position just past the closing quote.
pub open spec fn scan_quoted(s: Seq<char>, q: char, i: int) -> Option<int>
    decreases s.len() + 2 - i,
{
    if i < 0 || i >= s.len() {
        None
    } else if s[i] == '\\' {
        scan_quoted(s, q, i + 2)
    } else if s[i] == q {
        Some(i + 1)
    } else {
        scan_quoted(s, q, i + 1)
    }
}

/// Where the string argument at the start of `trimmed(s)` ends (just past its closing quote).
pub open spec fn string_arg_end(s: Seq<char>) -> Option<int> {
    let t = trimmed(s);
    if t.len() == 0 || !is_quote(t[0]) {
        None
    } else {
        scan_quoted(t, t[0], 1)
    }
}

/// The content of the string argument that `trimmed(s)` starts with, up to position `end`.
pub open spec fn string_content(s: Seq<char>, end: int) -> Option<Seq<char>> {
    if end < 2 {
        None
    } else {
        Some(trimmed(s).subrange(1, end - 1))
    }
}

/// The result of reading one string argument from `args`.
pub open spec fn string_arg(args: Seq<char>) -> Result<Seq<char>, Seq<char>> {
    let a = trimmed(args);
    if a.len() == 0 {
        Err("Expected a string argument"@)
    } else if !is_quote(a[0]) {
        Err("Expected string argument, got: "@ + a)
    } else {
        match string_arg_end(a) {
            None => Err("Unterminated string: "@ + a),
            Some(end) => Ok(a.subrange(1, end - 1)),
        }
    }
}

/// The result of reading two comma-separated string arguments from `args`.
pub open spec fn two_string_args(args: Seq<char>) -> Result<(Seq<char>, Seq<char>), Seq<char>> {
    let a = trimmed(args);
    match string_arg(a) {
        Err(e) => Err(e),
        Ok(first) => match string_arg_end(a) {
            None => Err("Unterminated string: "@ + a),
            Some(end) => match after_prefix(trimmed(a.skip(end)), ","@) {
                None => Err("Expected comma between arguments"@),
                Some(rest) => match string_arg(trimmed(rest)) {
                    Err(e) => Err(e),
                    Ok(second) => Ok((first, second)),
                },
            },
        },
    }
}

pub proof fn lemma_scan_quoted_bounds(s: Seq<char>, q: char, i: int)
    ensures
        scan_quoted(s, q, i) matches Some(e) ==> i + 1 <= e <= s.len() && s[e - 1] == q,
    decreases s.len() + 2 - i,
{
    if i < 0 || i >= s.len() {
    } else if s[i] == '\\' {
        lemma_scan_quoted_bounds(s, q, i + 2);
    } else if s[i] == q {
    } else {
        lemma_scan_quoted_bounds(s, q, i + 1);
    }
}

/// Where the string argument at the start of `trim(s)` ends: the position, in `trim(s)`,
/// just past its closing quote. A backslash escapes the char after it.
pub fn find_string_arg_end(s: &[char]) -> (r: Option<usize>)
    ensures
        r matches Some(e) ==> string_arg_end(s@) == Some(e as int) && 2 <= e <= trimmed(s@).len(),
        r is None ==> string_arg_end(s@) is None,
{
    let t = trim(s);
    if t.len() == 0 {
        return None;
    }
    let quote = t[0];
    if !(quote == '\'' || quote == '"' || quote == '`') {
        return None;
    }
    proof {
        lemma_scan_quoted_bounds(t@, quote, 1);
    }
    let n = t.len();
    let mut i: usize = 1;
    while i < n
        invariant
            n == t@.len(),
            t@ == trimmed(s@),
            n > 0,
            quote == t@[0],
            is_quote(quote),
            1 <= i,
            scan_quoted(t@, quote, 1) == scan_quoted(t@, quote, i as int),
            scan_quoted(t@, quote, 1) matches Some(e) ==> 2 <= e <= n,
        decreases n + 2 - i,
    {
        if t[i] == '\\' {
            if n - i < 2 {
                assert(scan_quoted(t@, quote, i + 2) is None);
                return None;
            }
            i = i + 2;
            continue;
        }
        if t[i] == quote {
            return Some(i + 1);
        }
        i = i + 1;
    }
    None
}

/// The content of the string argument that `trim(s)` starts with, ending at `end`.
pub fn extract_string_from(s: &[char], end: usize) -> (r: Option<String>)
    requires
        end <= trimmed(s@).len(),
    ensures
        r.deep_view() == string_content(s@, end as int),
{
    let t = trim(s);
    if end < 2 {
        return None;
    }
    Some(string_from(&t[1..end - 1]))
}

/// Reads one quoted string argument from `args`, as in `'text'`, `"text"` or `` `text` ``.
pub fn extract_string_arg(args: &[char]) -> (r: Result<String, String>)
    ensures
        result_view(r) == string_arg(args@),
{
    let a = trim(args);
    if a.len() == 0 {
        return Err(String::from_str("Expected a string argument"));
    }
    let quote = a[0];
    if !(quote == '\'' || quote == '"' || quote == '`') {
        return Err(text_then("Expected string argument, got: ", a));
    }
    proof {
        lemma_trimmed_idempotent(args@);
    }
    match find_string_arg_end(a) {
        None => Err(text_then("Unterminated string: ", a)),
        Some(end) => Ok(string_from(&a[1..end - 1])),
    }
}

/// Reads two comma-separated quoted string arguments from `args`.
pub fn extract_two_string_args(args: &[char]) -> (r: Result<(String, String), String>)
    ensures
        result_view(r) == two_string_args(args@),
{
    let a = trim(args);
    let first = match extract_string_arg(a) {
        Ok(f) => f,
        Err(e) => return Err(e),
    };
    let after_first = match find_string_arg_end(a) {
        Some(e) => e,
        None => return Err(text_then("Unterminated string: ", a)),
    };
    proof {
        lemma_trimmed_idempotent(args@);
    }
    let rest = trim(&a[after_first..a.len()]);
    assert(a@.subrange(after_first as int, a@.len() as int) =~= a@.skip(after_first as int));
    let rest = match strip_prefix(rest, ",") {
        Some(r) => r,
        None => return Err(String::from_str("Expected comma between arguments")),
    };
    let second = match extract_string_arg(trim(rest)) {
        Ok(s) => s,
        Err(e) => return Err(e),
    };
    Ok((first, second))
}

/// The arguments of the call `method(...)` that makes up all of `line`.
pub open spec fn call_args(line: Seq<char>, method: Seq<char>) -> Option<Seq<char>> {
    match after_prefix(line, method) {
        None => None,
        Some(r) => match after_prefix(r, "("@) {
            None => None,
            Some(r2) => before_suffix(r2, ")"@),
        },
    }
}

/// The arguments inside `method(` and `)` when they make up all of `line`.
pub fn strip_method_call<'a>(line: &'a [char], method: &str) -> (r: Option<&'a [char]>)
    ensures
        r matches Some(a) ==> call_args(line@, method@) == Some(a@),
        r is None ==> call_args(line@, method@) is None,
{
    match strip_prefix(line, method) {
        None => None,
        Some(rest) => match strip_prefix(rest, "(") {
            None => None,
            Some(rest) => strip_suffix(rest, ")"),
        },
    }
}

/// The declaration `kw name = value` that `line` holds, as (name, value).
pub open spec fn declaration(line: Seq<char>, kw: Seq<char>) -> Option<(Option<Seq<char>>, Seq<char>)> {
    match after_prefix(line, kw) {
        None => None,
        Some(rest) => match first_index(rest, seq!['=']) {
            None => None,
            Some(e) => Some((Some(trimmed(rest.take(e))), trimmed(rest.skip(e + 1)))),
        },
    }
}

/// Splits a variable declaration `const name = value` (or with `let` or `var`) into the name
/// and the value; a line that declares nothing has no name and stays as it is.
pub open spec fn assignment(line: Seq<char>) -> (Option<Seq<char>>, Seq<char>) {
    match declaration(line, "const "@) {
        Some(r) => r,
        None => match declaration(line, "let "@) {
            Some(r) => r,
            None => match declaration(line, "var "@) {
                Some(r) => r,
                None => (None, line),
            },
        },
    }
}

fn split_declaration<'a>(line: &'a [char], kw: &str) -> (r: Option<(Option<String>, &'a [char])>)
    ensures
        r matches Some((n, v)) ==> declaration(line@, kw@) == Some((n.deep_view(), v@)),
        r is None ==> declaration(line@, kw@) is None,
{
    match strip_prefix(line, kw) {
        None => None,
        Some(rest) => match find_char(rest, '=') {
            None => None,
            Some(eq) => {
                let n = rest.len();
                let name = trim(&rest[0..eq]);
                let value = trim(&rest[eq + 1..n]);
                assert(rest@.subrange(0, eq as int) =~= rest@.take(eq as int));
                assert(rest@.subrange(eq + 1, rest@.len() as int) =~= rest@.skip(eq + 1));
                Some((Some(string_from(name)), value))
            },
        },
    }
}

/// Splits the prefix `const name = ` (or `let`, `var`) off `line`: the name, and the rest.
pub fn parse_assignment(line: &[char]) -> (r: (Option<String>, &[char]))
    ensures
        (r.0.deep_view(), r.1@) == assignment(line@),
{
    if let Some(r) = split_declaration(line, "const ") {
        return r;
    }
    if let Some(r) = split_declaration(line, "let ") {
        return r;
    }
    if let Some(r) = split_declaration(line, "var ") {
        return r;
    }
    (None, line)
}

/// `line` without a leading `await `, trimmed.
pub open spec fn without_await(line: Seq<char>) -> Seq<char> {
    trimmed(
        match after_prefix(line, "await "@) {
            Some(r) => r,
            None => line,
        },
    )
}

/// Strips a leading `await ` keyword, then trims.
pub fn strip_await(line: &[char]) -> (r: &[char])
    ensures
        r@ == without_await(line@),
{
    match strip_prefix(line, "await ") {
        Some(r) => trim(r),
        None => trim(line),
    }
}

/// The chain `page.locator('selector')` followed by the rest of `line`: the selector and
/// what follows the closing parenthesis. The end of the selector is counted in bytes of the
/// trimmed argument text and the untrimmed text is cut there; `None` is the line on which
/// that cut would fall inside a character, a line that has no reading.
pub open spec fn locator_chain(line: Seq<char>) -> Option<Option<(Seq<char>, Seq<char>)>> {
    match after_prefix(line, "page.locator("@) {
        None => Some(None),
        Some(rest) => match string_arg_end(rest) {
            None => Some(None),
            Some(end) => match string_content(rest, end) {
                None => Some(None),
                Some(selector) => match skip_bytes(rest, utf8_len(trimmed(rest).take(end)) as int) {
                    None => None,
                    Some(after) => match after_prefix(trimmed_start(after), ")"@) {
                        None => Some(None),
                        Some(r) => Some(Some((selector, trimmed_start(r)))),
                    },
                },
            },
        },
    }
}

/// The mathematical value of a locator chain found in a line.
pub open spec fn chain_view(c: Option<(String, &[char])>) -> Option<(Seq<char>, Seq<char>)> {
    match c {
        Some((s, r)) => Some((s@, r@)),
        None => None,
    }
}

/// Finds the locator chain of `line`; `None` where the cut falls inside a character.
pub fn locate(line: &[char]) -> (r: Option<Option<(String, &[char])>>)
    ensures
        r matches Some(c) ==> locator_chain(line@) == Some(chain_view(c)),
        r is None ==> locator_chain(line@) is None,
{
    let rest = match strip_prefix(line, "page.locator(") {
        None => return Some(None),
        Some(r) => r,
    };
    let end = match find_string_arg_end(rest) {
        None => return Some(None),
        Some(e) => e,
    };
    let selector = match extract_string_from(rest, end) {
        None => return Some(None),
        Some(s) => s,
    };
    let t = trim(rest);
    let head = &t[0..end];
    assert(head@ =~= trimmed(rest@).take(end as int));
    let nbytes = byte_len(head);
    let after = match skip_byte_prefix(rest, nbytes) {
        None => return None,
        Some(a) => a,
    };
    let after = trim_start(after);
    let after = match strip_prefix(after, ")") {
        None => return Some(None),
        Some(a) => a,
    };
    Some(Some((selector, trim_start(after))))
}

/// Splits `page.locator(selector)...` into the selector and the chain that follows it.
pub fn parse_locator_chain(line: &[char]) -> (r: Option<(String, &[char])>)
    requires
        locator_chain(line@) is Some,
    ensures
        Some(chain_view(r)) == locator_chain(line@),
{
    match locate(line) {
        Some(c) => c,
        None => None,
    }
}

/// What follows either spelling of a field label at the start of `p`.
pub open spec fn labelled(p: Seq<char>, a: Seq<char>, b: Seq<char>) -> Option<Seq<char>> {
    match after_prefix(p, a) {
        Some(v) => Some(v),
        None => after_prefix(p, b),
    }
}

fn strip_label<'a>(p: &'a [char], a: &str, b: &str) -> (r: Option<&'a [char]>)
    ensures
        r matches Some(v) ==> labelled(p@, a@, b@) == Some(v@),
        r is None ==> labelled(p@, a@, b@) is None,
{
    match strip_prefix(p, a) {
        Some(v) => Some(v),
        None => strip_prefix(p, b),
    }
}

/// The width and height read so far from a viewport object, or the error.
pub type Dimensions = (Option<u32>, Option<u32>);

/// Reads one `width: N` or `height: N` field into `st`; other fields change nothing.
pub open spec fn viewport_field(part: Seq<char>, st: Dimensions) -> Result<Dimensions, Seq<char>> {
    let p = trimmed(part);
    match labelled(p, "width:"@, "width :"@) {
        Some(v) => match decimal_u32(trimmed(v)) {
            Ok(n) => Ok((Some(n), st.1)),
            Err(e) => Err("Invalid width: "@ + int_error_text(e)),
        },
        None => match labelled(p, "height:"@, "height :"@) {
            Some(v) => match decimal_u32(trimmed(v)) {
                Ok(n) => Ok((st.0, Some(n))),
                Err(e) => Err("Invalid height: "@ + int_error_text(e)),
            },
            None => Ok(st),
        },
    }
}

/// Reads the comma-separated fields of `s` in order, stopping at the first error.
pub open spec fn viewport_fields(s: Seq<char>, st: Dimensions) -> Result<Dimensions, Seq<char>>
    decreases s.len(),
{
    match first_index(s, seq![',']) {
        None => viewport_field(s, st),
        Some(i) => {
            proof {
                lemma_find_from_bounds(s, seq![','], 0);
            }
            match viewport_field(s.take(i), st) {
                Err(e) => Err(e),
                Ok(st2) => viewport_fields(s.skip(i + 1), st2),
            }
        },
    }
}

/// The result of reading `{width: W, height: H}`.
pub open spec fn viewport_args(args: Seq<char>) -> Result<(u32, u32), Seq<char>> {
    let a = trimmed(args);
    let inner = match after_prefix(a, "{"@) {
        Some(x) => before_suffix(x, "}"@),
        None => None,
    };
    match inner {
        None => Err("Expected {width: N, height: N}, got: "@ + a),
        Some(inner) => viewport_size(viewport_fields(inner, (None, None))),
    }
}

/// The size that the fields read give, or the error.
pub open spec fn viewport_size(r: Result<Dimensions, Seq<char>>) -> Result<(u32, u32), Seq<char>> {
    match r {
        Err(e) => Err(e),
        Ok((w, h)) => match w {
            None => Err("Missing width in viewport"@),
            Some(w) => match h {
                None => Err("Missing height in viewport"@),
                Some(h) => Ok((w, h)),
            },
        },
    }
}

fn read_dimension(v: &[char], label: &str) -> (r: Result<u32, String>)
    ensures
        r matches Ok(n) ==> decimal_u32(trimmed(v@)) == Ok::<u32, crate::numbers::IntError>(n),
        r matches Err(e) ==> decimal_u32(trimmed(v@)) matches Err(k) && e@ == label@
            + int_error_text(k),
{
    match parse_u32(trim(v)) {
        Ok(n) => Ok(n),
        Err(k) => {
            let mut m = String::from_str(label);
            m.append(int_error_message(k));
            Err(m)
        },
    }
}

fn viewport_field_exec(part: &[char], st: Dimensions) -> (r: Result<Dimensions, String>)
    ensures
        result_view(r) == viewport_field(part@, st),
{
    let p = trim(part);
    match strip_label(p, "width:", "width :") {
        Some(v) => match read_dimension(v, "Invalid width: ") {
            Ok(n) => Ok((Some(n), st.1)),
            Err(e) => Err(e),
        },
        None => match strip_label(p, "height:", "height :") {
            Some(v) => match read_dimension(v, "Invalid height: ") {
                Ok(n) => Ok((st.0, Some(n))),
                Err(e) => Err(e),
            },
            None => Ok(st),
        },
    }
}

/// Reads `{width: W, height: H}`; fields come in any order, and a later one wins.
pub fn parse_viewport_args(args: &[char]) -> (r: Result<(u32, u32), String>)
    ensures
        result_view(r) == viewport_args(args@),
{
    let a = trim(args);
    let inner = match strip_prefix(a, "{") {
        Some(x) => strip_suffix(x, "}"),
        None => None,
    };
    let inner = match inner {
        None => return Err(text_then("Expected {width: N, height: N}, got: ", a)),
        Some(i) => i,
    };
    let mut st: Dimensions = (None, None);
    let mut rest = inner;
    loop
        invariant_except_break
            viewport_args(args@) == viewport_size(viewport_fields(rest@, st)),
        ensures
            viewport_args(args@) == viewport_size(Ok(st)),
        decreases rest@.len(),
    {
        match find_char(rest, ',') {
            None => {
                match viewport_field_exec(rest, st) {
                    Err(e) => return Err(e),
                    Ok(s2) => {
                        st = s2;
                    },
                }
                assert(viewport_args(args@) == viewport_size(Ok(st)));
                break;
            },
            Some(i) => {
                let piece = &rest[0..i];
                assert(piece@ =~= rest@.take(i as int));
                match viewport_field_exec(piece, st) {
                    Err(e) => return Err(e),
                    Ok(s2) => {
                        st = s2;
                    },
                }
                let n = rest.len();
                let next = &rest[i + 1..n];
                assert(next@ =~= rest@.skip(i + 1));
                rest = next;
            },
        }
    }
    match st.0 {
        None => Err(String::from_str("Missing width in viewport")),
        Some(w) => match st.1 {
            None => Err(String::from_str("Missing height in viewport")),
            Some(h) => Ok((w, h)),
        },
    }
}

/// Reads one `path: '...'` field: `Some` of the outcome where the field is a path.
pub open spec fn path_field(part: Seq<char>) -> Option<Option<Seq<char>>> {
    match labelled(trimmed(part), "path:"@, "path :"@) {
        Some(v) => Some(
            match string_arg(trimmed(v)) {
                Ok(p) => Some(p),
                Err(_) => None,
            },
        ),
        None => None,
    }
}

/// The first `path` field among the comma-separated fields of `s`.
pub open spec fn path_fields(s: Seq<char>) -> Option<Seq<char>>
    decreases s.len(),
{
    match first_index(s, seq![',']) {
        None => match path_field(s) {
            Some(r) => r,
            None => None,
        },
        Some(i) => {
            proof {
                lemma_find_from_bounds(s, seq![','], 0);
            }
            match path_field(s.take(i)) {
                Some(r) => r,
                None => path_fields(s.skip(i + 1)),
            }
        },
    }
}

/// The path that an options object `{path: '...'}` names.
pub open spec fn path_option(args: Seq<char>) -> Option<Seq<char>> {
    let a = trimmed(args);
    if a.len() == 0 {
        None
    } else {
        match after_prefix(a, "{"@) {
            None => None,
            Some(x) => match before_suffix(x, "}"@) {
                None => None,
                Some(inner) => path_fields(inner),
            },
        }
    }
}

fn path_field_exec(part: &[char]) -> (r: Option<Option<String>>)
    ensures
        r matches Some(o) ==> path_field(part@) == Some(o.deep_view()),
        r is None ==> path_field(part@) is None,
{
    match strip_label(trim(part), "path:", "path :") {
        Some(v) => Some(
            match extract_string_arg(trim(v)) {
                Ok(p) => Some(p),
                Err(_) => None,
            },
        ),
        None => None,
    }
}

/// Reads the `path` of an options object such as `{path: 'file.png'}`.
pub fn parse_path_from_options(args: &[char]) -> (r: Option<String>)
    ensures
        r.deep_view() == path_option(args@),
{
    let a = trim(args);
    if a.len() == 0 {
        return None;
    }
    let x = match strip_prefix(a, "{") {
        None => return None,
        Some(x) => x,
    };
    let inner = match strip_suffix(x, "}") {
        None => return None,
        Some(i) => i,
    };
    let mut rest = inner;
    loop
        invariant
            path_option(args@) == path_fields(rest@),
        decreases rest@.len(),
    {
        match find_char(rest, ',') {
            None => {
                return match path_field_exec(rest) {
                    Some(r) => r,
                    None => None,
                };
            },
            Some(i) => {
                let piece = &rest[0..i];
                assert(piece@ =~= rest@.take(i as int));
                if let Some(r) = path_field_exec(piece) {
                    return r;
                }
                let n = rest.len();
                let next = &rest[i + 1..n];
                assert(next@ =~= rest@.skip(i + 1));
                rest = next;
            },
        }
    }
}

/// The result of reading two numbers `x, y`: their texts, each one that `str::parse::<f64>`
/// accepts.
pub open spec fn two_numbers(args: Seq<char>) -> Result<(Seq<char>, Seq<char>), Seq<char>> {
    match first_index(args, seq![',']) {
        None => Err("Expected two numbers, got: "@ + args),
        Some(i) => match first_index(args.skip(i + 1), seq![',']) {
            Some(_) => Err("Expected two numbers, got: "@ + args),
            None => {
                let x = trimmed(args.take(i));
                let y = trimmed(args.skip(i + 1));
                match float_refusal(x) {
                    Some(e) => Err("Invalid x: "@ + float_error_text(e)),
                    None => match float_refusal(y) {
                        Some(e) => Err("Invalid y: "@ + float_error_text(e)),
                        None => Ok((x, y)),
                    },
                }
            },
        },
    }
}

/// Reads two numbers `x, y`, keeping the text of each.
pub fn parse_two_numbers(args: &[char]) -> (r: Result<(String, String), String>)
    ensures
        result_view(r) == two_numbers(args@),
{
    let i = match find_char(args, ',') {
        None => return Err(text_then("Expected two numbers, got: ", args)),
        Some(i) => i,
    };
    let n = args.len();
    let after = &args[i + 1..n];
    assert(after@ =~= args@.skip(i + 1));
    if find_char(after, ',').is_some() {
        return Err(text_then("Expected two numbers, got: ", args));
    }
    let before = &args[0..i];
    assert(before@ =~= args@.take(i as int));
    let x = trim(before);
    let y = trim(after);
    if let Some(e) = check_float(x) {
        let mut m = String::from_str("Invalid x: ");
        m.append(float_error_message(e));
        return Err(m);
    }
    if let Some(e) = check_float(y) {
        let mut m = String::from_str("Invalid y: ");
        m.append(float_error_message(e));
        return Err(m);
    }
    Ok((string_from(x), string_from(y)))
}

/// Whether `c` is alphanumeric in Unicode's sense (`char::is_alphanumeric`).
pub uninterp spec fn is_alphanumeric(c: char) -> bool;

/// Calls `char::is_alphanumeric`. The contract ties the result to the name
/// `is_alphanumeric`, and states that among ASCII chars exactly the letters and digits are
/// alphanumeric; which other chars are is left to Unicode's tables and not stated.
#[verifier::external_body]
fn char_is_alphanumeric(c: char) -> (r: bool)
    ensures
        r == is_alphanumeric(c),
        (c as u32) < 128 ==> (r <==> (('a' <= c && c <= 'z') || ('A' <= c && c <= 'Z') || ('0'
            <= c && c <= '9'))),
{
    c.is_alphanumeric()
}

/// Whether `c` is alphanumeric: among ASCII chars, exactly the letters and digits; beyond
/// ASCII, as Unicode's tables say (`char::is_alphanumeric`).
pub open spec fn alphanumeric(c: char) -> bool {
    if (c as u32) < 128 {
        ('a' <= c && c <= 'z') || ('A' <= c && c <= 'Z') || ('0' <= c && c <= '9')
    } else {
        is_alphanumeric(c)
    }
}

/// A non-empty name made of alphanumeric chars and underscores.
pub open spec fn is_simple_identifier(v: Seq<char>) -> bool {
    v.len() > 0 && forall|i: int| 0 <= i < v.len() ==> #[trigger] alphanumeric(v[i]) || v[i] == '_'
}

/// Whether `v` is a non-empty name made of alphanumeric chars and underscores.
pub fn simple_identifier(v: &[char]) -> (r: bool)
    ensures
        r == is_simple_identifier(v@),
{
    let mut i: usize = 0;
    while i < v.len()
        invariant
            i <= v@.len(),
            forall|k: int| 0 <= k < i ==> #[trigger] alphanumeric(v@[k]) || v@[k] == '_',
        decreases v@.len() - i,
    {
        let c = v[i];
        if !(char_is_alphanumeric(c) || c == '_') {
            assert(!(alphanumeric(v@[i as int]) || v@[i as int] == '_'));
            return false;
        }
        i = i + 1;
    }
    v.len() > 0
}

} // verus!
