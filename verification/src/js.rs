//! Rewriting of the JavaScript snippets that commands carry, into the forms that the browser
//! evaluates.
use vstd::prelude::*;
use crate::text::{
    after_prefix, before_suffix, chars_of, find, find_char, first_index, has_prefix, has_suffix,
    lemma_find_from_bounds, push_chars, starts_with, string_from, strip_prefix, strip_suffix,
    trim, trimmed,
};

verus! {

/// The quoted pieces of `x` for an XPath `concat(...)`: the runs between single quotes,
/// each in single quotes, with `"'"` standing for each single quote.
pub open spec fn concat_parts(x: Seq<char>) -> Seq<char>
    decreases x.len(),
{
    match first_index(x, seq!['\'']) {
        None => "'"@ + x + "'"@,
        Some(i) => {
            proof {
                lemma_find_from_bounds(x, seq!['\''], 0);
            }
            "'"@ + x.take(i) + "', \"'\", "@ + concat_parts(x.skip(i + 1))
        },
    }
}

/// The XPath string literal for the text `x`: `'x'` where `x` holds no single quote, else
/// a `concat(...)` of its pieces.
pub open spec fn xpath_literal(x: Seq<char>) -> Seq<char> {
    match first_index(x, seq!['\'']) {
        None => "'"@ + x + "'"@,
        Some(_) => "concat("@ + concat_parts(x) + ")"@,
    }
}

/// The XPath that finds an element with a text node that contains `x`.
pub open spec fn text_search(x: Seq<char>) -> Seq<char> {
    "//*[text()[contains(., "@ + xpath_literal(x) + ")]]"@
}

/// The selector that a Puppeteer selector stands for: `::-p-text(X)` becomes the XPath
/// text search for `X`; every other selector (CSS, or another pseudo-selector such as
/// `::-p-aria(...)`, which has no such equivalent) stays as it is.
pub open spec fn resolved_selector(s: Seq<char>) -> Seq<char> {
    match after_prefix(s, "::-p-text("@) {
        Some(r) => match before_suffix(r, ")"@) {
            Some(x) => text_search(x),
            None => s,
        },
        None => s,
    }
}

/// Whether a selector is an XPath (it starts with `//`) rather than a CSS selector.
pub open spec fn xpath_selector(s: Seq<char>) -> bool {
    has_prefix(s, "//"@)
}

fn xpath_literal_of(x: &[char]) -> (r: String)
    ensures
        r@ == xpath_literal(x@),
{
    if find_char(x, '\'').is_none() {
        let mut r = String::from_str("'");
        push_chars(&mut r, x);
        r.append("'");
        return r;
    }
    let mut r = String::from_str("concat(");
    let mut rest = x;
    loop
        invariant_except_break
            "concat("@ + concat_parts(x@) == r@ + concat_parts(rest@),
        ensures
            "concat("@ + concat_parts(x@) == r@,
        decreases rest@.len(),
    {
        match find_char(rest, '\'') {
            None => {
                let ghost before = r@;
                r.append("'");
                push_chars(&mut r, rest);
                r.append("'");
                assert(r@ =~= before + concat_parts(rest@));
                break ;
            },
            Some(i) => {
                let n = rest.len();
                let head = &rest[0..i];
                let next = &rest[i + 1..n];
                assert(head@ =~= rest@.take(i as int));
                assert(next@ =~= rest@.skip(i + 1));
                let ghost before = r@;
                r.append("'");
                push_chars(&mut r, head);
                r.append("', \"'\", ");
                assert(r@ =~= before + ("'"@ + rest@.take(i as int) + "', \"'\", "@));
                assert(before + concat_parts(rest@) =~= r@ + concat_parts(next@));
                rest = next;
            },
        }
    }
    let ghost before = r@;
    r.append(")");
    assert(r@ =~= before + ")"@);
    r
}

/// Resolves a Puppeteer selector: `::-p-text(X)` becomes an XPath that finds an element
/// with a text node containing `X` (`//*[text()[contains(., 'X')]]`); every other selector
/// is returned unchanged.
pub fn resolve_selector(selector: &str) -> (r: String)
    ensures
        r@ == resolved_selector(selector@),
{
    let c = chars_of(selector);
    match strip_prefix(c.as_slice(), "::-p-text(") {
        Some(rest) => match strip_suffix(rest, ")") {
            Some(x) => {
                let mut r = String::from_str("//*[text()[contains(., ");
                let lit = xpath_literal_of(x);
                r.append(lit.as_str());
                r.append(")]]");
                r
            },
            None => String::from_str(selector),
        },
        None => String::from_str(selector),
    }
}

/// Whether `selector` is an XPath (as [`resolve_selector`] makes of `::-p-text(...)`)
/// rather than a CSS selector.
pub fn is_xpath(selector: &str) -> (r: bool)
    ensures
        r == xpath_selector(selector@),
{
    let c = chars_of(selector);
    starts_with(c.as_slice(), "//")
}

/// The parameters of an arrow function without their parentheses, if they have them.
pub open spec fn bare_params(params: Seq<char>) -> Seq<char> {
    match after_prefix(params, "("@) {
        Some(x) => match before_suffix(x, ")"@) {
            Some(y) => y,
            None => params,
        },
        None => params,
    }
}

/// The function expression that an arrow function (or function expression) stands for.
pub open spec fn function_form(arrow: Seq<char>) -> Seq<char> {
    let a = trimmed(arrow);
    if has_prefix(a, "function"@) {
        a
    } else {
        match first_index(a, "=>"@) {
            Some(p) => {
                let params = bare_params(trimmed(a.take(p)));
                let body = trimmed(a.skip(p + 2));
                if has_prefix(body, "{"@) {
                    "function("@ + params + ") "@ + body
                } else {
                    "function("@ + params + ") { return "@ + body + "; }"@
                }
            },
            None => "function() { return "@ + a + "; }"@,
        }
    }
}

/// Turns an arrow function such as `el => el.textContent` into a function expression such
/// as `function(el) { return el.textContent; }`.
pub fn arrow_fn_to_function(arrow: &[char]) -> (r: String)
    ensures
        r@ == function_form(arrow@),
{
    proof {
        reveal_strlit("=>");
    }
    let a = trim(arrow);
    if starts_with(a, "function") {
        return string_from(a);
    }
    match find(a, "=>") {
        Some(p) => {
            let n = a.len();
            let params_text = trim(&a[0..p]);
            let body = trim(&a[p + 2..n]);
            assert(a@.subrange(0, p as int) =~= a@.take(p as int));
            assert(a@.subrange(p + 2, n as int) =~= a@.skip(p + 2));
            let params = match strip_prefix(params_text, "(") {
                Some(x) => match strip_suffix(x, ")") {
                    Some(y) => y,
                    None => params_text,
                },
                None => params_text,
            };
            let mut r = String::from_str("function(");
            push_chars(&mut r, params);
            if starts_with(body, "{") {
                r.append(") ");
                push_chars(&mut r, body);
            } else {
                r.append(") { return ");
                push_chars(&mut r, body);
                r.append("; }");
            }
            r
        },
        None => {
            let mut r = String::from_str("function() { return ");
            push_chars(&mut r, a);
            r.append("; }");
            r
        },
    }
}

/// The script that `page.evaluate(expression)` runs.
pub open spec fn evaluation_script(expr: Seq<char>) -> Seq<char> {
    let e = trimmed(expr);
    if has_prefix(e, "function"@) {
        "("@ + e + ")()"@
    } else {
        match first_index(e, "=>"@) {
            Some(p) => {
                let body = trimmed(e.skip(p + 2));
                if has_prefix(body, "{"@) && has_suffix(body, "}"@) {
                    "(function() "@ + body + ")()"@
                } else {
                    body
                }
            },
            None => e,
        }
    }
}

/// Turns the argument of `page.evaluate` into a script: a function expression is wrapped
/// and invoked; otherwise the body of an arrow function (a block body becomes an
/// immediately invoked function), or the plain expression.
pub fn normalize_evaluate_expression(expr: &[char]) -> (r: String)
    ensures
        r@ == evaluation_script(expr@),
{
    proof {
        reveal_strlit("=>");
    }
    let e = trim(expr);
    if starts_with(e, "function") {
        let mut r = String::from_str("(");
        push_chars(&mut r, e);
        r.append(")()");
        return r;
    }
    match find(e, "=>") {
        Some(p) => {
            let n = e.len();
            let body = trim(&e[p + 2..n]);
            assert(e@.subrange(p + 2, n as int) =~= e@.skip(p + 2));
            if starts_with(body, "{") && strip_suffix(body, "}").is_some() {
                let mut r = String::from_str("(function() ");
                push_chars(&mut r, body);
                r.append(")()");
                r
            } else {
                string_from(body)
            }
        },
        None => string_from(e),
    }
}

} // verus!
