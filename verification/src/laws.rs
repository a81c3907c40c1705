//! Laws of the library: properties that relate several functions or hold of all inputs.
use vstd::prelude::*;
use crate::arguments::{
    assignment, path_field, path_option, call_args, declaration, is_quote, locator_chain, scan_quoted, string_arg,
    string_arg_end, two_string_args, viewport_args, viewport_field, viewport_fields,
    without_await,
};
use crate::numbers::{
    IntError, decimal, decimal_u32, digit_char, digit_value, is_digit, scan_u32, skip_bytes,
    utf8_len, utf8_width,
};
use crate::cli::inline_commands;
use crate::console::unquoted;
use crate::js::{function_form, resolved_selector, text_search, xpath_selector};
use crate::parser::{
    command_of, early_command, element_evaluate_at, last_command, locator_command, page_command,
    parsed_line, CommandModel,
};
use crate::text::{
    after_prefix, find_from, first_index, has_prefix, is_ws, lemma_find_from_bounds, occurs_at,
    trimmed, trimmed_end, trimmed_start, without_trailing,
};

verus! {

/// A text with no whitespace at either end is its own trimmed form.
pub proof fn law_trim_keeps_bare_text(s: Seq<char>)
    requires
        s.len() == 0 || (!is_ws(s[0]) && !is_ws(s.last())),
    ensures
        trimmed(s) == s,
{
}

/// `s` does not start with `p` where they differ at position `k`.
proof fn lemma_prefix_differs(s: Seq<char>, p: Seq<char>, k: int)
    requires
        0 <= k < p.len(),
        k < s.len(),
        s[k] != p[k],
    ensures
        !has_prefix(s, p),
        after_prefix(s, p) is None,
{
    if has_prefix(s, p) {
        assert(s.subrange(0, p.len() as int)[k] == s[k]);
    }
}

/// A plain text holds no single quote and no backslash.
pub open spec fn plain(s: Seq<char>) -> bool {
    forall|i: int| 0 <= i < s.len() ==> s[i] != '\'' && s[i] != '\\'
}

/// `s` between single quotes.
pub open spec fn single_quoted(s: Seq<char>) -> Seq<char> {
    seq!['\''] + s + seq!['\'']
}

proof fn lemma_scan_plain(s: Seq<char>, i: int)
    requires
        plain(s),
        1 <= i <= s.len() + 1,
    ensures
        scan_quoted(single_quoted(s), '\'', i) == Some(s.len() + 2int),
    decreases s.len() + 2 - i,
{
    let q = single_quoted(s);
    if i <= s.len() {
        assert(q[i] == s[i - 1]);
        lemma_scan_plain(s, i + 1);
    } else {
        assert(q[i] == '\'');
    }
}

/// A plain text between single quotes reads back as itself.
pub proof fn law_quoted_text_reads_back(s: Seq<char>)
    requires
        plain(s),
    ensures
        string_arg(single_quoted(s)) == Ok::<Seq<char>, Seq<char>>(s),
{
    let q = single_quoted(s);
    assert(q[0] == '\'');
    assert(q.last() == '\'');
    assert(trimmed(q) == q);
    lemma_scan_plain(s, 1);
    assert(string_arg_end(q) == Some(s.len() + 2int));
    assert(q.subrange(1, s.len() + 1 as int) =~= s);
}

/// `p` first occurs in `s` (from `i` on) at `k`.
pub(crate) proof fn lemma_find_from_is(s: Seq<char>, p: Seq<char>, i: int, k: int)
    requires
        0 <= i <= k,
        occurs_at(s, p, k),
        forall|j: int| i <= j < k ==> !occurs_at(s, p, j),
    ensures
        find_from(s, p, i) == Some(k),
    decreases k - i,
{
    if i < k {
        lemma_find_from_is(s, p, i + 1, k);
    }
}

/// A bare command text: non-empty, with no whitespace at either end and no trailing
/// semicolon, and not a comment, a declaration or an `await`.
pub open spec fn bare_command(v: Seq<char>) -> bool {
    &&& v.len() > 0
    &&& !is_ws(v[0])
    &&& !is_ws(v.last())
    &&& v.last() != ';'
    &&& !has_prefix(v, "//"@)
    &&& !has_prefix(v, "#"@)
    &&& !has_prefix(v, "const "@)
    &&& !has_prefix(v, "let "@)
    &&& !has_prefix(v, "var "@)
    &&& !has_prefix(v, "await "@)
}

/// A bare command line parses as its command, with no variable assigned.
pub proof fn law_bare_command_line(v: Seq<char>)
    requires
        bare_command(v),
    ensures
        parsed_line(v) == command_of(v, None),
{
    assert(trimmed(v) == v);
    assert(without_trailing(v, ';') == v);
    assert(assignment(v) == (None::<Seq<char>>, v));
    assert(without_await(v) == v);
}

/// `await` before a command and a semicolon after it change nothing.
pub proof fn law_await_and_semicolon(v: Seq<char>)
    requires
        bare_command(v),
    ensures
        parsed_line("await "@ + v + ";"@) == command_of(v, None),
{
    reveal_strlit("await ");
    reveal_strlit(";");
    reveal_strlit("//");
    reveal_strlit("#");
    reveal_strlit("const ");
    reveal_strlit("let ");
    reveal_strlit("var ");
    let line = "await "@ + v + ";"@;
    let u = "await "@ + v;
    assert(line[0] == 'a');
    assert(line.last() == ';');
    assert(trimmed(line) == line);
    lemma_prefix_differs(line, "//"@, 0);
    lemma_prefix_differs(line, "#"@, 0);
    assert(line.drop_last() =~= u);
    assert(u.last() == v.last());
    assert(without_trailing(u, ';') == u);
    assert(without_trailing(line, ';') == u);
    assert(u[0] == 'a');
    assert(trimmed(u) == u);
    lemma_prefix_differs(u, "const "@, 0);
    lemma_prefix_differs(u, "let "@, 0);
    lemma_prefix_differs(u, "var "@, 0);
    assert(assignment(u) == (None::<Seq<char>>, u));
    assert(u.subrange(0, 6) =~= "await "@);
    assert(u.skip(6) =~= v);
    assert(without_await(u) == v);
}

proof fn lemma_trimmed_trailing_space(n: Seq<char>)
    requires
        trimmed(n) == n,
    ensures
        trimmed(n + seq![' ']) == n,
{
    let m = n + seq![' '];
    if n.len() == 0 {
        assert(m[0] == ' ');
        assert(m.drop_first() =~= Seq::<char>::empty());
        assert(trimmed_start(Seq::<char>::empty()) == Seq::<char>::empty());
        assert(trimmed_start(m) == Seq::<char>::empty());
    } else {
        crate::text::lemma_trimmed_idempotent(n);
        assert(!is_ws(n[0])) by {
            if is_ws(n[0]) {
                crate::text::lemma_trimmed_shapes(n);
            }
        }
        assert(m[0] == n[0]);
        assert(trimmed_start(m) == m);
        assert(m.drop_last() =~= n);
        assert(trimmed_end(m) == trimmed_end(n));
        crate::text::lemma_trimmed_shapes(n);
        assert(trimmed_start(n) == n);
    }
}

proof fn lemma_declared_name(n: Seq<char>, v: Seq<char>)
    requires
        bare_command(v),
        trimmed(n) == n,
        forall|i: int| 0 <= i < n.len() ==> n[i] != '=',
    ensures
        ({
            let rest = n + " = await "@ + v;
            let e = n.len() as int + 1;
            &&& first_index(rest, seq!['=']) == Some(e)
            &&& trimmed(rest.take(e)) == n
            &&& trimmed(rest.skip(e + 1)) == "await "@ + v
        }),
{
    reveal_strlit(" = await ");
    reveal_strlit("await ");
    let rest = n + " = await "@ + v;
    let e: int = n.len() as int + 1;
    assert(occurs_at(rest, seq!['='], e)) by {
        assert(rest.subrange(e, e + 1) =~= seq!['=']);
    }
    assert forall|j: int| 0 <= j < e implies !occurs_at(rest, seq!['='], j) by {
        if j < n.len() {
            assert(rest[j] == n[j]);
        } else {
            assert(rest[j] == ' ');
        }
        if occurs_at(rest, seq!['='], j) {
            assert(rest.subrange(j, j + 1)[0] == rest[j]);
        }
    }
    lemma_find_from_is(rest, seq!['='], 0, e);
    assert(rest.take(e) =~= n + seq![' ']);
    lemma_trimmed_trailing_space(n);
    let after = rest.skip(e + 1);
    let value = "await "@ + v;
    assert(after =~= seq![' '] + value);
    assert(value[0] == 'a');
    assert(value.last() == v.last());
    assert(trimmed(value) == value);
    assert(after[0] == ' ');
    assert(after.drop_first() =~= value);
    assert(trimmed_start(after) == trimmed_start(value));
}

/// A declaration `const name = await command;` assigns the result of the command to the
/// name.
pub proof fn law_declaration_assigns(n: Seq<char>, v: Seq<char>)
    requires
        bare_command(v),
        trimmed(n) == n,
        forall|i: int| 0 <= i < n.len() ==> n[i] != '=',
    ensures
        parsed_line("const "@ + n + " = await "@ + v + ";"@) == command_of(v, Some(n)),
{
    reveal_strlit("const ");
    reveal_strlit(";");
    reveal_strlit("//");
    reveal_strlit("#");
    reveal_strlit("await ");
    let line = "const "@ + n + " = await "@ + v + ";"@;
    let u = "const "@ + n + " = await "@ + v;
    let rest = n + " = await "@ + v;
    let value = "await "@ + v;
    assert(line[0] == 'c');
    assert(line.last() == ';');
    assert(trimmed(line) == line);
    lemma_prefix_differs(line, "//"@, 0);
    lemma_prefix_differs(line, "#"@, 0);
    assert(line.drop_last() =~= u);
    assert(u.last() == v.last());
    assert(without_trailing(u, ';') == u);
    assert(without_trailing(line, ';') == u);
    assert(u[0] == 'c');
    assert(trimmed(u) == u);
    assert(u.subrange(0, 6) =~= "const "@);
    assert(u.skip(6) =~= rest);
    lemma_declared_name(n, v);
    assert(declaration(u, "const "@) == Some((Some(n), value)));
    assert(assignment(u) == (Some(n), value));
    assert(value.subrange(0, 6) =~= "await "@);
    assert(value.skip(6) =~= v);
    assert(without_await(value) == v);
}

/// The arguments of `m(a)` are `a`.
proof fn lemma_call_args_of(m: Seq<char>, a: Seq<char>)
    ensures
        call_args(m + "("@ + a + ")"@, m) == Some(a),
{
    reveal_strlit("(");
    reveal_strlit(")");
    let v = m + "("@ + a + ")"@;
    assert(v.subrange(0, m.len() as int) =~= m);
    let r = v.skip(m.len() as int);
    assert(r =~= "("@ + a + ")"@);
    assert(r.subrange(0, 1) =~= "("@);
    let r2 = r.skip(1);
    assert(r2 =~= a + ")"@);
    assert(r2.subrange(r2.len() - 1, r2.len() as int) =~= ")"@);
    assert(r2.take(r2.len() - 1) =~= a);
}

/// `page.goto('url')` with a plain quoted url parses back to that url.
pub proof fn law_goto_reads_back(s: Seq<char>, a: Option<Seq<char>>)
    requires
        plain(s),
    ensures
        command_of("page.goto"@ + "("@ + single_quoted(s) + ")"@, a) == Some(
            Ok::<CommandModel, Seq<char>>(CommandModel::PageGoto { url: s }),
        ),
{
    reveal_strlit("(");
    reveal_strlit(")");
    reveal_strlit("browser.close()");
    reveal_strlit("browser.newPage()");
    reveal_strlit("console.log");
    reveal_strlit("page.goto");
    let v = "page.goto"@ + "("@ + single_quoted(s) + ")"@;
    assert(v[0] == 'p');
    lemma_prefix_differs(v, "console.log"@, 0);
    assert(v[0] != "browser.newPage()"@[0]);
    assert(v[0] != "browser.close()"@[0]);
    lemma_call_args_of("page.goto"@, single_quoted(s));
    law_quoted_text_reads_back(s);
}

/// `page.keyboard.press('key')` with a plain quoted key parses back to that key.
pub proof fn law_key_press_reads_back(s: Seq<char>, a: Option<Seq<char>>)
    requires
        plain(s),
    ensures
        command_of("page.keyboard.press"@ + "("@ + single_quoted(s) + ")"@, a) == Some(
            Ok::<CommandModel, Seq<char>>(CommandModel::PageKeyboardPress { key: s }),
        ),
{
    reveal_strlit("(");
    reveal_strlit(")");
    reveal_strlit("browser.close()");
    reveal_strlit("browser.newPage()");
    reveal_strlit("console.log");
    reveal_strlit("page.goto");
    reveal_strlit("page.keyboard.press");
    reveal_strlit("page.setViewport");
    let v = "page.keyboard.press"@ + "("@ + single_quoted(s) + ")"@;
    assert(v[0] == 'p');
    lemma_prefix_differs(v, "console.log"@, 0);
    assert(v[0] != "browser.newPage()"@[0]);
    assert(v[0] != "browser.close()"@[0]);
    lemma_prefix_differs(v, "page.goto"@, 5);
    lemma_prefix_differs(v, "page.setViewport"@, 5);
    lemma_call_args_of("page.keyboard.press"@, single_quoted(s));
    law_quoted_text_reads_back(s);
}

/// `page.keyboard.type('text')` with a plain quoted text parses back to that text.
pub proof fn law_keyboard_type_reads_back(s: Seq<char>, a: Option<Seq<char>>)
    requires
        plain(s),
    ensures
        command_of("page.keyboard.type"@ + "("@ + single_quoted(s) + ")"@, a) == Some(
            Ok::<CommandModel, Seq<char>>(CommandModel::PageKeyboardType { text: s }),
        ),
{
    reveal_strlit("(");
    reveal_strlit(")");
    reveal_strlit("browser.close()");
    reveal_strlit("browser.newPage()");
    reveal_strlit("console.log");
    reveal_strlit("page.goto");
    reveal_strlit("page.keyboard.press");
    reveal_strlit("page.keyboard.type");
    reveal_strlit("page.setViewport");
    let v = "page.keyboard.type"@ + "("@ + single_quoted(s) + ")"@;
    assert(v[0] == 'p');
    lemma_prefix_differs(v, "console.log"@, 0);
    assert(v[0] != "browser.newPage()"@[0]);
    assert(v[0] != "browser.close()"@[0]);
    lemma_prefix_differs(v, "page.goto"@, 5);
    lemma_prefix_differs(v, "page.setViewport"@, 5);
    lemma_prefix_differs(v, "page.keyboard.press"@, 14);
    lemma_call_args_of("page.keyboard.type"@, single_quoted(s));
    law_quoted_text_reads_back(s);
}

/// `page.waitForSelector('selector')` with a plain quoted selector parses back to that selector.
pub proof fn law_wait_for_selector_reads_back(s: Seq<char>, a: Option<Seq<char>>)
    requires
        plain(s),
    ensures
        command_of("page.waitForSelector"@ + "("@ + single_quoted(s) + ")"@, a) == Some(
            Ok::<CommandModel, Seq<char>>(CommandModel::PageWaitForSelector { selector: s, assign_to: a }),
        ),
{
    reveal_strlit("(");
    reveal_strlit(")");
    reveal_strlit("browser.close()");
    reveal_strlit("browser.newPage()");
    reveal_strlit("console.log");
    reveal_strlit("page.goto");
    reveal_strlit("page.keyboard.press");
    reveal_strlit("page.keyboard.type");
    reveal_strlit("page.locator(");
    reveal_strlit("page.setViewport");
    reveal_strlit("page.waitForSelector");
    let v = "page.waitForSelector"@ + "("@ + single_quoted(s) + ")"@;
    assert(v[0] == 'p');
    lemma_prefix_differs(v, "console.log"@, 0);
    assert(v[0] != "browser.newPage()"@[0]);
    assert(v[0] != "browser.close()"@[0]);
    lemma_prefix_differs(v, "page.goto"@, 5);
    lemma_prefix_differs(v, "page.setViewport"@, 5);
    lemma_prefix_differs(v, "page.keyboard.press"@, 5);
    lemma_prefix_differs(v, "page.keyboard.type"@, 5);
    lemma_prefix_differs(v, "page.locator("@, 5);
    lemma_call_args_of("page.waitForSelector"@, single_quoted(s));
    law_quoted_text_reads_back(s);
}

/// `page.click('selector')` with a plain quoted selector parses back to that selector.
pub proof fn law_click_reads_back(s: Seq<char>, a: Option<Seq<char>>)
    requires
        plain(s),
    ensures
        command_of("page.click"@ + "("@ + single_quoted(s) + ")"@, a) == Some(
            Ok::<CommandModel, Seq<char>>(CommandModel::PageClick { selector: s }),
        ),
{
    reveal_strlit("(");
    reveal_strlit(")");
    reveal_strlit("browser.close()");
    reveal_strlit("browser.newPage()");
    reveal_strlit("console.log");
    reveal_strlit("page.click");
    reveal_strlit("page.goto");
    reveal_strlit("page.keyboard.press");
    reveal_strlit("page.keyboard.type");
    reveal_strlit("page.locator(");
    reveal_strlit("page.setViewport");
    reveal_strlit("page.type");
    reveal_strlit("page.waitForSelector");
    let v = "page.click"@ + "("@ + single_quoted(s) + ")"@;
    assert(v[0] == 'p');
    lemma_prefix_differs(v, "console.log"@, 0);
    assert(v[0] != "browser.newPage()"@[0]);
    assert(v[0] != "browser.close()"@[0]);
    lemma_prefix_differs(v, "page.goto"@, 5);
    lemma_prefix_differs(v, "page.setViewport"@, 5);
    lemma_prefix_differs(v, "page.keyboard.press"@, 5);
    lemma_prefix_differs(v, "page.keyboard.type"@, 5);
    lemma_prefix_differs(v, "page.locator("@, 5);
    lemma_prefix_differs(v, "page.waitForSelector"@, 5);
    lemma_prefix_differs(v, "page.type"@, 5);
    lemma_call_args_of("page.click"@, single_quoted(s));
    law_quoted_text_reads_back(s);
}

/// `page.setUserAgent('ua')` with a plain quoted user agent parses back to that user agent.
pub proof fn law_user_agent_reads_back(s: Seq<char>, a: Option<Seq<char>>)
    requires
        plain(s),
    ensures
        command_of("page.setUserAgent"@ + "("@ + single_quoted(s) + ")"@, a) == Some(
            Ok::<CommandModel, Seq<char>>(CommandModel::PageSetUserAgent { user_agent: s }),
        ),
{
    reveal_strlit("(");
    reveal_strlit(")");
    reveal_strlit("browser.close()");
    reveal_strlit("browser.newPage()");
    reveal_strlit("console.log");
    reveal_strlit("page.click");
    reveal_strlit("page.content()");
    reveal_strlit("page.evaluate");
    reveal_strlit("page.goto");
    reveal_strlit("page.keyboard.press");
    reveal_strlit("page.keyboard.type");
    reveal_strlit("page.locator(");
    reveal_strlit("page.mouse.click");
    reveal_strlit("page.mouse.move");
    reveal_strlit("page.pdf");
    reveal_strlit("page.screenshot");
    reveal_strlit("page.setUserAgent");
    reveal_strlit("page.setViewport");
    reveal_strlit("page.title()");
    reveal_strlit("page.type");
    reveal_strlit("page.url()");
    reveal_strlit("page.waitForSelector");
    let v = "page.setUserAgent"@ + "("@ + single_quoted(s) + ")"@;
    assert(v[0] == 'p');
    lemma_prefix_differs(v, "console.log"@, 0);
    assert(v[0] != "browser.newPage()"@[0]);
    assert(v[0] != "browser.close()"@[0]);
    lemma_prefix_differs(v, "page.goto"@, 5);
    lemma_prefix_differs(v, "page.setViewport"@, 8);
    lemma_prefix_differs(v, "page.keyboard.press"@, 5);
    lemma_prefix_differs(v, "page.keyboard.type"@, 5);
    lemma_prefix_differs(v, "page.locator("@, 5);
    lemma_prefix_differs(v, "page.waitForSelector"@, 5);
    lemma_prefix_differs(v, "page.type"@, 5);
    lemma_prefix_differs(v, "page.click"@, 5);
    lemma_prefix_differs(v, "page.evaluate"@, 5);
    lemma_prefix_differs(v, "page.screenshot"@, 6);
    assert(v[5] != "page.content()"@[5]);
    assert(v[5] != "page.title()"@[5]);
    assert(v[5] != "page.url()"@[5]);
    lemma_prefix_differs(v, "page.pdf"@, 5);
    lemma_prefix_differs(v, "page.mouse.click"@, 5);
    lemma_prefix_differs(v, "page.mouse.move"@, 5);
    lemma_call_args_of("page.setUserAgent"@, single_quoted(s));
    law_quoted_text_reads_back(s);
}

/// `browser.newPage()` parses as its command.
pub proof fn law_new_page_reads_back(a: Option<Seq<char>>)
    ensures
        command_of("browser.newPage()"@, a) == Some(Ok::<CommandModel, Seq<char>>(CommandModel::BrowserNewPage { assign_to: a })),
{
    reveal_strlit("browser.newPage()");
    reveal_strlit("console.log");
    let v = "browser.newPage()"@;
    lemma_prefix_differs(v, "console.log"@, 0);
}

/// `browser.close()` parses as its command.
pub proof fn law_close_reads_back(a: Option<Seq<char>>)
    ensures
        command_of("browser.close()"@, a) == Some(Ok::<CommandModel, Seq<char>>(CommandModel::BrowserClose)),
{
    reveal_strlit("browser.close()");
    reveal_strlit("browser.newPage()");
    reveal_strlit("console.log");
    let v = "browser.close()"@;
    lemma_prefix_differs(v, "console.log"@, 0);
    assert(v[8] != "browser.newPage()"@[8]);
}

/// `page.content()` parses as its command.
pub proof fn law_content_reads_back(a: Option<Seq<char>>)
    ensures
        command_of("page.content()"@, a) == Some(Ok::<CommandModel, Seq<char>>(CommandModel::PageContent { assign_to: a })),
{
    reveal_strlit("browser.close()");
    reveal_strlit("browser.newPage()");
    reveal_strlit("console.log");
    reveal_strlit("page.click");
    reveal_strlit("page.content()");
    reveal_strlit("page.evaluate");
    reveal_strlit("page.goto");
    reveal_strlit("page.keyboard.press");
    reveal_strlit("page.keyboard.type");
    reveal_strlit("page.locator(");
    reveal_strlit("page.screenshot");
    reveal_strlit("page.setViewport");
    reveal_strlit("page.type");
    reveal_strlit("page.waitForSelector");
    let v = "page.content()"@;
    lemma_prefix_differs(v, "console.log"@, 0);
    assert(v[0] != "browser.newPage()"@[0]);
    assert(v[0] != "browser.close()"@[0]);
    lemma_prefix_differs(v, "page.goto"@, 5);
    lemma_prefix_differs(v, "page.setViewport"@, 5);
    lemma_prefix_differs(v, "page.keyboard.press"@, 5);
    lemma_prefix_differs(v, "page.keyboard.type"@, 5);
    lemma_prefix_differs(v, "page.locator("@, 5);
    lemma_prefix_differs(v, "page.waitForSelector"@, 5);
    lemma_prefix_differs(v, "page.type"@, 5);
    lemma_prefix_differs(v, "page.click"@, 6);
    lemma_prefix_differs(v, "page.evaluate"@, 5);
    lemma_prefix_differs(v, "page.screenshot"@, 5);
}

/// `page.title()` parses as its command.
pub proof fn law_title_reads_back(a: Option<Seq<char>>)
    ensures
        command_of("page.title()"@, a) == Some(Ok::<CommandModel, Seq<char>>(CommandModel::PageTitle { assign_to: a })),
{
    reveal_strlit("browser.close()");
    reveal_strlit("browser.newPage()");
    reveal_strlit("console.log");
    reveal_strlit("page.click");
    reveal_strlit("page.content()");
    reveal_strlit("page.evaluate");
    reveal_strlit("page.goto");
    reveal_strlit("page.keyboard.press");
    reveal_strlit("page.keyboard.type");
    reveal_strlit("page.locator(");
    reveal_strlit("page.screenshot");
    reveal_strlit("page.setViewport");
    reveal_strlit("page.title()");
    reveal_strlit("page.type");
    reveal_strlit("page.waitForSelector");
    let v = "page.title()"@;
    lemma_prefix_differs(v, "console.log"@, 0);
    assert(v[0] != "browser.newPage()"@[0]);
    assert(v[0] != "browser.close()"@[0]);
    lemma_prefix_differs(v, "page.goto"@, 5);
    lemma_prefix_differs(v, "page.setViewport"@, 5);
    lemma_prefix_differs(v, "page.keyboard.press"@, 5);
    lemma_prefix_differs(v, "page.keyboard.type"@, 5);
    lemma_prefix_differs(v, "page.locator("@, 5);
    lemma_prefix_differs(v, "page.waitForSelector"@, 5);
    lemma_prefix_differs(v, "page.type"@, 6);
    lemma_prefix_differs(v, "page.click"@, 5);
    lemma_prefix_differs(v, "page.evaluate"@, 5);
    lemma_prefix_differs(v, "page.screenshot"@, 5);
    assert(v[5] != "page.content()"@[5]);
}

/// `page.url()` parses as its command.
pub proof fn law_url_reads_back(a: Option<Seq<char>>)
    ensures
        command_of("page.url()"@, a) == Some(Ok::<CommandModel, Seq<char>>(CommandModel::PageUrl { assign_to: a })),
{
    reveal_strlit("browser.close()");
    reveal_strlit("browser.newPage()");
    reveal_strlit("console.log");
    reveal_strlit("page.click");
    reveal_strlit("page.content()");
    reveal_strlit("page.evaluate");
    reveal_strlit("page.goto");
    reveal_strlit("page.keyboard.press");
    reveal_strlit("page.keyboard.type");
    reveal_strlit("page.locator(");
    reveal_strlit("page.screenshot");
    reveal_strlit("page.setViewport");
    reveal_strlit("page.title()");
    reveal_strlit("page.type");
    reveal_strlit("page.url()");
    reveal_strlit("page.waitForSelector");
    let v = "page.url()"@;
    lemma_prefix_differs(v, "console.log"@, 0);
    assert(v[0] != "browser.newPage()"@[0]);
    assert(v[0] != "browser.close()"@[0]);
    lemma_prefix_differs(v, "page.goto"@, 5);
    lemma_prefix_differs(v, "page.setViewport"@, 5);
    lemma_prefix_differs(v, "page.keyboard.press"@, 5);
    lemma_prefix_differs(v, "page.keyboard.type"@, 5);
    lemma_prefix_differs(v, "page.locator("@, 5);
    lemma_prefix_differs(v, "page.waitForSelector"@, 5);
    lemma_prefix_differs(v, "page.type"@, 5);
    lemma_prefix_differs(v, "page.click"@, 5);
    lemma_prefix_differs(v, "page.evaluate"@, 5);
    lemma_prefix_differs(v, "page.screenshot"@, 5);
    assert(v[5] != "page.content()"@[5]);
    assert(v[5] != "page.title()"@[5]);
}

/// `page.goBack()` parses as its command.
pub proof fn law_go_back_reads_back(a: Option<Seq<char>>)
    ensures
        command_of("page.goBack()"@, a) == Some(Ok::<CommandModel, Seq<char>>(CommandModel::PageGoBack)),
{
    reveal_strlit("browser.close()");
    reveal_strlit("browser.newPage()");
    reveal_strlit("console.log");
    reveal_strlit("page.click");
    reveal_strlit("page.content()");
    reveal_strlit("page.evaluate");
    reveal_strlit("page.goBack()");
    reveal_strlit("page.goto");
    reveal_strlit("page.keyboard.press");
    reveal_strlit("page.keyboard.type");
    reveal_strlit("page.locator(");
    reveal_strlit("page.mouse.click");
    reveal_strlit("page.mouse.move");
    reveal_strlit("page.pdf");
    reveal_strlit("page.screenshot");
    reveal_strlit("page.setUserAgent");
    reveal_strlit("page.setViewport");
    reveal_strlit("page.title()");
    reveal_strlit("page.type");
    reveal_strlit("page.url()");
    reveal_strlit("page.waitForSelector");
    let v = "page.goBack()"@;
    lemma_prefix_differs(v, "console.log"@, 0);
    assert(v[0] != "browser.newPage()"@[0]);
    assert(v[0] != "browser.close()"@[0]);
    lemma_prefix_differs(v, "page.goto"@, 7);
    lemma_prefix_differs(v, "page.setViewport"@, 5);
    lemma_prefix_differs(v, "page.keyboard.press"@, 5);
    lemma_prefix_differs(v, "page.keyboard.type"@, 5);
    lemma_prefix_differs(v, "page.locator("@, 5);
    lemma_prefix_differs(v, "page.waitForSelector"@, 5);
    lemma_prefix_differs(v, "page.type"@, 5);
    lemma_prefix_differs(v, "page.click"@, 5);
    lemma_prefix_differs(v, "page.evaluate"@, 5);
    lemma_prefix_differs(v, "page.screenshot"@, 5);
    assert(v[5] != "page.content()"@[5]);
    assert(v[5] != "page.title()"@[5]);
    assert(v[5] != "page.url()"@[5]);
    lemma_prefix_differs(v, "page.pdf"@, 5);
    lemma_prefix_differs(v, "page.mouse.click"@, 5);
    lemma_prefix_differs(v, "page.mouse.move"@, 5);
    lemma_prefix_differs(v, "page.setUserAgent"@, 5);
}

/// `page.goForward()` parses as its command.
pub proof fn law_go_forward_reads_back(a: Option<Seq<char>>)
    ensures
        command_of("page.goForward()"@, a) == Some(Ok::<CommandModel, Seq<char>>(CommandModel::PageGoForward)),
{
    reveal_strlit("browser.close()");
    reveal_strlit("browser.newPage()");
    reveal_strlit("console.log");
    reveal_strlit("page.click");
    reveal_strlit("page.content()");
    reveal_strlit("page.evaluate");
    reveal_strlit("page.goBack()");
    reveal_strlit("page.goForward()");
    reveal_strlit("page.goto");
    reveal_strlit("page.keyboard.press");
    reveal_strlit("page.keyboard.type");
    reveal_strlit("page.locator(");
    reveal_strlit("page.mouse.click");
    reveal_strlit("page.mouse.move");
    reveal_strlit("page.pdf");
    reveal_strlit("page.screenshot");
    reveal_strlit("page.setUserAgent");
    reveal_strlit("page.setViewport");
    reveal_strlit("page.title()");
    reveal_strlit("page.type");
    reveal_strlit("page.url()");
    reveal_strlit("page.waitForSelector");
    let v = "page.goForward()"@;
    lemma_prefix_differs(v, "console.log"@, 0);
    assert(v[0] != "browser.newPage()"@[0]);
    assert(v[0] != "browser.close()"@[0]);
    lemma_prefix_differs(v, "page.goto"@, 7);
    lemma_prefix_differs(v, "page.setViewport"@, 5);
    lemma_prefix_differs(v, "page.keyboard.press"@, 5);
    lemma_prefix_differs(v, "page.keyboard.type"@, 5);
    lemma_prefix_differs(v, "page.locator("@, 5);
    lemma_prefix_differs(v, "page.waitForSelector"@, 5);
    lemma_prefix_differs(v, "page.type"@, 5);
    lemma_prefix_differs(v, "page.click"@, 5);
    lemma_prefix_differs(v, "page.evaluate"@, 5);
    lemma_prefix_differs(v, "page.screenshot"@, 5);
    assert(v[5] != "page.content()"@[5]);
    assert(v[5] != "page.title()"@[5]);
    assert(v[5] != "page.url()"@[5]);
    lemma_prefix_differs(v, "page.pdf"@, 5);
    lemma_prefix_differs(v, "page.mouse.click"@, 5);
    lemma_prefix_differs(v, "page.mouse.move"@, 5);
    lemma_prefix_differs(v, "page.setUserAgent"@, 5);
    assert(v[7] != "page.goBack()"@[7]);
}

/// `page.reload()` parses as its command.
pub proof fn law_reload_reads_back(a: Option<Seq<char>>)
    ensures
        command_of("page.reload()"@, a) == Some(Ok::<CommandModel, Seq<char>>(CommandModel::PageReload)),
{
    reveal_strlit("browser.close()");
    reveal_strlit("browser.newPage()");
    reveal_strlit("console.log");
    reveal_strlit("page.click");
    reveal_strlit("page.content()");
    reveal_strlit("page.evaluate");
    reveal_strlit("page.goBack()");
    reveal_strlit("page.goForward()");
    reveal_strlit("page.goto");
    reveal_strlit("page.keyboard.press");
    reveal_strlit("page.keyboard.type");
    reveal_strlit("page.locator(");
    reveal_strlit("page.mouse.click");
    reveal_strlit("page.mouse.move");
    reveal_strlit("page.pdf");
    reveal_strlit("page.reload()");
    reveal_strlit("page.screenshot");
    reveal_strlit("page.setUserAgent");
    reveal_strlit("page.setViewport");
    reveal_strlit("page.title()");
    reveal_strlit("page.type");
    reveal_strlit("page.url()");
    reveal_strlit("page.waitForSelector");
    let v = "page.reload()"@;
    lemma_prefix_differs(v, "console.log"@, 0);
    assert(v[0] != "browser.newPage()"@[0]);
    assert(v[0] != "browser.close()"@[0]);
    lemma_prefix_differs(v, "page.goto"@, 5);
    lemma_prefix_differs(v, "page.setViewport"@, 5);
    lemma_prefix_differs(v, "page.keyboard.press"@, 5);
    lemma_prefix_differs(v, "page.keyboard.type"@, 5);
    lemma_prefix_differs(v, "page.locator("@, 5);
    lemma_prefix_differs(v, "page.waitForSelector"@, 5);
    lemma_prefix_differs(v, "page.type"@, 5);
    lemma_prefix_differs(v, "page.click"@, 5);
    lemma_prefix_differs(v, "page.evaluate"@, 5);
    lemma_prefix_differs(v, "page.screenshot"@, 5);
    assert(v[5] != "page.content()"@[5]);
    assert(v[5] != "page.title()"@[5]);
    assert(v[5] != "page.url()"@[5]);
    lemma_prefix_differs(v, "page.pdf"@, 5);
    lemma_prefix_differs(v, "page.mouse.click"@, 5);
    lemma_prefix_differs(v, "page.mouse.move"@, 5);
    lemma_prefix_differs(v, "page.setUserAgent"@, 5);
    assert(v[5] != "page.goBack()"@[5]);
    assert(v[5] != "page.goForward()"@[5]);
}

/// `page.cookies()` parses as its command.
pub proof fn law_cookies_reads_back(a: Option<Seq<char>>)
    ensures
        command_of("page.cookies()"@, a) == Some(Ok::<CommandModel, Seq<char>>(CommandModel::PageCookies { assign_to: a })),
{
    reveal_strlit("browser.close()");
    reveal_strlit("browser.newPage()");
    reveal_strlit("console.log");
    reveal_strlit("page.click");
    reveal_strlit("page.content()");
    reveal_strlit("page.cookies()");
    reveal_strlit("page.evaluate");
    reveal_strlit("page.goBack()");
    reveal_strlit("page.goForward()");
    reveal_strlit("page.goto");
    reveal_strlit("page.keyboard.press");
    reveal_strlit("page.keyboard.type");
    reveal_strlit("page.locator(");
    reveal_strlit("page.mouse.click");
    reveal_strlit("page.mouse.move");
    reveal_strlit("page.pdf");
    reveal_strlit("page.reload()");
    reveal_strlit("page.screenshot");
    reveal_strlit("page.setCookie");
    reveal_strlit("page.setUserAgent");
    reveal_strlit("page.setViewport");
    reveal_strlit("page.title()");
    reveal_strlit("page.type");
    reveal_strlit("page.url()");
    reveal_strlit("page.waitForSelector");
    let v = "page.cookies()"@;
    lemma_prefix_differs(v, "console.log"@, 0);
    assert(v[0] != "browser.newPage()"@[0]);
    assert(v[0] != "browser.close()"@[0]);
    lemma_prefix_differs(v, "page.goto"@, 5);
    lemma_prefix_differs(v, "page.setViewport"@, 5);
    lemma_prefix_differs(v, "page.keyboard.press"@, 5);
    lemma_prefix_differs(v, "page.keyboard.type"@, 5);
    lemma_prefix_differs(v, "page.locator("@, 5);
    lemma_prefix_differs(v, "page.waitForSelector"@, 5);
    lemma_prefix_differs(v, "page.type"@, 5);
    lemma_prefix_differs(v, "page.click"@, 6);
    lemma_prefix_differs(v, "page.evaluate"@, 5);
    lemma_prefix_differs(v, "page.screenshot"@, 5);
    assert(v[7] != "page.content()"@[7]);
    assert(v[5] != "page.title()"@[5]);
    assert(v[5] != "page.url()"@[5]);
    lemma_prefix_differs(v, "page.pdf"@, 5);
    lemma_prefix_differs(v, "page.mouse.click"@, 5);
    lemma_prefix_differs(v, "page.mouse.move"@, 5);
    lemma_prefix_differs(v, "page.setUserAgent"@, 5);
    assert(v[5] != "page.goBack()"@[5]);
    assert(v[5] != "page.goForward()"@[5]);
    assert(v[5] != "page.reload()"@[5]);
    lemma_prefix_differs(v, "page.setCookie"@, 5);
}

proof fn lemma_scan_plain_then(s: Seq<char>, t: Seq<char>, i: int)
    requires
        plain(s),
        1 <= i <= s.len() + 1,
    ensures
        scan_quoted(single_quoted(s) + t, '\'', i) == Some(s.len() + 2int),
    decreases s.len() + 2 - i,
{
    let q = single_quoted(s) + t;
    if i <= s.len() {
        assert(q[i] == s[i - 1]);
        lemma_scan_plain_then(s, t, i + 1);
    } else {
        assert(q[i] == '\'');
    }
}

proof fn lemma_utf8_len_concat(a: Seq<char>, b: Seq<char>)
    ensures
        utf8_len(a + b) == utf8_len(a) + utf8_len(b),
    decreases b.len(),
{
    if b.len() == 0 {
        assert(a + b =~= a);
    } else {
        assert((a + b).drop_last() =~= a + b.drop_last());
        lemma_utf8_len_concat(a, b.drop_last());
    }
}

proof fn lemma_skip_bytes_take(x: Seq<char>, k: int)
    requires
        0 <= k <= x.len(),
    ensures
        skip_bytes(x, utf8_len(x.take(k)) as int) == Some(x.skip(k)),
    decreases k,
{
    if k == 0 {
        assert(x.take(0) =~= Seq::<char>::empty());
        assert(x.skip(0) =~= x);
    } else {
        let y = x.drop_first();
        assert(x.take(k) =~= seq![x[0]] + y.take(k - 1));
        lemma_utf8_len_concat(seq![x[0]], y.take(k - 1));
        assert(seq![x[0]].drop_last() =~= Seq::<char>::empty());
        assert(utf8_len(Seq::<char>::empty()) == 0);
        assert(seq![x[0]].last() == x[0]);
        assert(utf8_len(seq![x[0]]) == utf8_width(x[0]));
        lemma_skip_bytes_take(y, k - 1);
        assert(y.skip(k - 1) =~= x.skip(k));
    }
}

/// Where the argument of `page.locator(` starts with no whitespace, finding the locator
/// chain never panics.
pub proof fn law_locator_chain_defined(line: Seq<char>)
    requires
        after_prefix(line, "page.locator("@) matches Some(rest) && (rest.len() == 0 || !is_ws(
            rest[0],
        )),
    ensures
        locator_chain(line) is Some,
{
    let rest = after_prefix(line, "page.locator("@).unwrap();
    if let Some(end) = string_arg_end(rest) {
        let t = trimmed(rest);
        crate::arguments::lemma_scan_quoted_bounds(t, t[0], 1);
        crate::text::lemma_trimmed_shapes(rest);
        lemma_trimmed_end_is_prefix(rest);
        if end >= 2 {
            lemma_trimmed_prefix(rest, end);
            lemma_skip_bytes_take(rest, end);
        }
    }
}

/// Trimming a text with no leading whitespace keeps its start.
proof fn lemma_trimmed_prefix(rest: Seq<char>, end: int)
    requires
        rest.len() == 0 || !is_ws(rest[0]),
        0 <= end <= trimmed(rest).len(),
    ensures
        trimmed(rest).take(end) == rest.take(end),
{
    crate::text::lemma_trimmed_shapes(rest);
    lemma_trimmed_end_is_prefix(rest);
    assert(trimmed(rest).take(end) =~= rest.take(end));
}

proof fn lemma_trimmed_end_is_prefix(s: Seq<char>)
    ensures
        trimmed_end(s).len() <= s.len(),
        trimmed_end(s) == s.take(trimmed_end(s).len() as int),
    decreases s.len(),
{
    if s.len() > 0 && is_ws(s.last()) {
        lemma_trimmed_end_is_prefix(s.drop_last());
        assert(s.drop_last().take(trimmed_end(s).len() as int) =~= s.take(
            trimmed_end(s).len() as int,
        ));
    } else {
        assert(s.take(s.len() as int) =~= s);
    }
}

/// `page.locator('selector')` followed by a chain splits into the selector and the chain.
proof fn lemma_locator_chain_of(sel: Seq<char>, chain: Seq<char>)
    requires
        plain(sel),
        chain.len() > 0,
        !is_ws(chain[0]),
        !is_ws(chain.last()),
    ensures
        locator_chain("page.locator("@ + single_quoted(sel) + ")"@ + chain) == Some(
            Some((sel, chain)),
        ),
{
    reveal_strlit("page.locator(");
    reveal_strlit(")");
    let line = "page.locator("@ + single_quoted(sel) + ")"@ + chain;
    let rest = single_quoted(sel) + (")"@ + chain);
    assert(line.subrange(0, 13) =~= "page.locator("@);
    assert(line.skip(13) =~= rest);
    assert(rest[0] == '\'');
    assert(rest.last() == chain.last());
    assert(trimmed(rest) == rest);
    lemma_scan_plain_then(sel, ")"@ + chain, 1);
    let end = sel.len() + 2int;
    assert(string_arg_end(rest) == Some(end));
    assert(rest.subrange(1, end - 1) =~= sel);
    lemma_skip_bytes_take(rest, end);
    let after = rest.skip(end);
    assert(after =~= ")"@ + chain);
    assert(trimmed_start(after) == after);
    assert(after.subrange(0, 1) =~= ")"@);
    assert(after.skip(1) =~= chain);
    assert(trimmed_start(chain) == chain);
}

/// `page.locator('selector').fill('text')` with plain selector and text parses back to
/// them.
pub proof fn law_locator_fill_reads_back(sel: Seq<char>, text: Seq<char>, a: Option<Seq<char>>)
    requires
        plain(sel),
        plain(text),
    ensures
        command_of(
            "page.locator("@ + single_quoted(sel) + ")"@ + (".fill"@ + "("@ + single_quoted(text) + ")"@),
            a,
        ) == Some(Ok::<CommandModel, Seq<char>>(CommandModel::PageLocatorFill { selector: sel, text })),
{
    reveal_strlit("console.log");
    reveal_strlit("browser.newPage()");
    reveal_strlit("browser.close()");
    reveal_strlit("page.goto");
    reveal_strlit("page.setViewport");
    reveal_strlit("page.keyboard.press");
    reveal_strlit("page.keyboard.type");
    reveal_strlit("page.locator(");
    reveal_strlit(".fill");
    reveal_strlit("(");
    reveal_strlit(")");
    let chain = ".fill"@ + "("@ + single_quoted(text) + ")"@;
    let v = "page.locator("@ + single_quoted(sel) + ")"@ + chain;
    assert(v[0] == 'p');
    assert(v[5] == 'l');
    lemma_prefix_differs(v, "console.log"@, 0);
    assert(v[0] != "browser.newPage()"@[0]);
    assert(v[0] != "browser.close()"@[0]);
    lemma_prefix_differs(v, "page.goto"@, 5);
    lemma_prefix_differs(v, "page.setViewport"@, 5);
    lemma_prefix_differs(v, "page.keyboard.press"@, 5);
    lemma_prefix_differs(v, "page.keyboard.type"@, 5);
    assert(chain[0] == '.');
    assert(chain.last() == ')');
    lemma_locator_chain_of(sel, chain);
    lemma_call_args_of(".fill"@, single_quoted(text));
    law_quoted_text_reads_back(text);
}

/// `page.locator('selector').click()` with a plain selector parses back to it.
pub proof fn law_locator_click_reads_back(sel: Seq<char>, a: Option<Seq<char>>)
    requires
        plain(sel),
    ensures
        command_of("page.locator("@ + single_quoted(sel) + ")"@ + ".click()"@, a) == Some(
            Ok::<CommandModel, Seq<char>>(CommandModel::PageLocatorClick { selector: sel }),
        ),
{
    reveal_strlit("console.log");
    reveal_strlit("browser.newPage()");
    reveal_strlit("browser.close()");
    reveal_strlit("page.goto");
    reveal_strlit("page.setViewport");
    reveal_strlit("page.keyboard.press");
    reveal_strlit("page.keyboard.type");
    reveal_strlit("page.locator(");
    reveal_strlit(".fill");
    reveal_strlit(".click()");
    reveal_strlit(")");
    let chain = ".click()"@;
    let v = "page.locator("@ + single_quoted(sel) + ")"@ + chain;
    assert(v[0] == 'p');
    assert(v[5] == 'l');
    lemma_prefix_differs(v, "console.log"@, 0);
    assert(v[0] != "browser.newPage()"@[0]);
    assert(v[0] != "browser.close()"@[0]);
    lemma_prefix_differs(v, "page.goto"@, 5);
    lemma_prefix_differs(v, "page.setViewport"@, 5);
    lemma_prefix_differs(v, "page.keyboard.press"@, 5);
    lemma_prefix_differs(v, "page.keyboard.type"@, 5);
    lemma_locator_chain_of(sel, chain);
    lemma_prefix_differs(chain, ".fill"@, 1);
}

/// `page.locator('selector').waitHandle()` with a plain selector parses back to it, with the
/// variable that it is assigned to.
pub proof fn law_locator_wait_handle_reads_back(sel: Seq<char>, a: Option<Seq<char>>)
    requires
        plain(sel),
    ensures
        command_of("page.locator("@ + single_quoted(sel) + ")"@ + ".waitHandle()"@, a) == Some(
            Ok::<CommandModel, Seq<char>>(
                CommandModel::PageLocatorWaitHandle { selector: sel, assign_to: a },
            ),
        ),
{
    reveal_strlit("console.log");
    reveal_strlit("browser.newPage()");
    reveal_strlit("browser.close()");
    reveal_strlit("page.goto");
    reveal_strlit("page.setViewport");
    reveal_strlit("page.keyboard.press");
    reveal_strlit("page.keyboard.type");
    reveal_strlit("page.locator(");
    reveal_strlit(".fill");
    reveal_strlit(".click()");
    reveal_strlit(".waitHandle()");
    reveal_strlit(")");
    let chain = ".waitHandle()"@;
    let v = "page.locator("@ + single_quoted(sel) + ")"@ + chain;
    assert(v[0] == 'p');
    assert(v[5] == 'l');
    lemma_prefix_differs(v, "console.log"@, 0);
    assert(v[0] != "browser.newPage()"@[0]);
    assert(v[0] != "browser.close()"@[0]);
    lemma_prefix_differs(v, "page.goto"@, 5);
    lemma_prefix_differs(v, "page.setViewport"@, 5);
    lemma_prefix_differs(v, "page.keyboard.press"@, 5);
    lemma_prefix_differs(v, "page.keyboard.type"@, 5);
    lemma_locator_chain_of(sel, chain);
    lemma_prefix_differs(chain, ".fill"@, 1);
    assert(chain[1] != ".click()"@[1]);
}

/// Once `await page.goto('url');` is written with a plain URL, the line parses back to
/// the navigation to that URL.
pub proof fn law_goto_line_reads_back(url: Seq<char>)
    requires
        plain(url),
    ensures
        parsed_line("await "@ + ("page.goto"@ + "("@ + single_quoted(url) + ")"@) + ";"@) == Some(
            Ok::<CommandModel, Seq<char>>(CommandModel::PageGoto { url }),
        ),
{
    reveal_strlit("page.goto");
    reveal_strlit("(");
    reveal_strlit(")");
    reveal_strlit("//");
    reveal_strlit("#");
    reveal_strlit("const ");
    reveal_strlit("let ");
    reveal_strlit("var ");
    reveal_strlit("await ");
    let v = "page.goto"@ + "("@ + single_quoted(url) + ")"@;
    assert(v[0] == 'p');
    assert(v.last() == ')');
    lemma_prefix_differs(v, "//"@, 0);
    lemma_prefix_differs(v, "#"@, 0);
    lemma_prefix_differs(v, "const "@, 0);
    lemma_prefix_differs(v, "let "@, 0);
    lemma_prefix_differs(v, "var "@, 0);
    lemma_prefix_differs(v, "await "@, 0);
    law_await_and_semicolon(v);
    law_goto_reads_back(url, None);
}

/// `const name = await browser.newPage();` opens a page assigned to the name.
pub proof fn law_new_page_declaration(n: Seq<char>)
    requires
        trimmed(n) == n,
        forall|i: int| 0 <= i < n.len() ==> n[i] != '=',
    ensures
        parsed_line("const "@ + n + " = await "@ + "browser.newPage()"@ + ";"@) == Some(
            Ok::<CommandModel, Seq<char>>(CommandModel::BrowserNewPage { assign_to: Some(n) }),
        ),
{
    reveal_strlit("browser.newPage()");
    reveal_strlit("//");
    reveal_strlit("#");
    reveal_strlit("const ");
    reveal_strlit("let ");
    reveal_strlit("var ");
    reveal_strlit("await ");
    let v = "browser.newPage()"@;
    lemma_prefix_differs(v, "//"@, 0);
    lemma_prefix_differs(v, "#"@, 0);
    lemma_prefix_differs(v, "const "@, 0);
    lemma_prefix_differs(v, "let "@, 0);
    lemma_prefix_differs(v, "var "@, 0);
    lemma_prefix_differs(v, "await "@, 0);
    law_declaration_assigns(n, v);
    law_new_page_reads_back(Some(n));
}

proof fn lemma_digit_char(d: int)
    requires
        0 <= d < 10,
    ensures
        is_digit(digit_char(d)),
        digit_value(digit_char(d)) == d,
{
}

proof fn lemma_scan_push(s: Seq<char>, c: char, acc: int)
    requires
        0 <= acc <= u32::MAX,
    ensures
        scan_u32(s.push(c), acc) == (match scan_u32(s, acc) {
            Err(e) => Err(e),
            Ok(v) => if !is_digit(c) {
                Err(IntError::InvalidDigit)
            } else if v * 10 + digit_value(c) > u32::MAX {
                Err(IntError::PosOverflow)
            } else {
                Ok((v * 10 + digit_value(c)) as u32)
            },
        }),
    decreases s.len(),
{
    if s.len() == 0 {
        assert(s.push(c) =~= seq![c]);
        assert(seq![c].drop_first() =~= Seq::<char>::empty());
        assert(scan_u32(s, acc) == Ok::<u32, IntError>(acc as u32));
        assert((acc as u32) as int == acc);
        assert(seq![c][0] == c);
        if is_digit(c) && acc * 10 + digit_value(c) <= u32::MAX {
            assert(scan_u32(seq![c], acc) == scan_u32(Seq::<char>::empty(), acc * 10 + digit_value(c)));
        }
    } else {
        assert(s.push(c)[0] == s[0]);
        assert(s.push(c).drop_first() =~= s.drop_first().push(c));
        if is_digit(s[0]) && acc * 10 + digit_value(s[0]) <= u32::MAX {
            let a2 = acc * 10 + digit_value(s[0]);
            lemma_scan_push(s.drop_first(), c, a2);
            assert(scan_u32(s, acc) == scan_u32(s.drop_first(), a2));
            assert(scan_u32(s.push(c), acc) == scan_u32(s.drop_first().push(c), a2));
        } else if !is_digit(s[0]) {
            assert(scan_u32(s, acc) == Err::<u32, IntError>(IntError::InvalidDigit));
            assert(scan_u32(s.push(c), acc) == Err::<u32, IntError>(IntError::InvalidDigit));
        } else {
            assert(scan_u32(s, acc) == Err::<u32, IntError>(IntError::PosOverflow));
            assert(scan_u32(s.push(c), acc) == Err::<u32, IntError>(IntError::PosOverflow));
        }
    }
}

proof fn lemma_scan_decimal(n: nat)
    requires
        n <= u32::MAX,
    ensures
        scan_u32(decimal(n), 0) == Ok::<u32, IntError>(n as u32),
        decimal(n).len() >= 1,
        is_digit(decimal(n)[0]),
    decreases n,
{
    if n < 10 {
        lemma_digit_char(n as int);
        let d = seq![digit_char(n as int)];
        assert(d.drop_first() =~= Seq::<char>::empty());
        assert(d[0] == digit_char(n as int));
        assert(scan_u32(d.drop_first(), n as int) == Ok::<u32, IntError>(n as u32));
    } else {
        let q = n / 10;
        let r = n % 10;
        assert(q * 10 + r == n && 0 <= r < 10 && q < n) by (nonlinear_arith)
            requires
                n >= 10,
                q == n / 10,
                r == n % 10,
        ;
        lemma_scan_decimal(q);
        lemma_digit_char(r as int);
        lemma_scan_push(decimal(q), digit_char(r as int), 0);
        assert(decimal(n) == decimal(q).push(digit_char(r as int)));
        assert(decimal(n)[0] == decimal(q)[0]);
    }
}

/// The decimal digits of a `u32` read back as that number.
pub proof fn law_decimal_reads_back(n: u32)
    ensures
        decimal_u32(decimal(n as nat)) == Ok::<u32, IntError>(n),
{
    lemma_scan_decimal(n as nat);
}

proof fn lemma_find_from_none(s: Seq<char>, p: Seq<char>, i: int)
    requires
        0 <= i,
        forall|j: int| i <= j ==> !occurs_at(s, p, j),
    ensures
        find_from(s, p, i) is None,
    decreases s.len() + 1 - i,
{
    if i + p.len() <= s.len() {
        lemma_find_from_none(s, p, i + 1);
    }
}

proof fn lemma_decimal_digits(n: nat)
    ensures
        decimal(n).len() >= 1,
        forall|i: int| 0 <= i < decimal(n).len() ==> #[trigger] is_digit(decimal(n)[i]),
    decreases n,
{
    if n < 10 {
        lemma_digit_char(n as int);
    } else {
        assert(n / 10 < n && 0 <= n % 10 < 10) by (nonlinear_arith)
            requires
                n >= 10,
        ;
        lemma_decimal_digits(n / 10);
        lemma_digit_char((n % 10) as int);
        assert forall|i: int| 0 <= i < decimal(n).len() implies #[trigger] is_digit(decimal(n)[i]) by {
            if i < decimal(n / 10).len() {
                assert(decimal(n)[i] == decimal(n / 10)[i]);
            }
        }
    }
}

/// A text of digits has no comma.
proof fn lemma_no_comma_in(t: Seq<char>, k: int)
    requires
        0 <= k <= t.len(),
        forall|i: int| k <= i < t.len() ==> t[i] != ',',
    ensures
        first_index(t.skip(k), seq![',']) is None,
{
    let u = t.skip(k);
    assert forall|j: int| 0 <= j implies !occurs_at(u, seq![','], j) by {
        if occurs_at(u, seq![','], j) {
            assert(u.subrange(j, j + 1)[0] == u[j]);
            assert(u[j] == t[k + j]);
        }
    }
    lemma_find_from_none(u, seq![','], 0);
}

/// `label` followed by a space and the digits `d` reads back as the number of the digits.
proof fn lemma_digits_after_space(d: Seq<char>)
    requires
        d.len() >= 1,
        forall|i: int| 0 <= i < d.len() ==> #[trigger] is_digit(d[i]),
    ensures
        trimmed(seq![' '] + d) == d,
{
    let m = seq![' '] + d;
    assert(is_digit(d[0]));
    assert(is_digit(d.last()));
    assert(trimmed(d) == d);
    assert(m[0] == ' ');
    assert(m.drop_first() =~= d);
    assert(trimmed_start(m) == trimmed_start(d));
}

proof fn lemma_width_field(dw: Seq<char>, w: u32)
    requires
        dw == decimal(w as nat),
    ensures
        viewport_field("width: "@ + dw, (None, None)) == Ok::<(Option<u32>, Option<u32>), Seq<char>>(
            (Some(w), None),
        ),
{
    reveal_strlit("width: ");
    reveal_strlit("width:");
    lemma_decimal_digits(w as nat);
    let first = "width: "@ + dw;
    assert(first[0] == 'w');
    assert(is_digit(first.last()));
    assert(trimmed(first) == first);
    assert(first.subrange(0, 6) =~= "width:"@);
    assert(first.skip(6) =~= seq![' '] + dw);
    lemma_digits_after_space(dw);
    law_decimal_reads_back(w);
}

proof fn lemma_height_field(dh: Seq<char>, h: u32, st: (Option<u32>, Option<u32>))
    requires
        dh == decimal(h as nat),
    ensures
        viewport_fields(" height: "@ + dh, st) == Ok::<(Option<u32>, Option<u32>), Seq<char>>(
            (st.0, Some(h)),
        ),
{
    reveal_strlit(" height: ");
    reveal_strlit("height: ");
    reveal_strlit("width:");
    reveal_strlit("width :");
    reveal_strlit("height:");
    lemma_decimal_digits(h as nat);
    let second = " height: "@ + dh;
    assert forall|k: int| 0 <= k < second.len() implies second[k] != ',' by {
        if k >= 9 {
            assert(second[k] == dh[k - 9]);
            assert(is_digit(dh[k - 9]));
        }
    }
    lemma_no_comma_in(second, 0);
    assert(second.skip(0) =~= second);
    let t2 = "height: "@ + dh;
    assert(second[0] == ' ');
    assert(second.drop_first() =~= t2);
    assert(t2[0] == 'h');
    assert(is_digit(t2.last()));
    assert(trimmed(t2) == t2);
    assert(trimmed_start(second) == trimmed_start(t2));
    assert(trimmed(second) == t2);
    lemma_prefix_differs(t2, "width:"@, 0);
    lemma_prefix_differs(t2, "width :"@, 0);
    assert(t2.subrange(0, 7) =~= "height:"@);
    assert(t2.skip(7) =~= seq![' '] + dh);
    lemma_digits_after_space(dh);
    law_decimal_reads_back(h);
}

proof fn lemma_viewport_fields_of(w: u32, h: u32)
    ensures
        viewport_fields(
            "width: "@ + decimal(w as nat) + ","@ + " height: "@ + decimal(h as nat),
            (None, None),
        ) == Ok::<(Option<u32>, Option<u32>), Seq<char>>((Some(w), Some(h))),
{
    reveal_strlit("width: ");
    reveal_strlit(",");
    reveal_strlit(" height: ");
    let dw = decimal(w as nat);
    let dh = decimal(h as nat);
    lemma_decimal_digits(w as nat);
    let inner = "width: "@ + dw + ","@ + " height: "@ + dh;
    let i: int = 7 + dw.len() as int;
    assert(inner[i] == ',');
    assert(occurs_at(inner, seq![','], i)) by {
        assert(inner.subrange(i, i + 1) =~= seq![',']);
    }
    assert forall|j: int| 0 <= j < i implies !occurs_at(inner, seq![','], j) by {
        if j >= 7 {
            assert(inner[j] == dw[j - 7]);
            assert(is_digit(dw[j - 7]));
        }
        if occurs_at(inner, seq![','], j) {
            assert(inner.subrange(j, j + 1)[0] == inner[j]);
        }
    }
    lemma_find_from_is(inner, seq![','], 0, i);
    assert(inner.take(i) =~= "width: "@ + dw);
    assert(inner.skip(i + 1) =~= " height: "@ + dh);
    lemma_width_field(dw, w);
    lemma_height_field(dh, h, (Some(w), None));
}

/// The object `{width: W, height: H}` reads back as that size.
pub proof fn law_viewport_object_reads_back(w: u32, h: u32)
    ensures
        viewport_args("{width: "@ + decimal(w as nat) + ", height: "@ + decimal(h as nat) + "}"@)
            == Ok::<(u32, u32), Seq<char>>((w, h)),
{
    reveal_strlit("{width: ");
    reveal_strlit("width: ");
    reveal_strlit(", height: ");
    reveal_strlit(" height: ");
    reveal_strlit(",");
    reveal_strlit("}");
    reveal_strlit("{");
    let dw = decimal(w as nat);
    let dh = decimal(h as nat);
    let args = "{width: "@ + dw + ", height: "@ + dh + "}"@;
    assert(args[0] == '{');
    assert(args.last() == '}');
    assert(trimmed(args) == args);
    let inner = "width: "@ + dw + ","@ + " height: "@ + dh;
    assert(args.subrange(0, 1) =~= "{"@);
    assert(args.skip(1) =~= inner + "}"@);
    assert((inner + "}"@).subrange(inner.len() as int, inner.len() as int + 1) =~= "}"@);
    assert((inner + "}"@).take(inner.len() as int) =~= inner);
    lemma_viewport_fields_of(w, h);
}

/// `page.setViewport({width: W, height: H})` parses back to that size.
pub proof fn law_viewport_reads_back(w: u32, h: u32, a: Option<Seq<char>>)
    ensures
        command_of(
            "page.setViewport"@ + "("@ + ("{width: "@ + decimal(w as nat) + ", height: "@ + decimal(
                h as nat,
            ) + "}"@) + ")"@,
            a,
        ) == Some(Ok::<CommandModel, Seq<char>>(CommandModel::PageSetViewport { width: w, height: h })),
{
    reveal_strlit("console.log");
    reveal_strlit("browser.newPage()");
    reveal_strlit("browser.close()");
    reveal_strlit("page.goto");
    reveal_strlit("page.setViewport");
    let args = "{width: "@ + decimal(w as nat) + ", height: "@ + decimal(h as nat) + "}"@;
    let v = "page.setViewport"@ + "("@ + args + ")"@;
    assert(v[0] == 'p');
    lemma_prefix_differs(v, "console.log"@, 0);
    assert(v[0] != "browser.newPage()"@[0]);
    assert(v[0] != "browser.close()"@[0]);
    lemma_prefix_differs(v, "page.goto"@, 5);
    lemma_call_args_of("page.setViewport"@, args);
    law_viewport_object_reads_back(w, h);
}

/// Two plain quoted texts separated by a comma read back as the pair of texts.
pub proof fn law_two_quoted_texts_read_back(s1: Seq<char>, s2: Seq<char>)
    requires
        plain(s1),
        plain(s2),
    ensures
        two_string_args(single_quoted(s1) + ", "@ + single_quoted(s2)) == Ok::<
            (Seq<char>, Seq<char>),
            Seq<char>,
        >((s1, s2)),
{
    reveal_strlit(", ");
    reveal_strlit(",");
    let q2 = single_quoted(s2);
    let a = single_quoted(s1) + (", "@ + q2);
    assert(single_quoted(s1) + ", "@ + q2 =~= a);
    assert(a[0] == '\'');
    assert(a.last() == '\'');
    assert(trimmed(a) == a);
    lemma_scan_plain_then(s1, ", "@ + q2, 1);
    let end = s1.len() + 2int;
    assert(string_arg_end(a) == Some(end));
    assert(a.subrange(1, end - 1) =~= s1);
    assert(string_arg(a) == Ok::<Seq<char>, Seq<char>>(s1));
    let after = a.skip(end);
    assert(after =~= ", "@ + q2);
    assert(after[0] == ',');
    assert(after.last() == '\'');
    assert(trimmed(after) == after);
    assert(after.subrange(0, 1) =~= ","@);
    let rest = after.skip(1);
    assert(rest =~= seq![' '] + q2);
    assert(rest.drop_first() =~= q2);
    assert(q2[0] == '\'');
    assert(q2.last() == '\'');
    assert(trimmed(q2) == q2);
    assert(trimmed_start(rest) == trimmed_start(q2));
    assert(trimmed(rest) == q2);
    law_quoted_text_reads_back(s2);
}

/// `page.type('selector', 'text')` with plain selector and text parses back to them.
pub proof fn law_type_reads_back(s1: Seq<char>, s2: Seq<char>, a: Option<Seq<char>>)
    requires
        plain(s1),
        plain(s2),
    ensures
        command_of(
            "page.type"@ + "("@ + (single_quoted(s1) + ", "@ + single_quoted(s2)) + ")"@,
            a,
        ) == Some(Ok::<CommandModel, Seq<char>>(CommandModel::PageType { selector: s1, text: s2 })),
{
    reveal_strlit("console.log");
    reveal_strlit("browser.newPage()");
    reveal_strlit("browser.close()");
    reveal_strlit("page.goto");
    reveal_strlit("page.setViewport");
    reveal_strlit("page.keyboard.press");
    reveal_strlit("page.keyboard.type");
    reveal_strlit("page.locator(");
    reveal_strlit("page.waitForSelector");
    reveal_strlit("page.type");
    let args = single_quoted(s1) + ", "@ + single_quoted(s2);
    let v = "page.type"@ + "("@ + args + ")"@;
    assert(v[0] == 'p');
    assert(v[5] == 't');
    lemma_prefix_differs(v, "console.log"@, 0);
    assert(v[0] != "browser.newPage()"@[0]);
    assert(v[0] != "browser.close()"@[0]);
    lemma_prefix_differs(v, "page.goto"@, 5);
    lemma_prefix_differs(v, "page.setViewport"@, 5);
    lemma_prefix_differs(v, "page.keyboard.press"@, 5);
    lemma_prefix_differs(v, "page.keyboard.type"@, 5);
    lemma_prefix_differs(v, "page.locator("@, 5);
    lemma_prefix_differs(v, "page.waitForSelector"@, 5);
    lemma_call_args_of("page.type"@, args);
    law_two_quoted_texts_read_back(s1, s2);
}

/// An empty line and a comment line (`//` or `#`) parse as no command.
pub proof fn law_blank_and_comment_lines(line: Seq<char>)
    requires
        crate::cli::skipped(line),
    ensures
        parsed_line(line) == Some(Ok::<CommandModel, Seq<char>>(CommandModel::Noop)),
{
}

/// A text between two copies of the same quote loses exactly those quotes.
pub proof fn law_unquote_removes_quotes(s: Seq<char>, q: char)
    requires
        is_quote(q),
    ensures
        unquoted(seq![q] + s + seq![q]) == s,
{
    let t = seq![q] + s + seq![q];
    assert(t[0] == q);
    assert(t.last() == q);
    assert(trimmed(t) == t);
    assert(t.subrange(1, t.len() - 1) =~= s);
}

/// An arrow function `param => body` with an expression body becomes
/// `function(param) { return body; }`.
pub proof fn law_arrow_function_form(param: Seq<char>, body: Seq<char>)
    requires
        param.len() > 0,
        body.len() > 0,
        trimmed(param) == param,
        trimmed(body) == body,
        first_index(param, "=>"@) is None,
        !has_prefix(param, "function"@),
        !has_prefix(body, "{"@),
        param[0] != '(',
        param.last() != '=',
    ensures
        function_form(param + " => "@ + body) == "function("@ + param + ") { return "@ + body
            + "; }"@,
{
    reveal_strlit(" => ");
    reveal_strlit("=>");
    reveal_strlit("(");
    let a = param + " => "@ + body;
    crate::text::lemma_trimmed_shapes(param);
    crate::text::lemma_trimmed_shapes(body);
    assert(a[0] == param[0]);
    assert(a.last() == body.last());
    assert(trimmed(a) == a);
    if has_prefix(a, "function"@) {
        reveal_strlit("function");
        assert(param.len() >= 8) by {
            if param.len() < 8 {
                assert(a[param.len() as int] == ' ');
                assert("function"@[param.len() as int] != ' ');
                assert(a.subrange(0, 8)[param.len() as int] == a[param.len() as int]);
            }
        }
        assert(param.subrange(0, 8) =~= a.subrange(0, 8));
        assert(false);
    }
    let k: int = param.len() as int + 1;
    assert(occurs_at(a, "=>"@, k)) by {
        assert(a.subrange(k, k + 2) =~= "=>"@);
    }
    crate::text::lemma_find_from_bounds(param, "=>"@, 0);
    assert forall|j: int| 0 <= j < k implies !occurs_at(a, "=>"@, j) by {
        if occurs_at(a, "=>"@, j) {
            assert(a.subrange(j, j + 2)[0] == a[j]);
            assert(a.subrange(j, j + 2)[1] == a[j + 1]);
            assert("=>"@[0] == '=');
            if j + 1 < param.len() {
                assert(param.subrange(j, j + 2) =~= a.subrange(j, j + 2));
                assert(occurs_at(param, "=>"@, j));
            } else if j + 1 == param.len() {
                assert(a[j] == param.last());
            } else {
                assert(a[j] == ' ');
            }
        }
    }
    lemma_find_from_is(a, "=>"@, 0, k);
    assert(a.take(k) =~= param + seq![' ']);
    lemma_trimmed_trailing_space(param);
    assert(a.skip(k + 2) =~= seq![' '] + body);
    assert((seq![' '] + body).drop_first() =~= body);
    assert(trimmed_start(seq![' '] + body) == trimmed_start(body));
    assert(trimmed(seq![' '] + body) == body);
    lemma_prefix_differs(param, "("@, 0);
}

/// A plain text that holds no comma either.
pub open spec fn plain_path(s: Seq<char>) -> bool {
    plain(s) && forall|i: int| 0 <= i < s.len() ==> s[i] != ','
}

/// The options object `{path: 'file'}` names the file, for a plain file name with no comma.
pub proof fn law_path_option_reads_back(s: Seq<char>)
    requires
        plain_path(s),
    ensures
        path_option("{path: "@ + single_quoted(s) + "}"@) == Some(s),
{
    reveal_strlit("{path: ");
    reveal_strlit("path: ");
    reveal_strlit("path:");
    reveal_strlit("{");
    reveal_strlit("}");
    let q = single_quoted(s);
    let args = "{path: "@ + q + "}"@;
    assert(args[0] == '{');
    assert(args.last() == '}');
    assert(trimmed(args) == args);
    let inner = "path: "@ + q;
    assert(args =~= "{"@ + inner + "}"@);
    assert(args.subrange(0, 1) =~= "{"@);
    assert(args.skip(1) =~= inner + "}"@);
    assert((inner + "}"@).subrange(inner.len() as int, inner.len() as int + 1) =~= "}"@);
    assert((inner + "}"@).take(inner.len() as int) =~= inner);
    assert forall|i: int| 0 <= i < inner.len() implies inner[i] != ',' by {
        if i >= 6 {
            assert(inner[i] == q[i - 6]);
            if 1 <= i - 6 < q.len() - 1 {
                assert(q[i - 6] == s[i - 7]);
            }
        }
    }
    lemma_no_comma_in(inner, 0);
    assert(inner.skip(0) =~= inner);
    assert(inner[0] == 'p');
    assert(inner.last() == '\'');
    assert(trimmed(inner) == inner);
    assert(inner.subrange(0, 5) =~= "path:"@);
    let v = inner.skip(5);
    assert(v =~= seq![' '] + q);
    assert(v.drop_first() =~= q);
    assert(q[0] == '\'');
    assert(q.last() == '\'');
    assert(trimmed(q) == q);
    assert(trimmed_start(v) == trimmed_start(q));
    assert(trimmed(v) == q);
    law_quoted_text_reads_back(s);
}

/// `page.screenshot({path: 'file'})` with a plain file name with no comma parses back to
/// that file.
pub proof fn law_screenshot_reads_back(s: Seq<char>, a: Option<Seq<char>>)
    requires
        plain_path(s),
    ensures
        command_of("page.screenshot"@ + "("@ + ("{path: "@ + single_quoted(s) + "}"@) + ")"@, a)
            == Some(Ok::<CommandModel, Seq<char>>(CommandModel::PageScreenshot { path: Some(s) })),
{
    reveal_strlit("browser.close()");
    reveal_strlit("browser.newPage()");
    reveal_strlit("console.log");
    reveal_strlit("page.click");
    reveal_strlit("page.evaluate");
    reveal_strlit("page.goto");
    reveal_strlit("page.keyboard.press");
    reveal_strlit("page.keyboard.type");
    reveal_strlit("page.locator(");
    reveal_strlit("page.screenshot");
    reveal_strlit("page.setViewport");
    reveal_strlit("page.type");
    reveal_strlit("page.waitForSelector");
    let args = "{path: "@ + single_quoted(s) + "}"@;
    let v = "page.screenshot"@ + "("@ + args + ")"@;
    assert(v[0] == 'p');
    lemma_prefix_differs(v, "console.log"@, 0);
    assert(v[0] != "browser.newPage()"@[0]);
    assert(v[0] != "browser.close()"@[0]);
    lemma_prefix_differs(v, "page.goto"@, 5);
    lemma_prefix_differs(v, "page.setViewport"@, 6);
    lemma_prefix_differs(v, "page.keyboard.press"@, 5);
    lemma_prefix_differs(v, "page.keyboard.type"@, 5);
    lemma_prefix_differs(v, "page.locator("@, 5);
    lemma_prefix_differs(v, "page.waitForSelector"@, 5);
    lemma_prefix_differs(v, "page.type"@, 5);
    lemma_prefix_differs(v, "page.click"@, 5);
    lemma_prefix_differs(v, "page.evaluate"@, 5);
    lemma_call_args_of("page.screenshot"@, args);
    law_path_option_reads_back(s);
}

/// `page.pdf({path: 'file'})` with a plain file name with no comma parses back to that
/// file.
pub proof fn law_pdf_reads_back(s: Seq<char>, a: Option<Seq<char>>)
    requires
        plain_path(s),
    ensures
        command_of("page.pdf"@ + "("@ + ("{path: "@ + single_quoted(s) + "}"@) + ")"@, a)
            == Some(Ok::<CommandModel, Seq<char>>(CommandModel::PagePdf { path: Some(s) })),
{
    reveal_strlit("browser.close()");
    reveal_strlit("browser.newPage()");
    reveal_strlit("console.log");
    reveal_strlit("page.click");
    reveal_strlit("page.content()");
    reveal_strlit("page.evaluate");
    reveal_strlit("page.goto");
    reveal_strlit("page.keyboard.press");
    reveal_strlit("page.keyboard.type");
    reveal_strlit("page.locator(");
    reveal_strlit("page.pdf");
    reveal_strlit("page.screenshot");
    reveal_strlit("page.setViewport");
    reveal_strlit("page.title()");
    reveal_strlit("page.type");
    reveal_strlit("page.url()");
    reveal_strlit("page.waitForSelector");
    let args = "{path: "@ + single_quoted(s) + "}"@;
    let v = "page.pdf"@ + "("@ + args + ")"@;
    assert(v[0] == 'p');
    assert(v[5] == 'p');
    lemma_prefix_differs(v, "console.log"@, 0);
    assert(v[0] != "browser.newPage()"@[0]);
    assert(v[0] != "browser.close()"@[0]);
    lemma_prefix_differs(v, "page.goto"@, 5);
    lemma_prefix_differs(v, "page.setViewport"@, 5);
    lemma_prefix_differs(v, "page.keyboard.press"@, 5);
    lemma_prefix_differs(v, "page.keyboard.type"@, 5);
    lemma_prefix_differs(v, "page.locator("@, 5);
    lemma_prefix_differs(v, "page.waitForSelector"@, 5);
    lemma_prefix_differs(v, "page.type"@, 5);
    lemma_prefix_differs(v, "page.click"@, 5);
    lemma_prefix_differs(v, "page.evaluate"@, 5);
    lemma_prefix_differs(v, "page.screenshot"@, 5);
    assert(v[5] != "page.content()"@[5]);
    assert(v[5] != "page.title()"@[5]);
    assert(v[5] != "page.url()"@[5]);
    lemma_call_args_of("page.pdf"@, args);
    law_path_option_reads_back(s);
}

/// Trimming the start of a text brings in no character that the text lacks.
proof fn lemma_trimmed_start_lacks(x: Seq<char>, c: char)
    requires
        forall|i: int| 0 <= i < x.len() ==> x[i] != c,
    ensures
        forall|i: int| 0 <= i < trimmed_start(x).len() ==> trimmed_start(x)[i] != c,
    decreases x.len(),
{
    if x.len() > 0 && is_ws(x[0]) {
        let y = x.drop_first();
        assert forall|i: int| 0 <= i < y.len() implies y[i] != c by {
            assert(y[i] == x[i + 1]);
        }
        lemma_trimmed_start_lacks(y, c);
        assert(trimmed_start(x) == trimmed_start(y));
    } else {
        assert(trimmed_start(x) == x);
    }
}

/// Trimming the end of a text brings in no character that the text lacks.
proof fn lemma_trimmed_end_lacks(x: Seq<char>, c: char)
    requires
        forall|i: int| 0 <= i < x.len() ==> x[i] != c,
    ensures
        forall|i: int| 0 <= i < trimmed_end(x).len() ==> trimmed_end(x)[i] != c,
    decreases x.len(),
{
    if x.len() > 0 && is_ws(x.last()) {
        let y = x.drop_last();
        assert forall|i: int| 0 <= i < y.len() implies y[i] != c by {
            assert(y[i] == x[i]);
        }
        lemma_trimmed_end_lacks(y, c);
        assert(trimmed_end(x) == trimmed_end(y));
    } else {
        assert(trimmed_end(x) == x);
    }
}

/// A text in which `;` does not occur from `k` on holds no `;` there.
proof fn lemma_no_semicolon(s: Seq<char>, k: int, m: int)
    requires
        0 <= k <= m <= s.len(),
        forall|j: int| k <= j < m ==> !occurs_at(s, seq![';'], j),
    ensures
        forall|j: int| k <= j < m ==> s[j] != ';',
{
    assert forall|j: int| k <= j < m implies s[j] != ';' by {
        if s[j] == ';' {
            assert(s.subrange(j, j + 1) =~= seq![';']);
            assert(occurs_at(s, seq![';'], j));
        }
    }
}

/// The piece of an inline script between semicolons, once trimmed, is a clean command.
proof fn lemma_clean_piece(x: Seq<char>)
    requires
        forall|i: int| 0 <= i < x.len() ==> x[i] != ';',
    ensures
        trimmed(trimmed(x)) == trimmed(x),
        forall|i: int| 0 <= i < trimmed(x).len() ==> trimmed(x)[i] != ';',
{
    crate::text::lemma_trimmed_idempotent(x);
    lemma_trimmed_start_lacks(x, ';');
    lemma_trimmed_end_lacks(trimmed_start(x), ';');
}

/// Each command of an inline script is non-empty, has no whitespace at either end and
/// holds no semicolon.
pub proof fn law_inline_commands_are_clean(s: Seq<char>)
    ensures
        forall|k: int|
            0 <= k < inline_commands(s).len() ==> #[trigger] inline_commands(s)[k].len() > 0
                && trimmed(inline_commands(s)[k]) == inline_commands(s)[k] && forall|j: int|
                0 <= j < inline_commands(s)[k].len() ==> inline_commands(s)[k][j] != ';',
    decreases s.len(),
{
    lemma_find_from_bounds(s, seq![';'], 0);
    match first_index(s, seq![';']) {
        None => {
            lemma_no_semicolon(s, 0, s.len() as int);
            lemma_clean_piece(s);
        },
        Some(i) => {
            let head = trimmed(s.take(i));
            lemma_no_semicolon(s, 0, i);
            assert forall|j: int| 0 <= j < s.take(i).len() implies s.take(i)[j] != ';' by {
                assert(s.take(i)[j] == s[j]);
            }
            lemma_clean_piece(s.take(i));
            law_inline_commands_are_clean(s.skip(i + 1));
            let rest = inline_commands(s.skip(i + 1));
            if head.len() > 0 {
                let all = seq![head] + rest;
                assert(inline_commands(s) == all);
                assert forall|k: int| 0 <= k < all.len() implies #[trigger] all[k].len() > 0
                    && trimmed(all[k]) == all[k] && forall|j: int|
                    0 <= j < all[k].len() ==> all[k][j] != ';' by {
                    if k > 0 {
                        assert(all[k] == rest[k - 1]);
                    }
                }
            }
        },
    }
}

/// The command `c` with its result assigned to `a`, for the commands that give a result to
/// assign; every other command stays as it is.
pub open spec fn assigned(c: CommandModel, a: Option<Seq<char>>) -> CommandModel {
    match c {
        CommandModel::BrowserNewPage { .. } => CommandModel::BrowserNewPage { assign_to: a },
        CommandModel::PageLocatorWaitHandle { selector, .. } => CommandModel::PageLocatorWaitHandle {
            selector,
            assign_to: a,
        },
        CommandModel::PageWaitForSelector { selector, .. } => CommandModel::PageWaitForSelector {
            selector,
            assign_to: a,
        },
        CommandModel::PageEvaluate { expression, .. } => CommandModel::PageEvaluate {
            expression,
            assign_to: a,
        },
        CommandModel::ElementEvaluate { variable, js_fn, .. } => CommandModel::ElementEvaluate {
            variable,
            js_fn,
            assign_to: a,
        },
        CommandModel::PageContent { .. } => CommandModel::PageContent { assign_to: a },
        CommandModel::PageTitle { .. } => CommandModel::PageTitle { assign_to: a },
        CommandModel::PageUrl { .. } => CommandModel::PageUrl { assign_to: a },
        CommandModel::PageCookies { .. } => CommandModel::PageCookies { assign_to: a },
        _ => c,
    }
}

/// A parse outcome with the command's result assigned to `a`; refusals stay as they are.
pub open spec fn outcome_assigned(
    r: Option<Result<CommandModel, Seq<char>>>,
    a: Option<Seq<char>>,
) -> Option<Result<CommandModel, Seq<char>>> {
    match r {
        Some(Ok(c)) => Some(Ok(assigned(c, a))),
        _ => r,
    }
}

proof fn lemma_element_evaluate_assigned(line: Seq<char>, pat: Seq<char>, a: Option<Seq<char>>)
    ensures
        element_evaluate_at(line, pat, a) == match element_evaluate_at(line, pat, None) {
            Some(c) => Some(assigned(c, a)),
            None => None,
        },
{
}

proof fn lemma_early_assigned(line: Seq<char>, a: Option<Seq<char>>)
    ensures
        early_command(line, a) == outcome_assigned(early_command(line, None), a),
{
}

proof fn lemma_locator_assigned(sel: Seq<char>, chain: Seq<char>, a: Option<Seq<char>>)
    ensures
        locator_command(sel, chain, a) == outcome_assigned(locator_command(sel, chain, None), a),
{
}

proof fn lemma_page_assigned(line: Seq<char>, a: Option<Seq<char>>)
    ensures
        page_command(line, a) == outcome_assigned(page_command(line, None), a),
{
}

proof fn lemma_last_assigned(line: Seq<char>, a: Option<Seq<char>>)
    ensures
        Some(last_command(line, a)) == outcome_assigned(Some(last_command(line, None)), a),
{
    lemma_element_evaluate_assigned(line, "?.evaluate("@, a);
    lemma_element_evaluate_assigned(line, ".evaluate("@, a);
}

/// The variable that a command's result is assigned to changes nothing but the
/// `assign_to` of the commands that have a result: the same line gives the same command
/// (or the same refusal) with or without it, and `assign_to` is the variable exactly for
/// those commands.
pub proof fn law_assignment_only_names_the_result(line: Seq<char>, a: Option<Seq<char>>)
    ensures
        command_of(line, a) == outcome_assigned(command_of(line, None), a),
{
    lemma_early_assigned(line, a);
    lemma_page_assigned(line, a);
    lemma_last_assigned(line, a);
    match locator_chain(line) {
        Some(Some((sel, chain))) => lemma_locator_assigned(sel, chain, a),
        _ => {},
    }
}

/// The arguments of a call: `call_args(line, m)` gives `a` exactly where the line is `m`,
/// `(`, `a` and `)`.
pub proof fn law_call_args_exact(line: Seq<char>, m: Seq<char>, a: Seq<char>)
    ensures
        call_args(line, m) == Some(a) <==> line == m + "("@ + a + ")"@,
{
    reveal_strlit("(");
    reveal_strlit(")");
    if line == m + "("@ + a + ")"@ {
        lemma_call_args_of(m, a);
    }
    if call_args(line, m) == Some(a) {
        let r = line.skip(m.len() as int);
        let r2 = r.skip(1);
        assert(line.subrange(0, m.len() as int) == m);
        assert(r.subrange(0, 1) == "("@);
        assert(r2.take(r2.len() - 1) == a);
        assert(r2.subrange(r2.len() - 1, r2.len() as int) == ")"@);
        assert(r2 =~= a + ")"@);
        assert(r =~= "("@ + r2);
        assert(line =~= m + r);
        assert(line =~= m + "("@ + a + ")"@);
    }
}

/// `::-p-text(X)` resolves to the XPath text search for `X`, which is taken for an XPath;
/// a selector that does not start with `::-p-` is a CSS selector kept as it is.
pub proof fn law_text_selector_resolves_to_xpath(x: Seq<char>, css: Seq<char>)
    ensures
        resolved_selector("::-p-text("@ + x + ")"@) == text_search(x),
        xpath_selector(text_search(x)),
        !has_prefix(css, "::-p-"@) ==> resolved_selector(css) == css,
{
    reveal_strlit("::-p-text(");
    reveal_strlit("::-p-");
    reveal_strlit(")");
    reveal_strlit("//");
    reveal_strlit("//*[text()[contains(., ");
    let s = "::-p-text("@ + x + ")"@;
    assert(s.subrange(0, 10) =~= "::-p-text("@);
    let r = s.skip(10);
    assert(r =~= x + ")"@);
    assert(r.subrange(r.len() - 1, r.len() as int) =~= ")"@);
    assert(r.take(r.len() - 1) =~= x);
    let t = text_search(x);
    assert(t.subrange(0, 2) =~= "//"@);
    if !has_prefix(css, "::-p-"@) && has_prefix(css, "::-p-text("@) {
        assert(css.subrange(0, 5) =~= css.subrange(0, 10).subrange(0, 5));
        assert("::-p-text("@.subrange(0, 5) =~= "::-p-"@);
    }
}

/// The field `path: 'file'` names the file.
proof fn lemma_path_field_of(s: Seq<char>)
    requires
        plain_path(s),
    ensures
        path_field("path: "@ + single_quoted(s)) == Some(Some(s)),
{
    reveal_strlit("path: ");
    reveal_strlit("path:");
    let q = single_quoted(s);
    let piece = "path: "@ + q;
    assert(piece[0] == 'p');
    assert(piece.last() == '\'');
    assert(trimmed(piece) == piece);
    assert(piece.subrange(0, 5) =~= "path:"@);
    let v = piece.skip(5);
    assert(v =~= seq![' '] + q);
    assert(v.drop_first() =~= q);
    assert(q[0] == '\'');
    assert(q.last() == '\'');
    assert(trimmed(q) == q);
    assert(trimmed_start(v) == trimmed_start(q));
    assert(trimmed(v) == q);
    law_quoted_text_reads_back(s);
}

/// In an options object, the first `path` field gives the path whatever fields follow it:
/// `{path: 'file', more}` names the file, for a plain file name with no comma and any
/// further fields `more`.
pub proof fn law_first_path_field_wins(s: Seq<char>, more: Seq<char>)
    requires
        plain_path(s),
    ensures
        path_option("{path: "@ + single_quoted(s) + ", "@ + more + "}"@) == Some(s),
{
    reveal_strlit("{path: ");
    reveal_strlit("path: ");
    reveal_strlit(", ");
    reveal_strlit("{");
    reveal_strlit("}");
    let q = single_quoted(s);
    let piece = "path: "@ + q;
    let inner = piece + ", "@ + more;
    let args = "{path: "@ + q + ", "@ + more + "}"@;
    assert(args =~= "{"@ + inner + "}"@);
    assert(args[0] == '{');
    assert(args.last() == '}');
    assert(trimmed(args) == args);
    assert(args.subrange(0, 1) =~= "{"@);
    assert(args.skip(1) =~= inner + "}"@);
    assert((inner + "}"@).subrange(inner.len() as int, inner.len() as int + 1) =~= "}"@);
    assert((inner + "}"@).take(inner.len() as int) =~= inner);
    let k = piece.len() as int;
    assert forall|j: int| 0 <= j < k implies !occurs_at(inner, seq![','], j) by {
        if occurs_at(inner, seq![','], j) {
            assert(inner.subrange(j, j + 1)[0] == inner[j]);
            assert(inner[j] == piece[j]);
            if j >= 6 {
                assert(piece[j] == q[j - 6]);
                if 1 <= j - 6 < q.len() - 1 {
                    assert(q[j - 6] == s[j - 7]);
                }
            }
        }
    }
    assert(occurs_at(inner, seq![','], k)) by {
        assert(inner.subrange(k, k + 1) =~= seq![',']);
    }
    lemma_find_from_is(inner, seq![','], 0, k);
    assert(inner.take(k) =~= piece);
    lemma_path_field_of(s);
}

/// A clean command: non-empty, with no whitespace at either end and no semicolon.
pub open spec fn clean_command(c: Seq<char>) -> bool {
    c.len() > 0 && trimmed(c) == c && forall|i: int| 0 <= i < c.len() ==> c[i] != ';'
}

/// An inline script that is one clean command, with no semicolon after it, is that command.
pub proof fn law_inline_last_command_kept(b: Seq<char>)
    requires
        clean_command(b),
    ensures
        inline_commands(b) == seq![b],
        inline_commands(" "@ + b) == seq![b],
{
    reveal_strlit(" ");
    assert forall|j: int| 0 <= j implies !occurs_at(b, seq![';'], j) by {
        if occurs_at(b, seq![';'], j) {
            assert(b.subrange(j, j + 1)[0] == b[j]);
        }
    }
    lemma_find_from_none(b, seq![';'], 0);
    let sb = " "@ + b;
    assert forall|j: int| 0 <= j implies !occurs_at(sb, seq![';'], j) by {
        if occurs_at(sb, seq![';'], j) {
            assert(sb.subrange(j, j + 1)[0] == sb[j]);
            if j > 0 {
                assert(sb[j] == b[j - 1]);
            }
        }
    }
    lemma_find_from_none(sb, seq![';'], 0);
    assert(sb[0] == ' ');
    assert(sb.drop_first() =~= b);
    crate::text::lemma_trimmed_shapes(b);
    assert(trimmed_start(b) == b);
    assert(trimmed_start(sb) == trimmed_start(b));
    assert(trimmed(sb) == b);
}

/// The inline script `a; b` of two clean commands splits into exactly `a` and `b`: the
/// last command is kept though no semicolon follows it.
pub proof fn law_inline_two_commands(a: Seq<char>, b: Seq<char>)
    requires
        clean_command(a),
        clean_command(b),
    ensures
        inline_commands(a + "; "@ + b) == seq![a, b],
{
    reveal_strlit("; ");
    reveal_strlit(" ");
    let s = a + "; "@ + b;
    let k = a.len() as int;
    assert forall|j: int| 0 <= j < k implies !occurs_at(s, seq![';'], j) by {
        if occurs_at(s, seq![';'], j) {
            assert(s.subrange(j, j + 1)[0] == s[j]);
            assert(s[j] == a[j]);
        }
    }
    assert(occurs_at(s, seq![';'], k)) by {
        assert(s.subrange(k, k + 1) =~= seq![';']);
    }
    lemma_find_from_is(s, seq![';'], 0, k);
    assert(s.take(k) =~= a);
    assert(s.skip(k + 1) =~= " "@ + b);
    law_inline_last_command_kept(b);
    assert(seq![a] + seq![b] =~= seq![a, b]);
}

} // verus!
