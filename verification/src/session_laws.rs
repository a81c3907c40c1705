//! Laws of a session: refusals, the page state, and what stored values give back.
use vstd::prelude::*;
use crate::arguments::is_quote;
use crate::console::{
    SplitState, argument_text, console_args, console_output, fill_all, fill_first, split_start,
    split_state, split_step, unquoted,
};
use crate::js::{function_form, resolved_selector};
use crate::numbers::decimal;
use crate::parser::{command_of, CommandModel};
use crate::session::{
    ActionModel, OutcomeModel, SessionModel, completed, executed, needs_page, no_page_error,
    planned, store,
};
use crate::text::{first_index, is_ws, occurs_at, trimmed, trimmed_start};
use crate::variables::VariableModel;

verus! {

/// Every command that acts on the page is refused while no page is open, with the same
/// answer.
pub proof fn law_no_page_refusal(st: SessionModel, cmd: CommandModel)
    requires
        needs_page(cmd),
        !st.page_open,
    ensures
        planned(st, cmd) == Err::<ActionModel, Seq<char>>(no_page_error()),
{
}

/// `browser.newPage()` opens a page and `browser.close()` closes it; no other command
/// changes whether a page is open, and none changes verbosity.
pub proof fn law_page_state(st: SessionModel, cmd: CommandModel, out: OutcomeModel)
    ensures
        completed(st, cmd, out).0.verbose == st.verbose,
        cmd is BrowserNewPage && out is Done ==> completed(st, cmd, out).0.page_open,
        cmd is BrowserClose && out is Done ==> !completed(st, cmd, out).0.page_open,
        !(cmd is BrowserNewPage) && !(cmd is BrowserClose) ==> completed(st, cmd, out).0.page_open
            == st.page_open,
{
}

/// An element found and named by `waitHandle()` is the element that an evaluation on that
/// name runs on: the selector waited for is the selector the evaluation uses.
pub proof fn law_found_element_is_evaluated(
    st: SessionModel,
    selector: Seq<char>,
    n: Seq<char>,
    js_fn: Seq<char>,
    a: Option<Seq<char>>,
)
    requires
        st.page_open,
    ensures
        ({
            let wait = CommandModel::PageLocatorWaitHandle { selector, assign_to: Some(n) };
            let found = resolved_selector(selector);
            let after = completed(st, wait, OutcomeModel::Done).0;
            &&& planned(st, wait) == Ok::<ActionModel, Seq<char>>(
                ActionModel::WaitFor { selector: found },
            )
            &&& planned(after, CommandModel::ElementEvaluate { variable: n, js_fn, assign_to: a })
                == Ok::<ActionModel, Seq<char>>(
                ActionModel::CallOnElement { selector: found, function: function_form(js_fn) },
            )
        }),
{
}

/// An evaluation on a name that holds no variable is refused.
pub proof fn law_unknown_variable_refusal(
    st: SessionModel,
    n: Seq<char>,
    js_fn: Seq<char>,
    a: Option<Seq<char>>,
)
    requires
        st.page_open,
        !st.vars.contains_key(n),
    ensures
        planned(st, CommandModel::ElementEvaluate { variable: n, js_fn, assign_to: a }) == Err::<
            ActionModel,
            Seq<char>,
        >("Unknown variable: "@ + n),
{
}

/// Chars with no quote and no comma extend the argument being read.
proof fn lemma_split_plain_tail(p: Seq<char>, n: Seq<char>)
    requires
        !split_state(p).in_string,
        forall|i: int| 0 <= i < n.len() ==> n[i] != ',' && !is_quote(n[i]),
    ensures
        split_state(p + n) == (SplitState { current: split_state(p).current + n, ..split_state(p) }),
    decreases n.len(),
{
    if n.len() == 0 {
        assert(p + n =~= p);
        let s = split_state(p);
        assert((SplitState { current: s.current + n, ..s }) =~= s);
    } else {
        assert((p + n).drop_last() =~= p + n.drop_last());
        assert((p + n).last() == n.last());
        assert(n.last() == n[n.len() - 1]);
        lemma_split_plain_tail(p, n.drop_last());
        let prev = split_state(p + n.drop_last());
        assert(!prev.in_string);
        assert(split_state(p + n) == split_step(prev, n.last()));
        let s = split_state(p);
        assert(s.current + n.drop_last() + seq![n.last()] =~= s.current + n);
        assert(split_step(prev, n.last()) =~= (SplitState { current: s.current + n, ..s }));
    }
}

/// A text read from the page and stored under a name (here, the title) is what
/// `console.log('%s', name)` prints.
pub proof fn law_stored_title_is_logged(st: SessionModel, n: Seq<char>, t: Seq<char>)
    requires
        n.len() > 0,
        trimmed(n) == n,
        forall|i: int| 0 <= i < n.len() ==> n[i] != ',' && !is_quote(n[i]),
    ensures
        ({
            let after = completed(
                st,
                CommandModel::PageTitle { assign_to: Some(n) },
                OutcomeModel::Text(t),
            ).0;
            console_output("'%s', "@ + n, after.vars) == t
        }),
{
    reveal_strlit("'%s', ");
    reveal_strlit("%s");
    let after = completed(st, CommandModel::PageTitle { assign_to: Some(n) }, OutcomeModel::Text(t)).0;
    assert(after.vars == st.vars.insert(n, VariableModel::StringValue(t)));
    let head = "'%s', "@;
    let e = head + n;
    assert(e[0] == '\'');
    assert(e.last() == n.last());
    crate::text::lemma_trimmed_shapes(n);
    assert(!is_ws(n.last()));
    assert(trimmed(e) == e);
    let q = '\'';
    assert(head =~= seq![q, '%', 's', q, ',', ' ']);
    let p1 = seq![q];
    let p2 = seq![q, '%'];
    let p3 = seq![q, '%', 's'];
    let p4 = seq![q, '%', 's', q];
    let p5 = seq![q, '%', 's', q, ','];
    assert(p1.drop_last() =~= Seq::<char>::empty());
    assert(p2.drop_last() =~= p1);
    assert(p3.drop_last() =~= p2);
    assert(p4.drop_last() =~= p3);
    assert(p5.drop_last() =~= p4);
    assert(head.drop_last() =~= p5);
    assert(split_state(Seq::<char>::empty()) == split_start());
    assert(split_state(p1) == split_step(split_start(), q));
    let s1 = split_state(p1);
    assert(s1.in_string && s1.quote == q && !s1.escaped && s1.current =~= p1 && s1.parts.len() == 0);
    let s2 = split_state(p2);
    assert(s2.in_string && s2.quote == q && !s2.escaped && s2.current =~= p2 && s2.parts.len() == 0);
    let s3 = split_state(p3);
    assert(s3.in_string && s3.quote == q && !s3.escaped && s3.current =~= p3 && s3.parts.len() == 0);
    let s4 = split_state(p4);
    assert(!s4.in_string && s4.current =~= p4 && s4.parts.len() == 0);
    assert(trimmed(p4) == p4);
    let s5 = split_state(p5);
    assert(!s5.in_string && s5.current.len() == 0 && s5.parts =~= seq![p4]);
    let sh = split_state(head);
    assert(!sh.in_string && sh.current =~= seq![' '] && sh.parts =~= seq![p4]);
    lemma_split_plain_tail(head, n);
    let cur = seq![' '] + n;
    assert(split_state(e).current == cur);
    assert(cur.drop_first() =~= n);
    assert(trimmed_start(cur) == trimmed_start(n));
    assert(trimmed(cur) == n);
    let args = console_args(e);
    assert(args =~= seq![p4, n]);
    assert(unquoted(p4) =~= "%s"@);
    let rest = args.drop_first().map_values(|a: Seq<char>| argument_text(trimmed(a), after.vars));
    assert(rest =~= seq![t]);
    assert(occurs_at("%s"@, "%s"@, 0)) by {
        assert("%s"@.subrange(0, 2) =~= "%s"@);
    }
    assert(first_index("%s"@, "%s"@) == Some(0int));
    assert(fill_first("%s"@, t) =~= t);
    assert(rest.drop_first() =~= Seq::<Seq<char>>::empty());
    assert(fill_all(t, Seq::<Seq<char>>::empty()) == t);
}

/// A value assigned to a name is what the name holds afterwards, every other name keeps
/// what it held, and a result assigned to no name changes no variable.
pub proof fn law_assignment_reads_back(
    vars: Map<Seq<char>, VariableModel>,
    n: Seq<char>,
    v: VariableModel,
    m: Seq<char>,
)
    ensures
        store(vars, Some(n), v).contains_key(n),
        store(vars, Some(n), v)[n] == v,
        m != n ==> (store(vars, Some(n), v).contains_key(m) <==> vars.contains_key(m)),
        m != n && vars.contains_key(m) ==> store(vars, Some(n), v)[m] == vars[m],
        store(vars, None, v) == vars,
{
}

/// A command that is refused, or whose browser action fails, leaves the page state, the
/// variables and verbosity as they were.
pub proof fn law_failed_command_changes_nothing(
    st: SessionModel,
    cmd: CommandModel,
    result: Result<OutcomeModel, Seq<char>>,
)
    ensures
        executed(st, cmd, result).1 is Err ==> executed(st, cmd, result).0 == st,
{
}

/// With a page open, `page.setViewport({width: W, height: H})` plans setting the viewport to
/// width `W` and height `H`, for every `W` and `H`.
pub proof fn law_viewport_plan(st: SessionModel, w: u32, h: u32, a: Option<Seq<char>>)
    requires
        st.page_open,
    ensures
        command_of(
            "page.setViewport"@ + "("@ + ("{width: "@ + decimal(w as nat) + ", height: "@ + decimal(
                h as nat,
            ) + "}"@) + ")"@,
            a,
        ) == Some(Ok::<CommandModel, Seq<char>>(CommandModel::PageSetViewport { width: w, height: h })),
        planned(st, CommandModel::PageSetViewport { width: w, height: h }) == Ok::<
            ActionModel,
            Seq<char>,
        >(ActionModel::SetViewport { width: w, height: h }),
{
    crate::laws::law_viewport_reads_back(w, h, a);
}

/// The text that the browser reads for `page.url()`, `page.title()` or `page.cookies()` is
/// printed as it is, verbose or not, and stored under the assigned name; the page state and
/// verbosity stay as they were.
pub proof fn law_read_text_is_printed(st: SessionModel, t: Seq<char>, a: Option<Seq<char>>)
    ensures
        ({
            let url = completed(st, CommandModel::PageUrl { assign_to: a }, OutcomeModel::Text(t));
            let title = completed(st, CommandModel::PageTitle { assign_to: a }, OutcomeModel::Text(t));
            let cookies = completed(
                st,
                CommandModel::PageCookies { assign_to: a },
                OutcomeModel::Text(t),
            );
            &&& url.1 == Some(t)
            &&& title.1 == Some(t)
            &&& cookies.1 == Some(t)
            &&& url.0.page_open == st.page_open && url.0.verbose == st.verbose
            &&& title.0.page_open == st.page_open && title.0.verbose == st.verbose
            &&& cookies.0.page_open == st.page_open && cookies.0.verbose == st.verbose
            &&& (a matches Some(n) ==> url.0.vars.contains_key(n) && url.0.vars[n]
                == VariableModel::StringValue(t))
            &&& (a matches Some(n) ==> title.0.vars.contains_key(n) && title.0.vars[n]
                == VariableModel::StringValue(t))
            &&& (a matches Some(n) ==> cookies.0.vars.contains_key(n) && cookies.0.vars[n]
                == VariableModel::StringValue(t))
        }),
{
}

/// Outside a string, the splitting has no pending backslash.
proof fn lemma_split_not_escaped(s: Seq<char>)
    ensures
        !split_state(s).in_string ==> !split_state(s).escaped,
    decreases s.len(),
{
    if s.len() > 0 {
        lemma_split_not_escaped(s.drop_last());
    }
}

/// After a quote opens a string, chars that are neither that quote nor a backslash stay in
/// the string, as they are.
proof fn lemma_split_open_string(p: Seq<char>, q: char, f: Seq<char>)
    requires
        !split_state(p).in_string,
        is_quote(q),
        forall|i: int| 0 <= i < f.len() ==> f[i] != q && f[i] != '\\',
    ensures
        split_state(p + seq![q] + f).in_string,
        split_state(p + seq![q] + f).quote == q,
        !split_state(p + seq![q] + f).escaped,
        split_state(p + seq![q] + f).parts == split_state(p).parts,
        split_state(p + seq![q] + f).current == split_state(p).current + seq![q] + f,
    decreases f.len(),
{
    lemma_split_not_escaped(p);
    if f.len() == 0 {
        assert(p + seq![q] + f =~= p.push(q));
        assert((p.push(q)).drop_last() =~= p);
    } else {
        let g = f.drop_last();
        assert forall|i: int| 0 <= i < g.len() implies g[i] != q && g[i] != '\\' by {
            assert(g[i] == f[i]);
        }
        lemma_split_open_string(p, q, g);
        let whole = p + seq![q] + f;
        assert(whole.drop_last() =~= p + seq![q] + g);
        assert(whole.last() == f[f.len() - 1]);
        assert(split_state(p).current + seq![q] + g + seq![f.last()] =~= split_state(p).current
            + seq![q] + f);
    }
}

/// A string in quotes `q` that holds neither `q` nor a backslash is read whole, other
/// quotes and commas in it included, and closes again.
proof fn lemma_split_quoted(p: Seq<char>, q: char, f: Seq<char>)
    requires
        !split_state(p).in_string,
        is_quote(q),
        forall|i: int| 0 <= i < f.len() ==> f[i] != q && f[i] != '\\',
    ensures
        !split_state(p + seq![q] + f + seq![q]).in_string,
        split_state(p + seq![q] + f + seq![q]).parts == split_state(p).parts,
        split_state(p + seq![q] + f + seq![q]).current == split_state(p).current + seq![q] + f
            + seq![q],
{
    lemma_split_open_string(p, q, f);
    let whole = p + seq![q] + f + seq![q];
    assert(whole.drop_last() =~= p + seq![q] + f);
}

/// `console.log("pre%spost", name)`: a double-quoted format with one `%s` slot prints the
/// format's text with the slot filled by the value stored under the name. Inside the
/// double quotes, other quotes (an apostrophe) and commas are text and end nothing.
pub proof fn law_double_quoted_format_is_filled(
    vars: Map<Seq<char>, VariableModel>,
    pre: Seq<char>,
    post: Seq<char>,
    n: Seq<char>,
    v: Seq<char>,
)
    requires
        forall|i: int| 0 <= i < pre.len() ==> pre[i] != '"' && pre[i] != '\\' && pre[i] != '%',
        forall|i: int| 0 <= i < post.len() ==> post[i] != '"' && post[i] != '\\',
        n.len() > 0,
        trimmed(n) == n,
        forall|i: int| 0 <= i < n.len() ==> n[i] != ',' && !is_quote(n[i]),
        vars.contains_key(n),
        vars[n] == VariableModel::StringValue(v),
    ensures
        console_output("\""@ + pre + "%s"@ + post + "\", "@ + n, vars) == pre + v + post,
{
    reveal_strlit("\"");
    reveal_strlit("%s");
    reveal_strlit("\", ");
    let q = '"';
    let f = pre + "%s"@ + post;
    assert forall|i: int| 0 <= i < f.len() implies f[i] != q && f[i] != '\\' by {
        if i < pre.len() {
            assert(f[i] == pre[i]);
        } else if i < pre.len() + 2 {
            assert(f[i] == "%s"@[i - pre.len()]);
        } else {
            assert(f[i] == post[i - pre.len() - 2]);
        }
    }
    let e = "\""@ + pre + "%s"@ + post + "\", "@ + n;
    let qf = seq![q] + f + seq![q];
    assert(e =~= Seq::<char>::empty() + seq![q] + f + seq![q] + seq![',', ' '] + n);
    assert(e[0] == q);
    crate::text::lemma_trimmed_shapes(n);
    assert(e.last() == n.last());
    assert(trimmed(e) == e);
    assert(split_state(Seq::<char>::empty()) == split_start());
    lemma_split_quoted(Seq::<char>::empty(), q, f);
    assert(Seq::<char>::empty() + seq![q] + f + seq![q] =~= qf);
    let s0 = split_state(qf);
    assert(!s0.in_string && s0.parts.len() == 0 && s0.current =~= qf);
    let p1 = qf.push(',');
    assert(p1.drop_last() =~= qf);
    assert(qf[0] == q && qf.last() == q);
    assert(trimmed(qf) == qf);
    let s1 = split_state(p1);
    assert(!s1.in_string && s1.parts =~= seq![qf] && s1.current.len() == 0);
    let p2 = p1.push(' ');
    assert(p2.drop_last() =~= p1);
    let s2 = split_state(p2);
    assert(!s2.in_string && s2.parts =~= seq![qf] && s2.current =~= seq![' ']);
    lemma_split_plain_tail(p2, n);
    assert(p2 + n =~= e);
    let cur = seq![' '] + n;
    assert(split_state(e).current == cur);
    assert(cur.drop_first() =~= n);
    assert(trimmed_start(cur) == trimmed_start(n));
    assert(trimmed(cur) == n);
    let args = console_args(e);
    assert(args =~= seq![qf, n]);
    assert(qf.subrange(1, qf.len() - 1) =~= f);
    assert(unquoted(qf) == f);
    let rest = args.drop_first().map_values(|a: Seq<char>| argument_text(trimmed(a), vars));
    assert(rest =~= seq![v]);
    let k = pre.len() as int;
    assert forall|j: int| 0 <= j < k implies !occurs_at(f, "%s"@, j) by {
        if occurs_at(f, "%s"@, j) {
            assert(f.subrange(j, j + 2)[0] == f[j]);
            assert(f[j] == pre[j]);
        }
    }
    assert(occurs_at(f, "%s"@, k)) by {
        assert(f.subrange(k, k + 2) =~= "%s"@);
    }
    crate::laws::lemma_find_from_is(f, "%s"@, 0, k);
    assert(f.take(k) =~= pre);
    assert(f.skip(k + 2) =~= post);
    assert(fill_first(f, v) == pre + v + post);
    assert(rest.drop_first() =~= Seq::<Seq<char>>::empty());
    assert(rest[0] == v);
    assert(fill_all(pre + v + post, Seq::<Seq<char>>::empty()) == pre + v + post);
    assert(fill_all(f, rest) == fill_all(fill_first(f, rest[0]), rest.drop_first()));
    assert(args[0] == qf);
    assert(console_output(e, vars) == fill_all(unquoted(args[0]), rest));
}

} // verus!
