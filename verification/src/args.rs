//! Splitting the `javac = ".."` / `java = ".."` option strings into
//! arguments, respecting single and double quotes.
use vstd::prelude::*;

verus! {

/// State of the quote-aware splitter after a prefix of the input.
pub struct SplitState {
    pub args: Seq<Seq<char>>,
    pub cur: Seq<char>,
    pub in_single: bool,
    pub in_double: bool,
}

/// Whether `ch` separates arguments (outside of quotes).
pub open spec fn is_arg_blank(ch: char) -> bool {
    ch == ' ' || ch == '\t'
}

/// One step of the splitter: a quote toggles its quoting mode (unless inside
/// the other kind of quote), an unquoted blank ends the current argument, and
/// every other character is appended to the current argument.
pub open spec fn split_step(st: SplitState, ch: char) -> SplitState {
    if ch == '\'' && !st.in_double {
        SplitState { in_single: !st.in_single, ..st }
    } else if ch == '"' && !st.in_single {
        SplitState { in_double: !st.in_double, ..st }
    } else if is_arg_blank(ch) && !st.in_single && !st.in_double {
        if st.cur.len() > 0 {
            SplitState { args: st.args.push(st.cur), cur: Seq::empty(), ..st }
        } else {
            st
        }
    } else {
        SplitState { cur: st.cur.push(ch), ..st }
    }
}

/// The splitter's state after reading all of `s`.
pub open spec fn split_scan(s: Seq<char>) -> SplitState
    decreases s.len(),
{
    if s.len() == 0 {
        SplitState { args: Seq::empty(), cur: Seq::empty(), in_single: false, in_double: false }
    } else {
        split_step(split_scan(s.drop_last()), s.last())
    }
}

/// The arguments that `s` splits into.
pub open spec fn split_args_spec(s: Seq<char>) -> Seq<Seq<char>> {
    let st = split_scan(s);
    if st.cur.len() > 0 {
        st.args.push(st.cur)
    } else {
        st.args
    }
}

/// Split a shell-style argument string into individual arguments, respecting
/// single- and double-quoted spans.
pub fn split_args(s: &str) -> (args: Vec<String>)
    ensures
        args.deep_view() == split_args_spec(s@),
{
    let mut args: Vec<String> = Vec::new();
    let mut cur = String::new();
    let mut in_single = false;
    let mut in_double = false;
    let ghost mut seen: Seq<char> = Seq::empty();

    for ch in it: s.chars()
        invariant
            seen == it.seq().take(it.index() as int),
            ({
                let st = split_scan(seen);
                &&& args.deep_view() == st.args
                &&& cur@ == st.cur
                &&& in_single == st.in_single
                &&& in_double == st.in_double
            }),
    {
        proof {
            assert(seen.push(ch).drop_last() == seen);
        }
        if ch == '\'' && !in_double {
            in_single = !in_single;
        } else if ch == '"' && !in_single {
            in_double = !in_double;
        } else if (ch == ' ' || ch == '\t') && !in_single && !in_double {
            if !cur.as_str().is_empty() {
                let mut taken = String::new();
                std::mem::swap(&mut taken, &mut cur);
                args.push(taken);
            }
        } else {
            cur.push(ch);
        }
        proof {
            seen = seen.push(ch);
        }
    }
    assert(seen == s@);
    if !cur.as_str().is_empty() {
        args.push(cur);
    }
    args
}

// ── Plain words ──────────────────────────────────────────────────────────────

/// The splitter's state after reading `t`, starting from state `st`.
pub open spec fn scan_from(st: SplitState, t: Seq<char>) -> SplitState
    decreases t.len(),
{
    if t.len() == 0 {
        st
    } else {
        split_step(scan_from(st, t.drop_last()), t.last())
    }
}

/// Whether `w` is a word that needs no quoting: not empty, and without
/// blanks or quotes.
pub open spec fn is_plain_word(w: Seq<char>) -> bool {
    &&& w.len() > 0
    &&& forall|k: int|
        0 <= k < w.len() ==> !is_arg_blank(#[trigger] w[k]) && w[k] != '\'' && w[k] != '"'
}

/// The words `ws` separated by single spaces.
pub open spec fn join_words(ws: Seq<Seq<char>>) -> Seq<char>
    decreases ws.len(),
{
    if ws.len() == 0 {
        Seq::empty()
    } else if ws.len() == 1 {
        ws[0]
    } else {
        join_words(ws.drop_last()) + seq![' '] + ws.last()
    }
}

proof fn lemma_scan_append(s: Seq<char>, t: Seq<char>)
    ensures
        split_scan(s + t) == scan_from(split_scan(s), t),
    decreases t.len(),
{
    if t.len() == 0 {
        assert(s + t =~= s);
    } else {
        lemma_scan_append(s, t.drop_last());
        assert((s + t).drop_last() =~= s + t.drop_last());
        assert((s + t).last() == t.last());
    }
}

proof fn lemma_scan_plain_word(st: SplitState, w: Seq<char>)
    requires
        !st.in_single,
        !st.in_double,
        forall|k: int|
            0 <= k < w.len() ==> !is_arg_blank(#[trigger] w[k]) && w[k] != '\'' && w[k] != '"',
    ensures
        scan_from(st, w) == (SplitState { cur: st.cur + w, ..st }),
    decreases w.len(),
{
    if w.len() == 0 {
        assert(st.cur + w =~= st.cur);
    } else {
        let init = w.drop_last();
        assert forall|k: int|
            0 <= k < init.len() implies !is_arg_blank(#[trigger] init[k]) && init[k] != '\''
            && init[k] != '"' by {
            assert(init[k] == w[k]);
        }
        lemma_scan_plain_word(st, init);
        assert(w.last() == w[w.len() - 1]);
        assert((st.cur + init).push(w.last()) =~= st.cur + w);
    }
}

proof fn lemma_scan_words(ws: Seq<Seq<char>>)
    requires
        ws.len() > 0,
        forall|i: int| 0 <= i < ws.len() ==> is_plain_word(#[trigger] ws[i]),
    ensures
        split_scan(join_words(ws)) == (SplitState {
            args: ws.drop_last(),
            cur: ws.last(),
            in_single: false,
            in_double: false,
        }),
    decreases ws.len(),
{
    let init = SplitState { args: Seq::empty(), cur: Seq::empty(), in_single: false, in_double: false };
    assert(split_scan(Seq::empty()) == init);
    if ws.len() == 1 {
        assert(is_plain_word(ws[0]));
        lemma_scan_append(Seq::empty(), ws[0]);
        assert(Seq::<char>::empty() + ws[0] =~= ws[0]);
        lemma_scan_plain_word(init, ws[0]);
        assert(Seq::<char>::empty() + ws[0] =~= ws[0]);
        assert(ws.drop_last() =~= Seq::<Seq<char>>::empty());
    } else {
        let prev = ws.drop_last();
        assert forall|i: int| 0 <= i < prev.len() implies is_plain_word(#[trigger] prev[i]) by {
            assert(prev[i] == ws[i]);
        }
        lemma_scan_words(prev);
        let a = join_words(prev);
        let w = ws.last();
        assert(is_plain_word(ws[ws.len() - 1]));
        lemma_scan_append(a + seq![' '], w);
        lemma_scan_append(a, seq![' ']);
        assert(seq![' '].drop_last() =~= Seq::<char>::empty());
        let mid = scan_from(split_scan(a), seq![' ']);
        assert(scan_from(split_scan(a), Seq::<char>::empty()) == split_scan(a));
        assert(seq![' '].last() == ' ');
        assert(mid == split_step(split_scan(a), ' '));
        assert(prev.last().len() > 0) by {
            assert(is_plain_word(prev[prev.len() - 1]));
        }
        lemma_scan_plain_word(mid, w);
        assert(mid.cur + w =~= w);
        assert(prev.drop_last().push(prev.last()) =~= ws.drop_last());
    }
}

/// Words that need no quoting, joined by single spaces, split back into the
/// same words.
pub proof fn lemma_split_plain_words(ws: Seq<Seq<char>>)
    requires
        forall|i: int| 0 <= i < ws.len() ==> is_plain_word(#[trigger] ws[i]),
    ensures
        split_args_spec(join_words(ws)) == ws,
{
    if ws.len() == 0 {
        assert(split_scan(Seq::empty()).args =~= Seq::<Seq<char>>::empty());
    } else {
        lemma_scan_words(ws);
        assert(is_plain_word(ws[ws.len() - 1]));
        assert(ws.drop_last().push(ws.last()) =~= ws);
    }
}

proof fn lemma_scan_quoted(st: SplitState, w: Seq<char>, q: char)
    requires
        q == '\'' || q == '"',
        q == '\'' ==> st.in_single && !st.in_double,
        q == '"' ==> st.in_double && !st.in_single,
        forall|k: int| 0 <= k < w.len() ==> #[trigger] w[k] != q,
    ensures
        scan_from(st, w) == (SplitState { cur: st.cur + w, ..st }),
    decreases w.len(),
{
    if w.len() == 0 {
        assert(st.cur + w =~= st.cur);
    } else {
        let init = w.drop_last();
        assert forall|k: int| 0 <= k < init.len() implies #[trigger] init[k] != q by {
            assert(init[k] == w[k]);
        }
        lemma_scan_quoted(st, init, q);
        assert(w.last() == w[w.len() - 1]);
        assert((st.cur + init).push(w.last()) =~= st.cur + w);
    }
}

/// A word between single quotes (holding none) is one argument, blanks and
/// double quotes included; likewise between double quotes.
pub proof fn lemma_split_quoted_word(w: Seq<char>, q: char)
    requires
        q == '\'' || q == '"',
        w.len() > 0,
        forall|k: int| 0 <= k < w.len() ==> #[trigger] w[k] != q,
    ensures
        split_args_spec(seq![q] + w + seq![q]) == seq![w],
{
    let init = SplitState { args: Seq::empty(), cur: Seq::empty(), in_single: false, in_double: false };
    assert(split_scan(Seq::empty()) == init);
    lemma_scan_append(Seq::empty(), seq![q]);
    assert(Seq::<char>::empty() + seq![q] =~= seq![q]);
    assert(seq![q].drop_last() =~= Seq::<char>::empty());
    assert(scan_from(init, Seq::<char>::empty()) == init);
    let opened = split_step(init, q);
    assert(split_scan(seq![q]) == opened);
    lemma_scan_append(seq![q], w);
    lemma_scan_quoted(opened, w, q);
    assert(opened.cur + w =~= w);
    let inside = SplitState { cur: w, ..opened };
    assert(split_scan(seq![q] + w) == inside);
    lemma_scan_append(seq![q] + w, seq![q]);
    assert(scan_from(inside, Seq::<char>::empty()) == inside);
    assert(split_scan(seq![q] + w + seq![q]) == split_step(inside, q));
    assert(seq![w] =~= Seq::<Seq<char>>::empty().push(w));
}

/// The pieces of `s` between its blanks (spaces and tabs), in order, empty
/// ones included: one more piece than there are blanks.
pub open spec fn blank_pieces(s: Seq<char>) -> Seq<Seq<char>>
    decreases s.len(),
{
    if s.len() == 0 {
        seq![Seq::<char>::empty()]
    } else {
        let p = blank_pieces(s.drop_last());
        if is_arg_blank(s.last()) {
            p.push(Seq::empty())
        } else {
            p.update(p.len() - 1, p.last().push(s.last()))
        }
    }
}

/// The non-empty strings of `ws`, in order.
pub open spec fn nonempty_words(ws: Seq<Seq<char>>) -> Seq<Seq<char>> {
    ws.filter(|w: Seq<char>| w.len() > 0)
}

proof fn lemma_nonempty_words_push(ws: Seq<Seq<char>>, w: Seq<char>)
    ensures
        nonempty_words(ws.push(w)) == if w.len() > 0 {
            nonempty_words(ws).push(w)
        } else {
            nonempty_words(ws)
        },
{
    reveal(Seq::filter);
    assert(ws.push(w).drop_last() =~= ws);
    assert(ws.push(w).last() == w);
}

proof fn lemma_scan_quote_free(s: Seq<char>)
    requires
        forall|k: int| 0 <= k < s.len() ==> #[trigger] s[k] != '\'' && s[k] != '"',
    ensures
        !split_scan(s).in_single,
        !split_scan(s).in_double,
        blank_pieces(s).len() >= 1,
        split_scan(s).cur == blank_pieces(s).last(),
        split_scan(s).args == nonempty_words(blank_pieces(s).drop_last()),
    decreases s.len(),
{
    if s.len() == 0 {
        reveal(Seq::filter);
        assert(blank_pieces(s).drop_last() =~= Seq::<Seq<char>>::empty());
        assert(nonempty_words(Seq::<Seq<char>>::empty()) =~= Seq::<Seq<char>>::empty());
    } else {
        let t = s.drop_last();
        assert forall|k: int| 0 <= k < t.len() implies #[trigger] t[k] != '\'' && t[k] != '"' by {
            assert(t[k] == s[k]);
        }
        lemma_scan_quote_free(t);
        let p = blank_pieces(t);
        let c = s.last();
        assert(c == s[s.len() - 1]);
        if is_arg_blank(c) {
            assert(p.push(Seq::<char>::empty()).drop_last() =~= p);
            assert(p.drop_last().push(p.last()) =~= p);
            lemma_nonempty_words_push(p.drop_last(), p.last());
        } else {
            let q = p.update(p.len() - 1, p.last().push(c));
            assert(q.drop_last() =~= p.drop_last());
        }
    }
}

/// Text without quotes splits into the non-empty pieces between its blanks,
/// however many spaces and tabs stand in a row.
pub proof fn lemma_split_quote_free(s: Seq<char>)
    requires
        forall|k: int| 0 <= k < s.len() ==> #[trigger] s[k] != '\'' && s[k] != '"',
    ensures
        split_args_spec(s) == nonempty_words(blank_pieces(s)),
{
    lemma_scan_quote_free(s);
    let p = blank_pieces(s);
    assert(p.drop_last().push(p.last()) =~= p);
    lemma_nonempty_words_push(p.drop_last(), p.last());
}

} // verus!
