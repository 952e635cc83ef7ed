//! Laws of word splitting, proved over the scan that `split_words` follows.
use vstd::prelude::*;

use crate::parser::{
    escapable_in_double, escape_text, finish, lex_from, lex_start, lex_step, redirect_split,
    words_of, Lex, RedirectType,
};
use crate::text::{is_space, join_words, lemma_join_push};

verus! {

/// A character that stands for itself in state `st`: inside double quotes
/// anything but `"` and a backslash, inside single quotes anything but `'`,
/// outside quotes anything but white space, quotes and a backslash.
pub open spec fn literal_in(c: char, st: Lex) -> bool {
    if st.double {
        c != '"' && c != '\\'
    } else if st.single {
        c != '\''
    } else {
        !is_space(c) && c != '"' && c != '\'' && c != '\\'
    }
}

/// A run of characters that stand for themselves is appended to the
/// current word, and the quote state stays as it was.
pub proof fn lemma_literal_run(s: Seq<char>, i: int, j: int, st: Lex)
    requires
        0 <= i <= j <= s.len(),
        !(st.single && st.double),
        forall|k: int| i <= k < j ==> literal_in(#[trigger] s[k], st),
    ensures
        lex_from(s, i, st) == lex_from(s, j, Lex { cur: st.cur + s.subrange(i, j), ..st }),
    decreases j - i,
{
    if i == j {
        assert(st.cur + s.subrange(i, j) =~= st.cur);
    } else {
        let next = Lex { cur: st.cur.push(s[i]), ..st };
        assert(lex_step(s, i, st) == (next, i + 1));
        lemma_literal_run(s, i + 1, j, next);
        assert(next.cur + s.subrange(i + 1, j) =~= st.cur + s.subrange(i, j));
    }
}

/// Outside quotes a backslash makes the next character, whatever it is,
/// part of the word: `foo\ bar` is the one word `foo bar`.
pub proof fn law_escape_outside_quotes(a: Seq<char>, c: char, b: Seq<char>)
    requires
        forall|k: int| 0 <= k < a.len() ==> literal_in(#[trigger] a[k], lex_start()),
        forall|k: int| 0 <= k < b.len() ==> literal_in(#[trigger] b[k], lex_start()),
    ensures
        words_of(a + seq!['\\', c] + b) == seq![a + seq![c] + b],
{
    let s = a + seq!['\\', c] + b;
    let n = a.len() as int;
    let st0 = lex_start();
    assert forall|k: int| 0 <= k < n implies literal_in(#[trigger] s[k], st0) by {
        assert(s[k] == a[k]);
    }
    lemma_literal_run(s, 0, n, st0);
    let st1 = Lex { cur: st0.cur + s.subrange(0, n), ..st0 };
    assert(s.subrange(0, n) =~= a);
    let st2 = Lex { cur: st1.cur + escape_text(c, false), ..st1 };
    assert(lex_step(s, n, st1) == (st2, n + 2));
    assert forall|k: int| n + 2 <= k < s.len() implies literal_in(#[trigger] s[k], st2) by {
        assert(s[k] == b[k - n - 2]);
    }
    lemma_literal_run(s, n + 2, s.len() as int, st2);
    assert(s.subrange(n + 2, s.len() as int) =~= b);
    assert(st2.cur + b =~= a + seq![c] + b);
}

/// Inside double quotes a backslash escapes only `"`, `$`, a backslash, a
/// backtick and a newline; before any other character both characters are
/// kept: `"a\qb"` is the word `a\qb`.
pub proof fn law_escape_in_double_quotes(a: Seq<char>, c: char, b: Seq<char>)
    requires
        forall|k: int| 0 <= k < a.len() ==> #[trigger] a[k] != '"' && a[k] != '\\',
        forall|k: int| 0 <= k < b.len() ==> #[trigger] b[k] != '"' && b[k] != '\\',
    ensures
        escapable_in_double(c) ==> words_of(seq!['"'] + a + seq!['\\', c] + b + seq!['"'])
            == seq![a + seq![c] + b],
        !escapable_in_double(c) ==> words_of(seq!['"'] + a + seq!['\\', c] + b + seq!['"'])
            == seq![a + seq!['\\', c] + b],
{
    let s = seq!['"'] + a + seq!['\\', c] + b + seq!['"'];
    let n = a.len() as int;
    let st0 = lex_start();
    let st1 = Lex { double: true, ..st0 };
    assert(lex_step(s, 0, st0) == (st1, 1int));
    assert forall|k: int| 1 <= k < n + 1 implies literal_in(#[trigger] s[k], st1) by {
        assert(s[k] == a[k - 1]);
    }
    lemma_literal_run(s, 1, n + 1, st1);
    let st2 = Lex { cur: st1.cur + s.subrange(1, n + 1), ..st1 };
    assert(s.subrange(1, n + 1) =~= a);
    let st3 = Lex { cur: st2.cur + escape_text(c, true), ..st2 };
    assert(lex_step(s, n + 1, st2) == (st3, n + 3));
    let e = s.len() - 1;
    assert forall|k: int| n + 3 <= k < e implies literal_in(#[trigger] s[k], st3) by {
        assert(s[k] == b[k - n - 3]);
    }
    lemma_literal_run(s, n + 3, e, st3);
    assert(s.subrange(n + 3, e) =~= b);
    let st4 = Lex { cur: st3.cur + b, ..st3 };
    let st5 = Lex { double: false, ..st4 };
    assert(lex_step(s, e, st4) == (st5, e + 1));
    assert(lex_from(s, e + 1, st5) == st5);
    assert(st5.cur =~= a + escape_text(c, true) + b);
}

/// The state of normalising a line: the text so far, whether unquoted white
/// space has been seen since its last character, and the quote state.
pub struct Norm {
    pub out: Seq<char>,
    pub gap: bool,
    pub single: bool,
    pub double: bool,
}

/// One character of normalisation: quote characters that open or close
/// quotes are dropped, unquoted white space becomes a pending gap, and any
/// other character is kept, after one space where a gap separates it from
/// earlier text.
pub open spec fn norm_step(c: char, st: Norm) -> Norm {
    if c == '"' && !st.single {
        Norm { double: !st.double, ..st }
    } else if c == '\'' && !st.double {
        Norm { single: !st.single, ..st }
    } else if is_space(c) && !st.single && !st.double {
        Norm { gap: true, ..st }
    } else {
        let out = if st.gap && st.out.len() > 0 {
            st.out.push(' ')
        } else {
            st.out
        };
        Norm { out: out.push(c), gap: false, ..st }
    }
}

pub open spec fn norm_from(s: Seq<char>, i: int, st: Norm) -> Norm
    decreases s.len() - i,
{
    if 0 <= i < s.len() {
        norm_from(s, i + 1, norm_step(s[i], st))
    } else {
        st
    }
}

/// The line with its quote delimiters removed, each run of unquoted white
/// space between two kept characters turned into one space, and the runs
/// at both ends dropped.
pub open spec fn normalized(s: Seq<char>) -> Seq<char> {
    norm_from(s, 0, Norm { out: Seq::empty(), gap: false, single: false, double: false }).out
}

spec fn agree(l: Lex, m: Norm) -> bool {
    &&& l.single == m.single
    &&& l.double == m.double
    &&& !(l.single && l.double)
    &&& forall|k: int| 0 <= k < l.words.len() ==> (#[trigger] l.words[k]).len() > 0
    &&& m.out == join_words(finish(l))
    &&& (m.out.len() == 0 <==> (l.words.len() == 0 && l.cur.len() == 0))
    &&& m.out.len() > 0 ==> (m.gap <==> l.cur.len() == 0)
}

proof fn lemma_join_nonempty(ws: Seq<Seq<char>>)
    requires
        ws.len() > 0,
        ws.last().len() > 0,
    ensures
        join_words(ws).len() > 0,
{
    lemma_join_push(ws.drop_last(), ws.last());
    assert(ws.drop_last().push(ws.last()) =~= ws);
}

proof fn lemma_agree_from(s: Seq<char>, i: int, l: Lex, m: Norm)
    requires
        0 <= i <= s.len(),
        forall|k: int| 0 <= k < s.len() ==> #[trigger] s[k] != '\\',
        agree(l, m),
    ensures
        join_words(finish(lex_from(s, i, l))) == norm_from(s, i, m).out,
    decreases s.len() - i,
{
    if i < s.len() {
        let c = s[i];
        let (l2, j) = lex_step(s, i, l);
        let m2 = norm_step(c, m);
        assert(j == i + 1);
        if c == '"' && !l.single {
        } else if c == '\'' && !l.double {
        } else if is_space(c) && !l.single && !l.double {
            if l.cur.len() > 0 {
                assert(finish(l2) == finish(l));
            }
        } else {
            assert(l2.cur == l.cur.push(c));
            assert(l2.words == l.words);
            assert(finish(l2) == l.words.push(l.cur.push(c)));
            lemma_join_push(l.words, l.cur.push(c));
            if l.cur.len() > 0 {
                lemma_join_push(l.words, l.cur);
                assert(finish(l) == l.words.push(l.cur));
                assert(join_words(l.words).push(' ') + l.cur.push(c) =~= (join_words(l.words).push(
                    ' ',
                ) + l.cur).push(c));
                assert(l.words.len() == 0 ==> l.cur.push(c) =~= l.cur + seq![c]);
            } else if l.words.len() > 0 {
                assert(finish(l) == l.words);
                assert(l.words.last().len() > 0);
                lemma_join_nonempty(l.words);
                assert(join_words(l.words).push(' ') + l.cur.push(c) =~= join_words(
                    l.words,
                ).push(' ').push(c));
            } else {
                assert(l.cur.push(c) =~= seq![c]);
            }
            lemma_join_nonempty(finish(l2));
        }
        lemma_agree_from(s, i + 1, l2, m2);
    }
}

/// Rejoining the words of a line that holds no backslash, with one space
/// between words, gives the line with its quote delimiters removed and its
/// unquoted white space normalised: `echo "hello world"` gives the words
/// `echo` and `hello world`, and rejoined, `echo hello world`.
pub proof fn law_rejoin_words(s: Seq<char>)
    requires
        forall|k: int| 0 <= k < s.len() ==> #[trigger] s[k] != '\\',
    ensures
        join_words(words_of(s)) == normalized(s),
{
    let m = Norm { out: Seq::empty(), gap: false, single: false, double: false };
    assert(finish(lex_start()) =~= Seq::<Seq<char>>::empty());
    lemma_agree_from(s, 0, lex_start(), m);
}

/// Words that do not end in a redirection are clean: with fewer than two
/// words, or a second-to-last word that does not end in `>`, extraction
/// finds no redirection, so `parse_redirect` and `tokenize` hand the words
/// back unchanged.
pub proof fn law_clean_words_unchanged(ws: Seq<Seq<char>>)
    requires
        ws.len() < 2 || ws[ws.len() - 2].len() == 0 || ws[ws.len() - 2].last() != '>',
    ensures
        redirect_split(ws) == Ok::<Option<(u32, Seq<char>, RedirectType)>, Seq<char>>(None),
{
}

} // verus!
