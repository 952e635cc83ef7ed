//! Splitting a command line into words, and taking an output redirection
//! off the end of the words.
use vstd::prelude::*;

use crate::text::{
    all_digits, chars_of, digits_at_most, digits_value, is_space, is_whitespace, push_chars,
    push_str,
};

verus! {

/// How a redirection opens its file: `>` truncates or creates it, `>>`
/// creates it if needed and appends to it.
#[derive(Debug, Clone, Copy, PartialEq, Eq, Structural)]
pub enum RedirectType {
    CREATE,
    APPEND,
}

/// An output redirection: the stream it applies to, the file, and the mode.
#[derive(Debug, Clone)]
pub struct Redirect {
    pub fd: u32,
    pub target: String,
    pub redirect_type: RedirectType,
}

/// The state of the word scan: the finished words, the word being built,
/// and whether the scan is inside single or inside double quotes.
pub struct Lex {
    pub words: Seq<Seq<char>>,
    pub cur: Seq<char>,
    pub single: bool,
    pub double: bool,
}

pub open spec fn lex_start() -> Lex {
    Lex { words: Seq::empty(), cur: Seq::empty(), single: false, double: false }
}

/// The characters that a backslash escapes inside double quotes.
pub open spec fn escapable_in_double(c: char) -> bool {
    c == '"' || c == '$' || c == '\\' || c == '`' || c == '\n'
}

/// What a backslash followed by `n` contributes to a word: `n` itself, but
/// inside double quotes both characters where `n` is not escapable there.
pub open spec fn escape_text(n: char, double: bool) -> Seq<char> {
    if double && !escapable_in_double(n) {
        seq!['\\', n]
    } else {
        seq![n]
    }
}

/// One step of the scan at position `i`: the next state, and the position
/// after the characters consumed.
pub open spec fn lex_step(s: Seq<char>, i: int, st: Lex) -> (Lex, int) {
    let c = s[i];
    if c == '\\' && !st.single {
        if i + 1 < s.len() {
            (Lex { cur: st.cur + escape_text(s[i + 1], st.double), ..st }, i + 2)
        } else {
            (Lex { cur: st.cur.push('\\'), ..st }, i + 1)
        }
    } else if c == '"' && !st.single {
        (Lex { double: !st.double, ..st }, i + 1)
    } else if c == '\'' && !st.double {
        (Lex { single: !st.single, ..st }, i + 1)
    } else if is_space(c) && !st.single && !st.double {
        if st.cur.len() > 0 {
            (Lex { words: st.words.push(st.cur), cur: Seq::empty(), ..st }, i + 1)
        } else {
            (st, i + 1)
        }
    } else {
        (Lex { cur: st.cur.push(c), ..st }, i + 1)
    }
}

/// The state after scanning `s` from position `i` on, starting in `st`.
pub open spec fn lex_from(s: Seq<char>, i: int, st: Lex) -> Lex
    decreases s.len() - i,
{
    if 0 <= i < s.len() {
        let (next, j) = lex_step(s, i, st);
        if i < j {
            lex_from(s, j, next)
        } else {
            next
        }
    } else {
        st
    }
}

/// The words of a finished scan: a pending non-empty word is the last one.
pub open spec fn finish(st: Lex) -> Seq<Seq<char>> {
    if st.cur.len() > 0 {
        st.words.push(st.cur)
    } else {
        st.words
    }
}

/// The words of a command line.
pub open spec fn words_of(s: Seq<char>) -> Seq<Seq<char>> {
    finish(lex_from(s, 0, lex_start()))
}

/// Handles the character after a backslash at `next - 1`: appends what
/// the escape contributes and returns the position after it. A backslash
/// at the end of the line is kept as it is.
fn handle_escape(current_token: &mut String, chars: &[char], next: usize, in_double: bool) -> (r:
    usize)
    requires
        1 <= next <= chars@.len(),
    ensures
        next < chars@.len() ==> r == next + 1 && final(current_token)@ == old(current_token)@
            + escape_text(chars@[next as int], in_double),
        next == chars@.len() ==> r == next && final(current_token)@ == old(
            current_token,
        )@.push('\\'),
{
    if next < chars.len() {
        let n = chars[next];
        if in_double && !(n == '"' || n == '$' || n == '\\' || n == '`' || n == '\n') {
            current_token.push('\\');
            current_token.push(n);
            assert(old(current_token)@.push('\\').push(n) =~= old(current_token)@ + seq!['\\', n]);
        } else {
            current_token.push(n);
            assert(old(current_token)@.push(n) =~= old(current_token)@ + seq![n]);
        }
        next + 1
    } else {
        current_token.push('\\');
        next
    }
}

/// Splits a command line into words: unquoted white space separates words,
/// quote characters are removed, and backslash escapes are resolved.
pub fn split_words(input: &str) -> (r: Vec<String>)
    ensures
        r.deep_view() == words_of(input@),
{
    let cs = chars_of(input);
    let mut words: Vec<String> = Vec::new();
    let mut cur = String::new();
    let mut single = false;
    let mut double = false;
    let mut i: usize = 0;
    assert(words.deep_view() =~= Seq::<Seq<char>>::empty());
    while i < cs.len()
        invariant
            i <= cs@.len(),
            cs@ == input@,
            lex_from(cs@, i as int, Lex { words: words.deep_view(), cur: cur@, single, double })
                == lex_from(cs@, 0, lex_start()),
        decreases cs@.len() - i,
    {
        let ghost st = Lex { words: words.deep_view(), cur: cur@, single, double };
        let ghost i0 = i as int;
        let c = cs[i];
        if c == '\\' && !single {
            i = handle_escape(&mut cur, cs.as_slice(), i + 1, double);
        } else if c == '"' && !single {
            double = !double;
            i = i + 1;
        } else if c == '\'' && !double {
            single = !single;
            i = i + 1;
        } else if is_whitespace(c) && !single && !double {
            if !cur.as_str().is_empty() {
                words.push(cur);
                cur = String::new();
                assert(words.deep_view() =~= st.words.push(st.cur));
            }
            i = i + 1;
        } else {
            cur.push(c);
            i = i + 1;
        }
        assert(lex_step(cs@, i0, st) == (
        Lex { words: words.deep_view(), cur: cur@, single, double },
        i as int,
        ));
    }
    if !cur.as_str().is_empty() {
        let ghost w = words.deep_view();
        words.push(cur);
        assert(words.deep_view() =~= w.push(cur@));
    }
    words
}

/// The operator that ends a word, if any, with what stands before it:
/// `>>` means APPEND, a single `>` means CREATE.
pub open spec fn operator_of(t: Seq<char>) -> Option<(RedirectType, Seq<char>)> {
    if t.len() >= 2 && t[t.len() - 1] == '>' && t[t.len() - 2] == '>' {
        Some((RedirectType::APPEND, t.subrange(0, t.len() - 2)))
    } else if t.len() >= 1 && t[t.len() - 1] == '>' {
        Some((RedirectType::CREATE, t.subrange(0, t.len() - 1)))
    } else {
        None
    }
}

/// The stream that the text before an operator names: standard output
/// when there is none, else the number of a clean run of digits that fits
/// in a `u32`.
pub open spec fn fd_of(prefix: Seq<char>) -> Option<u32> {
    if prefix.len() == 0 {
        Some(1)
    } else if all_digits(prefix) && digits_value(prefix) <= u32::MAX {
        Some(digits_value(prefix) as u32)
    } else {
        None
    }
}

pub open spec fn invalid_fd_message(prefix: Seq<char>) -> Seq<char> {
    "invalid file descriptor: "@ + prefix
}

/// What redirect extraction makes of a word sequence: no redirection
/// (fewer than two words, or the second-to-last word is no operator), a
/// redirection given as stream, file and mode, or the error message for an
/// operator with a malformed stream number.
pub open spec fn redirect_split(ws: Seq<Seq<char>>) -> Result<
    Option<(u32, Seq<char>, RedirectType)>,
    Seq<char>,
> {
    if ws.len() < 2 {
        Ok(None)
    } else {
        match operator_of(ws[ws.len() - 2]) {
            None => Ok(None),
            Some((mode, prefix)) => match fd_of(prefix) {
                Some(fd) => Ok(Some((fd, ws[ws.len() - 1], mode))),
                None => Err(invalid_fd_message(prefix)),
            },
        }
    }
}

/// Whether `r` is the redirection that `d` describes.
pub open spec fn describes(r: Redirect, d: (u32, Seq<char>, RedirectType)) -> bool {
    r.fd == d.0 && r.target@ == d.1 && r.redirect_type == d.2
}

/// Takes a trailing redirection off `tokens`. Where the second-to-last
/// word is `>` or `>>`, optionally after a stream number, that word and the
/// file name after it are removed and returned as a redirection; any other
/// sequence is left as it is.
pub fn parse_redirect(tokens: &mut Vec<String>) -> (r: Result<Option<Redirect>, String>)
    ensures
        ({
            let before = old(tokens).deep_view();
            let after = final(tokens).deep_view();
            match redirect_split(before) {
                Ok(None) => r matches Ok(None) && after == before,
                Ok(Some(d)) => r matches Ok(Some(x)) && describes(x, d) && after
                    == before.subrange(0, before.len() - 2),
                Err(m) => r matches Err(e) && e@ == m && after == before,
            }
        }),
{
    let n = tokens.len();
    if n < 2 {
        return Ok(None);
    }
    let ghost ws = tokens.deep_view();
    assert(ws[n - 2] == tokens@[n - 2]@);
    let op = chars_of(tokens[n - 2].as_str());
    let k = op.len();
    let mode;
    let plen: usize;
    if k >= 2 && op[k - 1] == '>' && op[k - 2] == '>' {
        mode = RedirectType::APPEND;
        plen = k - 2;
    } else if k >= 1 && op[k - 1] == '>' {
        mode = RedirectType::CREATE;
        plen = k - 1;
    } else {
        return Ok(None);
    }
    assert(operator_of(ws[n - 2]) == Some((mode, op@.subrange(0, plen as int))));
    let fd: u32;
    if plen == 0 {
        fd = 1;
    } else {
        match digits_at_most(op.as_slice(), 0, plen, 0xffff_ffff) {
            Some(v) => {
                fd = v as u32;
            },
            None => {
                let mut msg = String::new();
                push_str(&mut msg, "invalid file descriptor: ");
                push_chars(&mut msg, op.as_slice(), 0, plen);
                return Err(msg);
            },
        }
    }
    let target = tokens.pop().unwrap();
    tokens.pop();
    assert(tokens.deep_view() =~= ws.subrange(0, n - 2));
    Ok(Some(Redirect { fd, target, redirect_type: mode }))
}

/// Splits a command line into words and takes a trailing output
/// redirection off them.
pub fn tokenize(input: &str) -> (r: Result<(Vec<String>, Option<Redirect>), String>)
    ensures
        match redirect_split(words_of(input@)) {
            Ok(None) => r matches Ok((ws, None)) && ws.deep_view() == words_of(input@),
            Ok(Some(d)) => r matches Ok((ws, Some(x))) && describes(x, d) && ws.deep_view()
                == words_of(input@).subrange(0, words_of(input@).len() - 2),
            Err(m) => r matches Err(e) && e@ == m,
        },
{
    let mut tokens = split_words(input);
    match parse_redirect(&mut tokens) {
        Ok(redirect) => Ok((tokens, redirect)),
        Err(e) => Err(e),
    }
}

} // verus!
