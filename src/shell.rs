//! The decisions of the shell loop for one line of input.
//!
//! The loop itself (prompt, reading, opening redirect files, running
//! builtins or programs) belongs to the caller; `Shell::plan` says what a
//! line asks for, and the builtin registry carries it out.
use vstd::prelude::*;

use crate::builtins::{builtin_named, BuiltinKind, Builtins};
use crate::parser::{
    describes, lex_from, lex_start, redirect_split, tokenize, words_of, Redirect,
    RedirectType,
};
use crate::text::{chars_of, decimal, is_space, is_whitespace, push_chars, push_decimal, push_str};
use crate::utils::{line_of, write_line};

verus! {

/// A command to run: its words (the first names it), the redirection of
/// one of its output streams, if any (its stream is 1 or 2), and the
/// builtin that the first word denotes, if any.
#[derive(Debug)]
pub struct Command {
    pub parts: Vec<String>,
    pub redirect: Option<Redirect>,
    pub builtin: Option<BuiltinKind>,
}

/// What a line of input asks for.
#[derive(Debug)]
pub enum Plan {
    /// Nothing: the line is blank or has no words besides a redirection.
    Nothing,
    /// The line is abandoned with this diagnostic for the error stream.
    Fail(String),
    /// A command to run.
    Run(Command),
}

/// The interpreter: the builtin registry that every line is dispatched
/// against.
pub struct Shell {
    pub builtins: Builtins,
}

/// `s` without white space at its start.
pub open spec fn trim_start(s: Seq<char>) -> Seq<char>
    decreases s.len(),
{
    if s.len() > 0 && is_space(s[0]) {
        trim_start(s.drop_first())
    } else {
        s
    }
}

/// `s` without white space at its end.
pub open spec fn trim_end(s: Seq<char>) -> Seq<char>
    decreases s.len(),
{
    if s.len() > 0 && is_space(s.last()) {
        trim_end(s.drop_last())
    } else {
        s
    }
}

/// `s` without white space at either end.
pub open spec fn trimmed(s: Seq<char>) -> Seq<char> {
    trim_end(trim_start(s))
}

pub open spec fn stream_of(d: (u32, Seq<char>, RedirectType)) -> u32 {
    d.0
}

/// Only standard output and standard error can be redirected.
pub open spec fn stream_supported(d: (u32, Seq<char>, RedirectType)) -> bool {
    stream_of(d) == 1 || stream_of(d) == 2
}

pub open spec fn unsupported_fd_message(fd: u32) -> Seq<char> {
    "redirect for fd "@ + decimal(fd as nat) + " is not supported"@
}

pub open spec fn command_not_found_message(name: Seq<char>) -> Seq<char> {
    name + ": command not found"@
}

/// Whether `p` is what a line asks for: the line is trimmed, split into
/// words and a trailing redirection is taken off. A failed extraction, or a
/// redirection of a stream other than 1 and 2, abandons the line; no words
/// left means nothing to do; else the words are run, as the builtin that the
/// first word names where there is one.
pub open spec fn plans(line: Seq<char>, p: Plan) -> bool {
    let ws = words_of(trimmed(line));
    match redirect_split(ws) {
        Err(m) => p matches Plan::Fail(e) && e@ == m,
        Ok(x) => {
            let parts = if x is Some {
                ws.subrange(0, ws.len() - 2)
            } else {
                ws
            };
            if parts.len() == 0 {
                p is Nothing
            } else if x is Some && !stream_supported(x->0) {
                p matches Plan::Fail(e) && e@ == unsupported_fd_message(stream_of(x->0))
            } else {
                p matches Plan::Run(c) && c.parts.deep_view() == parts && c.builtin == builtin_named(
                    parts[0],
                ) && match x {
                    None => c.redirect is None,
                    Some(d) => c.redirect matches Some(y) && describes(y, d),
                }
            }
        },
    }
}

/// Trims white space off both ends of `line`.
fn trim(line: &str) -> (r: String)
    ensures
        r@ == trimmed(line@),
{
    let cs = chars_of(line);
    let n = cs.len();
    let mut lo: usize = 0;
    assert(cs@.subrange(0, n as int) =~= cs@);
    while lo < n && is_whitespace(cs[lo])
        invariant
            lo <= n == cs@.len(),
            cs@ == line@,
            trim_start(line@) == trim_start(cs@.subrange(lo as int, n as int)),
        decreases n - lo,
    {
        assert(cs@.subrange(lo as int, n as int).drop_first() =~= cs@.subrange(lo + 1, n as int));
        lo = lo + 1;
    }
    let mut hi: usize = n;
    while hi > lo && is_whitespace(cs[hi - 1])
        invariant
            lo <= hi <= n == cs@.len(),
            cs@ == line@,
            trimmed(line@) == trim_end(cs@.subrange(lo as int, hi as int)),
        decreases hi - lo,
    {
        assert(cs@.subrange(lo as int, hi as int).drop_last() =~= cs@.subrange(
            lo as int,
            hi - 1,
        ));
        hi = hi - 1;
    }
    let mut r = String::new();
    push_chars(&mut r, cs.as_slice(), lo, hi);
    assert(r@ =~= cs@.subrange(lo as int, hi as int));
    r
}

impl Shell {
    /// A shell with the registry of builtins.
    pub fn new() -> Self {
        Shell { builtins: Builtins::new() }
    }

    /// What `line` asks for.
    pub fn plan(&self, line: &str) -> (r: Plan)
        ensures
            plans(line@, r),
    {
        let t = trim(line);
        if t.as_str().is_empty() {
            assert(lex_from(t@, 0, lex_start()) == lex_start());
            assert(words_of(t@) =~= Seq::<Seq<char>>::empty());
            return Plan::Nothing;
        }
        match tokenize(t.as_str()) {
            Err(e) => Plan::Fail(e),
            Ok((parts, redirect)) => {
                if parts.len() == 0 {
                    return Plan::Nothing;
                }
                let ghost ws = parts.deep_view();
                assert(ws[0] == parts@[0]@);
                let builtin = self.builtins.get(parts[0].as_str());
                match redirect {
                    Some(d) => {
                        if d.fd != 1 && d.fd != 2 {
                            let mut msg = String::new();
                            push_str(&mut msg, "redirect for fd ");
                            push_decimal(&mut msg, d.fd);
                            push_str(&mut msg, " is not supported");
                            Plan::Fail(msg)
                        } else {
                            Plan::Run(Command { parts, redirect: Some(d), builtin })
                        }
                    },
                    None => Plan::Run(Command { parts, redirect: None, builtin }),
                }
            },
        }
    }

    /// Reports, on the diagnostic buffer, that `name` is neither a builtin
    /// nor found on the search path.
    pub fn report_missing(&self, name: &str, stderr_writer: &mut Vec<u8>)
        ensures
            final(stderr_writer)@ == old(stderr_writer)@ + line_of(command_not_found_message(name@)),
    {
        let mut msg = String::new();
        push_str(&mut msg, name);
        push_str(&mut msg, ": command not found");
        write_line(stderr_writer, msg.as_str());
    }
}

} // verus!
