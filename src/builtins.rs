//! The fixed registry of builtin commands and what each of them writes.
//!
//! A builtin writes whole lines into two byte buffers, one for normal output
//! and one for diagnostics; the caller hands the buffers on to wherever the
//! streams go. What a builtin needs to know of the system (where a command
//! resolves, the working directory, whether changing it succeeded) is
//! handed in as plain values.
use vstd::prelude::*;

use crate::text::{chars_of, i32_of, join_words, parse_i32, push_chars, push_str};
use crate::utils::{line_of, write_line};

verus! {

/// What the shell loop does after a builtin: read the next line, or end the
/// process with the given status.
#[derive(Debug, Clone, Copy, PartialEq, Eq, Structural)]
pub enum BuiltinFlow {
    Continue,
    Exit(i32),
}

/// The builtin commands.
#[derive(Debug, Clone, Copy, PartialEq, Eq, Structural)]
pub enum BuiltinKind {
    Exit,
    Echo,
    Type,
    Pwd,
    Cd,
}

/// The builtin that a command name denotes, if any.
pub open spec fn builtin_named(name: Seq<char>) -> Option<BuiltinKind> {
    if name == "exit"@ {
        Some(BuiltinKind::Exit)
    } else if name == "echo"@ {
        Some(BuiltinKind::Echo)
    } else if name == "type"@ {
        Some(BuiltinKind::Type)
    } else if name == "pwd"@ {
        Some(BuiltinKind::Pwd)
    } else if name == "cd"@ {
        Some(BuiltinKind::Cd)
    } else {
        None
    }
}

/// The registry of builtin commands, by name.
pub struct Builtins {
    registry: Vec<(String, BuiltinKind)>,
}

impl Builtins {
    #[verifier::type_invariant]
    spec fn complete(&self) -> bool {
        &&& self.registry@.len() == 5
        &&& self.registry@[0].0@ == "exit"@ && self.registry@[0].1 == BuiltinKind::Exit
        &&& self.registry@[1].0@ == "echo"@ && self.registry@[1].1 == BuiltinKind::Echo
        &&& self.registry@[2].0@ == "type"@ && self.registry@[2].1 == BuiltinKind::Type
        &&& self.registry@[3].0@ == "pwd"@ && self.registry@[3].1 == BuiltinKind::Pwd
        &&& self.registry@[4].0@ == "cd"@ && self.registry@[4].1 == BuiltinKind::Cd
    }

    /// The registry of the five builtins `exit`, `echo`, `type`, `pwd` and `cd`.
    pub fn new() -> Self {
        let mut registry: Vec<(String, BuiltinKind)> = Vec::new();
        registry.push(("exit".to_owned(), BuiltinKind::Exit));
        registry.push(("echo".to_owned(), BuiltinKind::Echo));
        registry.push(("type".to_owned(), BuiltinKind::Type));
        registry.push(("pwd".to_owned(), BuiltinKind::Pwd));
        registry.push(("cd".to_owned(), BuiltinKind::Cd));
        Builtins { registry }
    }

    /// The builtin registered under `name`.
    pub fn get(&self, name: &str) -> (r: Option<BuiltinKind>)
        ensures
            r == builtin_named(name@),
    {
        proof {
            use_type_invariant(self);
        }
        let key = name.to_owned();
        let mut i: usize = 0;
        while i < self.registry.len()
            invariant
                i <= self.registry@.len(),
                self.complete(),
                key@ == name@,
                forall|k: int| 0 <= k < i ==> self.registry@[k].0@ != name@,
            decreases self.registry@.len() - i,
        {
            if self.registry[i].0 == key {
                return Some(self.registry[i].1);
            }
            i = i + 1;
        }
        None
    }

    /// Whether `name` is a builtin.
    pub fn is_builtin(&self, name: &str) -> (r: bool)
        ensures
            r == builtin_named(name@) is Some,
    {
        self.get(name).is_some()
    }

    /// `exit [code]`: with no argument ends the process with status 0, with
    /// an integer argument with that status; with any other argument it
    /// reports that a number is needed and the shell goes on.
    pub fn builtin_exit(
        &self,
        parts: &[String],
        stdout_writer: &mut Vec<u8>,
        stderr_writer: &mut Vec<u8>,
    ) -> (r: BuiltinFlow)
        ensures
            final(stdout_writer)@ == old(stdout_writer)@,
            parts@.len() <= 1 ==> r == BuiltinFlow::Exit(0) && final(stderr_writer)@ == old(stderr_writer)@,
            parts@.len() > 1 ==> match i32_of(parts@[1]@) {
                Some(code) => r == BuiltinFlow::Exit(code) && final(stderr_writer)@ == old(stderr_writer)@,
                None => r == BuiltinFlow::Continue && final(stderr_writer)@ == old(stderr_writer)@ + line_of(exit_usage_message(parts@[1]@)),
            },
    {
        if parts.len() > 1 {
            let arg = chars_of(parts[1].as_str());
            match parse_i32(arg.as_slice()) {
                Some(code) => BuiltinFlow::Exit(code),
                None => {
                    let mut msg = String::new();
                    push_str(&mut msg, "exit: ");
                    push_str(&mut msg, parts[1].as_str());
                    push_str(&mut msg, ": numeric argument required");
                    write_line(stderr_writer, msg.as_str());
                    BuiltinFlow::Continue
                },
            }
        } else {
            BuiltinFlow::Exit(0)
        }
    }

    /// `echo [args...]`: writes the arguments, joined by single spaces, as
    /// one line.
    pub fn builtin_echo(
        &self,
        parts: &[String],
        stdout_writer: &mut Vec<u8>,
        stderr_writer: &mut Vec<u8>,
    ) -> (r: BuiltinFlow)
        requires
            parts@.len() >= 1,
        ensures
            r == BuiltinFlow::Continue,
            final(stdout_writer)@ == old(stdout_writer)@ + line_of(
                join_words(parts.deep_view().drop_first()),
            ),
            final(stderr_writer)@ == old(stderr_writer)@,
    {
        let ghost args = parts.deep_view().drop_first();
        let mut message = String::new();
        let mut i: usize = 1;
        while i < parts.len()
            invariant
                1 <= i <= parts@.len(),
                args == parts.deep_view().drop_first(),
                message@ == join_words(args.subrange(0, i - 1)),
            decreases parts@.len() - i,
        {
            proof {
                crate::text::lemma_join_push(args.subrange(0, i - 1), parts@[i as int]@);
                assert(args.subrange(0, i as int) =~= args.subrange(0, i - 1).push(
                    parts@[i as int]@,
                ));
            }
            if i > 1 {
                message.push(' ');
            }
            push_str(&mut message, parts[i].as_str());
            i = i + 1;
        }
        assert(args.subrange(0, i - 1) =~= args);
        write_line(stdout_writer, message.as_str());
        BuiltinFlow::Continue
    }

    /// `type <name>`: says whether `name` is a builtin, or where the search
    /// for executables found it. `found` is the path at which that search
    /// found `name` (the first executable regular file among
    /// `search_candidates`), if it did; it is not looked at for a builtin.
    pub fn builtin_type(
        &self,
        parts: &[String],
        stdout_writer: &mut Vec<u8>,
        stderr_writer: &mut Vec<u8>,
        found: Option<String>,
    ) -> (r: BuiltinFlow)
        ensures
            r == BuiltinFlow::Continue,
            parts@.len() != 2 ==> final(stdout_writer)@ == old(stdout_writer)@ && final(stderr_writer)@ == old(stderr_writer)@ + line_of("type only accepts 2 arguments"@),
            parts@.len() == 2 && builtin_named(parts@[1]@) is Some ==> final(stdout_writer)@ == old(stdout_writer)@ + line_of(parts@[1]@ + " is a shell builtin"@) && final(stderr_writer)@ == old(stderr_writer)@,
            parts@.len() == 2 && builtin_named(parts@[1]@) is None ==> match found {
                Some(path) => final(stdout_writer)@ == old(stdout_writer)@ + line_of(
                    parts@[1]@ + " is "@ + path@,
                ) && final(stderr_writer)@ == old(stderr_writer)@,
                None => final(stdout_writer)@ == old(stdout_writer)@ && final(stderr_writer)@
                    == old(stderr_writer)@ + line_of(parts@[1]@ + ": not found"@),
            },
    {
        if parts.len() != 2 {
            write_line(stderr_writer, "type only accepts 2 arguments");
            return BuiltinFlow::Continue;
        }
        let target = parts[1].as_str();
        let mut msg = String::new();
        push_str(&mut msg, target);
        if self.is_builtin(target) {
            push_str(&mut msg, " is a shell builtin");
            write_line(stdout_writer, msg.as_str());
            return BuiltinFlow::Continue;
        }
        match found {
            Some(path) => {
                push_str(&mut msg, " is ");
                push_str(&mut msg, path.as_str());
                write_line(stdout_writer, msg.as_str());
            },
            None => {
                push_str(&mut msg, ": not found");
                write_line(stderr_writer, msg.as_str());
            },
        }
        BuiltinFlow::Continue
    }

    /// `pwd`: writes the working directory, given as `cwd`, or says that it
    /// could not be determined.
    pub fn builtin_pwd(
        &self,
        parts: &[String],
        stdout_writer: &mut Vec<u8>,
        stderr_writer: &mut Vec<u8>,
        cwd: Option<String>,
    ) -> (r: BuiltinFlow)
        ensures
            r == BuiltinFlow::Continue,
            match cwd {
                Some(dir) => final(stdout_writer)@ == old(stdout_writer)@ + line_of(dir@) && final(stderr_writer)@ == old(stderr_writer)@,
                None => final(stdout_writer)@ == old(stdout_writer)@ && final(stderr_writer)@
                    == old(stderr_writer)@ + line_of("Can't find current directory"@),
            },
    {
        match cwd {
            Some(dir) => write_line(stdout_writer, dir.as_str()),
            None => write_line(stderr_writer, "Can't find current directory"),
        }
        BuiltinFlow::Continue
    }

    /// The directory that `cd` changes into: its one argument with a leading
    /// `~` expanded against `home`; `None` where it has not exactly one
    /// argument.
    pub fn cd_target(&self, parts: &[String], home: Option<String>) -> (r: Option<String>)
        ensures
            parts@.len() != 2 ==> r is None,
            parts@.len() == 2 ==> (r matches Some(dir) && dir@ == home_expanded(
                parts@[1]@,
                text_of(home),
            )),
    {
        if parts.len() != 2 {
            return None;
        }
        Some(expand_home(parts[1].as_str(), home))
    }

    /// `cd <dir>`: reports a wrong number of arguments, or, where changing
    /// into the target of `cd_target` failed (`changed` is false), that the
    /// directory does not exist.
    pub fn builtin_cd(
        &self,
        parts: &[String],
        stdout_writer: &mut Vec<u8>,
        stderr_writer: &mut Vec<u8>,
        changed: bool,
    ) -> (r: BuiltinFlow)
        ensures
            r == BuiltinFlow::Continue,
            final(stdout_writer)@ == old(stdout_writer)@,
            parts@.len() != 2 ==> final(stderr_writer)@ == old(stderr_writer)@ + line_of(
                "cd only accepts 1 argument"@,
            ),
            parts@.len() == 2 && changed ==> final(stderr_writer)@ == old(stderr_writer)@,
            parts@.len() == 2 && !changed ==> final(stderr_writer)@ == old(stderr_writer)@
                + line_of(parts@[1]@ + ": No such file or directory"@),
    {
        if parts.len() != 2 {
            write_line(stderr_writer, "cd only accepts 1 argument");
        } else if !changed {
            let mut msg = String::new();
            push_str(&mut msg, parts[1].as_str());
            push_str(&mut msg, ": No such file or directory");
            write_line(stderr_writer, msg.as_str());
        }
        BuiltinFlow::Continue
    }
}

/// The characters of an optional string.
pub open spec fn text_of(s: Option<String>) -> Option<Seq<char>> {
    match s {
        Some(t) => Some(t@),
        None => None,
    }
}

pub open spec fn exit_usage_message(arg: Seq<char>) -> Seq<char> {
    "exit: "@ + arg + ": numeric argument required"@
}

/// `s` without the run of `c` at its start.
pub open spec fn strip_leading(s: Seq<char>, c: char) -> Seq<char>
    decreases s.len(),
{
    if s.len() > 0 && s[0] == c {
        strip_leading(s.drop_first(), c)
    } else {
        s
    }
}

/// A path argument with a leading `~` replaced by the home directory: `~`
/// alone (or a run of them) is the home directory, `~/rest` is
/// `<home>/rest`. Without a home directory, or without a leading `~`, the
/// argument is kept as it is.
pub open spec fn home_expanded(arg: Seq<char>, home: Option<Seq<char>>) -> Seq<char> {
    match home {
        Some(h) => if arg.len() > 0 && arg[0] == '~' {
            let rest = strip_leading(arg, '~');
            if rest.len() == 0 {
                h
            } else {
                h.push('/') + strip_leading(rest, '/')
            }
        } else {
            arg
        },
        None => arg,
    }
}

/// The index of the first character from `from` on that is not `c`.
fn skip_run(cs: &[char], from: usize, c: char) -> (r: usize)
    requires
        from <= cs@.len(),
    ensures
        from <= r <= cs@.len(),
        strip_leading(cs@.subrange(from as int, cs@.len() as int), c) == cs@.subrange(
            r as int,
            cs@.len() as int,
        ),
    decreases cs@.len() - from,
{
    let n = cs.len();
    if from < n && cs[from] == c {
        assert(cs@.subrange(from as int, n as int).drop_first() =~= cs@.subrange(
            from + 1,
            n as int,
        ));
        skip_run(cs, from + 1, c)
    } else {
        from
    }
}

/// Expands a leading `~` of a `cd` argument against the home directory.
pub fn expand_home(arg: &str, home: Option<String>) -> (r: String)
    ensures
        r@ == home_expanded(arg@, text_of(home)),
{
    let cs = chars_of(arg);
    let n = cs.len();
    assert(cs@.subrange(0, n as int) =~= cs@);
    match home {
        Some(h) => {
            if n > 0 && cs[0] == '~' {
                let after_tildes = skip_run(cs.as_slice(), 0, '~');
                if after_tildes == n {
                    h
                } else {
                    let after_slashes = skip_run(cs.as_slice(), after_tildes, '/');
                    let mut dir = h;
                    dir.push('/');
                    push_chars(&mut dir, cs.as_slice(), after_slashes, n);
                    dir
                }
            } else {
                arg.to_owned()
            }
        },
        None => arg.to_owned(),
    }
}

} // verus!
