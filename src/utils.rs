//! Writing lines of output, and the places where a command is looked for.
use vstd::prelude::*;
use vstd::utf8::encode_utf8;

use crate::text::{chars_of, push_str};

verus! {

/// The bytes of one line of output: the UTF-8 encoding of `s`, then a newline.
pub open spec fn line_of(s: Seq<char>) -> Seq<u8> {
    encode_utf8(s).push(10u8)
}

/// Appends `content` and a newline to `out`.
pub fn write_line(out: &mut Vec<u8>, content: &str)
    ensures
        final(out)@ == old(out)@ + line_of(content@),
{
    let bytes = content.as_bytes();
    let mut i: usize = 0;
    while i < bytes.len()
        invariant
            i <= bytes@.len(),
            bytes@ == encode_utf8(content@),
            out@ == old(out)@ + bytes@.subrange(0, i as int),
        decreases bytes@.len() - i,
    {
        out.push(bytes[i]);
        i = i + 1;
        assert(bytes@.subrange(0, i as int) =~= bytes@.subrange(0, i - 1).push(bytes@[i - 1]));
    }
    assert(bytes@.subrange(0, i as int) =~= bytes@);
    out.push(10u8);
}

/// The entries of a search-path value separated by `:`; an empty value, or
/// two `:` side by side, give an empty entry.
pub open spec fn path_entries(s: Seq<char>) -> Seq<Seq<char>>
    decreases s.len(),
{
    if s.len() == 0 {
        seq![Seq::empty()]
    } else {
        let p = path_entries(s.drop_last());
        if s.last() == ':' {
            p.push(Seq::empty())
        } else {
            p.update(p.len() - 1, p.last().push(s.last()))
        }
    }
}

pub proof fn lemma_path_entries_nonempty(s: Seq<char>)
    ensures
        path_entries(s).len() >= 1,
    decreases s.len(),
{
    if s.len() > 0 {
        lemma_path_entries_nonempty(s.drop_last());
    }
}

/// `<dir>/<name>`.
pub open spec fn joined_path(dir: Seq<char>, name: Seq<char>) -> Seq<char> {
    dir.push('/') + name
}

/// The paths at which `name` is looked for, one per entry of `path_var`, in
/// the order of the entries.
pub open spec fn candidates(path_var: Seq<char>, name: Seq<char>) -> Seq<Seq<char>> {
    path_entries(path_var).map_values(|d: Seq<char>| joined_path(d, name))
}

/// The paths `<dir>/<name>` for each entry `dir` of the search-path value
/// `path_var`, in order. The first of them that is an executable regular
/// file is where `name` resolves.
pub fn search_candidates(path_var: &str, name: &str) -> (r: Vec<String>)
    ensures
        r.deep_view() == candidates(path_var@, name@),
{
    let cs = chars_of(path_var);
    let mut out: Vec<String> = Vec::new();
    let mut dir = String::new();
    let mut i: usize = 0;
    proof {
        assert(cs@.subrange(0, 0) =~= Seq::<char>::empty());
    }
    while i < cs.len()
        invariant
            i <= cs@.len(),
            cs@ == path_var@,
            path_entries(cs@.subrange(0, i as int)).len() == out@.len() + 1,
            dir@ == path_entries(cs@.subrange(0, i as int)).last(),
            forall|k: int|
                0 <= k < out@.len() ==> #[trigger] out@[k]@ == joined_path(
                    path_entries(cs@.subrange(0, i as int))[k],
                    name@,
                ),
        decreases cs@.len() - i,
    {
        let c = cs[i];
        let ghost before = cs@.subrange(0, i as int);
        proof {
            assert(cs@.subrange(0, i + 1).drop_last() =~= before);
            lemma_path_entries_nonempty(before);
        }
        if c == ':' {
            let mut full = dir;
            full.push('/');
            push_str(&mut full, name);
            out.push(full);
            dir = String::new();
        } else {
            dir.push(c);
        }
        i = i + 1;
    }
    proof {
        assert(cs@.subrange(0, i as int) =~= path_var@);
    }
    let mut full = dir;
    full.push('/');
    push_str(&mut full, name);
    out.push(full);
    assert(out.deep_view() =~= candidates(path_var@, name@));
    out
}

} // verus!
