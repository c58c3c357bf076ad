//! The first commander: a command is typed as its name, a space and its
//! arguments.
use vstd::prelude::*;
use vstd::string::StrSliceExecFns;
use crate::chars::string_push;
use crate::parser::{char_is_whitespace, trim};

verus! {

/// The position of the first space of the input.
pub open spec fn first_space(input: Seq<char>) -> Option<int>
    decreases input.len(),
{
    if input.len() == 0 {
        None
    } else {
        match first_space(input.drop_last()) {
            Some(i) => Some(i),
            None => if input.last() == ' ' {
                Some(input.len() - 1)
            } else {
                None
            },
        }
    }
}

/// The position of the first name equal to `name`.
pub open spec fn first_named(names: Seq<Seq<char>>, name: Seq<char>) -> Option<int>
    decreases names.len(),
{
    if names.len() == 0 {
        None
    } else {
        match first_named(names.drop_last(), name) {
            Some(i) => Some(i),
            None => if names.last() == name {
                Some(names.len() - 1)
            } else {
                None
            },
        }
    }
}

/// What submitting the input runs: the input is split at its first space
/// into a name and the rest; the first command with that name runs with the
/// rest, trimmed.  Nothing runs without a space or without such a command.
pub open spec fn submitted(names: Seq<Seq<char>>, input: Seq<char>) -> Option<(int, Seq<char>)> {
    match first_space(input) {
        None => None,
        Some(sep) => match first_named(names, input.take(sep)) {
            None => None,
            Some(k) => Some((k, trim(input.skip(sep)))),
        },
    }
}

proof fn lemma_first_space_prefix(input: Seq<char>, n: int)
    requires
        0 <= n <= input.len(),
        first_space(input.take(n)) is Some,
    ensures
        first_space(input) == first_space(input.take(n)),
    decreases input.len() - n,
{
    if n < input.len() {
        assert(input.take(n + 1).drop_last() =~= input.take(n));
        lemma_first_space_prefix(input, n + 1);
    } else {
        assert(input.take(n) =~= input);
    }
}

proof fn lemma_first_named_prefix(names: Seq<Seq<char>>, name: Seq<char>, n: int)
    requires
        0 <= n <= names.len(),
        first_named(names.take(n), name) is Some,
    ensures
        first_named(names, name) == first_named(names.take(n), name),
    decreases names.len() - n,
{
    if n < names.len() {
        assert(names.take(n + 1).drop_last() =~= names.take(n));
        lemma_first_named_prefix(names, name, n + 1);
    } else {
        assert(names.take(n) =~= names);
    }
}

/// The characters of `s` from `start` to `end`.
fn substring(s: &str, start: usize, end: usize) -> (out: String)
    requires
        start <= end <= s@.len(),
    ensures
        out@ == s@.subrange(start as int, end as int),
{
    let mut out = String::new();
    let mut k = start;
    while k < end
        invariant
            start <= k <= end <= s@.len(),
            out@ == s@.subrange(start as int, k as int),
        decreases end - k,
    {
        string_push(&mut out, s.get_char(k));
        k = k + 1;
        assert(out@ =~= s@.subrange(start as int, k as int));
    }
    out
}

/// The command that submitting `input` runs, as the position of its name
/// in `names`, with the arguments it runs with.
pub fn submit_target(names: &Vec<String>, input: &str) -> (target: Option<(usize, String)>)
    ensures
        match submitted(names@.map_values(|n: String| n@), input@) {
            None => target is None,
            Some((k, args)) => target matches Some((t, a)) && t == k && a@ == args,
        },
{
    let ghost views = names@.map_values(|n: String| n@);
    let n = input.unicode_len();
    let mut sep: usize = 0;
    while sep < n && input.get_char(sep) != ' '
        invariant
            sep <= n == input@.len(),
            first_space(input@.take(sep as int)) is None,
        decreases n - sep,
    {
        proof {
            assert(input@.take(sep + 1).drop_last() =~= input@.take(sep as int));
        }
        sep = sep + 1;
    }
    if sep == n {
        proof {
            assert(input@.take(sep as int) =~= input@);
        }
        return None;
    }
    proof {
        assert(input@.take(sep + 1).drop_last() =~= input@.take(sep as int));
        lemma_first_space_prefix(input@, sep + 1);
    }
    let name = substring(input, 0, sep);
    let mut k: usize = 0;
    while k < names.len()
        invariant
            k <= names@.len(),
            views == names@.map_values(|n: String| n@),
            sep < n == input@.len(),
            first_space(input@) == Some(sep as int),
            name@ == input@.subrange(0, sep as int),
            first_named(views.take(k as int), name@) is None,
        decreases names@.len() - k,
    {
        proof {
            assert(views.take(k + 1).drop_last() =~= views.take(k as int));
        }
        if names[k] == name {
            proof {
                lemma_first_named_prefix(views, name@, k + 1);
            }
            let (a, b) = trim_range(input, sep, n);
            let args = substring(input, a, b);
            proof {
                assert(input@.subrange(0, sep as int) =~= input@.take(sep as int));
            }
            return Some((k, args));
        }
        k = k + 1;
    }
    proof {
        assert(views.take(k as int) =~= views);
        assert(input@.subrange(0, sep as int) =~= input@.take(sep as int));
    }
    None
}

/// The bounds of the characters of `s` from `start` on that `str::trim` leaves.
fn trim_range(s: &str, start: usize, end: usize) -> (bounds: (usize, usize))
    requires
        start <= end == s@.len(),
    ensures
        start <= bounds.0 <= bounds.1 <= end,
        s@.subrange(bounds.0 as int, bounds.1 as int) == trim(s@.skip(start as int)),
{
    let mut chars: Vec<char> = Vec::new();
    let mut k = start;
    while k < end
        invariant
            start <= k <= end == s@.len(),
            chars@ == s@.subrange(start as int, k as int),
        decreases end - k,
    {
        chars.push(s.get_char(k));
        k = k + 1;
        assert(chars@ =~= s@.subrange(start as int, k as int));
    }
    assert(chars@ =~= s@.skip(start as int));
    let (a, b) = crate::parser::trim_bounds(&chars);
    assert(s@.subrange(start + a, start + b) =~= chars@.subrange(a as int, b as int));
    (start + a, start + b)
}

} // verus!
