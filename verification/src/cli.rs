//! Command-line arguments.
use vstd::prelude::*;

use crate::score::texts;
use crate::text::{lit, parse_usize, parse_value, str_eq};

verus! {

/// Where `name` first stands among the first `n` arguments.
pub open spec fn first_at(args: Seq<Seq<char>>, name: Seq<char>, n: nat) -> Option<int>
    decreases n,
{
    if n == 0 {
        None
    } else {
        match first_at(args, name, (n - 1) as nat) {
            Some(i) => Some(i),
            None => if args[n - 1] == name {
                Some(n - 1)
            } else {
                None
            },
        }
    }
}

/// The argument behind the first `name`.
pub open spec fn value_of(args: Seq<Seq<char>>, name: Seq<char>) -> Option<Seq<char>> {
    match first_at(args, name, args.len()) {
        Some(i) => if i + 1 < args.len() {
            Some(args[i + 1])
        } else {
            None
        },
        None => None,
    }
}

/// A position that is found holds the name, and none before it does.
pub proof fn lemma_first_at(args: Seq<Seq<char>>, name: Seq<char>, n: nat)
    requires
        n <= args.len(),
    ensures
        match first_at(args, name, n) {
            Some(i) => 0 <= i < n && args[i] == name && forall|k: int| 0 <= k < i ==> args[k] != name,
            None => forall|k: int| 0 <= k < n ==> args[k] != name,
        },
    decreases n,
{
    if n > 0 {
        lemma_first_at(args, name, (n - 1) as nat);
    }
}

fn position(args: &[String], name: &str) -> (r: Option<usize>)
    ensures
        match r {
            Some(i) => first_at(texts(args@), name@, args@.len()) == Some(i as int) && i < args@.len(),
            None => first_at(texts(args@), name@, args@.len()) is None,
        },
{
    for i in 0..args.len()
        invariant
            first_at(texts(args@), name@, i as nat) is None,
    {
        if str_eq(args[i].as_str(), name) {
            proof {
                lemma_found_early(texts(args@), name@, (i + 1) as nat, args@.len(), i as int);
            }
            return Some(i);
        }
    }
    None
}

proof fn lemma_found_early(args: Seq<Seq<char>>, name: Seq<char>, n: nat, m: nat, i: int)
    requires
        n <= m,
        first_at(args, name, n) == Some(i),
    ensures
        first_at(args, name, m) == Some(i),
    decreases m,
{
    if n < m {
        lemma_found_early(args, name, n, (m - 1) as nat, i);
    }
}

/// The argument behind the first `name`.
pub fn arg(args: &[String], name: &str) -> (r: Option<String>)
    ensures
        match r {
            Some(s) => value_of(texts(args@), name@) == Some(s@),
            None => value_of(texts(args@), name@) is None,
        },
{
    let n: usize = args.len();
    match position(args, name) {
        Some(i) => if i + 1 < n {
            Some(lit(args[i + 1].as_str()))
        } else {
            None
        },
        None => None,
    }
}

/// Whether `name` is among the arguments.
pub fn flag(args: &[String], name: &str) -> (r: bool)
    ensures
        r == texts(args@).contains(name@),
{
    let t = position(args, name);
    proof {
        lemma_first_at(texts(args@), name@, args@.len());
        match t {
            Some(i) => {
                assert(texts(args@)[i as int] == name@);
            },
            None => {
                assert forall|k: int| 0 <= k < texts(args@).len() implies texts(args@)[k] != name@ by {}
            },
        }
    }
    t.is_some()
}

/// The number behind `name`, or `default` where there is none or it does not
/// read as one.
pub fn number_arg(args: &[String], name: &str, default: usize) -> (r: usize)
    ensures
        r == match value_of(texts(args@), name@) {
            Some(s) => match parse_value(s, usize::MAX as nat) {
                Some(n) => n as usize,
                None => default,
            },
            None => default,
        },
{
    match arg(args, name) {
        Some(s) => match parse_usize(s.as_str()) {
            Some(n) => n,
            None => default,
        },
        None => default,
    }
}

/// Whether the arguments ask for help.
pub fn wants_help(args: &[String]) -> (r: bool)
    ensures
        r == (texts(args@).contains("--help"@) || texts(args@).contains("-h"@)),
{
    flag(args, "--help") || flag(args, "-h")
}

} // verus!
