//! A stand-in for the agent: where it writes its answer, and how it ends.

use crate::text::{lower, opt_view, str_eq, str_lower, views};
use vstd::prelude::*;
use vstd::string::*;

verus! {

/// What stands behind the first `-o` that something stands behind.
pub open spec fn output_of(args: Seq<Seq<char>>) -> Option<Seq<char>>
    decreases args.len(),
{
    if args.len() < 2 {
        None
    } else if args[0] == "-o"@ {
        Some(args[1])
    } else {
        output_of(args.drop_first())
    }
}

/// Where the answer is to be written.
pub fn parse_output_path(args: &Vec<String>) -> (r: Option<String>)
    ensures
        opt_view(r) == output_of(views(args@)),
{
    let ghost all = views(args@);
    let mut i: usize = 0;
    proof {
        assert(all.skip(0) =~= all);
    }
    while i < args.len() && args.len() - i >= 2
        invariant
            i <= args@.len(),
            all == views(args@),
            output_of(all) == output_of(all.skip(i as int)),
        decreases args.len() - i,
    {
        proof {
            assert(all.skip(i as int)[0] == args@[i as int]@);
            assert(all.skip(i as int)[1] == args@[i + 1]@);
            assert(all.skip(i as int).drop_first() =~= all.skip(i + 1));
        }
        if str_eq(args[i].as_str(), "-o") {
            return Some(args[i + 1].clone());
        }
        i = i + 1;
    }
    None
}

/// How the stand-in ends: after a long sleep, with a failure, without an answer, or with one.
#[derive(Clone, Copy, PartialEq, Eq, Structural, Debug)]
pub enum FakeMode {
    Timeout,
    Nonzero,
    NoOutput,
    Success,
}

impl FakeMode {
    /// The code with which the stand-in exits.
    pub fn exit_code(self) -> (r: i32)
        ensures
            r == (if self == FakeMode::Nonzero {
                7i32
            } else {
                0i32
            }),
    {
        match self {
            FakeMode::Nonzero => 7,
            _ => 0,
        }
    }
}

/// How the stand-in ends, by its setting: with an answer, unless something else is said.
pub fn mode(setting: &Option<String>) -> (r: FakeMode)
    ensures
        r == (match opt_view(*setting) {
            None => FakeMode::Success,
            Some(t) => if lower(t) == "timeout"@ {
                FakeMode::Timeout
            } else if lower(t) == "nonzero"@ {
                FakeMode::Nonzero
            } else if lower(t) == "no_output"@ {
                FakeMode::NoOutput
            } else {
                FakeMode::Success
            },
        }),
{
    match setting {
        None => FakeMode::Success,
        Some(t) => {
            let word = str_lower(t.as_str());
            if str_eq(word.as_str(), "timeout") {
                FakeMode::Timeout
            } else if str_eq(word.as_str(), "nonzero") {
                FakeMode::Nonzero
            } else if str_eq(word.as_str(), "no_output") {
                FakeMode::NoOutput
            } else {
                FakeMode::Success
            }
        },
    }
}

/// The answer is written to what stands behind the first option for it.
pub proof fn law_the_first_output_option_counts(args: Seq<Seq<char>>, k: int)
    requires
        0 <= k,
        k + 1 < args.len() ==> args[k] == "-o"@,
        forall|j: int| 0 <= j < k && j + 1 < args.len() ==> #[trigger] args[j] != "-o"@,
    ensures
        k + 1 < args.len() ==> output_of(args) == Some(args[k + 1]),
        k + 1 >= args.len() ==> output_of(args) is None,
    decreases args.len(),
{
    if args.len() >= 2 && k > 0 {
        assert(args[0] != "-o"@);
        let t = args.drop_first();
        assert forall|j: int| 0 <= j < k - 1 && j + 1 < t.len() implies #[trigger] t[j] != "-o"@ by {
            assert(t[j] == args[j + 1]);
        }
        law_the_first_output_option_counts(t, k - 1);
    }
}

} // verus!
