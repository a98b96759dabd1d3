//! What the commands do between the things that only a process can do:
//! the work that floods the processor, and what comes of the threads that
//! did it.

use vstd::prelude::*;

verus! {

/// How many steps a piece of work takes where the command line does not
/// say.
pub const DEFAULT_STEPS: usize = 100_000_000;

/// Hands `x` back, in a way that the compiler cannot see through.
///
/// This is `std::hint::black_box`, which the standard library documents as
/// an identity function: the result is the argument.
#[verifier::external_body]
fn black_box<T>(x: &T) -> (r: &T)
    ensures
        r == x,
{
    std::hint::black_box(x)
}

/// A piece of work that takes `steps` steps (`DEFAULT_STEPS` where none are
/// given) and gives `n` back.
#[inline(never)]
pub fn slow_black_box<T>(n: &T, steps: Option<usize>) -> (r: &T)
    ensures
        r == n,
{
    let limit: usize = match steps {
        Some(steps) => steps,
        None => DEFAULT_STEPS,
    };
    let mut acc: &T = n;
    let mut i: usize = 0;
    while i < limit
        invariant
            acc == n,
        decreases limit - i,
    {
        acc = black_box(n);
        i = i + 1;
    }
    acc
}

/// What the first thread that did not end well says, in the order in which
/// the threads were started; `None` stands for a thread that panicked.
pub open spec fn first_failure(results: Seq<Option<Result<(), String>>>) -> Option<Seq<char>>
    decreases results.len(),
{
    if results.len() == 0 {
        None
    } else {
        match results[0] {
            Some(Ok(_)) => first_failure(results.skip(1)),
            Some(Err(e)) => Some(e@),
            None => Some("please submit a bug report"@),
        }
    }
}

/// What comes of the threads of a flood, given what each of them came to:
/// the first failure among them, or success where there is none.
pub fn join_outcome(results: Vec<Option<Result<(), String>>>) -> (r: Result<(), String>)
    ensures
        match first_failure(results@) {
            Some(message) => r matches Err(m) && m@ == message,
            None => r is Ok,
        },
{
    let ghost all = results@;
    let n: usize = results.len();
    let mut i: usize = 0;
    assert(all.skip(0) =~= all);
    while i < n
        invariant
            i <= n,
            n == results@.len(),
            results@ == all,
            first_failure(all) == first_failure(all.skip(i as int)),
        decreases n - i,
    {
        assert(all.skip(i as int).skip(1) =~= all.skip(i + 1));
        assert(all.skip(i as int)[0] == all[i as int]);
        match &results[i] {
            Some(Ok(_)) => {},
            Some(Err(e)) => {
                return Err(e.clone());
            },
            None => {
                return Err("please submit a bug report".to_owned());
            },
        }
        i = i + 1;
    }
    Ok(())
}

} // verus!
