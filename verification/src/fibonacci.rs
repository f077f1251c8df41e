//! A Fibonacci sequence generator.
//!
//! The sequence starts `0, 1, 1, 2, 3, 5, ...`. The generator hands
//! the numbers out one at a time and ends, permanently, with the first
//! number that no longer fits the machine integer it produces.

use vstd::prelude::*;

verus! {

/// The Fibonacci sequence: each number is the sum of the two before
/// it, starting from 0 and 1.
pub open spec fn fib(n: nat) -> nat
    decreases n,
{
    if n == 0 {
        0
    } else if n == 1 {
        1
    } else {
        fib((n - 2) as nat) + fib((n - 1) as nat)
    }
}

/// The Fibonacci sequence never decreases.
pub proof fn lemma_fib_monotonic(m: nat, n: nat)
    requires
        m <= n,
    ensures
        fib(m) <= fib(n),
    decreases n - m,
{
    if m < n && n >= 2 {
        lemma_fib_monotonic(m, (n - 1) as nat);
    }
}

/// Generates the Fibonacci sequence number by number, holding the two
/// numbers last produced to compute the next one.
pub struct FibonacciSerie {
    /// The number produced last, cleared once the next number would
    /// overflow.
    last_one: Option<i64>,
    /// The number produced before `last_one`.
    last_two: Option<i64>,
    /// How many numbers have been produced so far.
    index: Ghost<nat>,
}

impl FibonacciSerie {
    /// The index of the next number to produce.
    pub closed spec fn position(&self) -> nat {
        self.index@
    }

    /// The generator's internal invariant: the held numbers are the
    /// two Fibonacci numbers before the position, until the number at
    /// the position stops fitting an `i64`; from then on the generator
    /// is exhausted and stays so.
    pub closed spec fn wf(&self) -> bool {
        &&& self.position() == 0 ==> self.last_one is None && self.last_two is None
        &&& self.position() == 1 ==> self.last_one == Some(0i64) && self.last_two is None
        &&& self.position() >= 2 ==> {
            ||| {
                &&& fib((self.position() - 1) as nat) <= i64::MAX
                &&& fib((self.position() - 2) as nat) <= i64::MAX
                &&& self.last_one == Some(fib((self.position() - 1) as nat) as i64)
                &&& self.last_two == Some(fib((self.position() - 2) as nat) as i64)
            }
            ||| {
                &&& fib(self.position()) > i64::MAX
                &&& fib((self.position() - 1) as nat) <= i64::MAX
                &&& self.last_one is None
                &&& self.last_two == Some(fib((self.position() - 1) as nat) as i64)
            }
        }
    }

    /// Creates a generator positioned at the start of the sequence.
    pub fn new() -> (s: Self)
        ensures
            s.wf(),
            s.position() == 0,
    {
        FibonacciSerie { last_one: None, last_two: None, index: Ghost(0) }
    }

    /// Produces the next number of the sequence, or nothing once the
    /// next number no longer fits an `i64`; from then on every further
    /// call produces nothing.
    pub fn next(&mut self) -> (r: Option<i64>)
        requires
            old(self).wf(),
        ensures
            final(self).wf(),
            r == (if fib(old(self).position()) <= i64::MAX {
                Some(fib(old(self).position()) as i64)
            } else {
                None::<i64>
            }),
            fib(old(self).position()) <= i64::MAX ==> final(self).position() == old(
                self).position() + 1,
            fib(old(self).position()) > i64::MAX ==> final(self).position() == old(
                self).position(),
    {
        match (self.last_one, self.last_two) {
            (None, None) => {
                self.last_one = Some(0);
                proof {
                    self.index@ = self.index@ + 1;
                }
                Some(0)
            },
            (Some(_), None) => {
                self.last_one = Some(1);
                self.last_two = Some(0);
                proof {
                    self.index@ = self.index@ + 1;
                }
                Some(1)
            },
            (Some(lo), Some(lt)) => {
                match lo.checked_add(lt) {
                    Some(next_one) => {
                        self.last_one = Some(next_one);
                        self.last_two = Some(lo);
                        proof {
                            self.index@ = self.index@ + 1;
                        }
                        Some(next_one)
                    },
                    None => {
                        self.last_one = None;
                        self.last_two = Some(lo);
                        None
                    },
                }
            },
            (None, Some(_)) => None,
        }
    }
}

/// Returns a fresh generator positioned at the start of the sequence.
pub fn serie() -> (s: FibonacciSerie)
    ensures
        s.wf(),
        s.position() == 0,
{
    FibonacciSerie::new()
}

/// Returns the `n`-th Fibonacci number, counting from zero, or nothing
/// when that number does not fit an `i64`.
pub fn nth(n: usize) -> (r: Option<i64>)
    ensures
        r == (if fib(n as nat) <= i64::MAX {
            Some(fib(n as nat) as i64)
        } else {
            None::<i64>
        }),
{
    let mut s = FibonacciSerie::new();
    let mut i: usize = 0;
    while i < n
        invariant
            0 <= i <= n,
            s.wf(),
            fib(i as nat) <= i64::MAX ==> s.position() == i,
            fib(i as nat) > i64::MAX ==> fib(s.position()) > i64::MAX,
        decreases n - i,
    {
        proof {
            lemma_fib_monotonic(i as nat, (i + 1) as nat);
        }
        let _ = s.next();
        i = i + 1;
    }
    s.next()
}

} // verus!
