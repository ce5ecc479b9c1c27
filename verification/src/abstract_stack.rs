//! The operand stack, run-length encoded.
//!
//! A single instruction can push as many equal values as a 64-bit number counts, so the stack
//! keeps runs of equal values instead of the values themselves. It is this crate's own because no
//! crate with such a stack is published.

use vstd::prelude::*;

use crate::value::AbstractValue;

verus! {

/// Why a stack operation was refused.
#[derive(Clone, Copy, Debug, PartialEq, Eq, Structural)]
pub enum AbsStackError {
    /// More values are asked for than the stack holds.
    Underflow,
    /// The stack would hold more values than a 64-bit number counts.
    Overflow,
    /// The values asked for are not all equal.
    ElementNotEqual,
}

/// A stack of abstract values. Its view is the sequence of values, the top one last.
#[derive(Debug)]
pub struct AbstractStack {
    /// The runs of equal values, each with its length, the top one last.
    runs: Vec<(u64, AbstractValue)>,
    /// How many values the stack holds.
    len: u64,
}

/// `n` copies of `v`.
pub open spec fn repeated(v: AbstractValue, n: nat) -> Seq<AbstractValue> {
    Seq::new(n, |i: int| v)
}

/// Whether the top `n` values of `s` are all equal.
pub open spec fn top_equal(s: Seq<AbstractValue>, n: nat) -> bool {
    &&& n <= s.len()
    &&& forall|i: int, j: int|
        s.len() - n <= i < s.len() && s.len() - n <= j < s.len() ==> s[i] == s[j]
}

/// The values that a sequence of runs stands for.
spec fn expanded(runs: Seq<(u64, AbstractValue)>) -> Seq<AbstractValue>
    decreases runs.len(),
{
    if runs.len() == 0 {
        Seq::empty()
    } else {
        expanded(runs.drop_last()) + repeated(runs.last().1, runs.last().0 as nat)
    }
}

proof fn lemma_expanded_push(runs: Seq<(u64, AbstractValue)>, run: (u64, AbstractValue))
    ensures
        expanded(runs.push(run)) == expanded(runs) + repeated(run.1, run.0 as nat),
{
    assert(runs.push(run).drop_last() == runs);
}

impl View for AbstractStack {
    type V = Seq<AbstractValue>;

    closed spec fn view(&self) -> Seq<AbstractValue> {
        expanded(self.runs@)
    }
}

impl AbstractStack {
    /// The stack is well formed. A 64-bit number counts its values.
    pub open spec fn wf(&self) -> bool {
        &&& self@.len() <= u64::MAX
        &&& self.encoding_wf()
    }

    /// Every run is nonempty, neighbouring runs hold different values, and the length is counted.
    pub closed spec fn encoding_wf(&self) -> bool {
        &&& self@.len() == self.len
        &&& forall|i: int| 0 <= i < self.runs@.len() ==> (#[trigger] self.runs@[i]).0 > 0
        &&& forall|i: int, j: int|
            0 <= i && j == i + 1 && j < self.runs@.len() ==> (#[trigger] self.runs@[i]).1 != (
            #[trigger] self.runs@[j]).1
    }

    /// An empty stack.
    pub fn new() -> (stack: AbstractStack)
        ensures
            stack.wf(),
            stack@ == Seq::<AbstractValue>::empty(),
    {
        AbstractStack { runs: Vec::new(), len: 0 }
    }

    /// How many values the stack holds.
    pub fn len(&self) -> (n: u64)
        requires
            self.wf(),
        ensures
            n == self@.len(),
    {
        self.len
    }

    /// Whether the stack holds no value.
    pub fn is_empty(&self) -> (b: bool)
        requires
            self.wf(),
        ensures
            b <==> self@.len() == 0,
    {
        self.len == 0
    }

    /// Pushes `v`.
    pub fn push(&mut self, v: AbstractValue) -> (res: Result<(), AbsStackError>)
        requires
            old(self).wf(),
        ensures
            final(self).wf(),
            old(self)@.len() < u64::MAX ==> res == Ok::<(), AbsStackError>(()) && final(self)@
                == old(self)@.push(v),
            old(self)@.len() == u64::MAX ==> res == Err::<(), AbsStackError>(
                AbsStackError::Overflow,
            ) && final(self)@ == old(self)@,
    {
        proof {
            assert(repeated(v, 1) == seq![v]);
            assert(self@ + seq![v] == self@.push(v));
        }
        self.push_n(v, 1)
    }

    /// Pushes `n` copies of `v`.
    pub fn push_n(&mut self, v: AbstractValue, n: u64) -> (res: Result<(), AbsStackError>)
        requires
            old(self).wf(),
        ensures
            final(self).wf(),
            old(self)@.len() + n <= u64::MAX ==> res == Ok::<(), AbsStackError>(()) && final(self)@
                == old(self)@ + repeated(v, n as nat),
            old(self)@.len() + n > u64::MAX ==> res == Err::<(), AbsStackError>(
                AbsStackError::Overflow,
            ) && final(self)@ == old(self)@,
    {
        if n == 0 {
            proof {
                assert(self@ + repeated(v, 0) == self@);
            }
            return Ok(());
        }
        if n > u64::MAX - self.len {
            return Err(AbsStackError::Overflow);
        }
        let ghost before = self.runs@;
        let count = self.runs.len();
        if count > 0 && self.runs[count - 1].1 == v {
            let grown = self.runs[count - 1].0;
            proof {
                assert(before == before.drop_last().push(before.last()));
                assert(self@.len() >= grown);
            }
            self.runs.set(count - 1, (grown + n, v));
            proof {
                assert(self.runs@ == before.drop_last().push((((grown + n) as u64), v)));
                lemma_expanded_push(before.drop_last(), ((grown + n) as u64, v));
                assert(repeated(v, (grown + n) as nat) == repeated(v, grown as nat) + repeated(
                    v,
                    n as nat,
                ));
                assert(self@ == expanded(before) + repeated(v, n as nat));
            }
        } else {
            self.runs.push((n, v));
            proof {
                lemma_expanded_push(before, (n, v));
            }
        }
        self.len = self.len + n;
        Ok(())
    }

    /// The top value.
    pub fn last(&self) -> (v: Option<AbstractValue>)
        requires
            self.wf(),
        ensures
            v == if self@.len() == 0 {
                None
            } else {
                Some(self@.last())
            },
    {
        let count = self.runs.len();
        if count == 0 {
            return None;
        }
        assert(self.runs@[count - 1].0 > 0);
        Some(self.runs[count - 1].1)
    }

    /// Pops the top value.
    pub fn pop(&mut self) -> (res: Result<AbstractValue, AbsStackError>)
        requires
            old(self).wf(),
        ensures
            final(self).wf(),
            old(self)@.len() > 0 ==> res == Ok::<AbstractValue, AbsStackError>(old(self)@.last())
                && final(self)@ == old(self)@.drop_last(),
            old(self)@.len() == 0 ==> res == Err::<AbstractValue, AbsStackError>(
                AbsStackError::Underflow,
            ) && final(self)@ == old(self)@,
    {
        proof {
            assert(self@.len() > 0 ==> self@.take(self@.len() - 1) == self@.drop_last());
        }
        self.pop_eq_n(1)
    }

    /// Pops `n` values, which must all be equal, and returns one of them.
    pub fn pop_eq_n(&mut self, n: u64) -> (res: Result<AbstractValue, AbsStackError>)
        requires
            old(self).wf(),
            n > 0,
        ensures
            final(self).wf(),
            top_equal(old(self)@, n as nat) ==> res == Ok::<AbstractValue, AbsStackError>(
                old(self)@.last(),
            ) && final(self)@ == old(self)@.take(old(self)@.len() - n),
            n > old(self)@.len() ==> res == Err::<AbstractValue, AbsStackError>(
                AbsStackError::Underflow,
            ) && final(self)@ == old(self)@,
            n <= old(self)@.len() && !top_equal(old(self)@, n as nat) ==> res == Err::<
                AbstractValue,
                AbsStackError,
            >(AbsStackError::ElementNotEqual) && final(self)@ == old(self)@,
    {
        if n > self.len {
            return Err(AbsStackError::Underflow);
        }
        let count = self.runs.len();
        assert(count > 0);
        let ghost before = self.runs@;
        let ghost below = expanded(before.drop_last());
        let (top, v) = self.runs[count - 1];
        proof {
            assert(self@ == below + repeated(v, top as nat));
            assert(top > 0);
        }
        if top < n {
            proof {
                // The run below the top one ends in another value.
                assert(count >= 2);
                let next = before[count - 2];
                assert(before.drop_last().last() == next);
                assert(next.0 > 0 && next.1 != v);
                assert(below.last() == next.1);
                assert(self@[below.len() - 1] == next.1);
                assert(self@[self@.len() - 1] == v);
                assert(!top_equal(self@, n as nat));
            }
            return Err(AbsStackError::ElementNotEqual);
        }
        if top == n {
            self.runs.pop();
            proof {
                assert(self.runs@ == before.drop_last());
                assert((below + repeated(v, top as nat)).take(below.len() as int) == below);
            }
        } else {
            self.runs.set(count - 1, (top - n, v));
            proof {
                assert(self.runs@ == before.drop_last().push(((top - n) as u64, v)));
                lemma_expanded_push(before.drop_last(), ((top - n) as u64, v));
                assert((below + repeated(v, top as nat)).take(below.len() + top - n) == below
                    + repeated(v, (top - n) as nat));
            }
        }
        self.len = self.len - n;
        Ok(v)
    }
}

} // verus!
