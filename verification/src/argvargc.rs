//! The iterable argument sequence: an owned list of a process's arguments
//! with two converging cursors for forward and backward traversal.

use crate::argv::copy_bytes;
use crate::render;
use vstd::prelude::*;

verus! {

/// An iterable representation of a process's arguments.  The sequence owns
/// one byte vector per argument and traverses them lazily from either end:
/// `fw_index` is the position of the next argument to yield from the front,
/// and `bk_bound` lies one past the next argument to yield from the back, so
/// the arguments not yet consumed are exactly `args[fw_index .. bk_bound]`.
///
/// The default value holds no arguments at all, yields nothing from either
/// end, and reports length `0`.
pub struct ArgvArgc {
    args: Vec<Vec<u8>>,
    fw_index: usize,
    bk_bound: usize,
}

impl ArgvArgc {
    /// The full argument list the sequence was constructed over, consumed or
    /// not, as mathematical sequences of bytes.
    pub closed spec fn all_args(&self) -> Seq<Seq<u8>> {
        self.args.deep_view()
    }

    /// Validity of the cursors: the unconsumed range lies within the list.
    /// Constructors establish this and every method preserves it.
    pub closed spec fn wf(&self) -> bool {
        self.fw_index <= self.bk_bound && self.bk_bound <= self.args@.len()
    }

    /// The arguments not yet consumed from either end, in original order.
    pub closed spec fn remaining(&self) -> Seq<Seq<u8>> {
        self.all_args().subrange(self.fw_index as int, self.bk_bound as int)
    }

    /// The arguments already yielded from the front, in the order yielded.
    pub closed spec fn consumed_front(&self) -> Seq<Seq<u8>> {
        self.all_args().take(self.fw_index as int)
    }

    /// The arguments already yielded from the back, in original order (the
    /// most recently yielded one stands first).
    pub closed spec fn consumed_back(&self) -> Seq<Seq<u8>> {
        self.all_args().skip(self.bk_bound as int)
    }

    /// Takes ownership of an already-retrieved argument list and places the
    /// cursors at its two ends, so that everything remains to be consumed.
    pub fn new(args: Vec<Vec<u8>>) -> (r: ArgvArgc)
        ensures
            r.wf(),
            r.all_args() == args.deep_view(),
            r.remaining() == args.deep_view(),
            r.consumed_front() == Seq::<Seq<u8>>::empty(),
            r.consumed_back() == Seq::<Seq<u8>>::empty(),
    {
        let n = args.len();
        let r = ArgvArgc { args, fw_index: 0, bk_bound: n };
        proof {
            assert(r.remaining() =~= r.all_args());
            assert(r.consumed_front() =~= Seq::<Seq<u8>>::empty());
            assert(r.consumed_back() =~= Seq::<Seq<u8>>::empty());
        }
        r
    }

    /// The exact count of arguments not yet consumed, computed from the
    /// cursors and never by walking the sequence.
    pub fn len(&self) -> (n: usize)
        requires
            self.wf(),
        ensures
            n == self.remaining().len(),
    {
        self.bk_bound - self.fw_index
    }

    /// Whether no arguments are left to consume.
    pub fn is_empty(&self) -> (b: bool)
        requires
            self.wf(),
        ensures
            b == (self.remaining().len() == 0),
    {
        self.bk_bound == self.fw_index
    }

    /// The exact remaining count, as both a lower and an upper bound.
    pub fn size_hint(&self) -> (r: (usize, Option<usize>))
        requires
            self.wf(),
        ensures
            r.0 == self.remaining().len(),
            r.1 == Some(self.remaining().len() as usize),
    {
        let n = self.len();
        (n, Some(n))
    }

    /// Yields the first not-yet-consumed argument and advances the forward
    /// cursor past it; yields nothing once the cursors have met.  The yielded
    /// bytes are an owned copy, independent of the sequence's lifetime.
    pub fn next(&mut self) -> (r: Option<Vec<u8>>)
        requires
            old(self).wf(),
        ensures
            final(self).wf(),
            final(self).all_args() == old(self).all_args(),
            old(self).remaining().len() == 0 ==> r is None && *final(self) == *old(self),
            old(self).remaining().len() > 0 ==> {
                &&& r matches Some(a) && a@ == old(self).remaining()[0]
                &&& final(self).remaining() == old(self).remaining().drop_first()
                &&& final(self).consumed_front() == old(self).consumed_front().push(
                    old(self).remaining()[0],
                )
                &&& final(self).consumed_back() == old(self).consumed_back()
            },
    {
        if self.fw_index < self.bk_bound {
            let a = copy_bytes(&self.args[self.fw_index]);
            self.fw_index = self.fw_index + 1;
            proof {
                assert(self.remaining() =~= old(self).remaining().drop_first());
                assert(self.consumed_front() =~= old(self).consumed_front().push(
                    old(self).remaining()[0],
                ));
                assert(self.consumed_back() =~= old(self).consumed_back());
            }
            Some(a)
        } else {
            None
        }
    }

    /// Yields the last not-yet-consumed argument and retreats the backward
    /// cursor before it; yields nothing once the cursors have met.  The
    /// yielded bytes are an owned copy, independent of the sequence's
    /// lifetime.
    pub fn next_back(&mut self) -> (r: Option<Vec<u8>>)
        requires
            old(self).wf(),
        ensures
            final(self).wf(),
            final(self).all_args() == old(self).all_args(),
            old(self).remaining().len() == 0 ==> r is None && *final(self) == *old(self),
            old(self).remaining().len() > 0 ==> {
                &&& r matches Some(a) && a@ == old(self).remaining().last()
                &&& final(self).remaining() == old(self).remaining().drop_last()
                &&& final(self).consumed_back() == seq![old(self).remaining().last()]
                    + old(self).consumed_back()
                &&& final(self).consumed_front() == old(self).consumed_front()
            },
    {
        if self.fw_index < self.bk_bound {
            self.bk_bound = self.bk_bound - 1;
            let a = copy_bytes(&self.args[self.bk_bound]);
            proof {
                assert(self.remaining() =~= old(self).remaining().drop_last());
                assert(self.consumed_back() =~= seq![old(self).remaining().last()]
                    + old(self).consumed_back());
                assert(self.consumed_front() =~= old(self).consumed_front());
            }
            Some(a)
        } else {
            None
        }
    }

    /// Owned copies of the arguments not yet consumed, in original order,
    /// without advancing either cursor.
    pub fn remaining_args(&self) -> (v: Vec<Vec<u8>>)
        requires
            self.wf(),
        ensures
            v.deep_view() == self.remaining(),
    {
        let mut v: Vec<Vec<u8>> = Vec::new();
        let mut i: usize = self.fw_index;
        while i < self.bk_bound
            invariant
                self.wf(),
                self.fw_index <= i <= self.bk_bound,
                v.deep_view() == self.all_args().subrange(self.fw_index as int, i as int),
            decreases self.bk_bound - i,
        {
            proof {
                assert(v.deep_view().len() == i - self.fw_index);
            }
            let c = copy_bytes(&self.args[i]);
            v.push(c);
            i = i + 1;
            proof {
                assert(v.deep_view() =~~= self.all_args().subrange(
                    self.fw_index as int,
                    i as int,
                ));
            }
        }
        v
    }

    /// Drains the sequence front to back and collects what it yields: the
    /// result is exactly the remaining arguments, in original left-to-right
    /// order, and afterwards the sequence is exhausted.  Iterating forward
    /// therefore reproduces the argument list the sequence was built over.
    pub fn collect_remaining(&mut self) -> (v: Vec<Vec<u8>>)
        requires
            old(self).wf(),
        ensures
            final(self).wf(),
            v.deep_view() == old(self).remaining(),
            final(self).remaining().len() == 0,
            final(self).all_args() == old(self).all_args(),
            final(self).consumed_back() == old(self).consumed_back(),
    {
        let mut v: Vec<Vec<u8>> = Vec::new();
        while !self.is_empty()
            invariant
                self.wf(),
                self.all_args() == old(self).all_args(),
                self.consumed_back() == old(self).consumed_back(),
                v.deep_view() + self.remaining() == old(self).remaining(),
            decreases self.remaining().len(),
        {
            let a = match self.next() {
                Some(a) => a,
                None => {
                    proof {
                        assert(false);
                    }
                    Vec::new()
                },
            };
            v.push(a);
            proof {
                assert(v.deep_view() + self.remaining() =~~= old(self).remaining());
            }
        }
        proof {
            assert(v.deep_view() =~~= old(self).remaining());
        }
        v
    }

    /// A rendering of the sequence for inspection, reflecting only the
    /// arguments not yet consumed from either end.
    pub fn render(&self) -> (s: String)
        requires
            self.wf(),
        ensures
            s@ == render::rendered(self.remaining()),
    {
        let v = self.remaining_args();
        render::render_args(&v)
    }
}

impl Default for ArgvArgc {
    /// The empty sequence: no arguments, both cursors already met.
    fn default() -> (r: Self)
        ensures
            r.wf(),
            r.all_args() == Seq::<Seq<u8>>::empty(),
            r.remaining() == Seq::<Seq<u8>>::empty(),
            r.consumed_front() == Seq::<Seq<u8>>::empty(),
            r.consumed_back() == Seq::<Seq<u8>>::empty(),
    {
        let args: Vec<Vec<u8>> = Vec::new();
        proof {
            assert(args.deep_view() =~= Seq::<Seq<u8>>::empty());
        }
        ArgvArgc::new(args)
    }
}

/// The arguments drawn from the front, those still remaining, and those drawn
/// from the back always partition the original argument list, whatever the
/// interleaving of forward and backward draws was: every argument is consumed
/// exactly once, and the sequence is exhausted exactly when the two consumed
/// parts meet.
pub proof fn lemma_cursor_partition(s: ArgvArgc)
    requires
        s.wf(),
    ensures
        s.consumed_front() + s.remaining() + s.consumed_back() == s.all_args(),
        (s.remaining().len() == 0) <==> (s.consumed_front().len() + s.consumed_back().len()
            == s.all_args().len()),
{
    assert(s.consumed_front() + s.remaining() + s.consumed_back() =~= s.all_args());
}

} // verus!
