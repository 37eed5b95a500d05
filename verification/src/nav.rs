use vstd::prelude::*;
use crate::errors::ViewerError;

verus! {

/// Where stepping forward from index `i` lands in a set of `count` images.
pub open spec fn next_index(i: int, count: int) -> int {
    (i + 1) % count
}

/// Where stepping backward from index `i` lands in a set of `count` images.
pub open spec fn prev_index(i: int, count: int) -> int {
    (i + count - 1) % count
}

/// The current position inside the image set. The set's length is fixed
/// after construction; the index always stays in range, wrapping around
/// at both ends.
pub struct NavigationState {
    pub index: usize,
    pub count: usize,
}

impl NavigationState {
    /// The navigation invariant: a non-empty set and an in-range index.
    pub open spec fn wf(&self) -> bool {
        0 < self.count && self.index < self.count
    }

    /// Starts at `initial` when the builder located the starting file,
    /// else at the first image.
    pub fn new(count: usize, initial: Option<usize>) -> (s: Self)
        requires
            0 < count,
        ensures
            s.wf(),
            s.count == count,
            match initial {
                Some(i) => s.index == if i < count { i as int } else { 0 },
                None => s.index == 0,
            },
    {
        let index: usize = match initial {
            Some(i) => if i < count { i } else { 0 },
            None => 0,
        };
        NavigationState { index, count }
    }

    /// Step to the next image, wrapping from the last back to the first.
    pub fn next(&mut self)
        requires
            old(self).wf(),
        ensures
            final(self).wf(),
            final(self).count == old(self).count,
            final(self).index == next_index(old(self).index as int, old(self).count as int),
    {
        self.index = if self.index + 1 == self.count {
            0
        } else {
            self.index + 1
        };
        proof {
            let i = old(self).index as int;
            let c = self.count as int;
            if i + 1 == c {
                assert((i + 1) % c == 0) by (nonlinear_arith)
                    requires 0 < c && i + 1 == c;
            } else {
                assert((i + 1) % c == i + 1) by (nonlinear_arith)
                    requires 0 <= i + 1 < c;
            }
        }
    }

    /// Step to the previous image, wrapping from the first to the last.
    pub fn prev(&mut self)
        requires
            old(self).wf(),
        ensures
            final(self).wf(),
            final(self).count == old(self).count,
            final(self).index == prev_index(old(self).index as int, old(self).count as int),
    {
        self.index = if self.index == 0 {
            self.count - 1
        } else {
            self.index - 1
        };
        proof {
            let i = old(self).index as int;
            let c = self.count as int;
            if i == 0 {
                assert((i + c - 1) % c == c - 1) by (nonlinear_arith)
                    requires 0 < c && i == 0;
            } else {
                assert((i + c - 1) % c == i - 1) by (nonlinear_arith)
                    requires 0 < i < c;
            }
        }
    }

    /// Jump to an arbitrary uniformly drawn index; re-selecting the
    /// current image is allowed.
    pub fn random(&mut self)
        requires
            old(self).wf(),
        ensures
            final(self).wf(),
            final(self).count == old(self).count,
    {
        let r: usize = random_usize();
        self.index = r % self.count;
        proof {
            let c = self.count as int;
            assert((r as int) % c < c) by (nonlinear_arith)
                requires 0 < c;
        }
    }

    /// Jump straight to index `i`; out-of-range targets are rejected and
    /// leave the state unchanged.
    pub fn jump_to(&mut self, i: usize) -> (r: Result<(), ViewerError>)
        requires
            old(self).wf(),
        ensures
            final(self).wf(),
            final(self).count == old(self).count,
            r is Ok <==> i < old(self).count,
            r is Ok ==> final(self).index == i,
            r is Err ==> final(self).index == old(self).index && r == Err::<(), ViewerError>(
                ViewerError::IndexOutOfRange,
            ),
    {
        if i < self.count {
            self.index = i;
            Ok(())
        } else {
            Err(ViewerError::IndexOutOfRange)
        }
    }
}

/// The index reached after stepping forward `k` times from `i`.
pub open spec fn next_iter(i: int, k: nat, count: int) -> int
    decreases k,
{
    if k == 0 {
        i
    } else {
        next_index(next_iter(i, (k - 1) as nat, count), count)
    }
}

/// The index reached after stepping backward `k` times from `i`.
pub open spec fn prev_iter(i: int, k: nat, count: int) -> int
    decreases k,
{
    if k == 0 {
        i
    } else {
        prev_index(prev_iter(i, (k - 1) as nat, count), count)
    }
}

proof fn lemma_mod_shift(x: int, d: int, c: int)
    requires
        0 < c,
    ensures
        (x % c + d) % c == (x + d) % c,
{
    vstd::arithmetic::div_mod::lemma_add_mod_noop_right(d, x, c);
}

proof fn lemma_next_iter_closed(i: int, k: nat, count: int)
    requires
        0 < count,
        0 <= i < count,
    ensures
        next_iter(i, k, count) == (i + k) % count,
    decreases k,
{
    if k == 0 {
        vstd::arithmetic::div_mod::lemma_small_mod(i as nat, count as nat);
    } else {
        lemma_next_iter_closed(i, (k - 1) as nat, count);
        lemma_mod_shift(i + k - 1, 1, count);
    }
}

proof fn lemma_prev_iter_closed(i: int, k: nat, count: int)
    requires
        0 < count,
        0 <= i < count,
    ensures
        prev_iter(i, k, count) == (i + k * (count - 1)) % count,
    decreases k,
{
    if k == 0 {
        vstd::arithmetic::div_mod::lemma_small_mod(i as nat, count as nat);
    } else {
        lemma_prev_iter_closed(i, (k - 1) as nat, count);
        lemma_mod_shift(i + (k - 1) * (count - 1), count - 1, count);
        assert(i + (k - 1) * (count - 1) + (count - 1) == i + k * (count - 1))
            by (nonlinear_arith);
    }
}

/// Stepping forward `count` times, or backward `count` times, returns the
/// navigation position to where it started.
pub proof fn lemma_full_cycle(i: int, count: int)
    requires
        0 < count,
        0 <= i < count,
    ensures
        next_iter(i, count as nat, count) == i,
        prev_iter(i, count as nat, count) == i,
{
    lemma_next_iter_closed(i, count as nat, count);
    lemma_mod_shift(i, count, count);
    vstd::arithmetic::div_mod::lemma_mod_add_multiples_vanish(i, count);
    vstd::arithmetic::div_mod::lemma_small_mod(i as nat, count as nat);

    lemma_prev_iter_closed(i, count as nat, count);
    assert(i + count * (count - 1) == count * (count - 1) + i);
    vstd::arithmetic::div_mod::lemma_mod_multiples_vanish(count - 1, i, count);
}

/// At the ends the wrap-around is exact: stepping backward from the first
/// image lands on the last, and stepping forward from the last lands on
/// the first.
pub proof fn lemma_wrap_at_ends(count: int)
    requires
        0 < count,
    ensures
        prev_index(0, count) == count - 1,
        next_index(count - 1, count) == 0,
{
    vstd::arithmetic::div_mod::lemma_small_mod((count - 1) as nat, count as nat);
    vstd::arithmetic::div_mod::lemma_mod_self_0(count);
}

/// Relies on rand::random for a uniformly distributed machine word;
/// nothing is promised of the value drawn.
#[verifier::external_body]
fn random_usize() -> usize {
    rand::random::<usize>()
}

} // verus!
