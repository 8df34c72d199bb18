//! The SAFE sponge.
//!
//! A sponge owns a chip — a fixed permutation over a small state of field
//! elements — and enforces the SAFE discipline: the caller declares an IO
//! pattern up front, the pattern's tag is absorbed into the initial state, and
//! any call sequence that deviates from the pattern fails with
//! `PatternMismatch`.

use vstd::prelude::*;
use crate::field::{all_ok, fadd, fvals, FieldOps, ZkError};
use crate::pattern::{runs_open, tag_ok, tag_spec, IOPattern, SpongeOp, OP_COUNT_LIMIT};

verus! {

/// The state written by `init`: zeros, with the tag in lane 1.
pub open spec fn init_st(w: nat, tag: u128) -> Seq<int> {
    Seq::new(w, |i: int| if i == 1 { tag as int } else { 0int })
}

/// The facade a permutation exposes to the sponge: a state of `width()` field
/// lanes, re-initialization from a tag, read of and addition into lane 0, and
/// the permutation itself, described by the spec function `perm`.
pub trait ChipAPI: Sized {
    type Value: FieldOps;

    /// The lane values of the current state.
    spec fn st(&self) -> Seq<int>;

    /// The number of lanes.
    spec fn width(&self) -> nat;

    /// Parameter tables are the right size, the state has `width()` lanes,
    /// and every value the chip holds is accepted by the backend's
    /// operations.
    spec fn wf(&self) -> bool;

    /// The permutation that `permutation` applies, as determined by the
    /// chip's immutable parameters.
    spec fn perm(&self, s: Seq<int>) -> Seq<int>;

    /// The permutation preserves the state width.
    proof fn lemma_perm_len(&self, s: Seq<int>)
        ensures
            self.wf() && s.len() == self.width() ==> self.perm(s).len() == self.width(),
    ;

    /// A well-formed chip has `width()` lanes.
    proof fn lemma_st_len(&self)
        ensures
            self.wf() ==> self.st().len() == self.width(),
    ;

    /// Overwrite the state with zeros and the tag in lane 1.
    fn init(&mut self, tag: u128) -> (r: Result<(), ZkError>)
        requires
            old(self).wf(),
        ensures
            final(self).wf(),
            final(self).width() == old(self).width(),
            forall|s: Seq<int>| #[trigger] final(self).perm(s) == old(self).perm(s),
            r matches Ok(()) ==> final(self).st() == init_st(old(self).width(), tag),
            r matches Err(z) ==> z == ZkError::Synthesis && !Self::Value::infallible(),
            Self::Value::infallible() ==> r is Ok,
    ;

    /// Read lane 0.
    fn read(&self) -> (r: Self::Value)
        requires
            self.wf(),
            self.width() > 0,
        ensures
            r.fval() == self.st()[0],
            r.ok(),
    ;

    /// Add a value into lane 0.
    fn add(&mut self, x: &Self::Value) -> (r: Result<(), ZkError>)
        requires
            old(self).wf(),
            old(self).width() > 0,
            x.ok(),
        ensures
            final(self).wf(),
            final(self).width() == old(self).width(),
            forall|s: Seq<int>| #[trigger] final(self).perm(s) == old(self).perm(s),
            r matches Ok(()) ==> final(self).st() == old(self).st().update(
                0,
                fadd(old(self).st()[0], x.fval()),
            ),
            r matches Err(z) ==> z == ZkError::Synthesis && !Self::Value::infallible(),
            Self::Value::infallible() ==> r is Ok,
    ;

    /// Apply the permutation to the state in place.
    fn permutation(&mut self) -> (r: Result<(), ZkError>)
        requires
            old(self).wf(),
        ensures
            final(self).wf(),
            final(self).width() == old(self).width(),
            forall|s: Seq<int>| #[trigger] final(self).perm(s) == old(self).perm(s),
            r matches Ok(()) ==> final(self).st() == old(self).perm(old(self).st()),
            r matches Err(z) ==> z == ZkError::Synthesis && !Self::Value::infallible(),
            Self::Value::infallible() ==> r is Ok,
    ;
}

/// The two chips have the same width and the same permutation: every chip
/// method preserves this, so the sponge can reason about a fixed permutation
/// while the state mutates.
pub open spec fn chip_same<C: ChipAPI>(a: C, b: C) -> bool {
    &&& b.width() == a.width()
    &&& forall|s: Seq<int>| #[trigger] b.perm(s) == a.perm(s)
}

/// One rate-1 absorb step: permute when the rate is full, then add into lane
/// 0.  Returns the new state and absorb position.
pub open spec fn absorb_step<C: ChipAPI>(c: C, st: Seq<int>, apos: int, x: int) -> (Seq<int>, int) {
    let st1 = if apos == 1 {
        c.perm(st)
    } else {
        st
    };
    (st1.update(0, fadd(st1[0], x)), 1)
}

/// Absorbing a whole sequence of values.
pub open spec fn absorb_all<C: ChipAPI>(c: C, st: Seq<int>, apos: int, xs: Seq<int>) -> (
    Seq<int>,
    int,
)
    decreases xs.len(),
{
    if xs.len() == 0 {
        (st, apos)
    } else {
        let prev = absorb_all(c, st, apos, xs.drop_last());
        absorb_step(c, prev.0, prev.1, xs.last())
    }
}

/// One rate-1 squeeze step: permute when the rate is exhausted (which also
/// resets the absorb position), then read lane 0.  Returns the new state, the
/// new absorb and squeeze positions, and the value read.
pub open spec fn squeeze_step<C: ChipAPI>(c: C, st: Seq<int>, apos: int, sqpos: int) -> (
    Seq<int>,
    int,
    int,
    int,
) {
    let st1 = if sqpos == 1 {
        c.perm(st)
    } else {
        st
    };
    let apos1 = if sqpos == 1 {
        0int
    } else {
        apos
    };
    (st1, apos1, 1, st1[0])
}

/// Squeezing `n` values.
pub open spec fn squeeze_all<C: ChipAPI>(c: C, st: Seq<int>, apos: int, sqpos: int, n: nat) -> (
    Seq<int>,
    int,
    int,
    Seq<int>,
)
    decreases n,
{
    if n == 0 {
        (st, apos, sqpos, Seq::empty())
    } else {
        let prev = squeeze_all(c, st, apos, sqpos, (n - 1) as nat);
        let stp = squeeze_step(c, prev.0, prev.1, prev.2);
        (stp.0, stp.1, stp.2, prev.3.push(stp.3))
    }
}

/// A sponge: a chip, the declared pattern, and the SAFE bookkeeping.
///
/// The rate is 1 for every chip here: the chips accept additions at lane 0
/// only.
pub struct Sponge<C> {
    pub chip: C,
    pub rate: usize,
    pub absorb_pos: usize,
    pub squeeze_pos: usize,
    pub op_count: usize,
    pub pattern: IOPattern,
}

impl<C: ChipAPI> Sponge<C> {
    pub open spec fn wf(&self) -> bool {
        &&& self.chip.wf()
        &&& self.chip.width() > 0
        &&& self.rate == 1
        &&& self.absorb_pos <= 1
        &&& self.squeeze_pos <= 1
    }

    /// Everything but the mutable SAFE state agrees between two sponges.
    pub open spec fn same_setup(&self, o: &Sponge<C>) -> bool {
        &&& chip_same(o.chip, self.chip)
        &&& self.rate == o.rate
    }

    /// A fresh sponge around the given chip, with rate 1 and an empty
    /// pattern.
    pub fn new(chip: C) -> (r: Sponge<C>)
        requires
            chip.wf(),
            chip.width() > 0,
        ensures
            r.wf(),
            r.chip == chip,
            r.rate == 1,
            r.absorb_pos == 0,
            r.squeeze_pos == 0,
            r.op_count == 0,
            r.pattern@ == Seq::<SpongeOp>::empty(),
    {
        let r = Sponge {
            chip,
            rate: 1,
            absorb_pos: 0,
            squeeze_pos: 0,
            op_count: 0,
            pattern: IOPattern::new(Vec::new()),
        };
        proof {
            assert(r.pattern@ =~= Seq::<SpongeOp>::empty());
        }
        r
    }

    /// The sponge's rate.
    pub fn rate(&self) -> (r: usize)
        ensures
            r == self.rate,
    {
        self.rate
    }

    /// The current absorb position.
    pub fn absorb_pos(&self) -> (r: usize)
        ensures
            r == self.absorb_pos,
    {
        self.absorb_pos
    }

    /// The current squeeze position.
    pub fn squeeze_pos(&self) -> (r: usize)
        ensures
            r == self.squeeze_pos,
    {
        self.squeeze_pos
    }

    /// Set the absorb position.
    pub fn set_absorb_pos(&mut self, pos: usize)
        requires
            pos <= 1,
        ensures
            final(self).absorb_pos == pos,
            final(self).chip == old(self).chip,
            final(self).rate == old(self).rate,
            final(self).squeeze_pos == old(self).squeeze_pos,
            final(self).op_count == old(self).op_count,
            final(self).pattern == old(self).pattern,
    {
        self.absorb_pos = pos;
    }

    /// Set the squeeze position.
    pub fn set_squeeze_pos(&mut self, pos: usize)
        requires
            pos <= 1,
        ensures
            final(self).squeeze_pos == pos,
            final(self).chip == old(self).chip,
            final(self).rate == old(self).rate,
            final(self).absorb_pos == old(self).absorb_pos,
            final(self).op_count == old(self).op_count,
            final(self).pattern == old(self).pattern,
    {
        self.squeeze_pos = pos;
    }

    /// The declared pattern.
    pub fn pattern(&self) -> (r: &IOPattern)
        ensures
            r@ == self.pattern@,
    {
        &self.pattern
    }

    /// Replace the declared pattern.
    pub fn set_pattern(&mut self, pattern: IOPattern)
        ensures
            final(self).pattern@ == pattern@,
            final(self).chip == old(self).chip,
            final(self).rate == old(self).rate,
            final(self).absorb_pos == old(self).absorb_pos,
            final(self).squeeze_pos == old(self).squeeze_pos,
            final(self).op_count == old(self).op_count,
    {
        self.pattern = pattern;
    }

    /// Initialize the chip's capacity with a tag.
    pub fn initialize_capacity(&mut self, tag: u128) -> (r: Result<(), ZkError>)
        requires
            old(self).wf(),
        ensures
            final(self).wf(),
            final(self).same_setup(old(self)),
            final(self).rate == old(self).rate,
            final(self).absorb_pos == old(self).absorb_pos,
            final(self).squeeze_pos == old(self).squeeze_pos,
            final(self).op_count == old(self).op_count,
            final(self).pattern@ == old(self).pattern@,
            r matches Ok(()) ==> final(self).chip.st() == init_st(old(self).chip.width(), tag),
            r matches Err(z) ==> z == ZkError::Synthesis && !C::Value::infallible(),
            C::Value::infallible() ==> r is Ok,
    {
        self.chip.init(tag)
    }

    /// Read the rate element at the given offset (only offset 0 exists at
    /// rate 1).
    pub fn read_rate_element(&self, offset: usize) -> (r: C::Value)
        requires
            self.wf(),
            offset < self.rate,
        ensures
            r.fval() == self.chip.st()[0],
            r.ok(),
    {
        self.chip.read()
    }

    /// Ask the chip to permute its state.
    pub fn permute(&mut self) -> (r: Result<(), ZkError>)
        requires
            old(self).wf(),
        ensures
            final(self).wf(),
            final(self).same_setup(old(self)),
            final(self).rate == old(self).rate,
            final(self).absorb_pos == old(self).absorb_pos,
            final(self).squeeze_pos == old(self).squeeze_pos,
            final(self).op_count == old(self).op_count,
            final(self).pattern@ == old(self).pattern@,
            r matches Ok(()) ==> final(self).chip.st() == old(self).chip.perm(old(self).chip.st()),
            r matches Err(z) ==> z == ZkError::Synthesis && !C::Value::infallible(),
            C::Value::infallible() ==> r is Ok,
    {
        self.chip.permutation()
    }

    /// Add an element into the rate at the given offset; the chips only
    /// accept offset 0.
    pub fn add_element_to_rate_at(&mut self, offset: usize, x: &C::Value) -> (r: Result<
        (),
        ZkError,
    >)
        requires
            old(self).wf(),
            offset == 0,
            x.ok(),
        ensures
            final(self).wf(),
            final(self).same_setup(old(self)),
            final(self).rate == old(self).rate,
            final(self).absorb_pos == old(self).absorb_pos,
            final(self).squeeze_pos == old(self).squeeze_pos,
            final(self).op_count == old(self).op_count,
            final(self).pattern@ == old(self).pattern@,
            r matches Ok(()) ==> final(self).chip.st() == old(self).chip.st().update(
                0,
                fadd(old(self).chip.st()[0], x.fval()),
            ),
            r matches Err(z) ==> z == ZkError::Synthesis && !C::Value::infallible(),
            C::Value::infallible() ==> r is Ok,
    {
        self.chip.add(x)
    }

    /// Advance the step counter and return the previous count.
    pub fn increment_io_count(&mut self) -> (r: usize)
        requires
            old(self).op_count < usize::MAX,
        ensures
            final(self).chip == old(self).chip,
            final(self).rate == old(self).rate,
            final(self).absorb_pos == old(self).absorb_pos,
            final(self).squeeze_pos == old(self).squeeze_pos,
            final(self).pattern == old(self).pattern,
            final(self).op_count == old(self).op_count + 1,
            r == old(self).op_count,
    {
        self.op_count = self.op_count + 1;
        self.op_count - 1
    }

    /// Start the declared pattern: compute its tag, remember it, initialize
    /// the chip with the tag, and reset the positions and the step counter.
    #[verifier::rlimit(30)]
    pub fn start(&mut self, pattern: IOPattern, domain_separator: Option<u32>) -> (r: Result<
        (),
        ZkError,
    >)
        requires
            old(self).wf(),
            tag_ok(pattern@),
            runs_open(pattern@).spec_count() < OP_COUNT_LIMIT,
        ensures
            final(self).wf(),
            final(self).same_setup(old(self)),
            final(self).pattern@ == pattern@,
            final(self).absorb_pos == 0,
            final(self).squeeze_pos == 0,
            final(self).op_count == 0,
            r matches Ok(()) ==> final(self).chip.st() == init_st(
                old(self).chip.width(),
                tag_spec(pattern@, match domain_separator {
                    Some(ds) => ds,
                    None => 0,
                }),
            ),
            r matches Err(z) ==> z == ZkError::Synthesis && !C::Value::infallible(),
            C::Value::infallible() ==> r is Ok,
    {
        let tag = pattern.get_tag(domain_separator);
        self.pattern = pattern;
        self.absorb_pos = 0;
        self.squeeze_pos = 0;
        self.op_count = 0;
        self.chip.init(tag)
    }

    /// Absorb `length` declared elements.  Fails with `PatternMismatch`,
    /// leaving the sponge unchanged, when the declared pattern does not have
    /// `Absorb(length)` at the current step or the element count differs.
    #[verifier::loop_isolation(false)]
    pub fn absorb(&mut self, length: u32, elements: &Vec<C::Value>) -> (r: Result<(), ZkError>)
        requires
            old(self).wf(),
            all_ok(elements@),
        ensures
            final(self).wf(),
            final(self).same_setup(old(self)),
            final(self).pattern@ == old(self).pattern@,
            ({
                let ok_step = old(self).op_count < old(self).pattern@.len() && old(
                    self,
                ).pattern@[old(self).op_count as int] == SpongeOp::Absorb(length)
                    && length as int == elements@.len();
                &&& r == Err::<(), ZkError>(ZkError::PatternMismatch) <==> !ok_step
                &&& !ok_step ==> *final(self) == *old(self)
                &&& r matches Ok(()) ==> {
                    let ab = absorb_all(
                        old(self).chip,
                        old(self).chip.st(),
                        old(self).absorb_pos as int,
                        fvals(elements@),
                    );
                    &&& ok_step
                    &&& final(self).chip.st() == ab.0
                    &&& final(self).absorb_pos as int == ab.1
                    &&& final(self).squeeze_pos == 1
                    &&& final(self).op_count == old(self).op_count + 1
                }
                &&& (r matches Err(z) && z == ZkError::Synthesis) ==> !C::Value::infallible()
                &&& r matches Err(z) ==> (z == ZkError::PatternMismatch || z
                    == ZkError::Synthesis)
                &&& C::Value::infallible() && ok_step ==> r is Ok
            }),
    {
        if self.op_count >= self.pattern.len() {
            return Err(ZkError::PatternMismatch);
        }
        let step_ok = match self.pattern.op_at(self.op_count) {
            Some(op) => matches!(op, SpongeOp::Absorb(n) if n == length),
            None => false,
        };
        if !step_ok || (length as usize) != elements.len() {
            return Err(ZkError::PatternMismatch);
        }
        proof {
            self.chip.lemma_st_len();
        }
        let ghost c0 = self.chip;
        let ghost st0 = self.chip.st();
        let ghost apos0 = self.absorb_pos as int;
        let n = elements.len();
        for i in 0..n
            invariant
                self.wf(),
                n == elements@.len(),
                chip_same(c0, self.chip),
                c0 == old(self).chip,
                c0.wf(),
                c0.width() == self.chip.width(),
                st0.len() == c0.width(),
                self.rate == 1,
                self.pattern@ == old(self).pattern@,
                self.op_count == old(self).op_count,
                self.op_count < self.pattern@.len(),
                (self.chip.st(), self.absorb_pos as int) == absorb_all(
                    c0,
                    st0,
                    apos0,
                    fvals(elements@).take(i as int),
                ),
        {
            proof {
                assert(fvals(elements@).take(i + 1).drop_last() =~= fvals(elements@).take(
                    i as int,
                ));
            }
            if self.absorb_pos == self.rate {
                match self.chip.permutation() {
                    Ok(()) => (),
                    Err(e) => {
                        return Err(e);
                    },
                }
                self.absorb_pos = 0;
            }
            proof {
                self.chip.lemma_perm_len(absorb_all(c0, st0, apos0, fvals(elements@).take(i as int)).0);
                c0.lemma_perm_len(absorb_all(c0, st0, apos0, fvals(elements@).take(i as int)).0);
            }
            match self.chip.add(&elements[i]) {
                Ok(()) => (),
                Err(e) => {
                    return Err(e);
                },
            }
            self.absorb_pos = 1;
        }
        proof {
            assert(fvals(elements@).take(n as int) =~= fvals(elements@));
        }
        self.op_count = self.op_count + 1;
        self.squeeze_pos = self.rate;
        Ok(())
    }

    /// Squeeze `length` elements.  Fails with `PatternMismatch`, leaving the
    /// sponge unchanged, when the declared pattern does not have
    /// `Squeeze(length)` at the current step.
    #[verifier::loop_isolation(false)]
    pub fn squeeze(&mut self, length: u32) -> (r: Result<Vec<C::Value>, ZkError>)
        requires
            old(self).wf(),
        ensures
            final(self).wf(),
            final(self).same_setup(old(self)),
            final(self).pattern@ == old(self).pattern@,
            ({
                let ok_step = old(self).op_count < old(self).pattern@.len() && old(
                    self,
                ).pattern@[old(self).op_count as int] == SpongeOp::Squeeze(length);
                &&& r == Err::<Vec<C::Value>, ZkError>(ZkError::PatternMismatch) <==> !ok_step
                &&& !ok_step ==> *final(self) == *old(self)
                &&& (r matches Ok(out) ==> all_ok(out@))
                &&& r matches Ok(out) ==> {
                    let sq = squeeze_all(
                        old(self).chip,
                        old(self).chip.st(),
                        old(self).absorb_pos as int,
                        old(self).squeeze_pos as int,
                        length as nat,
                    );
                    &&& ok_step
                    &&& out@.len() == length
                    &&& final(self).chip.st() == sq.0
                    &&& final(self).absorb_pos as int == sq.1
                    &&& final(self).squeeze_pos as int == sq.2
                    &&& fvals(out@) == sq.3
                    &&& final(self).op_count == old(self).op_count + 1
                }
                &&& (r matches Err(z) && z == ZkError::Synthesis) ==> !C::Value::infallible()
                &&& r matches Err(z) ==> (z == ZkError::PatternMismatch || z
                    == ZkError::Synthesis)
                &&& C::Value::infallible() && ok_step ==> r is Ok
            }),
    {
        if self.op_count >= self.pattern.len() {
            return Err(ZkError::PatternMismatch);
        }
        let step_ok = match self.pattern.op_at(self.op_count) {
            Some(op) => matches!(op, SpongeOp::Squeeze(n) if n == length),
            None => false,
        };
        if !step_ok {
            return Err(ZkError::PatternMismatch);
        }
        proof {
            self.chip.lemma_st_len();
        }
        let ghost c0 = self.chip;
        let ghost st0 = self.chip.st();
        let ghost apos0 = self.absorb_pos as int;
        let ghost sqpos0 = self.squeeze_pos as int;
        let mut out: Vec<C::Value> = Vec::new();
        let n = length as usize;
        for i in 0..n
            invariant
                self.wf(),
                n == length,
                chip_same(c0, self.chip),
                c0 == old(self).chip,
                c0.wf(),
                c0.width() == self.chip.width(),
                st0.len() == c0.width(),
                self.rate == 1,
                self.pattern@ == old(self).pattern@,
                self.op_count == old(self).op_count,
                self.op_count < self.pattern@.len(),
                out@.len() == i,
                all_ok(out@),
                ({
                    let sq = squeeze_all(c0, st0, apos0, sqpos0, i as nat);
                    &&& self.chip.st() == sq.0
                    &&& self.absorb_pos as int == sq.1
                    &&& self.squeeze_pos as int == sq.2
                    &&& fvals(out@) == sq.3
                }),
        {
            if self.squeeze_pos == self.rate {
                match self.chip.permutation() {
                    Ok(()) => (),
                    Err(e) => {
                        return Err(e);
                    },
                }
                self.squeeze_pos = 0;
                self.absorb_pos = 0;
            }
            proof {
                self.chip.lemma_perm_len(squeeze_all(c0, st0, apos0, sqpos0, i as nat).0);
                c0.lemma_perm_len(squeeze_all(c0, st0, apos0, sqpos0, i as nat).0);
            }
            let ghost old_out = out@;
            out.push(self.chip.read());
            self.squeeze_pos = 1;
            proof {
                assert(fvals(out@) =~= fvals(old_out).push(
                    squeeze_all(c0, st0, apos0, sqpos0, (i + 1) as nat).3.last(),
                ));
                assert forall|j: int| 0 <= j <= i implies (#[trigger] out@[j]).ok() by {
                    if j < i {
                        assert(old_out[j].ok());
                    }
                }
            }
        }
        self.op_count = self.op_count + 1;
        Ok(out)
    }

    /// Conclude the pattern: zero the state and check that every declared
    /// step was performed; fails with `PatternMismatch` otherwise.
    pub fn finish(&mut self) -> (r: Result<(), ZkError>)
        requires
            old(self).wf(),
        ensures
            final(self).wf(),
            final(self).same_setup(old(self)),
            r == Err::<(), ZkError>(ZkError::PatternMismatch) ==> old(self).op_count != old(
                self,
            ).pattern@.len(),
            r matches Ok(()) ==> old(self).op_count == old(self).pattern@.len(),
            r matches Ok(()) ==> final(self).chip.st() == init_st(old(self).chip.width(), 0),
            r == Err::<(), ZkError>(ZkError::PatternMismatch) ==> final(self).chip.st() == init_st(
                old(self).chip.width(),
                0,
            ),
            (r matches Err(z) && z == ZkError::Synthesis) ==> !C::Value::infallible(),
            r matches Err(z) ==> (z == ZkError::PatternMismatch || z == ZkError::Synthesis),
            C::Value::infallible() ==> (r is Ok <==> old(self).op_count == old(
                self,
            ).pattern@.len()),
    {
        match self.chip.init(0) {
            Ok(()) => (),
            Err(e) => {
                return Err(e);
            },
        }
        if self.op_count == self.pattern.len() {
            Ok(())
        } else {
            Err(ZkError::PatternMismatch)
        }
    }
}

/// The four-call SAFE interface a sponge offers its callers: declare a
/// pattern, absorb, squeeze, conclude.  [`Sponge`] implements it; callers
/// that use the concrete type get its exact contracts, while this trait
/// promises the discipline every implementation must keep: a well-formed
/// sponge stays well-formed, and a successful squeeze yields the declared
/// number of elements.
pub trait SpongeAPI: Sized {
    type Value: FieldOps;

    /// The well-formedness callers establish at construction and every call
    /// preserves.
    spec fn inv(&self) -> bool;

    fn start(&mut self, pattern: IOPattern, domain_separator: Option<u32>) -> (r: Result<
        (),
        ZkError,
    >)
        requires
            old(self).inv(),
            tag_ok(pattern@),
            runs_open(pattern@).spec_count() < OP_COUNT_LIMIT,
        ensures
            final(self).inv(),
    ;

    fn absorb(&mut self, length: u32, elements: &Vec<Self::Value>) -> (r: Result<(), ZkError>)
        requires
            old(self).inv(),
            all_ok(elements@),
        ensures
            final(self).inv(),
    ;

    fn squeeze(&mut self, length: u32) -> (r: Result<Vec<Self::Value>, ZkError>)
        requires
            old(self).inv(),
        ensures
            final(self).inv(),
            r matches Ok(v) ==> v@.len() == length,
            r matches Ok(v) ==> all_ok(v@),
    ;

    fn finish(&mut self) -> (r: Result<(), ZkError>)
        requires
            old(self).inv(),
        ensures
            final(self).inv(),
    ;
}

impl<C: ChipAPI> SpongeAPI for Sponge<C> {
    type Value = C::Value;

    open spec fn inv(&self) -> bool {
        self.wf()
    }

    fn start(&mut self, pattern: IOPattern, domain_separator: Option<u32>) -> (r: Result<
        (),
        ZkError,
    >) {
        Sponge::start(self, pattern, domain_separator)
    }

    fn absorb(&mut self, length: u32, elements: &Vec<C::Value>) -> (r: Result<(), ZkError>) {
        Sponge::absorb(self, length, elements)
    }

    fn squeeze(&mut self, length: u32) -> (r: Result<Vec<C::Value>, ZkError>) {
        Sponge::squeeze(self, length)
    }

    fn finish(&mut self) -> (r: Result<(), ZkError>) {
        Sponge::finish(self)
    }
}

} // verus!
