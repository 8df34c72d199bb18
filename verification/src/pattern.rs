//! SAFE IO patterns and their 128-bit domain tags.
//!
//! An [`IOPattern`] is the declared sequence of absorb / squeeze operations a
//! sponge will perform.  Its tag is a digest over 128-bit wrapping arithmetic
//! of the *coalesced* form of the pattern (adjacent operations of the same
//! kind merged, runs with a zero total dropped) followed by a 32-bit domain
//! separator.

use vstd::prelude::*;
use vstd::wrapping::u128_specs;

verus! {

/// One declared sponge operation: absorb `n` elements or squeeze `n` elements.
#[derive(Clone, Copy, Debug, PartialEq, Eq, Structural)]
pub enum SpongeOp {
    Absorb(u32),
    Squeeze(u32),
}

/// Absorb runs are tagged with bit 31 set, so a coalesced count must stay
/// below this bound.
pub const OP_COUNT_LIMIT: u32 = 0x8000_0000;

impl SpongeOp {
    pub open spec fn spec_count(&self) -> u32 {
        match self {
            SpongeOp::Absorb(n) => *n,
            SpongeOp::Squeeze(n) => *n,
        }
    }

    pub open spec fn spec_is_absorb(&self) -> bool {
        self matches SpongeOp::Absorb(_)
    }

    /// The two operations have the same kind.
    pub open spec fn spec_matches(&self, other: SpongeOp) -> bool {
        self.spec_is_absorb() == other.spec_is_absorb()
    }

    /// Same kind, counts summed.
    pub open spec fn spec_combine(&self, other: SpongeOp) -> SpongeOp
        recommends
            self.spec_matches(other),
            self.spec_count() + other.spec_count() <= u32::MAX,
    {
        match self {
            SpongeOp::Absorb(n) => SpongeOp::Absorb((*n + other.spec_count()) as u32),
            SpongeOp::Squeeze(n) => SpongeOp::Squeeze((*n + other.spec_count()) as u32),
        }
    }

    /// The 32-bit encoding fed to the tag hasher: the count, with bit 31 set
    /// for an absorb.
    pub open spec fn spec_value(&self) -> u32
        recommends
            self.spec_count() < OP_COUNT_LIMIT,
    {
        match self {
            SpongeOp::Absorb(n) => (*n + OP_COUNT_LIMIT) as u32,
            SpongeOp::Squeeze(n) => *n,
        }
    }

    #[verifier::when_used_as_spec(spec_count)]
    pub fn count(&self) -> (r: u32)
        ensures
            r == self.spec_count(),
    {
        match self {
            SpongeOp::Absorb(n) => *n,
            SpongeOp::Squeeze(n) => *n,
        }
    }

    #[verifier::when_used_as_spec(spec_is_absorb)]
    pub fn is_absorb(&self) -> (r: bool)
        ensures
            r == self.spec_is_absorb(),
    {
        matches!(self, SpongeOp::Absorb(_))
    }

    #[verifier::when_used_as_spec(spec_matches)]
    pub fn matches(&self, other: SpongeOp) -> (r: bool)
        ensures
            r == self.spec_matches(other),
    {
        self.is_absorb() == other.is_absorb()
    }

    pub fn combine(&self, other: SpongeOp) -> (r: SpongeOp)
        requires
            self.spec_matches(other),
            self.spec_count() + other.spec_count() <= u32::MAX,
        ensures
            r == self.spec_combine(other),
    {
        match self {
            SpongeOp::Absorb(n) => SpongeOp::Absorb(*n + other.count()),
            SpongeOp::Squeeze(n) => SpongeOp::Squeeze(*n + other.count()),
        }
    }

    pub fn value(&self) -> (r: u32)
        requires
            self.spec_count() < OP_COUNT_LIMIT,
        ensures
            r == self.spec_value(),
    {
        match self {
            SpongeOp::Absorb(n) => *n + OP_COUNT_LIMIT,
            SpongeOp::Squeeze(n) => *n,
        }
    }
}

/// The multiplier of the tag hasher: 2^128 - 159, a prime.
pub const HASHER_BASE: u128 = 0xffffffff_ffffffff_ffffffff_ffffff61;

/// Incremental tag hasher over 128-bit wrapping arithmetic.
///
/// `x_i` holds the current power of [`HASHER_BASE`]; `state` accumulates
/// `sum x_i * a_i`; `current_op` is the still-open run of same-kind
/// operations, coalesced as they arrive.
#[derive(Clone, Copy, Debug)]
pub struct Hasher {
    pub x: u128,
    pub x_i: u128,
    pub state: u128,
    pub current_op: SpongeOp,
}

/// One update of the 128-bit multilinear digest: advance the power of the
/// base, then add `a` scaled by it, all mod 2^128.
pub open spec fn hash_update(x_i: u128, state: u128, a: u32) -> (u128, u128) {
    let xn = u128_specs::wrapping_mul(x_i, HASHER_BASE);
    (xn, u128_specs::wrapping_add(state, u128_specs::wrapping_mul(xn, a as u128)))
}

/// Digest state after feeding every value of `vals`, starting from the
/// initial state (power 1, accumulator 0).
pub open spec fn hash_values(vals: Seq<u32>) -> (u128, u128)
    decreases vals.len(),
{
    if vals.len() == 0 {
        (1u128, 0u128)
    } else {
        let prev = hash_values(vals.drop_last());
        hash_update(prev.0, prev.1, vals.last())
    }
}

/// Completed runs of the coalescing scan over `ops` (each a maximal merge of
/// adjacent same-kind operations, kept only if its total count is non-zero).
pub open spec fn runs_done(ops: Seq<SpongeOp>) -> Seq<SpongeOp>
    decreases ops.len(),
{
    if ops.len() == 0 {
        Seq::empty()
    } else {
        let cur = runs_open(ops.drop_last());
        if cur.spec_matches(ops.last()) {
            runs_done(ops.drop_last())
        } else if cur.spec_count() > 0 {
            runs_done(ops.drop_last()).push(cur)
        } else {
            runs_done(ops.drop_last())
        }
    }
}

/// The still-open run of the coalescing scan over `ops`.
pub open spec fn runs_open(ops: Seq<SpongeOp>) -> SpongeOp
    decreases ops.len(),
{
    if ops.len() == 0 {
        SpongeOp::Absorb(0)
    } else {
        let cur = runs_open(ops.drop_last());
        if cur.spec_matches(ops.last()) {
            cur.spec_combine(ops.last())
        } else {
            ops.last()
        }
    }
}

/// The coalesced normal form of a pattern: completed runs plus the final open
/// run if it is non-empty.
pub open spec fn coalesce(ops: Seq<SpongeOp>) -> Seq<SpongeOp> {
    if runs_open(ops).spec_count() > 0 {
        runs_done(ops).push(runs_open(ops))
    } else {
        runs_done(ops)
    }
}

/// The conditions under which the tag computation is defined: every merge of
/// adjacent same-kind operations stays within `u32`, and every count that is
/// emitted into the digest fits in 31 bits.
pub open spec fn tag_ok(ops: Seq<SpongeOp>) -> bool
    decreases ops.len(),
{
    if ops.len() == 0 {
        true
    } else {
        let cur = runs_open(ops.drop_last());
        tag_ok(ops.drop_last()) && if cur.spec_matches(ops.last()) {
            cur.spec_count() + ops.last().spec_count() < OP_COUNT_LIMIT
        } else {
            cur.spec_count() < OP_COUNT_LIMIT
        }
    }
}

/// The domain tag of a pattern: digest of the encoded coalesced runs followed
/// by the domain separator.
#[verifier::opaque]
pub open spec fn tag_spec(ops: Seq<SpongeOp>, ds: u32) -> u128 {
    let vals = coalesce(ops).map(|i: int, op: SpongeOp| op.spec_value());
    hash_update(hash_values(vals).0, hash_values(vals).1, ds).1
}

impl Default for Hasher {
    fn default() -> (r: Hasher)
        ensures
            r.inv(Seq::empty()),
    {
        Hasher::new()
    }
}

impl Hasher {
    /// The hasher is an intermediate state of the coalescing scan over some
    /// prefix `ops`.
    pub open spec fn inv(&self, ops: Seq<SpongeOp>) -> bool {
        &&& self.x == HASHER_BASE
        &&& self.current_op == runs_open(ops)
        &&& (self.x_i, self.state) == hash_values(
            runs_done(ops).map(|i: int, op: SpongeOp| op.spec_value()),
        )
    }

    pub fn new() -> (r: Hasher)
        ensures
            r.inv(Seq::empty()),
    {
        let r = Hasher { x: HASHER_BASE, x_i: 1, state: 0, current_op: SpongeOp::Absorb(0) };
        proof {
            assert(runs_done(Seq::<SpongeOp>::empty()).map(
                |i: int, op: SpongeOp| op.spec_value(),
            ) =~= Seq::<u32>::empty());
        }
        r
    }

    /// Feed one 32-bit value into the digest.
    pub fn update(&mut self, a: u32)
        requires
            old(self).x == HASHER_BASE,
        ensures
            (final(self).x_i, final(self).state) == hash_update(old(self).x_i, old(self).state, a),
            final(self).x == old(self).x,
            final(self).current_op == old(self).current_op,
    {
        self.x_i = self.x_i.wrapping_mul(self.x);
        self.state = self.state.wrapping_add(self.x_i.wrapping_mul(a as u128));
    }

    /// Close the open run: emit its encoding into the digest unless it is
    /// empty.
    fn finish_op(&mut self)
        requires
            old(self).x == HASHER_BASE,
            old(self).current_op.spec_count() < OP_COUNT_LIMIT,
        ensures
            final(self).x == old(self).x,
            final(self).current_op == old(self).current_op,
            old(self).current_op.spec_count() == 0 ==> (final(self).x_i, final(self).state) == (
                old(self).x_i,
                old(self).state,
            ),
            old(self).current_op.spec_count() > 0 ==> (final(self).x_i, final(self).state)
                == hash_update(old(self).x_i, old(self).state, old(self).current_op.spec_value()),
    {
        if self.current_op.count() == 0 {
            return ;
        }
        let op_value = self.current_op.value();
        self.update(op_value);
    }

    /// Feed one declared operation, coalescing it into the open run.
    pub fn update_op(&mut self, op: SpongeOp)
        requires
            old(self).x == HASHER_BASE,
            old(self).current_op.spec_matches(op) ==> old(self).current_op.spec_count()
                + op.spec_count() <= u32::MAX,
            !old(self).current_op.spec_matches(op) ==> old(self).current_op.spec_count()
                < OP_COUNT_LIMIT,
        ensures
            final(self).x == old(self).x,
            old(self).current_op.spec_matches(op) ==> {
                &&& final(self).current_op == old(self).current_op.spec_combine(op)
                &&& (final(self).x_i, final(self).state) == (old(self).x_i, old(self).state)
            },
            !old(self).current_op.spec_matches(op) ==> {
                &&& final(self).current_op == op
                &&& old(self).current_op.spec_count() == 0 ==> (
                    final(self).x_i,
                    final(self).state,
                ) == (old(self).x_i, old(self).state)
                &&& old(self).current_op.spec_count() > 0 ==> (final(self).x_i, final(self).state)
                    == hash_update(
                    old(self).x_i,
                    old(self).state,
                    old(self).current_op.spec_value(),
                )
            },
    {
        if self.current_op.matches(op) {
            self.current_op = self.current_op.combine(op);
        } else {
            self.finish_op();
            self.current_op = op;
        }
    }

    /// Close the last run, feed the domain separator, and return the digest.
    pub fn finalize(&mut self, domain_separator: u32) -> (r: u128)
        requires
            old(self).x == HASHER_BASE,
            old(self).current_op.spec_count() < OP_COUNT_LIMIT,
        ensures
            ({
                let closed = if old(self).current_op.spec_count() > 0 {
                    hash_update(old(self).x_i, old(self).state, old(self).current_op.spec_value())
                } else {
                    (old(self).x_i, old(self).state)
                };
                r == hash_update(closed.0, closed.1, domain_separator).1
            }),
    {
        self.finish_op();
        self.update(domain_separator);
        self.state
    }
}

/// A declared sequence of sponge operations; immutable once handed to a
/// sponge.
#[derive(Clone)]
pub struct IOPattern(pub Vec<SpongeOp>);

impl View for IOPattern {
    type V = Seq<SpongeOp>;

    open spec fn view(&self) -> Seq<SpongeOp> {
        self.0@
    }
}

impl IOPattern {
    pub fn new(v: Vec<SpongeOp>) -> (r: IOPattern)
        ensures
            r@ == v@,
    {
        IOPattern(v)
    }

    /// The 128-bit domain tag of this pattern under the given domain
    /// separator (absent means 0).
    pub fn get_tag(&self, domain_separator: Option<u32>) -> (r: u128)
        requires
            tag_ok(self@),
            runs_open(self@).spec_count() < OP_COUNT_LIMIT,
        ensures
            r == tag_spec(self@, match domain_separator {
                Some(ds) => ds,
                None => 0,
            }),
    {
        let mut hasher = Hasher::new();
        let n = self.0.len();
        proof {
            assert(self@.take(0int) =~= Seq::<SpongeOp>::empty());
        }
        for i in 0..n
            invariant
                n == self@.len(),
                hasher.inv(self@.take(i as int)),
                tag_ok(self@),
                runs_open(self@).spec_count() < OP_COUNT_LIMIT,
        {
            proof {
                assert(self@.take(i + 1).drop_last() =~= self@.take(i as int));
                assert(self@.take(i + 1).last() == self@[i as int]);
                lemma_tag_ok_prefix(self@, i + 1);
                lemma_runs_open_bound(self@, i as int);
            }
            hasher.update_op(self.0[i]);
            proof {
                let pre = self@.take(i as int);
                let post = self@.take(i + 1);
                let f = |j: int, op: SpongeOp| op.spec_value();
                if runs_open(pre).spec_matches(self@[i as int]) {
                    assert(runs_done(post) =~= runs_done(pre));
                } else if runs_open(pre).spec_count() > 0 {
                    assert(runs_done(post) =~= runs_done(pre).push(runs_open(pre)));
                    assert(runs_done(post).map(f).drop_last() =~= runs_done(pre).map(f));
                    assert(runs_done(post).map(f).last() == runs_open(pre).spec_value());
                } else {
                    assert(runs_done(post) =~= runs_done(pre));
                }
            }
        }
        proof {
            reveal(tag_spec);
            assert(self@.take(n as int) =~= self@);
            let f = |j: int, op: SpongeOp| op.spec_value();
            if runs_open(self@).spec_count() > 0 {
                assert(coalesce(self@).map(f).drop_last() =~= runs_done(self@).map(f));
                assert(coalesce(self@).map(f).last() == runs_open(self@).spec_value());
            } else {
                assert(coalesce(self@).map(f) =~= runs_done(self@).map(f));
            }
        }
        hasher.finalize(
            match domain_separator {
                Some(ds) => ds,
                None => 0,
            },
        )
    }

    pub fn op_at(&self, index: usize) -> (r: Option<SpongeOp>)
        ensures
            index < self@.len() ==> r == Some(self@[index as int]),
            index >= self@.len() ==> r is None,
    {
        if index < self.0.len() {
            Some(self.0[index])
        } else {
            None
        }
    }

    pub fn len(&self) -> (r: usize)
        ensures
            r == self@.len(),
    {
        self.0.len()
    }
}

/// A `tag_ok` pattern keeps `tag_ok` on every prefix.
pub proof fn lemma_tag_ok_prefix(ops: Seq<SpongeOp>, n: int)
    requires
        tag_ok(ops),
        0 <= n <= ops.len(),
    ensures
        tag_ok(ops.take(n)),
    decreases ops.len(),
{
    if n < ops.len() {
        assert(ops.drop_last() =~= ops.take(ops.len() - 1));
        lemma_tag_ok_prefix(ops.drop_last(), n);
        assert(ops.drop_last().take(n) =~= ops.take(n));
    } else {
        assert(ops.take(n) =~= ops);
    }
}

/// Along a `tag_ok` pattern whose final open run is bounded, the open run of
/// every prefix is bounded too.
pub proof fn lemma_runs_open_bound(ops: Seq<SpongeOp>, n: int)
    requires
        tag_ok(ops),
        runs_open(ops).spec_count() < OP_COUNT_LIMIT,
        0 <= n <= ops.len(),
    ensures
        runs_open(ops.take(n)).spec_count() < OP_COUNT_LIMIT,
    decreases ops.len(),
{
    if n == ops.len() {
        assert(ops.take(n) =~= ops);
    } else {
        assert(ops.drop_last() =~= ops.take(ops.len() - 1));
        let cur = runs_open(ops.drop_last());
        if cur.spec_matches(ops.last()) {
            assert(runs_open(ops) == cur.spec_combine(ops.last()));
            lemma_runs_open_bound(ops.drop_last(), n);
        } else {
            lemma_runs_open_bound(ops.drop_last(), n);
        }
        assert(ops.drop_last().take(n) =~= ops.take(n));
    }
}

/// Appending one operation to a tag-computable pattern, when the merge or
/// emission it causes stays within bounds, keeps it tag-computable.
pub proof fn lemma_tag_ok_push(s: Seq<SpongeOp>, op: SpongeOp)
    requires
        tag_ok(s),
        runs_open(s).spec_matches(op) ==> runs_open(s).spec_count() + op.spec_count()
            < OP_COUNT_LIMIT,
        !runs_open(s).spec_matches(op) ==> runs_open(s).spec_count() < OP_COUNT_LIMIT,
    ensures
        tag_ok(s.push(op)),
        runs_open(s).spec_matches(op) ==> runs_open(s.push(op)) == runs_open(s).spec_combine(op),
        !runs_open(s).spec_matches(op) ==> runs_open(s.push(op)) == op,
{
    assert(s.push(op).drop_last() =~= s);
    assert(s.push(op).last() == op);
}

/// The hash pattern is tag-computable and ends in an open squeeze run.
pub proof fn lemma_hash_pattern_ok(l: u32, d: u32)
    requires
        l < OP_COUNT_LIMIT,
        0 < d < OP_COUNT_LIMIT,
    ensures
        tag_ok(seq![SpongeOp::Absorb(l), SpongeOp::Squeeze(d)]),
        runs_open(seq![SpongeOp::Absorb(l), SpongeOp::Squeeze(d)]) == SpongeOp::Squeeze(d),
{
    let s1 = seq![SpongeOp::Absorb(l)];
    assert(s1.drop_last() =~= Seq::<SpongeOp>::empty());
    lemma_tag_ok_push(Seq::empty(), SpongeOp::Absorb(l));
    assert(s1 =~= Seq::<SpongeOp>::empty().push(SpongeOp::Absorb(l)));
    lemma_tag_ok_push(s1, SpongeOp::Squeeze(d));
    assert(seq![SpongeOp::Absorb(l), SpongeOp::Squeeze(d)] =~= s1.push(SpongeOp::Squeeze(d)));
}

/// The AE pattern is tag-computable and ends in an open squeeze run.
pub proof fn lemma_ae_pattern_ok(m: nat)
    ensures
        tag_ok(ae_pattern_spec(m, 1, 1)),
        runs_open(ae_pattern_spec(m, 1, 1)) == SpongeOp::Squeeze(1),
    decreases m,
{
    lemma_ae_pattern_body_ok(m);
    lemma_tag_ok_push(ae_pattern_spec(m, 1, 1).drop_last(), SpongeOp::Squeeze(1));
    assert(ae_pattern_spec(m, 1, 1) =~= ae_pattern_spec(m, 1, 1).drop_last().push(
        SpongeOp::Squeeze(1),
    ));
}

/// The AE pattern without its final squeeze is tag-computable and ends in an
/// open absorb run.
proof fn lemma_ae_pattern_body_ok(m: nat)
    ensures
        tag_ok(ae_pattern_spec(m, 1, 1).drop_last()),
        runs_open(ae_pattern_spec(m, 1, 1).drop_last()) == if m == 0 {
            SpongeOp::Absorb(2)
        } else {
            SpongeOp::Absorb(1)
        },
        ae_pattern_spec(m, 1, 1).last() == SpongeOp::Squeeze(1),
    decreases m,
{
    if m == 0 {
        let body = ae_pattern_spec(0, 1, 1).drop_last();
        assert(body =~= seq![SpongeOp::Absorb(1u32), SpongeOp::Absorb(1u32)]);
        let s1 = seq![SpongeOp::Absorb(1u32)];
        assert(s1.drop_last() =~= Seq::<SpongeOp>::empty());
        lemma_tag_ok_push(Seq::empty(), SpongeOp::Absorb(1));
        assert(s1 =~= Seq::<SpongeOp>::empty().push(SpongeOp::Absorb(1)));
        lemma_tag_ok_push(s1, SpongeOp::Absorb(1));
        assert(body =~= s1.push(SpongeOp::Absorb(1)));
    } else {
        lemma_ae_pattern_body_ok((m - 1) as nat);
        let prev = ae_pattern_spec((m - 1) as nat, 1, 1).drop_last();
        let body = ae_pattern_spec(m, 1, 1).drop_last();
        assert(body =~= prev.push(SpongeOp::Squeeze(1)).push(SpongeOp::Absorb(1)));
        lemma_tag_ok_push(prev, SpongeOp::Squeeze(1));
        lemma_tag_ok_push(prev.push(SpongeOp::Squeeze(1)), SpongeOp::Absorb(1));
    }
}

/// The shape of the AE pattern: `2m + 3` operations — absorb key, absorb
/// nonce, then alternating squeeze/absorb per block, and a final squeeze.
pub proof fn lemma_ae_pattern_index(m: nat, k: u32, n: u32)
    ensures
        ae_pattern_spec(m, k, n).len() == 2 * m + 3,
        ae_pattern_spec(m, k, n)[0] == SpongeOp::Absorb(k),
        ae_pattern_spec(m, k, n)[1] == SpongeOp::Absorb(n),
        forall|i: int|
            0 <= i < m ==> #[trigger] ae_pattern_spec(m, k, n)[2 + 2 * i] == SpongeOp::Squeeze(1),
        forall|i: int|
            0 <= i < m ==> #[trigger] ae_pattern_spec(m, k, n)[3 + 2 * i] == SpongeOp::Absorb(1),
        ae_pattern_spec(m, k, n)[2 * m + 2int] == SpongeOp::Squeeze(1),
    decreases m,
{
    if m > 0 {
        lemma_ae_pattern_index((m - 1) as nat, k, n);
        let prev = ae_pattern_spec((m - 1) as nat, k, n);
        let cur = ae_pattern_spec(m, k, n);
        assert(cur =~= prev.drop_last() + seq![
            SpongeOp::Squeeze(1u32),
            SpongeOp::Absorb(1u32),
            SpongeOp::Squeeze(1u32),
        ]);
        assert(prev[2 * (m - 1) + 2] == SpongeOp::Squeeze(1));
        assert forall|i: int| 0 <= i < m implies #[trigger] cur[2 + 2 * i] == SpongeOp::Squeeze(
            1,
        ) by {
            if i < m - 1 {
                assert(cur[2 + 2 * i] == prev[2 + 2 * i]);
            }
        }
        assert forall|i: int| 0 <= i < m implies #[trigger] cur[3 + 2 * i] == SpongeOp::Absorb(
            1,
        ) by {
            if i < m - 1 {
                assert(cur[3 + 2 * i] == prev[3 + 2 * i]);
            }
        }
    }
}

/// The tag depends only on the coalesced normal form of the pattern: two
/// patterns with the same coalesced form have the same tag under every domain
/// separator.
pub proof fn lemma_tag_determinism(a: Seq<SpongeOp>, b: Seq<SpongeOp>, ds: u32)
    requires
        coalesce(a) == coalesce(b),
    ensures
        tag_spec(a, ds) == tag_spec(b, ds),
{
    reveal(tag_spec);
}

/// Build the pattern of a sponge hash: absorb the whole message, squeeze the
/// digest.
pub fn gen_hash_pattern(m_len: usize, d_len: usize) -> (r: IOPattern)
    requires
        m_len < OP_COUNT_LIMIT,
        d_len < OP_COUNT_LIMIT,
    ensures
        r@ == seq![SpongeOp::Absorb(m_len as u32), SpongeOp::Squeeze(d_len as u32)],
{
    let v = vec![SpongeOp::Absorb(m_len as u32), SpongeOp::Squeeze(d_len as u32)];
    proof {
        assert(v@ =~= seq![SpongeOp::Absorb(m_len as u32), SpongeOp::Squeeze(d_len as u32)]);
    }
    IOPattern::new(v)
}

/// The pattern of sponge authenticated encryption for a message of `m_len`
/// blocks: absorb key then nonce, then for each block squeeze one keystream
/// element and absorb one ciphertext block, then squeeze the tag.
pub open spec fn ae_pattern_spec(m_len: nat, k_len: u32, n_len: u32) -> Seq<SpongeOp>
    decreases m_len,
{
    if m_len == 0 {
        seq![SpongeOp::Absorb(k_len), SpongeOp::Absorb(n_len), SpongeOp::Squeeze(1)]
    } else {
        ae_pattern_spec((m_len - 1) as nat, k_len, n_len).drop_last() + seq![
            SpongeOp::Squeeze(1),
            SpongeOp::Absorb(1),
            SpongeOp::Squeeze(1),
        ]
    }
}

pub fn gen_ae_pattern(m_len: usize, k_len: usize, n_len: usize) -> (r: IOPattern)
    requires
        k_len < OP_COUNT_LIMIT,
        n_len < OP_COUNT_LIMIT,
    ensures
        r@ == ae_pattern_spec(m_len as nat, k_len as u32, n_len as u32),
{
    let mut pattern: Vec<SpongeOp> = Vec::new();
    pattern.push(SpongeOp::Absorb(k_len as u32));
    pattern.push(SpongeOp::Absorb(n_len as u32));
    for i in 0..m_len
        invariant
            pattern@ == ae_pattern_spec(i as nat, k_len as u32, n_len as u32).drop_last(),
    {
        pattern.push(SpongeOp::Squeeze(1));
        pattern.push(SpongeOp::Absorb(1));
        proof {
            assert(pattern@ =~= ae_pattern_spec((i + 1) as nat, k_len as u32, n_len as u32)
                .drop_last());
        }
    }
    pattern.push(SpongeOp::Squeeze(1));
    proof {
        if m_len == 0 {
            assert(pattern@ =~= ae_pattern_spec(m_len as nat, k_len as u32, n_len as u32));
        } else {
            assert(pattern@ =~= ae_pattern_spec(m_len as nat, k_len as u32, n_len as u32));
        }
    }
    IOPattern::new(pattern)
}

} // verus!
