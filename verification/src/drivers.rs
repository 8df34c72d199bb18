//! Sponge-hash and sponge-AE drivers.
//!
//! These build the IO pattern for the call, run it through a sponge bound to
//! any chip, and are proved against a direct statement of the resulting field
//! values: the state is the chip permutation folded over the absorbed values.

use vstd::prelude::*;
use crate::field::{all_ok, fadd, fsub, fvals, in_f, lemma_fadd_fsub_cancel, FieldOps, ZkError};
use crate::pattern::{
    ae_pattern_spec, gen_ae_pattern, gen_hash_pattern, lemma_ae_pattern_index, lemma_ae_pattern_ok,
    lemma_hash_pattern_ok, tag_spec, SpongeOp,
};
use crate::sponge::{absorb_all, chip_same, init_st, squeeze_all, ChipAPI, Sponge};

verus! {

/// The domain tag of a hash over `l` message blocks with a one-block digest.
pub open spec fn hash_tag(l: nat) -> u128 {
    tag_spec(seq![SpongeOp::Absorb(l as u32), SpongeOp::Squeeze(1)], 0)
}

/// The domain tag of sponge AE over `l` message blocks.
pub open spec fn ae_tag(l: nat) -> u128 {
    tag_spec(ae_pattern_spec(l, 1, 1), 0)
}

/// The chip state after starting from the tag and absorbing / permuting each
/// message block in turn.
pub open spec fn hash_state<C: ChipAPI>(c: C, w: nat, tag: u128, ms: Seq<int>) -> Seq<int>
    decreases ms.len(),
{
    if ms.len() == 0 {
        init_st(w, tag)
    } else {
        let p = hash_state(c, w, tag, ms.drop_last());
        c.perm(p.update(0, fadd(p[0], ms.last())))
    }
}

/// The digest of a sponge hash: lane 0 after the final permutation (for an
/// empty message the sponge still permutes once before reading).
pub open spec fn hash_out<C: ChipAPI>(c: C, w: nat, tag: u128, ms: Seq<int>) -> int {
    if ms.len() == 0 {
        c.perm(init_st(w, tag))[0]
    } else {
        hash_state(c, w, tag, ms)[0]
    }
}

/// Chips with the same permutation fold to the same hash states.
proof fn lemma_hash_state_same<C: ChipAPI>(a: C, b: C, w: nat, tag: u128, ms: Seq<int>)
    requires
        chip_same(a, b),
    ensures
        hash_state(a, w, tag, ms) == hash_state(b, w, tag, ms),
    decreases ms.len(),
{
    if ms.len() > 0 {
        lemma_hash_state_same(a, b, w, tag, ms.drop_last());
    }
}

/// Absorbing from the start state is the hash fold, short of the final
/// permutation.
proof fn lemma_absorb_hash<C: ChipAPI>(c: C, w: nat, tag: u128, ms: Seq<int>)
    ensures
        ms.len() == 0 ==> absorb_all(c, init_st(w, tag), 0, ms) == (init_st(w, tag), 0int),
        ms.len() > 0 ==> absorb_all(c, init_st(w, tag), 0, ms) == ({
            let p = hash_state(c, w, tag, ms.drop_last());
            (p.update(0, fadd(p[0], ms.last())), 1int)
        }),
    decreases ms.len(),
{
    if ms.len() > 0 {
        lemma_absorb_hash(c, w, tag, ms.drop_last());
    }
}

/// Hash a message: absorb all of it under the hash pattern, squeeze one
/// element, and close the sponge.
#[verifier::loop_isolation(false)]
#[verifier::rlimit(100)]
pub fn sponge_hash<C: ChipAPI>(sponge: &mut Sponge<C>, message: &Vec<C::Value>) -> (r: Result<
    C::Value,
    ZkError,
>)
    requires
        old(sponge).wf(),
        message@.len() < 0x8000_0000,
        all_ok(message@),
    ensures
        final(sponge).wf(),
        final(sponge).same_setup(old(sponge)),
        r matches Ok(h) ==> h.ok(),
        r matches Ok(h) ==> h.fval() == hash_out(
            old(sponge).chip,
            old(sponge).chip.width(),
            hash_tag(message@.len()),
            fvals(message@),
        ),
        r matches Err(z) ==> z == ZkError::Synthesis && !C::Value::infallible(),
        C::Value::infallible() ==> r is Ok,
{
    let l = message.len();
    let ghost c0 = sponge.chip;
    let ghost w = sponge.chip.width();
    let ghost tagv = hash_tag(l as nat);
    let ghost msv = fvals(message@);
    let pattern = gen_hash_pattern(l, 1);
    proof {
        lemma_hash_pattern_ok(l as u32, 1);
    }
    match sponge.start(pattern, None) {
        Ok(()) => (),
        Err(e) => {
            return Err(e);
        },
    }
    let ghost ca = sponge.chip;
    proof {
        assert(sponge.chip.st() == init_st(w, tagv));
    }
    match sponge.absorb(l as u32, message) {
        Ok(()) => (),
        Err(e) => {
            return Err(e);
        },
    }
    let ghost cb = sponge.chip;
    let ghost sta = sponge.chip.st();
    proof {
        lemma_absorb_hash(ca, w, tagv, msv);
    }
    let ghost ap = sponge.absorb_pos as int;
    let mut out = match sponge.squeeze(1) {
        Ok(out) => out,
        Err(e) => {
            return Err(e);
        },
    };
    proof {
        assert(squeeze_all(cb, sta, ap, 1, 0) == (sta, ap, 1int, Seq::<int>::empty()));
        assert(squeeze_all(cb, sta, ap, 1, 1).3 =~= Seq::<int>::empty().push(cb.perm(sta)[0]));
        assert(cb.perm(sta) == ca.perm(sta));
        if msv.len() == 0 {
            assert(sta == init_st(w, tagv));
            assert(ca.perm(sta) == c0.perm(sta));
        } else {
            let p = hash_state(ca, w, tagv, msv.drop_last());
            assert(sta == p.update(0, fadd(p[0], msv.last())));
            assert(ca.perm(sta) == hash_state(ca, w, tagv, msv));
            lemma_hash_state_same(ca, c0, w, tagv, msv);
        }
        assert(fvals(out@).last() == hash_out(c0, w, tagv, msv));
    }
    let ghost out_pre = out@;
    let h = match out.pop() {
        Some(h) => h,
        None => {
            proof {
                assert(false);
            }
            return Err(ZkError::Synthesis);
        },
    };
    proof {
        assert(h == out_pre.last());
        assert(h.fval() == fvals(out_pre).last());
    }
    match sponge.finish() {
        Ok(()) => (),
        Err(e) => {
            return Err(e);
        },
    }
    Ok(h)
}

/// The chip state after absorbing key and nonce and then, for each processed
/// block, permuting and adding the block into lane 0.
pub open spec fn ae_state<C: ChipAPI>(c: C, w: nat, tag: u128, k: int, nv: int, ms: Seq<int>) -> Seq<
    int,
>
    decreases ms.len(),
{
    if ms.len() == 0 {
        let st0 = init_st(w, tag);
        let st1 = c.perm(st0.update(0, fadd(st0[0], k)));
        st1.update(0, fadd(st1[0], nv))
    } else {
        let p = c.perm(ae_state(c, w, tag, k, nv, ms.drop_last()));
        p.update(0, fadd(p[0], ms.last()))
    }
}

/// Chips with the same permutation fold to the same AE states.
proof fn lemma_ae_state_same<C: ChipAPI>(a: C, b: C, w: nat, tag: u128, k: int, nv: int, ms: Seq<int>)
    requires
        chip_same(a, b),
    ensures
        ae_state(a, w, tag, k, nv, ms) == ae_state(b, w, tag, k, nv, ms),
    decreases ms.len(),
{
    if ms.len() > 0 {
        lemma_ae_state_same(a, b, w, tag, k, nv, ms.drop_last());
    }
}

/// The AE output: for each block, the keystream element (lane 0 after the
/// permutation) plus the block; finally the tag (lane 0 after one more
/// permutation).
pub open spec fn ae_output<C: ChipAPI>(c: C, w: nat, tag: u128, k: int, nv: int, ms: Seq<int>) -> Seq<
    int,
> {
    Seq::new(
        ms.len() + 1,
        |i: int|
            if i < ms.len() {
                fadd(c.perm(ae_state(c, w, tag, k, nv, ms.take(i)))[0], ms[i])
            } else {
                c.perm(ae_state(c, w, tag, k, nv, ms))[0]
            },
    )
}

/// Hash states agree across backends that implement the same permutation.
proof fn lemma_dual_hash_state<C1: ChipAPI, C2: ChipAPI>(
    a: C1,
    b: C2,
    w: nat,
    tag: u128,
    ms: Seq<int>,
)
    requires
        forall|s: Seq<int>| #[trigger] a.perm(s) == b.perm(s),
    ensures
        hash_state(a, w, tag, ms) == hash_state(b, w, tag, ms),
    decreases ms.len(),
{
    if ms.len() > 0 {
        lemma_dual_hash_state(a, b, w, tag, ms.drop_last());
    }
}

/// AE states agree across backends that implement the same permutation.
proof fn lemma_dual_ae_state<C1: ChipAPI, C2: ChipAPI>(
    a: C1,
    b: C2,
    w: nat,
    tag: u128,
    k: int,
    nv: int,
    ms: Seq<int>,
)
    requires
        forall|s: Seq<int>| #[trigger] a.perm(s) == b.perm(s),
    ensures
        ae_state(a, w, tag, k, nv, ms) == ae_state(b, w, tag, k, nv, ms),
    decreases ms.len(),
{
    if ms.len() > 0 {
        lemma_dual_ae_state(a, b, w, tag, k, nv, ms.drop_last());
    }
}

/// Plain/circuit agreement: two chips — whatever their backends — that
/// implement the same permutation over the denoted field values produce the
/// same hash digest and the same AE output on inputs with equal values.  In
/// particular a native chip and a circuit chip built from the same parameter
/// tables compute identical field outputs.
pub proof fn lemma_dual_agreement<C1: ChipAPI, C2: ChipAPI>(
    a: C1,
    b: C2,
    w: nat,
    tag: u128,
    k: int,
    nv: int,
    ms: Seq<int>,
)
    requires
        forall|s: Seq<int>| #[trigger] a.perm(s) == b.perm(s),
    ensures
        hash_out(a, w, tag, ms) == hash_out(b, w, tag, ms),
        ae_output(a, w, tag, k, nv, ms) == ae_output(b, w, tag, k, nv, ms),
{
    lemma_dual_hash_state(a, b, w, tag, ms);
    assert forall|i: int| 0 <= i <= ms.len() implies ae_state(a, w, tag, k, nv, #[trigger] ms.take(i))
        == ae_state(b, w, tag, k, nv, ms.take(i)) by {
        lemma_dual_ae_state(a, b, w, tag, k, nv, ms.take(i));
    }
    lemma_dual_ae_state(a, b, w, tag, k, nv, ms);
    assert(ae_output(a, w, tag, k, nv, ms) =~= ae_output(b, w, tag, k, nv, ms));
}

/// Sponge AE is invertible: for reduced message values, each message block
/// is its ciphertext block minus the keystream element, and that keystream
/// element is a function of the key, the nonce, and the earlier message
/// blocks alone (lane 0 after the permutation of the state they determine).
pub proof fn lemma_ae_output_recoverable<C: ChipAPI>(
    c: C,
    w: nat,
    tag: u128,
    k: int,
    nv: int,
    ms: Seq<int>,
)
    requires
        forall|i: int| 0 <= i < ms.len() ==> in_f(#[trigger] ms[i]),
    ensures
        forall|i: int|
            0 <= i < ms.len() ==> fsub(
                #[trigger] ae_output(c, w, tag, k, nv, ms)[i],
                c.perm(ae_state(c, w, tag, k, nv, ms.take(i)))[0],
            ) == ms[i],
{
    assert forall|i: int| 0 <= i < ms.len() implies fsub(
        #[trigger] ae_output(c, w, tag, k, nv, ms)[i],
        c.perm(ae_state(c, w, tag, k, nv, ms.take(i)))[0],
    ) == ms[i] by {
        lemma_fadd_fsub_cancel(
            ms[i],
            c.perm(ae_state(c, w, tag, k, nv, ms.take(i)))[0],
        );
    }
}

/// Authenticated encryption under the SAFE AE pattern: absorb key and nonce,
/// then for each block squeeze a keystream element, emit block plus keystream,
/// and absorb the block; finally squeeze the tag.
#[verifier::loop_isolation(false)]
#[verifier::rlimit(100)]
pub fn sponge_ae<C: ChipAPI>(
    sponge: &mut Sponge<C>,
    message: &Vec<C::Value>,
    key: &C::Value,
    nonce: &C::Value,
) -> (r: Result<Vec<C::Value>, ZkError>)
    requires
        old(sponge).wf(),
        message@.len() < 0x4000_0000,
        all_ok(message@),
        key.ok(),
        nonce.ok(),
    ensures
        final(sponge).wf(),
        final(sponge).same_setup(old(sponge)),
        r matches Ok(ct) ==> {
            &&& ct@.len() == message@.len() + 1
            &&& all_ok(ct@)
            &&& fvals(ct@) == ae_output(
                old(sponge).chip,
                old(sponge).chip.width(),
                ae_tag(message@.len()),
                key.fval(),
                nonce.fval(),
                fvals(message@),
            )
        },
        r matches Err(z) ==> z == ZkError::Synthesis && !C::Value::infallible(),
        C::Value::infallible() ==> r is Ok,
{
    let l = message.len();
    let pattern = gen_ae_pattern(l, 1, 1);
    proof {
        lemma_ae_pattern_ok(l as nat);
        lemma_ae_pattern_index(l as nat, 1, 1);
    }
    let ghost c0 = sponge.chip;
    let ghost w = sponge.chip.width();
    let ghost tagv = ae_tag(l as nat);
    let ghost kv = key.fval();
    let ghost nv = nonce.fval();
    let ghost msv = fvals(message@);
    match sponge.start(pattern, None) {
        Ok(()) => (),
        Err(e) => {
            return Err(e);
        },
    }
    let ghost ca = sponge.chip;
    let key_block = vec![key.dup()];
    proof {
        assert(fvals(key_block@) =~= seq![kv]);
        assert(seq![kv].drop_last() =~= Seq::<int>::empty());
        assert(all_ok(key_block@));
    }
    match sponge.absorb(1, &key_block) {
        Ok(()) => (),
        Err(e) => {
            return Err(e);
        },
    }
    let ghost cb = sponge.chip;
    let ghost stk = init_st(w, tagv).update(0, fadd(init_st(w, tagv)[0], kv));
    proof {
        assert(absorb_all(ca, init_st(w, tagv), 0, Seq::<int>::empty()) == (
            init_st(w, tagv),
            0int,
        ));
        assert(sponge.chip.st() == stk);
    }
    let nonce_block = vec![nonce.dup()];
    proof {
        assert(fvals(nonce_block@) =~= seq![nv]);
        assert(seq![nv].drop_last() =~= Seq::<int>::empty());
        assert(all_ok(nonce_block@));
    }
    match sponge.absorb(1, &nonce_block) {
        Ok(()) => (),
        Err(e) => {
            return Err(e);
        },
    }
    proof {
        assert(absorb_all(cb, stk, 1, Seq::<int>::empty()) == (stk, 1int));
        assert(cb.perm(stk) == c0.perm(stk));
        assert(sponge.chip.st() == c0.perm(stk).update(0, fadd(c0.perm(stk)[0], nv)));
        assert(msv.take(0int) =~= Seq::<int>::empty());
        assert(sponge.chip.st() == ae_state(c0, w, tagv, kv, nv, msv.take(0int)));
    }
    let mut ciphertext: Vec<C::Value> = Vec::new();
    for i in 0..l
        invariant
            sponge.wf(),
            chip_same(c0, sponge.chip),
            sponge.rate == 1,
            sponge.pattern@ == ae_pattern_spec(l as nat, 1, 1),
            sponge.op_count == 2 + 2 * i,
            sponge.absorb_pos == 1,
            sponge.squeeze_pos == 1,
            sponge.chip.st() == ae_state(c0, w, tagv, kv, nv, msv.take(i as int)),
            ciphertext@.len() == i,
            all_ok(ciphertext@),
            fvals(ciphertext@) == ae_output(c0, w, tagv, kv, nv, msv).take(i as int),
    {
        let ghost cc = sponge.chip;
        let ghost stc = sponge.chip.st();
        let mut ks = match sponge.squeeze(1) {
            Ok(ks) => ks,
            Err(e) => {
                return Err(e);
            },
        };
        proof {
            assert(squeeze_all(cc, stc, 1, 1, 0) == (stc, 1int, 1int, Seq::<int>::empty()));
            assert(squeeze_all(cc, stc, 1, 1, 1).3 =~= Seq::<int>::empty().push(cc.perm(stc)[0]));
            assert(cc.perm(stc) == c0.perm(stc));
        }
        let ghost ks_pre = ks@;
        let k_i = match ks.pop() {
            Some(k_i) => k_i,
            None => {
                proof {
                    assert(false);
                }
                return Err(ZkError::Synthesis);
            },
        };
        proof {
            assert(k_i == ks_pre.last());
            assert(k_i.fval() == fvals(ks_pre).last());
            assert(k_i.fval() == c0.perm(ae_state(c0, w, tagv, kv, nv, msv.take(i as int)))[0]);
        }
        let ghost cs = sponge.chip;
        let ghost sts = sponge.chip.st();
        proof {
            assert(sts == cc.perm(stc));
            assert(absorb_all(cs, sts, 0, Seq::<int>::empty()) == (sts, 0int));
        }
        proof {
            assert(k_i == ks_pre.last());
            assert(ks_pre[ks_pre.len() - 1].ok());
        }
        let ghost old_ct = ciphertext@;
        ciphertext.push(k_i.add(&message[i]));
        let msg_block = vec![message[i].dup()];
        proof {
            assert forall|j: int| 0 <= j <= i implies (#[trigger] ciphertext@[j]).ok() by {
                if j < i {
                    assert(old_ct[j].ok());
                }
            }
            assert(fvals(msg_block@) =~= seq![msv[i as int]]);
            assert(seq![msv[i as int]].drop_last() =~= Seq::<int>::empty());
            assert(all_ok(msg_block@));
            assert(sponge.op_count == 3 + 2 * (i as int));
            assert(ae_pattern_spec(l as nat, 1, 1)[3 + 2 * (i as int)] == SpongeOp::Absorb(1));
        }
        match sponge.absorb(1, &msg_block) {
            Ok(()) => (),
            Err(e) => {
                return Err(e);
            },
        }
        proof {
            assert(msv.take(i + 1).drop_last() =~= msv.take(i as int));
            assert(msv.take(i + 1).last() == msv[i as int]);
            assert(sponge.chip.st() == ae_state(c0, w, tagv, kv, nv, msv.take(i + 1)));
            let outp = ae_output(c0, w, tagv, kv, nv, msv);
            assert(fvals(ciphertext@)[i as int] == fadd(
                c0.perm(ae_state(c0, w, tagv, kv, nv, msv.take(i as int)))[0],
                msv[i as int],
            ));
            assert(outp[i as int] == fadd(
                c0.perm(ae_state(c0, w, tagv, kv, nv, msv.take(i as int)))[0],
                msv[i as int],
            ));
            assert forall|j: int| 0 <= j < i + 1 implies fvals(ciphertext@)[j] == outp.take(
                i + 1,
            )[j] by {
                if j < i {
                    assert(fvals(old_ct)[j] == outp.take(i as int)[j]);
                }
            }
            assert(fvals(ciphertext@) =~= outp.take(i + 1));
        }
    }
    proof {
        assert(msv.take(l as int) =~= msv);
    }
    let ghost cd = sponge.chip;
    let ghost std_ = sponge.chip.st();
    let mut tail = match sponge.squeeze(1) {
        Ok(tail) => tail,
        Err(e) => {
            return Err(e);
        },
    };
    proof {
        assert(squeeze_all(cd, std_, 1, 1, 0) == (std_, 1int, 1int, Seq::<int>::empty()));
        assert(squeeze_all(cd, std_, 1, 1, 1).3 =~= Seq::<int>::empty().push(cd.perm(std_)[0]));
        assert(cd.perm(std_) == c0.perm(std_));
    }
    let ghost tail_pre = tail@;
    let tag_block = match tail.pop() {
        Some(tag_block) => tag_block,
        None => {
            proof {
                assert(false);
            }
            return Err(ZkError::Synthesis);
        },
    };
    proof {
        assert(tag_block == tail_pre.last());
        assert(tag_block.fval() == fvals(tail_pre).last());
    }
    proof {
        assert(tail_pre[tail_pre.len() - 1].ok());
    }
    let ghost old_ct2 = ciphertext@;
    ciphertext.push(tag_block);
    proof {
        assert forall|j: int| 0 <= j < ciphertext@.len() implies (
        #[trigger] ciphertext@[j]).ok() by {
            if j < old_ct2.len() {
                assert(old_ct2[j].ok());
            }
        }
        let outp = ae_output(c0, w, tagv, kv, nv, msv);
        assert(tag_block.fval() == c0.perm(ae_state(c0, w, tagv, kv, nv, msv))[0]);
        assert(outp[l as int] == c0.perm(ae_state(c0, w, tagv, kv, nv, msv))[0]);
        assert forall|j: int| 0 <= j < l + 1 implies fvals(ciphertext@)[j] == outp[j] by {
            if j < l {
                assert(fvals(old_ct2)[j] == outp.take(l as int)[j]);
            }
        }
        assert(fvals(ciphertext@) =~= outp);
    }
    match sponge.finish() {
        Ok(()) => (),
        Err(e) => {
            return Err(e);
        },
    }
    Ok(ciphertext)
}

} // verus!
