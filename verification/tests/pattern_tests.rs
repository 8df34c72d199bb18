//! Tests of sponge operations, IO patterns, and the domain-tag hasher.

use zekrom_core::pattern::{gen_ae_pattern, gen_hash_pattern, Hasher, IOPattern, SpongeOp};

#[test]
fn op_count_and_kind() {
    assert_eq!(SpongeOp::Absorb(7).count(), 7);
    assert_eq!(SpongeOp::Squeeze(3).count(), 3);
    assert!(SpongeOp::Absorb(1).is_absorb());
    assert!(!SpongeOp::Squeeze(1).is_absorb());
    assert!(SpongeOp::Absorb(1).matches(SpongeOp::Absorb(9)));
    assert!(!SpongeOp::Absorb(1).matches(SpongeOp::Squeeze(1)));
}

#[test]
fn op_combine_sums_counts() {
    assert_eq!(SpongeOp::Absorb(2).combine(SpongeOp::Absorb(3)), SpongeOp::Absorb(5));
    assert_eq!(SpongeOp::Squeeze(1).combine(SpongeOp::Squeeze(1)), SpongeOp::Squeeze(2));
}

#[test]
fn op_value_sets_absorb_bit() {
    assert_eq!(SpongeOp::Absorb(5).value(), 0x8000_0005);
    assert_eq!(SpongeOp::Squeeze(5).value(), 5);
}

#[test]
fn tag_exact_value() {
    // Digest of [Absorb(2), Squeeze(1)] with domain separator 0, computed
    // from the definition: state = x*0x80000002 + x^2*1 + x^3*0 mod 2^128
    // with x = 2^128 - 159.
    let p = gen_hash_pattern(2, 1);
    assert_eq!(p.get_tag(None), 0xffffffffffffffffffffffb080006183u128);
    assert_eq!(p.get_tag(Some(1)), 0xffffffffffffffffffffffb07fc30ba4u128);
}

#[test]
fn tag_coalescing() {
    let split = IOPattern::new(vec![
        SpongeOp::Absorb(1),
        SpongeOp::Absorb(1),
        SpongeOp::Squeeze(1),
    ]);
    let merged = IOPattern::new(vec![SpongeOp::Absorb(2), SpongeOp::Squeeze(1)]);
    assert_eq!(split.get_tag(None), merged.get_tag(None));
    assert_eq!(split.get_tag(None), 0xffffffffffffffffffffffb080006183u128);
    assert_ne!(merged.get_tag(None), merged.get_tag(Some(1)));
}

#[test]
fn tag_zero_runs_are_dropped() {
    let with_zero = IOPattern::new(vec![
        SpongeOp::Absorb(2),
        SpongeOp::Squeeze(0),
        SpongeOp::Squeeze(1),
    ]);
    let without = IOPattern::new(vec![SpongeOp::Absorb(2), SpongeOp::Squeeze(1)]);
    assert_eq!(with_zero.get_tag(None), without.get_tag(None));
}

#[test]
fn hasher_update_op_coalesces() {
    let mut a = Hasher::new();
    a.update_op(SpongeOp::Absorb(1));
    a.update_op(SpongeOp::Absorb(1));
    let ta = a.finalize(0);
    let mut b = Hasher::new();
    b.update_op(SpongeOp::Absorb(2));
    let tb = b.finalize(0);
    assert_eq!(ta, tb);
}

#[test]
fn hasher_update_is_deterministic() {
    let mut a = Hasher::new();
    a.update(42);
    let mut b = Hasher::new();
    b.update(42);
    assert_eq!(a.state, b.state);
    assert_eq!(a.x_i, b.x_i);
}

#[test]
fn hash_pattern_shape() {
    let p = gen_hash_pattern(9, 1);
    assert_eq!(p.len(), 2);
    assert_eq!(p.op_at(0), Some(SpongeOp::Absorb(9)));
    assert_eq!(p.op_at(1), Some(SpongeOp::Squeeze(1)));
    assert_eq!(p.op_at(2), None);
}

#[test]
fn ae_pattern_shape() {
    let p = gen_ae_pattern(2, 1, 1);
    assert_eq!(p.len(), 7);
    assert_eq!(p.op_at(0), Some(SpongeOp::Absorb(1)));
    assert_eq!(p.op_at(1), Some(SpongeOp::Absorb(1)));
    assert_eq!(p.op_at(2), Some(SpongeOp::Squeeze(1)));
    assert_eq!(p.op_at(3), Some(SpongeOp::Absorb(1)));
    assert_eq!(p.op_at(4), Some(SpongeOp::Squeeze(1)));
    assert_eq!(p.op_at(5), Some(SpongeOp::Absorb(1)));
    assert_eq!(p.op_at(6), Some(SpongeOp::Squeeze(1)));
}
