//! Tests of the SAFE sponge discipline, driven by a Rescue-Prime chip.

use zekrom_core::field::ZkError;
use zekrom_core::pattern::{gen_hash_pattern, IOPattern, SpongeOp};
use zekrom_core::plain::FPlain;
use zekrom_core::rescue_prime::{rescue_prime_parameters, RescuePrimeChip};
use zekrom_core::sponge::Sponge;
use zekrom_core::field::FieldOps;

fn sponge() -> Sponge<RescuePrimeChip<FPlain>> {
    let parameters = rescue_prime_parameters::<FPlain>().unwrap();
    Sponge::new(RescuePrimeChip::new(parameters))
}

fn msg(vals: &[u64]) -> Vec<FPlain> {
    vals.iter().map(|v| FPlain::from_u64(*v)).collect()
}

#[test]
fn sponge_follows_declared_pattern() {
    let mut s = sponge();
    s.start(gen_hash_pattern(2, 1), None).unwrap();
    s.absorb(2, &msg(&[1, 2])).unwrap();
    let out = s.squeeze(1).unwrap();
    assert_eq!(out.len(), 1);
    s.finish().unwrap();
}

#[test]
fn absorb_with_wrong_count_is_rejected() {
    let mut s = sponge();
    s.start(gen_hash_pattern(2, 1), None).unwrap();
    assert!(matches!(s.absorb(1, &msg(&[1])), Err(ZkError::PatternMismatch)));
}

#[test]
fn absorb_with_wrong_element_count_is_rejected() {
    let mut s = sponge();
    s.start(gen_hash_pattern(2, 1), None).unwrap();
    assert!(matches!(s.absorb(2, &msg(&[1])), Err(ZkError::PatternMismatch)));
}

#[test]
fn squeeze_in_place_of_absorb_is_rejected() {
    let mut s = sponge();
    s.start(gen_hash_pattern(2, 1), None).unwrap();
    assert!(matches!(s.squeeze(1), Err(ZkError::PatternMismatch)));
}

#[test]
fn squeeze_with_wrong_count_is_rejected() {
    let mut s = sponge();
    s.start(gen_hash_pattern(2, 1), None).unwrap();
    s.absorb(2, &msg(&[1, 2])).unwrap();
    assert!(matches!(s.squeeze(2), Err(ZkError::PatternMismatch)));
}

#[test]
fn extra_step_beyond_pattern_is_rejected() {
    let mut s = sponge();
    s.start(gen_hash_pattern(1, 1), None).unwrap();
    s.absorb(1, &msg(&[1])).unwrap();
    s.squeeze(1).unwrap();
    assert!(matches!(s.squeeze(1), Err(ZkError::PatternMismatch)));
}

#[test]
fn unfinished_pattern_fails_at_finish() {
    let mut s = sponge();
    s.start(gen_hash_pattern(2, 1), None).unwrap();
    s.absorb(2, &msg(&[1, 2])).unwrap();
    assert!(matches!(s.finish(), Err(ZkError::PatternMismatch)));
    // The state is zeroized on the mismatch path too.
    assert_eq!(s.chip.lane0.raw(), FPlain::from_u64(0).raw());
    assert_eq!(s.chip.lane1.raw(), FPlain::from_u64(0).raw());
    assert_eq!(s.chip.lane2.raw(), FPlain::from_u64(0).raw());
}

#[test]
fn start_resets_a_used_sponge() {
    let mut s = sponge();
    s.start(gen_hash_pattern(1, 1), None).unwrap();
    s.absorb(1, &msg(&[7])).unwrap();
    let first = s.squeeze(1).unwrap();
    s.finish().unwrap();
    s.start(gen_hash_pattern(1, 1), None).unwrap();
    s.absorb(1, &msg(&[7])).unwrap();
    let second = s.squeeze(1).unwrap();
    s.finish().unwrap();
    assert_eq!(first[0].raw(), second[0].raw());
}

#[test]
fn empty_pattern_finishes_immediately() {
    let mut s = sponge();
    s.start(IOPattern::new(vec![]), None).unwrap();
    s.finish().unwrap();
    let _ = SpongeOp::Absorb(0);
}
