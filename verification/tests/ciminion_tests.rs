//! Tests of Ciminion authenticated encryption.

use ark_bls12_381::Fr;
use ark_r1cs_std::alloc::AllocVar;
use ark_r1cs_std::fields::fp::FpVar;
use ark_relations::r1cs::{ConstraintSystem, SynthesisMode};
use zekrom_core::circuit::FCircuit;
use zekrom_core::ciminion::{CiminionChip, CiminionParameters, CiminionPrimitiveBlsFr};
use zekrom_core::field::{FieldOps, ZkError};
use zekrom_core::plain::FPlain;

fn params(npc: usize, npe: usize) -> CiminionParameters<FPlain> {
    let mut round_constants = Vec::new();
    for i in 0..4 * npc {
        round_constants.push(FPlain::from_u64(1000 + i as u64));
    }
    CiminionParameters { nb_rounds_pe: npe, nb_rounds_pc: npc, round_constants }
}

fn msg(vals: &[u64]) -> Vec<FPlain> {
    vals.iter().map(|v| FPlain::from_u64(*v)).collect()
}

#[test]
fn gen_keys_schedule_bound() {
    let chip = CiminionChip::new(params(5, 2));
    let even = chip.gen_keys(FPlain::from_u64(1), FPlain::from_u64(2), 4);
    assert_eq!(even.len(), 7);
    let odd = chip.gen_keys(FPlain::from_u64(1), FPlain::from_u64(2), 5);
    assert_eq!(odd.len(), 9);
    let zero = chip.gen_keys(FPlain::from_u64(1), FPlain::from_u64(2), 0);
    assert_eq!(zero.len(), 3);
}

#[test]
fn ae_roundtrip() {
    let mut chip = CiminionChip::new(params(14, 6));
    chip.init(FPlain::from_u64(11), FPlain::from_u64(22), 4);
    let message = msg(&[5, 6, 7]);
    let nonce = FPlain::from_u64(33);
    let ct = chip.ae(&message, &nonce).unwrap();
    assert_eq!(ct.len(), 4);
    let recovered = chip.ad(ct, &nonce).unwrap();
    assert_eq!(recovered.len(), 3);
    for (r, m) in recovered.iter().zip(message.iter()) {
        assert_eq!(r.raw(), m.raw());
    }
}

#[test]
fn ae_roundtrip_single_block() {
    let mut chip = CiminionChip::new(params(10, 4));
    chip.init(FPlain::from_u64(1), FPlain::from_u64(2), 1);
    let message = msg(&[99]);
    let nonce = FPlain::from_u64(3);
    let ct = chip.ae(&message, &nonce).unwrap();
    assert_eq!(ct.len(), 2);
    let recovered = chip.ad(ct, &nonce).unwrap();
    assert_eq!(recovered[0].raw(), message[0].raw());
}

#[test]
fn ad_rejects_tampered_tag() {
    let mut chip = CiminionChip::new(params(10, 4));
    chip.init(FPlain::from_u64(1), FPlain::from_u64(2), 2);
    let message = msg(&[8, 9]);
    let nonce = FPlain::from_u64(3);
    let mut ct = chip.ae(&message, &nonce).unwrap();
    let last = ct.pop().unwrap();
    ct.push(last.add(&FPlain::from_u64(1)));
    assert!(matches!(chip.ad(ct, &nonce), Err(ZkError::TagMismatch)));
}

#[test]
fn ad_rejects_tampered_block() {
    let mut chip = CiminionChip::new(params(10, 4));
    chip.init(FPlain::from_u64(1), FPlain::from_u64(2), 2);
    let message = msg(&[8, 9]);
    let nonce = FPlain::from_u64(3);
    let mut ct = chip.ae(&message, &nonce).unwrap();
    ct[0] = ct[0].add(&FPlain::from_u64(1));
    assert!(matches!(chip.ad(ct, &nonce), Err(ZkError::TagMismatch)));
}

#[test]
fn ad_rejects_tampered_nonce() {
    let mut chip = CiminionChip::new(params(10, 4));
    chip.init(FPlain::from_u64(1), FPlain::from_u64(2), 2);
    let message = msg(&[8, 9]);
    let nonce = FPlain::from_u64(3);
    let ct = chip.ae(&message, &nonce).unwrap();
    assert!(matches!(chip.ad(ct, &FPlain::from_u64(4)), Err(ZkError::TagMismatch)));
}

#[test]
fn ae_rejects_long_message() {
    let mut chip = CiminionChip::new(params(10, 4));
    chip.init(FPlain::from_u64(1), FPlain::from_u64(2), 2);
    let message = msg(&[1, 2, 3, 4, 5, 6]);
    assert!(matches!(chip.ae(&message, &FPlain::from_u64(3)), Err(ZkError::LengthBound)));
}

#[test]
fn encrypt_matches_hand_computation() {
    // One round in PC and PE, one message block: every intermediate value can
    // be recomputed directly from the round formulas.
    let rc: [u64; 8] = [100, 200, 300, 400, 500, 600, 700, 800];
    let round = |a: Fr, b: Fr, c: Fr, i: usize| -> (Fr, Fr, Fr) {
        let r0 = Fr::from(rc[4 * i]);
        let r1 = Fr::from(rc[4 * i + 1]);
        let r2 = Fr::from(rc[4 * i + 2]);
        let r3 = Fr::from(rc[4 * i + 3]);
        let tmp = c + a * b + b;
        (c + a * b + r2, a + r3 * tmp + r0, tmp + r1)
    };
    let pc = |s: (Fr, Fr, Fr)| round(s.0, s.1, s.2, 0);
    let mk1 = Fr::from(7u64);
    let mk2 = Fr::from(8u64);
    let nonce = Fr::from(9u64);
    let m0 = Fr::from(10u64);

    // Subkey schedule: three keys for a one-block (padded to even) message...
    // one block is odd, so five keys.
    let mut st = (Fr::from(1u64), mk1, mk2);
    let mut keys = Vec::new();
    for _ in 0..5 {
        st = pc(st);
        keys.push(st.0);
    }
    // Base state and MAC offset.
    let mut s = (nonce, keys[0], keys[1]);
    s = pc(s);
    let (t1, _) = (pc(s).0, pc(s).1);
    // Keystream block.
    let a = s.0 + keys[3];
    let b = s.1 + keys[2];
    let s1 = (s.2 + b * a, a, b);
    let u1 = pc(s1).0;
    let ct0 = m0 + u1;
    // Tag.
    let key = keys[4];
    let tag = (ct0 * key + Fr::from(1u64)) * key + t1;

    let mut round_constants = Vec::new();
    for i in 0..4 {
        round_constants.push(FPlain(Fr::from(rc[i])));
    }
    let parameters = CiminionParameters { nb_rounds_pe: 1, nb_rounds_pc: 1, round_constants };
    let ct = CiminionPrimitiveBlsFr::encrypt(
        parameters,
        &vec![FPlain(m0)],
        (FPlain(mk1), FPlain(mk2)),
        &FPlain(nonce),
    );
    assert_eq!(ct.len(), 2);
    assert_eq!(ct[0].raw(), ct0);
    assert_eq!(ct[1].raw(), tag);
}

#[test]
fn circuit_decrypt_without_assignments_reports_synthesis() {
    // In setup mode witness variables carry no assignment, so the tag
    // comparison of authenticated decryption cannot be evaluated.
    let cs = ConstraintSystem::<Fr>::new_ref();
    cs.set_mode(SynthesisMode::Setup);
    let mut round_constants = Vec::new();
    for i in 0..4 * 5 {
        round_constants.push(FCircuit::from_u64(1000 + i as u64));
    }
    let parameters = CiminionParameters::<FCircuit> {
        nb_rounds_pe: 2,
        nb_rounds_pc: 5,
        round_constants,
    };
    let mut chip = CiminionChip::new(parameters);
    let mk1 = FCircuit(FpVar::new_witness(cs.clone(), || Ok(Fr::from(1u64))).unwrap());
    let mk2 = FCircuit(FpVar::new_witness(cs.clone(), || Ok(Fr::from(2u64))).unwrap());
    chip.init(mk1, mk2, 1);
    let nonce = FCircuit(FpVar::new_witness(cs.clone(), || Ok(Fr::from(3u64))).unwrap());
    let block = FCircuit(FpVar::new_witness(cs, || Ok(Fr::from(4u64))).unwrap());
    let tag = FCircuit::from_u64(0);
    assert!(matches!(chip.ad(vec![block, tag], &nonce), Err(ZkError::Synthesis)));
}
