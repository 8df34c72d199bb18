//! Tests of the hash and AE primitives: native evaluation, circuit-variable
//! evaluation, and their agreement.

use ark_bls12_381::Fr;
use ark_r1cs_std::alloc::AllocVar;
use ark_r1cs_std::fields::fp::FpVar;
use ark_r1cs_std::R1CSVar;
use ark_relations::r1cs::ConstraintSystem;
use zekrom_core::circuit::FCircuit;
use zekrom_core::drivers::{sponge_ae, sponge_hash};
use zekrom_core::field::FieldOps;
use zekrom_core::griffin::{griffin_parameters, GriffinChip, GriffinPrimitivesBlsFr};
use zekrom_core::neptune::{NeptuneChip, NeptuneParameters, NeptunePrimitivesBlsFr};
use zekrom_core::plain::FPlain;
use zekrom_core::rescue_prime::{rescue_prime_parameters, RescuePrimeChip, RescuePrimePrimitivesBlsFr};
use zekrom_core::sponge::Sponge;

fn msg(vals: &[u64]) -> Vec<FPlain> {
    vals.iter().map(|v| FPlain::from_u64(*v)).collect()
}

fn neptune_params<T: FieldOps>() -> NeptuneParameters<T> {
    let mut round_constants = Vec::new();
    for i in 0..304 {
        round_constants.push(T::from_u64(9000 + i as u64));
    }
    let mut matrix_int = Vec::new();
    for i in 0..4 {
        matrix_int.push(T::from_u64(17 + i as u64));
    }
    NeptuneParameters {
        nb_rounds_ext: [4, 4],
        nb_rounds_int: 68,
        round_constants,
        gamma: T::from_u64(101),
        d: [5, 0, 0, 0],
        matrix_int,
    }
}

#[test]
fn rescue_hash_is_deterministic() {
    let a = RescuePrimePrimitivesBlsFr::hash(&msg(&[1, 2, 3])).unwrap();
    let b = RescuePrimePrimitivesBlsFr::hash(&msg(&[1, 2, 3])).unwrap();
    assert_eq!(a.raw(), b.raw());
    let c = RescuePrimePrimitivesBlsFr::hash(&msg(&[1, 2, 4])).unwrap();
    assert_ne!(a.raw(), c.raw());
}

#[test]
fn rescue_hash_depends_on_length() {
    let a = RescuePrimePrimitivesBlsFr::hash(&msg(&[1])).unwrap();
    let b = RescuePrimePrimitivesBlsFr::hash(&msg(&[1, 0])).unwrap();
    assert_ne!(a.raw(), b.raw());
}

#[test]
fn griffin_hash_is_deterministic() {
    let a = GriffinPrimitivesBlsFr::hash(&msg(&[4, 5])).unwrap();
    let b = GriffinPrimitivesBlsFr::hash(&msg(&[4, 5])).unwrap();
    assert_eq!(a.raw(), b.raw());
}

#[test]
fn griffin_ae_shape_and_nonce_sensitivity() {
    let key = FPlain::from_u64(77);
    let n1 = FPlain::from_u64(88);
    let n2 = FPlain::from_u64(89);
    let ct1 = GriffinPrimitivesBlsFr::ae(&msg(&[1, 2]), &key, &n1).unwrap();
    assert_eq!(ct1.len(), 3);
    let ct2 = GriffinPrimitivesBlsFr::ae(&msg(&[1, 2]), &key, &n2).unwrap();
    assert_ne!(ct1[0].raw(), ct2[0].raw());
}

#[test]
fn neptune_hash_and_ae() {
    let h1 = NeptunePrimitivesBlsFr::hash(neptune_params(), &msg(&[6])).unwrap();
    let h2 = NeptunePrimitivesBlsFr::hash(neptune_params(), &msg(&[6])).unwrap();
    assert_eq!(h1.raw(), h2.raw());
    let ct = NeptunePrimitivesBlsFr::ae(
        neptune_params(),
        &msg(&[6]),
        &FPlain::from_u64(1),
        &FPlain::from_u64(2),
    )
    .unwrap();
    assert_eq!(ct.len(), 2);
}

#[test]
fn rescue_plain_and_circuit_agree() {
    // Native evaluation.
    let message = msg(&[21, 22, 23]);
    let plain = RescuePrimePrimitivesBlsFr::hash(&message).unwrap();
    // Circuit evaluation over allocated witness variables.
    let cs = ConstraintSystem::<Fr>::new_ref();
    let mut vars: Vec<FCircuit> = Vec::new();
    for v in [21u64, 22, 23] {
        vars.push(FCircuit(
            FpVar::new_witness(cs.clone(), || Ok(Fr::from(v))).unwrap(),
        ));
    }
    let parameters = rescue_prime_parameters::<FCircuit>().unwrap();
    let mut sponge = Sponge::new(RescuePrimeChip::new(parameters));
    let out = sponge_hash(&mut sponge, &vars).unwrap();
    assert_eq!(out.0.value().unwrap(), plain.raw());
    assert!(cs.is_satisfied().unwrap());
}

#[test]
fn griffin_plain_and_circuit_agree_on_ae() {
    let message = msg(&[31]);
    let key = FPlain::from_u64(41);
    let nonce = FPlain::from_u64(51);
    let plain_ct = GriffinPrimitivesBlsFr::ae(&message, &key, &nonce).unwrap();

    let cs = ConstraintSystem::<Fr>::new_ref();
    let m_var = vec![FCircuit(
        FpVar::new_witness(cs.clone(), || Ok(Fr::from(31u64))).unwrap(),
    )];
    let k_var = FCircuit(FpVar::new_witness(cs.clone(), || Ok(Fr::from(41u64))).unwrap());
    let n_var = FCircuit(FpVar::new_input(cs.clone(), || Ok(Fr::from(51u64))).unwrap());
    let parameters = griffin_parameters::<FCircuit>().unwrap();
    let mut sponge = Sponge::new(GriffinChip::new(parameters));
    let ct_var = sponge_ae(&mut sponge, &m_var, &k_var, &n_var).unwrap();
    assert_eq!(ct_var.len(), plain_ct.len());
    for (v, p) in ct_var.iter().zip(plain_ct.iter()) {
        assert_eq!(v.0.value().unwrap(), p.raw());
    }
    assert!(cs.is_satisfied().unwrap());
}

#[test]
fn neptune_plain_and_circuit_agree() {
    let message = msg(&[61, 62]);
    let plain = NeptunePrimitivesBlsFr::hash(neptune_params(), &message).unwrap();
    let cs = ConstraintSystem::<Fr>::new_ref();
    let mut vars: Vec<FCircuit> = Vec::new();
    for v in [61u64, 62] {
        vars.push(FCircuit(
            FpVar::new_witness(cs.clone(), || Ok(Fr::from(v))).unwrap(),
        ));
    }
    let mut sponge = Sponge::new(NeptuneChip::new(neptune_params::<FCircuit>()));
    let out = sponge_hash(&mut sponge, &vars).unwrap();
    assert_eq!(out.0.value().unwrap(), plain.raw());
    assert!(cs.is_satisfied().unwrap());
}
