//! A proof round-trip: a Ciminion encryption circuit proved with Groth16,
//! with the ciphertext blocks and the nonce as public inputs, verifies; a
//! perturbed public input is rejected.

use ark_bls12_381::{Bls12_381, Fr};
use ark_groth16::Groth16;
use ark_r1cs_std::alloc::AllocVar;
use ark_r1cs_std::eq::EqGadget;
use ark_r1cs_std::fields::fp::FpVar;
use ark_relations::r1cs::{ConstraintSynthesizer, ConstraintSystemRef, SynthesisError};
use ark_snark::SNARK;
use zekrom_core::circuit::FCircuit;
use zekrom_core::ciminion::{CiminionChip, CiminionParameters, CiminionPrimitiveBlsFr};
use zekrom_core::field::FieldOps;
use zekrom_core::plain::FPlain;

const NB_R_PC: usize = 8;
const NB_R_PE: usize = 3;

fn params<T: FieldOps>() -> CiminionParameters<T> {
    let mut round_constants = Vec::new();
    for i in 0..4 * NB_R_PC {
        round_constants.push(T::from_u64(3000 + i as u64));
    }
    CiminionParameters { nb_rounds_pe: NB_R_PE, nb_rounds_pc: NB_R_PC, round_constants }
}

#[derive(Clone)]
struct CiminionDemoCircuit {
    message: Vec<Fr>,
    ciphertext: Vec<Fr>,
    keys: (Fr, Fr),
    nonce: Fr,
}

impl ConstraintSynthesizer<Fr> for CiminionDemoCircuit {
    fn generate_constraints(self, cs: ConstraintSystemRef<Fr>) -> Result<(), SynthesisError> {
        let mut m = Vec::new();
        for e in self.message.iter() {
            m.push(FCircuit(FpVar::new_witness(cs.clone(), || Ok(*e))?));
        }
        let mut ct = Vec::new();
        for e in self.ciphertext.iter() {
            ct.push(FpVar::new_input(cs.clone(), || Ok(*e))?);
        }
        let mk1 = FCircuit(FpVar::new_witness(cs.clone(), || Ok(self.keys.0))?);
        let mk2 = FCircuit(FpVar::new_witness(cs.clone(), || Ok(self.keys.1))?);
        let nonce = FCircuit(FpVar::new_input(cs, || Ok(self.nonce))?);

        let mut chip = CiminionChip::new(params::<FCircuit>());
        chip.init(mk1, mk2, self.message.len());
        let result = chip.ae(&m, &nonce).map_err(|_| SynthesisError::Unsatisfiable)?;
        for (r, c) in result.iter().zip(ct.iter()) {
            r.0.enforce_equal(c)?;
        }
        Ok(())
    }
}

#[test]
fn groth16_ae_roundtrip_and_rejection() {
    let rng = &mut ark_std::test_rng();
    let message = vec![Fr::from(42u64)];
    let keys = (Fr::from(7u64), Fr::from(11u64));
    let nonce = Fr::from(13u64);

    let ct = CiminionPrimitiveBlsFr::encrypt(
        params::<FPlain>(),
        &vec![FPlain(message[0])],
        (FPlain(keys.0), FPlain(keys.1)),
        &FPlain(nonce),
    );
    let ciphertext: Vec<Fr> = ct.iter().map(|x| x.raw()).collect();

    let circuit = CiminionDemoCircuit { message, ciphertext: ciphertext.clone(), keys, nonce };
    let (pk, vk) = Groth16::<Bls12_381>::circuit_specific_setup(circuit.clone(), rng).unwrap();
    let proof = Groth16::<Bls12_381>::prove(&pk, circuit, rng).unwrap();

    let mut public = ciphertext.clone();
    public.push(nonce);
    assert!(Groth16::<Bls12_381>::verify(&vk, &public, &proof).unwrap());

    let mut tampered = ciphertext.clone();
    tampered[0] += Fr::from(1u64);
    tampered.push(nonce);
    assert!(!Groth16::<Bls12_381>::verify(&vk, &tampered, &proof).unwrap());

    let mut wrong_nonce = ciphertext;
    wrong_nonce.push(nonce + Fr::from(1u64));
    assert!(!Groth16::<Bls12_381>::verify(&vk, &wrong_nonce, &proof).unwrap());
}
