//! The Rescue-Prime permutation and its sponge chip.
//!
//! A substitution-permutation network over three field lanes: fourteen
//! rounds, each applying the power map `x^alpha`, an MDS matrix multiply with
//! round constants, the inverse power map `x^(1/alpha)`, and a second MDS
//! multiply with constants.

use vstd::prelude::*;
use crate::drivers::{hash_out, hash_tag, sponge_hash, hash_state};
use crate::field::{
    all_ok, f_p, fadd, fmul, fpow, fvals, limbs_val, load_elems, FieldOps, ZkError,
};
use crate::plain::FPlain;
use crate::sponge::{init_st, ChipAPI, Sponge};

verus! {

/// The sponge rate.
pub const R: usize = 1;

/// The number of state lanes.
pub const M: usize = 3;

/// The number of rounds.
pub const N: usize = 14;

/// One MDS row times the state, plus a round constant.
pub open spec fn rp_row(m0: int, m1: int, m2: int, a: int, b: int, c: int, rc: int) -> int {
    fadd(fadd(fadd(fmul(a, m0), fmul(b, m1)), fmul(c, m2)), rc)
}

/// One Rescue-Prime round at round index `i`: forward S-box, MDS and
/// constants, inverse S-box, MDS and constants.
pub open spec fn rp_round(
    s: (int, int, int),
    mds: Seq<int>,
    rcs: Seq<int>,
    av: int,
    aiv: int,
    i: int,
) -> (int, int, int) {
    let t0 = fpow(s.0, av);
    let t1 = fpow(s.1, av);
    let t2 = fpow(s.2, av);
    let u0 = rp_row(mds[0], mds[1], mds[2], t0, t1, t2, rcs[6 * i]);
    let u1 = rp_row(mds[3], mds[4], mds[5], t0, t1, t2, rcs[6 * i + 1]);
    let u2 = rp_row(mds[6], mds[7], mds[8], t0, t1, t2, rcs[6 * i + 2]);
    let v0 = fpow(u0, aiv);
    let v1 = fpow(u1, aiv);
    let v2 = fpow(u2, aiv);
    (
        rp_row(mds[0], mds[1], mds[2], v0, v1, v2, rcs[6 * i + 3]),
        rp_row(mds[3], mds[4], mds[5], v0, v1, v2, rcs[6 * i + 4]),
        rp_row(mds[6], mds[7], mds[8], v0, v1, v2, rcs[6 * i + 5]),
    )
}

/// The first `n` Rescue-Prime rounds.
pub open spec fn rp_rounds(
    s: (int, int, int),
    mds: Seq<int>,
    rcs: Seq<int>,
    av: int,
    aiv: int,
    n: nat,
) -> (int, int, int)
    decreases n,
{
    if n == 0 {
        s
    } else {
        rp_round(rp_rounds(s, mds, rcs, av, aiv, (n - 1) as nat), mds, rcs, av, aiv, n - 1)
    }
}

/// The full fourteen-round permutation on a three-lane state.
pub open spec fn rp_perm(s: Seq<int>, mds: Seq<int>, rcs: Seq<int>, av: int, aiv: int) -> Seq<
    int,
> {
    let o = rp_rounds((s[0], s[1], s[2]), mds, rcs, av, aiv, N as nat);
    seq![o.0, o.1, o.2]
}

/// The parameters of a Rescue-Prime instance: `2 * M * N` round constants,
/// the `M x M` MDS matrix, and the exponents of the two power maps as 64-bit
/// little-endian limbs.
pub struct RescuePrimeParameters<T> {
    pub round_constants: Vec<T>,
    pub mds: Vec<T>,
    pub alpha_inv: [u64; 4],
    pub alpha: [u64; 4],
}

impl<T: FieldOps> RescuePrimeParameters<T> {
    pub open spec fn wf(&self) -> bool {
        &&& self.round_constants@.len() == 2 * M * N
        &&& self.mds@.len() == M * M
        &&& all_ok(self.round_constants@)
        &&& all_ok(self.mds@)
    }

    pub open spec fn rcs(&self) -> Seq<int> {
        fvals(self.round_constants@)
    }

    pub open spec fn mdsv(&self) -> Seq<int> {
        fvals(self.mds@)
    }

    pub open spec fn av(&self) -> int {
        limbs_val(self.alpha@)
    }

    pub open spec fn aiv(&self) -> int {
        limbs_val(self.alpha_inv@)
    }
}

/// A Rescue-Prime chip: the parameters and the three state lanes.
pub struct RescuePrimeChip<T> {
    pub parameters: RescuePrimeParameters<T>,
    pub lane0: T,
    pub lane1: T,
    pub lane2: T,
}

impl<T: FieldOps> RescuePrimeChip<T> {
    /// A fresh chip with a zero state.
    pub fn new(parameters: RescuePrimeParameters<T>) -> (r: RescuePrimeChip<T>)
        requires
            parameters.wf(),
        ensures
            r.wf(),
            r.parameters == parameters,
            r.st() == seq![0int, 0int, 0int],
    {
        let r = RescuePrimeChip {
            parameters,
            lane0: T::zero(),
            lane1: T::zero(),
            lane2: T::zero(),
        };
        proof {
            assert(r.st() =~= seq![0int, 0int, 0int]);
        }
        r
    }

    /// One round on a copy of the state.
    fn round(&self, s: (T, T, T), i: usize) -> (r: Result<(T, T, T), ZkError>)
        requires
            self.parameters.wf(),
            i < N,
            s.0.ok() && s.1.ok() && s.2.ok(),
        ensures
            r matches Ok(o) ==> (o.0.ok() && o.1.ok() && o.2.ok()),
            r matches Ok(o) ==> (o.0.fval(), o.1.fval(), o.2.fval()) == rp_round(
                (s.0.fval(), s.1.fval(), s.2.fval()),
                self.parameters.mdsv(),
                self.parameters.rcs(),
                self.parameters.av(),
                self.parameters.aiv(),
                i as int,
            ),
            r matches Err(z) ==> z == ZkError::Synthesis && !T::infallible(),
            T::infallible() ==> r is Ok,
    {
        let p = &self.parameters;
        let t0 = match s.0.pow(&p.alpha) {
            Ok(v) => v,
            Err(e) => {
                return Err(e);
            },
        };
        let t1 = match s.1.pow(&p.alpha) {
            Ok(v) => v,
            Err(e) => {
                return Err(e);
            },
        };
        let t2 = match s.2.pow(&p.alpha) {
            Ok(v) => v,
            Err(e) => {
                return Err(e);
            },
        };
        let u0 = t0.mul(&p.mds[0]).add(&t1.mul(&p.mds[1])).add(&t2.mul(&p.mds[2])).add(
            &p.round_constants[6 * i],
        );
        let u1 = t0.mul(&p.mds[3]).add(&t1.mul(&p.mds[4])).add(&t2.mul(&p.mds[5])).add(
            &p.round_constants[6 * i + 1],
        );
        let u2 = t0.mul(&p.mds[6]).add(&t1.mul(&p.mds[7])).add(&t2.mul(&p.mds[8])).add(
            &p.round_constants[6 * i + 2],
        );
        let v0 = match u0.pow(&p.alpha_inv) {
            Ok(v) => v,
            Err(e) => {
                return Err(e);
            },
        };
        let v1 = match u1.pow(&p.alpha_inv) {
            Ok(v) => v,
            Err(e) => {
                return Err(e);
            },
        };
        let v2 = match u2.pow(&p.alpha_inv) {
            Ok(v) => v,
            Err(e) => {
                return Err(e);
            },
        };
        let w0 = v0.mul(&p.mds[0]).add(&v1.mul(&p.mds[1])).add(&v2.mul(&p.mds[2])).add(
            &p.round_constants[6 * i + 3],
        );
        let w1 = v0.mul(&p.mds[3]).add(&v1.mul(&p.mds[4])).add(&v2.mul(&p.mds[5])).add(
            &p.round_constants[6 * i + 4],
        );
        let w2 = v0.mul(&p.mds[6]).add(&v1.mul(&p.mds[7])).add(&v2.mul(&p.mds[8])).add(
            &p.round_constants[6 * i + 5],
        );
        Ok((w0, w1, w2))
    }
}

impl<T: FieldOps> ChipAPI for RescuePrimeChip<T> {
    type Value = T;

    open spec fn st(&self) -> Seq<int> {
        seq![self.lane0.fval(), self.lane1.fval(), self.lane2.fval()]
    }

    open spec fn width(&self) -> nat {
        3
    }

    open spec fn wf(&self) -> bool {
        &&& self.parameters.wf()
        &&& self.lane0.ok() && self.lane1.ok() && self.lane2.ok()
    }

    open spec fn perm(&self, s: Seq<int>) -> Seq<int> {
        rp_perm(
            s,
            self.parameters.mdsv(),
            self.parameters.rcs(),
            self.parameters.av(),
            self.parameters.aiv(),
        )
    }

    proof fn lemma_perm_len(&self, s: Seq<int>) {
    }

    proof fn lemma_st_len(&self) {
    }

    fn init(&mut self, tag: u128) -> (r: Result<(), ZkError>) {
        self.lane0 = T::zero();
        self.lane1 = T::from_u128(tag);
        self.lane2 = T::zero();
        proof {
            assert(self.st() =~= init_st(3, tag));
        }
        Ok(())
    }

    fn read(&self) -> (r: T) {
        self.lane0.dup()
    }

    fn add(&mut self, x: &T) -> (r: Result<(), ZkError>) {
        self.lane0 = self.lane0.add(x);
        proof {
            assert(self.st() =~= old(self).st().update(0, fadd(old(self).st()[0], x.fval())));
        }
        Ok(())
    }

    #[verifier::loop_isolation(false)]
    fn permutation(&mut self) -> (r: Result<(), ZkError>) {
        let ghost st0 = (self.lane0.fval(), self.lane1.fval(), self.lane2.fval());
        let mut s = (self.lane0.dup(), self.lane1.dup(), self.lane2.dup());
        for i in 0..N
            invariant
                self.parameters.wf(),
                self == old(self),
                s.0.ok() && s.1.ok() && s.2.ok(),
                (s.0.fval(), s.1.fval(), s.2.fval()) == rp_rounds(
                    st0,
                    self.parameters.mdsv(),
                    self.parameters.rcs(),
                    self.parameters.av(),
                    self.parameters.aiv(),
                    i as nat,
                ),
        {
            s = match self.round(s, i) {
                Ok(o) => o,
                Err(e) => {
                    return Err(e);
                },
            };
        }
        self.lane0 = s.0;
        self.lane1 = s.1;
        self.lane2 = s.2;
        proof {
            assert(self.st() =~= old(self).perm(old(self).st()));
        }
        Ok(())
    }
}

/// The exponent of the forward S-box (5).
pub const ALPHA_BLS381: [u64; 4] = [0x0000000000000005, 0, 0, 0];

/// The exponent of the inverse S-box (the inverse of 5 modulo the group
/// order).
pub const ALPHAINV_BLS381: [u64; 4] = [
    0x33333332cccccccd,
    0x217f0e679998f199,
    0xe14a56699d73f002,
    0x2e5f0fbadd72321c,
];

/// The MDS matrix of the BLS12-381 instance, row-major, as limb constants.
pub const MDS: [[u64; 4]; 9] = [
    [0x0000000000000157, 0x0000000000000000, 0x0000000000000000, 0x0000000000000000],
    [0xfffffffefffffe72, 0x53bda402fffe5bfe, 0x3339d80809a1d805, 0x73eda753299d7d48],
    [0x0000000000000039, 0x0000000000000000, 0x0000000000000000, 0x0000000000000000],
    [0x0000000000004c5f, 0x0000000000000000, 0x0000000000000000, 0x0000000000000000],
    [0xfffffffeffffa881, 0x53bda402fffe5bfe, 0x3339d80809a1d805, 0x73eda753299d7d48],
    [0x0000000000000b22, 0x0000000000000000, 0x0000000000000000, 0x0000000000000000],
    [0x00000000000eea8e, 0x0000000000000000, 0x0000000000000000, 0x0000000000000000],
    [0xfffffffeffeef262, 0x53bda402fffe5bfe, 0x3339d80809a1d805, 0x73eda753299d7d48],
    [0x0000000000022312, 0x0000000000000000, 0x0000000000000000, 0x0000000000000000],
];


/// The round constants of the BLS12-381 instance, as limb constants.
pub const ROUND_CONSTANTS: [[u64; 4]; 84] = [
    [0xd9afcbe5b35415c8, 0x8baab73d8be819a7, 0x0a121a70c13f5e68, 0x3489b29080b30120],
    [0xbec65e1a7fb4800e, 0x4bf759d603bafb29, 0x585404f33240ec38, 0x5feb371fcdcc06b4],
    [0x9eef3b3cffd3f394, 0x9b511ae7c5ea5ae7, 0x5f2080182051d29f, 0x716b03f2ea781566],
    [0xbb21df5f4ec0760b, 0xb28df9cb4844cc72, 0xe61785ee25e66f83, 0x65a0712cc79f9df5],
    [0x05516419b6cc5bbc, 0x1b2478beb58c45ae, 0xec2ce82b89fbec14, 0x1c25cd317b4285cd],
    [0x4ba432e1f04d76d1, 0x58c48c910337e2bf, 0x9da69c2432e81dcd, 0x5eb650066df78d85],
    [0xe9e946491745065c, 0x9ee82af6eb772b76, 0xc056f1d52362fba6, 0x3826effbb8ed39fc],
    [0x4047814b4355f75b, 0xae2d54f3029fc872, 0x28cf43d6ea98331e, 0x151189b7c5d719aa],
    [0xb2d665e2583fbdff, 0x920fe5f880d8c6fb, 0x015159129fded162, 0x4333df3c236f5400],
    [0xbf3ca4fe0b3307aa, 0x4727b9ac74c9bbda, 0x12a8414b4f9aa834, 0x22f448b3d6b9dcfa],
    [0x799147e3f585d27e, 0xdf3aee0a49e1f1ce, 0xeac4c36bacfc954f, 0x559f84738e406207],
    [0x5771fa7346bfdc4e, 0xac244fe960bfbd75, 0xb0a1e0d18ec716ff, 0x637f691c42ef9df7],
    [0x4000fc674637969c, 0xe3d699a835a83f78, 0xe0ead424bfb1cb7e, 0x502c3d50c58f41fd],
    [0x79b904e1938b6706, 0xe9a7a137fb8ae6a4, 0xc248ae6f2512d186, 0x03038d797b075c99],
    [0x470ce666d0525203, 0xdcec40910c08eb7d, 0x3ecf4290c8120347, 0x389b3b55a2a55263],
    [0x471dad520c90435e, 0x9103c24ca354fae4, 0xe259b85eb3604f2f, 0x65872838c5a55b6e],
    [0x2a8b5c18b51372ef, 0x65088b229a493dea, 0x535d778c00b7d157, 0x1f94c3086cfc6ef7],
    [0x892f213a6f80226f, 0x992c7a28c1ace8ec, 0x634bafc5153d3e9e, 0x0d737a591858b047],
    [0xf14ed68bbcca8cba, 0x44ae6917e721d86f, 0x576933c55c801469, 0x135e85bdc270bcb6],
    [0x063e1fcc758ec06b, 0xf8d0e0be21d7ebc5, 0x6215751e0c648aa4, 0x6e72799a4325693a],
    [0x78c63644d9547150, 0x4c7d8269db4a872a, 0xb9972cdfbabe37ec, 0x28c1576eae9c8e63],
    [0xcb5b51b38392099d, 0x19037a668794a013, 0xcb9a27ec4fe77f54, 0x22854402e5e81a19],
    [0xde775291fbf3ef5d, 0xb58bee46ea66292a, 0x630a21a6711c12fe, 0x0b247edf907a6f10],
    [0x51291a2d6223bbe1, 0x0274ba7ea4e02a6c, 0x7d9bf7f6697d5c2e, 0x2b45022956a750bf],
    [0x67aed31745dd1a07, 0x27c01abe93b4c714, 0x9836a95aba167c2d, 0x6193b1056ea0cec3],
    [0xbbdd2cf0f1739258, 0x878f41c6aadd0538, 0xa41a1b5438ac4128, 0x41ea3b26352612e7],
    [0xd1d38c16814cb4e8, 0x03b95f12e939dc45, 0xcb5dad5b5d46faff, 0x010a5a8dc0a28128],
    [0x7e9b34ae014ad585, 0x01ee34336050f408, 0x16fbff3e33b63919, 0x27c95684d2028684],
    [0x6930132dfaaec47e, 0xc527b26d1e40579d, 0x7497182dbf6dc0ac, 0x5b8315f999330625],
    [0xd2fe989ea7b7e1ce, 0xb122073a771fd0b8, 0x40b10138d72c6a4b, 0x21abb111a99973fd],
    [0xd1bc13f94f49fa6d, 0x70044ecb34565be3, 0xba983202981b60d9, 0x5c4ff7c064abeedf],
    [0xb0312f6b4b5a0958, 0xea3a46716f8760b8, 0x9b3edc5d423353ae, 0x52420f4144684b9a],
    [0x9bbcc2eab7ecc497, 0x0c5bbc11c2a509d3, 0x070758903a7da030, 0x028611721a9d3fe5],
    [0xb9795544bd54a6ec, 0x53337c95e9496f92, 0x2434773d0cb04b7a, 0x183a122b1d51e447],
    [0x3167df0b40b9924e, 0x6765c99fe41dc807, 0x689487453b081044, 0x28a0279c4be90e86],
    [0xe7fb0c7e6cc6ee81, 0x830cd4d25bdaf519, 0x33ef79a7ade5670d, 0x3331b6aed1b30391],
    [0x25c3fb1a94707b9f, 0xe4872220c32a45b2, 0x4e47a1200963560b, 0x6f29495860049eda],
    [0xe3d26fadfe775adb, 0x29922df2eead31ab, 0x290ae459c17fd9a5, 0x57b4c9b24f07556f],
    [0xb5e3f71a1ed2124a, 0x1b85e0157d2c8cd1, 0x752ef4e21eca6bf5, 0x2183ac7353b42ea4],
    [0x2e522596c41f732d, 0xfe32f6eac064c0c6, 0x70051ae67091a2aa, 0x70e488cbf07a7086],
    [0x988bf871bbbb3617, 0xc87e10d42b855475, 0xa2a75e581bde5fa0, 0x44e18861ff99d91d],
    [0xc78f6f8602885a19, 0xc565e12c04df83ac, 0xa66801cad4e44db6, 0x0b036f3f4700c598],
    [0x750d18ad278a31cb, 0x9fcbc0e7d06c8116, 0xb295225ab74d8f9f, 0x3c30fc92d23c89e1],
    [0x488b7790fdd65892, 0x2abd30bc0aef4797, 0x14baaec180769169, 0x29f578da86ed40e7],
    [0x0b3d6e643f2f274c, 0x53a3fd8cc1464382, 0xc74e56aa653a1bc6, 0x31f4dbbee47449b4],
    [0xdb5bf6f20a9fceb0, 0x3e243c76e4199aa7, 0x182f72c0b80f93d1, 0x01f257e718641970],
    [0x6da21e4b4141a589, 0xef07c6a81482ff9f, 0x2498cd63742d50d5, 0x0a88d2691b84c43d],
    [0x7a0245986694e0c5, 0x5b740dafd02113a8, 0x6456afc7f955a1e1, 0x17977ce6368d2bad],
    [0x91e9e31477c0e7ca, 0x8b2232c0d0b37151, 0xe2640da713658761, 0x5f12b7036caa0391],
    [0xd9f5113cbfe95a35, 0xba04d8971977286e, 0xd117dfe6cba162ec, 0x6075c000057c9412],
    [0x62fdff154ceae0c4, 0xf2e7ba2fe1e7aaad, 0x9c70cf819a32e8c9, 0x5ca286355c34b3c8],
    [0xd511c98ca40ac003, 0x7112a51a4cd588b2, 0x024545af1d68345e, 0x4e24e7adbc89a605],
    [0xd42a512a32b2ed13, 0x719387a5910c9fcd, 0x9d155dacf1c707e6, 0x1ee78b627d15e497],
    [0xac60325a77204127, 0x380f63354b6d0ab7, 0xacfede6a9d232658, 0x5b6eef928c448b4b],
    [0x3340d456167400eb, 0xd48d1ee7334e2c16, 0xe1a8f2ab8a7b9bf4, 0x44b3ff6ba72c734d],
    [0x64f4432293e42eaa, 0x6f75872ddc7f2a10, 0x1f16664f525584d2, 0x22c8911db6c26456],
    [0x76c52e07ab1317ea, 0xb780817be14ed147, 0x6a7ff9b107916555, 0x6ab69e10a275fbbf],
    [0xa1e68347564779a1, 0xcc58ff639485d677, 0x98f8af6a98b06387, 0x5cdd1c0c2016e406],
    [0x2de71ddbd5cf736a, 0x873ee0f89f7b197e, 0x93eefbd36f42f658, 0x3bf0960317fc57b6],
    [0x22c296d5453e1eef, 0x3e60f7b28b1b5a91, 0x42b33162a95588c3, 0x187ac14554d67082],
    [0xe1f9dec4c9930a2d, 0xc765dccc9aa6451a, 0x6e0ebc41676b07db, 0x1537c9306ae13f52],
    [0xe2726484d4300f56, 0xa25f54883330e310, 0x21a480d4dd421b90, 0x7132cf1b4a82936d],
    [0xc79ad1ea4bb47771, 0x40f756560e73734d, 0x1679b8199d24aaba, 0x4c481aeec6d733a0],
    [0x78959ff6bc2c182c, 0xb817d234a6e29030, 0x50698dfe8d73a031, 0x0e8e005a336dfff8],
    [0x2e23a778e272cab0, 0x6d5908a10547c0b9, 0x229562b2b26163a8, 0x38b71c5204ad8b42],
    [0x9965f8dbe1a372d0, 0xe282edfab9c13ccb, 0xceb7c2b80aa6b648, 0x32a9cfded73807f0],
    [0x2c1c6de5afe2a1af, 0x9977167fceafd55b, 0x4b52e6c5ca52389e, 0x49d07e87c8937014],
    [0x27527e43506b1fa8, 0x3309b1512d04cb66, 0x51fa2d2e1d13cf32, 0x45b004394a9c20ad],
    [0xb5b0eab2ed5b8d1c, 0x1ef91b5fb4b496f7, 0x74869fdf08a195d4, 0x4a3f60a23a33561f],
    [0x26080a5c432ba425, 0xc8a3d1f913747669, 0x39c347bcf4a6475b, 0x090e9806671e290e],
    [0x5ee68cb9cab67882, 0x219a7e5e96717834, 0x72e9a618b101cbe2, 0x20e4b45a01968d8d],
    [0x611d510856a38e76, 0x71354dccaea7b557, 0x8077019e73c8ea79, 0x496893cd586c8bc6],
    [0x27e947b03335893b, 0x06271e9e8decac45, 0xf9a0c5df8ae6e72c, 0x67ecc99e6467af1c],
    [0x68c8b32bb780bc42, 0x056f7550a7cdd64b, 0x893fef0dd1045b25, 0x5435a7c4ad6208c9],
    [0x596a2a4b3fbc807d, 0x317cd11639fb3275, 0xbf0d931f030cc1fa, 0x500db24914bea6f7],
    [0xc846ca010226a935, 0xb5bdfd89fdfd2c91, 0xbcaf138db69718d5, 0x168f65422bb894a4],
    [0x73138d99ac2f3f21, 0x283776d1b99ed635, 0x6b808d16345ce09a, 0x1a29fc6a3dca39ca],
    [0xb6089f33d6f7daab, 0xe3669d2628073f60, 0xa7a38c91f5550526, 0x0060568bed401f78],
    [0x75facba49ba05fb0, 0xa7b4da7c32b66147, 0x8d7d4031f22fdf5a, 0x19d9d9d022d33119],
    [0x3bbc3732e5f271f4, 0xf933c941c8269dbb, 0xceaa9f1fbeb92f47, 0x2c48388ecd60da7a],
    [0xedc196cb29ed5c3d, 0x32b54364925e4d4d, 0x567cdb479db115d3, 0x3567a50248402ac1],
    [0x98d4a4948ffccc93, 0x45ea9f7c402676a3, 0x9ace5acb568ccaf8, 0x2d416efd0fa7515e],
    [0x04ee30cc7469389d, 0xfa65e14560015de6, 0xd7b98ea136d373fc, 0x4103944884de4ea0],
    [0x5a17223fb25ea3a8, 0xec2c353d18534e99, 0xa6f77f69b8df5352, 0x3febdf64ebcfef21],
];


/// The MDS values of the BLS12-381 instance.
pub open spec fn rp_table_mds() -> Seq<int> {
    Seq::new(9, |i: int| limbs_val(MDS@[i]@))
}

/// The round-constant values of the BLS12-381 instance.
pub open spec fn rp_table_rcs() -> Seq<int> {
    Seq::new(84, |i: int| limbs_val(ROUND_CONSTANTS@[i]@))
}

/// Every limb constant of the BLS12-381 tables is reduced.
pub open spec fn rp_tables_ok() -> bool {
    &&& forall|i: int| 0 <= i < 84 ==> limbs_val(#[trigger] ROUND_CONSTANTS@[i]@) < f_p()
    &&& forall|i: int| 0 <= i < 9 ==> limbs_val(#[trigger] MDS@[i]@) < f_p()
}

/// The BLS12-381 Rescue-Prime permutation.
pub open spec fn rp_bls_perm(s: Seq<int>) -> Seq<int> {
    rp_perm(s, rp_table_mds(), rp_table_rcs(), limbs_val(ALPHA_BLS381@), limbs_val(ALPHAINV_BLS381@))
}

/// The sponge-hash state fold of the BLS12-381 instance.
pub open spec fn rp_bls_hash_state(tag: u128, ms: Seq<int>) -> Seq<int>
    decreases ms.len(),
{
    if ms.len() == 0 {
        init_st(3, tag)
    } else {
        let p = rp_bls_hash_state(tag, ms.drop_last());
        rp_bls_perm(p.update(0, fadd(p[0], ms.last())))
    }
}

/// The sponge-hash digest of the BLS12-381 instance.
pub open spec fn rp_bls_hash_out(tag: u128, ms: Seq<int>) -> int {
    if ms.len() == 0 {
        rp_bls_perm(init_st(3, tag))[0]
    } else {
        rp_bls_hash_state(tag, ms)[0]
    }
}

/// Build the BLS12-381 parameters; yields them exactly when the limb tables
/// are reduced (they are).
pub fn rescue_prime_parameters<T: FieldOps>() -> (r: Option<RescuePrimeParameters<T>>)
    ensures
        r matches Some(p) ==> {
            &&& p.wf()
            &&& p.rcs() == rp_table_rcs()
            &&& p.mdsv() == rp_table_mds()
            &&& p.av() == limbs_val(ALPHA_BLS381@)
            &&& p.aiv() == limbs_val(ALPHAINV_BLS381@)
        },
        r is Some <==> rp_tables_ok(),
{
    let round_constants = match load_elems::<T>(ROUND_CONSTANTS.as_slice()) {
        Some(v) => v,
        None => {
            return None;
        },
    };
    let mds = match load_elems::<T>(MDS.as_slice()) {
        Some(v) => v,
        None => {
            return None;
        },
    };
    proof {
        assert(fvals(round_constants@) =~= rp_table_rcs());
        assert(fvals(mds@) =~= rp_table_mds());
    }
    Some(
        RescuePrimeParameters {
            round_constants,
            mds,
            alpha: ALPHA_BLS381,
            alpha_inv: ALPHAINV_BLS381,
        },
    )
}

/// Any chip carrying the BLS12-381 tables folds messages to the BLS12-381
/// hash states.
proof fn lemma_rp_bls_hash<T: FieldOps>(c: RescuePrimeChip<T>, tag: u128, ms: Seq<int>)
    requires
        c.parameters.rcs() == rp_table_rcs(),
        c.parameters.mdsv() == rp_table_mds(),
        c.parameters.av() == limbs_val(ALPHA_BLS381@),
        c.parameters.aiv() == limbs_val(ALPHAINV_BLS381@),
    ensures
        hash_state(c, 3, tag, ms) == rp_bls_hash_state(tag, ms),
        hash_out(c, 3, tag, ms) == rp_bls_hash_out(tag, ms),
    decreases ms.len(),
{
    if ms.len() > 0 {
        lemma_rp_bls_hash(c, tag, ms.drop_last());
    }
}

/// The BLS12-381 Rescue-Prime primitive: a one-element sponge hash over
/// native field elements.
pub struct RescuePrimePrimitivesBlsFr {}

impl RescuePrimePrimitivesBlsFr {
    /// Hash a message of field elements to one field element.
    pub fn hash(message: &Vec<FPlain>) -> (r: Result<FPlain, ZkError>)
        requires
            message@.len() < 0x8000_0000,
        ensures
            r matches Ok(h) ==> h.fval() == rp_bls_hash_out(
                hash_tag(message@.len()),
                fvals(message@),
            ),
            r matches Err(z) ==> z == ZkError::Synthesis && !rp_tables_ok(),
            rp_tables_ok() ==> r is Ok,
    {
        let parameters = match rescue_prime_parameters::<FPlain>() {
            Some(p) => p,
            None => {
                return Err(ZkError::Synthesis);
            },
        };
        let chip = RescuePrimeChip::new(parameters);
        let ghost c0 = chip;
        let mut sponge = Sponge::new(chip);
        proof {
            assert(all_ok(message@));
        }
        match sponge_hash(&mut sponge, message) {
            Ok(h) => {
                proof {
                    lemma_rp_bls_hash(c0, hash_tag(message@.len()), fvals(message@));
                }
                Ok(h)
            },
            Err(e) => {
                proof {
                    assert(false);
                }
                Err(e)
            },
        }
    }
}

} // verus!
