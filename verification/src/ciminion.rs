//! Ciminion authenticated encryption.
//!
//! A keyed, non-sponge primitive over three field lanes: a round permutation
//! `PC` (all rounds) whose tail `PE` (the last `nb_rounds_pe` rounds) produces
//! keystream pairs, a subkey schedule derived once from two master keys, and a
//! Horner MAC over the ciphertext.

use vstd::prelude::*;
use crate::plain::FPlain;
use crate::field::{
    all_ok, fadd, fmul, fsub, fvals, in_f, lemma_fadd_fsub_cancel, FieldOps, ZkError,
};

verus! {

/// One Ciminion round at round index `i`, using round constants
/// `rcs[4i..4i+3]`.
pub open spec fn cim_round1(s: (int, int, int), rcs: Seq<int>, i: int) -> (int, int, int) {
    let tmp = fadd(fadd(s.2, fmul(s.1, s.0)), s.1);
    (
        fadd(fadd(s.2, fmul(s.1, s.0)), rcs[4 * i + 2]),
        fadd(fadd(s.0, fmul(rcs[4 * i + 3], tmp)), rcs[4 * i]),
        fadd(tmp, rcs[4 * i + 1]),
    )
}

/// `n` rounds starting at round index `start`.
pub open spec fn cim_rounds(s: (int, int, int), rcs: Seq<int>, start: int, n: nat) -> (
    int,
    int,
    int,
)
    decreases n,
{
    if n == 0 {
        s
    } else {
        cim_round1(cim_rounds(s, rcs, start, (n - 1) as nat), rcs, start + n - 1)
    }
}

/// The full permutation `PC`: rounds `0 .. npc`.
pub open spec fn cim_pc(s: (int, int, int), rcs: Seq<int>, npc: nat) -> (int, int, int) {
    cim_rounds(s, rcs, 0, npc)
}

/// The rolling permutation `PE`: the last `npe` of the `npc` rounds.
pub open spec fn cim_pe(s: (int, int, int), rcs: Seq<int>, npc: nat, npe: nat) -> (int, int, int) {
    cim_rounds(s, rcs, npc - npe, npe)
}

/// The key-insertion step between keystream blocks.
pub open spec fn cim_iter(s: (int, int, int), k1: int, k2: int) -> (int, int, int) {
    let a = fadd(s.0, k2);
    let b = fadd(s.1, k1);
    (fadd(s.2, fmul(b, a)), a, b)
}

/// State of the subkey generator after `j` applications of `PC` to
/// `(1, mk1, mk2)`.
pub open spec fn cim_key_state(rcs: Seq<int>, npc: nat, mk1: int, mk2: int, j: nat) -> (
    int,
    int,
    int,
)
    decreases j,
{
    if j == 0 {
        (1int, mk1, mk2)
    } else {
        cim_pc(cim_key_state(rcs, npc, mk1, mk2, (j - 1) as nat), rcs, npc)
    }
}

/// The first `n` subkeys: lane 0 after each application of `PC`.
pub open spec fn cim_keys(rcs: Seq<int>, npc: nat, mk1: int, mk2: int, n: nat) -> Seq<int> {
    Seq::new(n, |i: int| cim_key_state(rcs, npc, mk1, mk2, (i + 1) as nat).0)
}

/// How many subkeys `gen_keys` materializes for message length `len`.
pub open spec fn cim_n_keys(len: nat) -> nat {
    if len % 2 == 0 {
        len + 3
    } else {
        len + 4
    }
}

/// The encryption base state: `(nonce, keys[0], keys[1])` pushed through
/// `PC`.
pub open spec fn cim_base(rcs: Seq<int>, npc: nat, keys: Seq<int>, nonce: int) -> (int, int, int) {
    cim_pc((nonce, keys[0], keys[1]), rcs, npc)
}

/// The MAC offset: lane 0 of `PE` applied to the base state.
pub open spec fn cim_t1(rcs: Seq<int>, npc: nat, npe: nat, keys: Seq<int>, nonce: int) -> int {
    cim_pe(cim_base(rcs, npc, keys, nonce), rcs, npc, npe).0
}

/// The keystream elements for block indices `i .. len`, starting from state
/// `s` (which has already produced blocks `0 .. i`); `i` is even.
pub open spec fn cim_ks(
    rcs: Seq<int>,
    npc: nat,
    npe: nat,
    s: (int, int, int),
    keys: Seq<int>,
    i: nat,
    len: nat,
) -> Seq<int>
    decreases len - i,
{
    if i >= len {
        Seq::empty()
    } else {
        let s1 = cim_iter(s, keys[i + 2int], keys[i + 3int]);
        let out = cim_pe(s1, rcs, npc, npe);
        if i + 1 < len {
            seq![out.0, out.1] + cim_ks(rcs, npc, npe, s1, keys, i + 2, len)
        } else {
            seq![out.0]
        }
    }
}

/// The whole keystream for a message of `len` blocks.
pub open spec fn cim_keystream(
    rcs: Seq<int>,
    npc: nat,
    npe: nat,
    keys: Seq<int>,
    nonce: int,
    len: nat,
) -> Seq<int> {
    cim_ks(rcs, npc, npe, cim_base(rcs, npc, keys, nonce), keys, 0, len)
}

/// The Horner fold of the MAC: `tag = (tag + block) * key` over the blocks in
/// order.
pub open spec fn cim_mac_fold(ct: Seq<int>, key: int) -> int
    decreases ct.len(),
{
    if ct.len() == 0 {
        0
    } else {
        fmul(fadd(cim_mac_fold(ct.drop_last(), key), ct.last()), key)
    }
}

/// The authentication tag over ciphertext blocks `ct` with MAC key `key` and
/// offset `t1`: the Horner fold, plus the length, times the key, plus `t1`.
pub open spec fn cim_mac(ct: Seq<int>, t1: int, key: int) -> int {
    fadd(fmul(fadd(cim_mac_fold(ct, key), ct.len() as int), key), t1)
}

/// The ciphertext blocks: message plus keystream.
pub open spec fn cim_ct_blocks(
    rcs: Seq<int>,
    npc: nat,
    npe: nat,
    keys: Seq<int>,
    nonce: int,
    m: Seq<int>,
) -> Seq<int> {
    let ks = cim_keystream(rcs, npc, npe, keys, nonce, m.len());
    Seq::new(m.len(), |i: int| fadd(m[i], ks[i]))
}

/// The full AE output: ciphertext blocks followed by the tag.
pub open spec fn cim_ae(
    rcs: Seq<int>,
    npc: nat,
    npe: nat,
    keys: Seq<int>,
    nonce: int,
    m: Seq<int>,
) -> Seq<int> {
    let blocks = cim_ct_blocks(rcs, npc, npe, keys, nonce, m);
    blocks.push(
        cim_mac(blocks, cim_t1(rcs, npc, npe, keys, nonce), keys[keys.len() - 1]),
    )
}

/// The keystream for block indices `i..len` has `len - i` elements.
pub proof fn lemma_cim_ks_len(
    rcs: Seq<int>,
    npc: nat,
    npe: nat,
    s: (int, int, int),
    keys: Seq<int>,
    i: nat,
    len: nat,
)
    ensures
        cim_ks(rcs, npc, npe, s, keys, i, len).len() == if i >= len {
            0int
        } else {
            len - i
        },
    decreases len - i,
{
    if i < len {
        let s1 = cim_iter(s, keys[i + 2int], keys[i + 3int]);
        if i + 1 < len {
            lemma_cim_ks_len(rcs, npc, npe, s1, keys, (i + 2) as nat, len);
        }
    }
}

/// The parameters of a Ciminion instance: how many rounds `PC` and its tail
/// `PE` apply, and the table of `4 * nb_rounds_pc` round constants.
pub struct CiminionParameters<T> {
    pub nb_rounds_pe: usize,
    pub nb_rounds_pc: usize,
    pub round_constants: Vec<T>,
}

impl<T: FieldOps> CiminionParameters<T> {
    pub open spec fn wf(&self) -> bool {
        &&& 0 < self.nb_rounds_pe <= self.nb_rounds_pc
        &&& 4 * self.nb_rounds_pc <= usize::MAX
        &&& self.round_constants@.len() == 4 * self.nb_rounds_pc
        &&& all_ok(self.round_constants@)
    }

    /// The round-constant values.
    pub open spec fn rcs(&self) -> Seq<int> {
        fvals(self.round_constants@)
    }
}

/// A Ciminion instance: the parameters plus the materialized subkey schedule.
pub struct CiminionChip<T> {
    pub parameters: CiminionParameters<T>,
    pub keys: Vec<T>,
}

impl<T: FieldOps> CiminionChip<T> {
    pub open spec fn wf(&self) -> bool {
        &&& self.parameters.wf()
        &&& all_ok(self.keys@)
    }

    pub open spec fn rcs(&self) -> Seq<int> {
        self.parameters.rcs()
    }

    pub open spec fn npc(&self) -> nat {
        self.parameters.nb_rounds_pc as nat
    }

    pub open spec fn npe(&self) -> nat {
        self.parameters.nb_rounds_pe as nat
    }

    pub open spec fn keyvals(&self) -> Seq<int> {
        fvals(self.keys@)
    }

    /// A fresh chip with no subkeys yet.
    pub fn new(parameters: CiminionParameters<T>) -> (r: CiminionChip<T>)
        requires
            parameters.wf(),
        ensures
            r.wf(),
            r.parameters == parameters,
            r.keyvals() == Seq::<int>::empty(),
    {
        let r = CiminionChip { parameters, keys: Vec::new() };
        proof {
            assert(r.keyvals() =~= Seq::<int>::empty());
            assert(all_ok(r.keys@));
        }
        r
    }

    /// One round of the inner permutation at round index `i`.
    fn round(&self, state: (T, T, T), i: usize) -> (r: (T, T, T))
        requires
            self.wf(),
            i < self.npc(),
            state.0.ok() && state.1.ok() && state.2.ok(),
        ensures
            (r.0.fval(), r.1.fval(), r.2.fval()) == cim_round1(
                (state.0.fval(), state.1.fval(), state.2.fval()),
                self.rcs(),
                i as int,
            ),
            r.0.ok() && r.1.ok() && r.2.ok(),
    {
        let (a, b, c) = state;
        let prod = b.mul(&a);
        let tmp = c.add(&prod).add(&b);
        let na = c.add(&prod).add(&self.parameters.round_constants[4 * i + 2]);
        let nb = a.add(&self.parameters.round_constants[4 * i + 3].mul(&tmp)).add(
            &self.parameters.round_constants[4 * i],
        );
        let nc = tmp.add(&self.parameters.round_constants[4 * i + 1]);
        (na, nb, nc)
    }

    /// Rounds `start .. start + n` of the inner permutation.
    fn rounds(&self, state: (T, T, T), start: usize, n: usize) -> (r: (T, T, T))
        requires
            self.wf(),
            start + n <= self.npc(),
            state.0.ok() && state.1.ok() && state.2.ok(),
        ensures
            (r.0.fval(), r.1.fval(), r.2.fval()) == cim_rounds(
                (state.0.fval(), state.1.fval(), state.2.fval()),
                self.rcs(),
                start as int,
                n as nat,
            ),
            r.0.ok() && r.1.ok() && r.2.ok(),
    {
        let ghost s0 = (state.0.fval(), state.1.fval(), state.2.fval());
        let mut st = state;
        for j in 0..n
            invariant
                self.wf(),
                start + n <= self.npc(),
                st.0.ok() && st.1.ok() && st.2.ok(),
                (st.0.fval(), st.1.fval(), st.2.fval()) == cim_rounds(
                    s0,
                    self.rcs(),
                    start as int,
                    j as nat,
                ),
        {
            st = self.round(st, start + j);
        }
        st
    }

    /// The full permutation `PC`.
    fn pc(&self, state: (T, T, T)) -> (r: (T, T, T))
        requires
            self.wf(),
            state.0.ok() && state.1.ok() && state.2.ok(),
        ensures
            (r.0.fval(), r.1.fval(), r.2.fval()) == cim_pc(
                (state.0.fval(), state.1.fval(), state.2.fval()),
                self.rcs(),
                self.npc(),
            ),
            r.0.ok() && r.1.ok() && r.2.ok(),
    {
        self.rounds(state, 0, self.parameters.nb_rounds_pc)
    }

    /// The rolling permutation `PE`: the last `nb_rounds_pe` rounds; returns
    /// the two output lanes.
    fn pe(&self, state: (T, T, T)) -> (r: (T, T))
        requires
            self.wf(),
            state.0.ok() && state.1.ok() && state.2.ok(),
        ensures
            ({
                let out = cim_pe(
                    (state.0.fval(), state.1.fval(), state.2.fval()),
                    self.rcs(),
                    self.npc(),
                    self.npe(),
                );
                (r.0.fval(), r.1.fval()) == (out.0, out.1)
            }),
            r.0.ok() && r.1.ok(),
    {
        let st = self.rounds(
            state,
            self.parameters.nb_rounds_pc - self.parameters.nb_rounds_pe,
            self.parameters.nb_rounds_pe,
        );
        (st.0, st.1)
    }

    /// The key-insertion step between keystream blocks.
    fn iter_keys(&self, state: (T, T, T), k1: &T, k2: &T) -> (r: (T, T, T))
        requires
            state.0.ok() && state.1.ok() && state.2.ok(),
            k1.ok(),
            k2.ok(),
        ensures
            (r.0.fval(), r.1.fval(), r.2.fval()) == cim_iter(
                (state.0.fval(), state.1.fval(), state.2.fval()),
                k1.fval(),
                k2.fval(),
            ),
            r.0.ok() && r.1.ok() && r.2.ok(),
    {
        let a = state.0.add(k2);
        let b = state.1.add(k1);
        let c = state.2.add(&b.mul(&a));
        (c, a, b)
    }

    /// Derive the subkey schedule for message length `len` from the two
    /// master keys: at least `len + 3` subkeys, exactly `len + 4` when `len`
    /// is odd.
    pub fn gen_keys(&self, mk1: T, mk2: T, len: usize) -> (r: Vec<T>)
        requires
            self.wf(),
            len <= usize::MAX - 4,
            mk1.ok(),
            mk2.ok(),
        ensures
            all_ok(r@),
            r@.len() == cim_n_keys(len as nat),
            r@.len() >= len + 3,
            len % 2 == 1 ==> r@.len() == len + 4,
            fvals(r@) == cim_keys(self.rcs(), self.npc(), mk1.fval(), mk2.fval(), cim_n_keys(
                len as nat,
            )),
    {
        let ghost mk1v = mk1.fval();
        let ghost mk2v = mk2.fval();
        let mut state = (T::one(), mk1, mk2);
        let number_keys = if len % 2 != 0 {
            len + 4
        } else {
            len + 3
        };
        let mut keys: Vec<T> = Vec::new();
        for j in 0..number_keys
            invariant
                self.wf(),
                state.0.ok() && state.1.ok() && state.2.ok(),
                all_ok(keys@),
                (state.0.fval(), state.1.fval(), state.2.fval()) == cim_key_state(
                    self.rcs(),
                    self.npc(),
                    mk1v,
                    mk2v,
                    j as nat,
                ),
                keys@.len() == j,
                fvals(keys@) == cim_keys(self.rcs(), self.npc(), mk1v, mk2v, j as nat),
        {
            state = self.pc(state);
            let k = state.0.dup();
            let ghost old_keys = keys@;
            keys.push(k);
            proof {
                let target = cim_keys(self.rcs(), self.npc(), mk1v, mk2v, (j + 1) as nat);
                assert(cim_key_state(self.rcs(), self.npc(), mk1v, mk2v, (j + 1) as nat)
                    == cim_pc(
                    cim_key_state(self.rcs(), self.npc(), mk1v, mk2v, j as nat),
                    self.rcs(),
                    self.npc(),
                ));
                assert forall|idx: int| 0 <= idx <= j implies fvals(keys@)[idx] == target[idx] by {
                    if idx < j {
                        assert(fvals(old_keys)[idx] == cim_keys(
                            self.rcs(),
                            self.npc(),
                            mk1v,
                            mk2v,
                            j as nat,
                        )[idx]);
                    }
                }
                assert(fvals(keys@) =~= target);
                assert forall|idx: int| 0 <= idx <= j implies (#[trigger] keys@[idx]).ok() by {
                    if idx < j {
                        assert(old_keys[idx].ok());
                    }
                }
            }
        }
        keys
    }

    /// Materialize the subkey schedule for messages of up to `max_len`
    /// blocks.
    pub fn init(&mut self, mk1: T, mk2: T, max_len: usize)
        requires
            old(self).wf(),
            max_len <= usize::MAX - 4,
            mk1.ok(),
            mk2.ok(),
        ensures
            final(self).wf(),
            final(self).parameters == old(self).parameters,
            final(self).keyvals() == cim_keys(
                old(self).rcs(),
                old(self).npc(),
                mk1.fval(),
                mk2.fval(),
                cim_n_keys(max_len as nat),
            ),
            final(self).keys@.len() == cim_n_keys(max_len as nat),
    {
        self.keys = self.gen_keys(mk1, mk2, max_len);
    }

    /// The base state and MAC offset derived from the nonce.
    fn gen_state_and_t(&self, nonce: &T) -> (r: ((T, T, T), T))
        requires
            self.wf(),
            self.keys@.len() >= 2,
            nonce.ok(),
        ensures
            r.0.0.ok() && r.0.1.ok() && r.0.2.ok() && r.1.ok(),
            (r.0.0.fval(), r.0.1.fval(), r.0.2.fval()) == cim_base(
                self.rcs(),
                self.npc(),
                self.keyvals(),
                nonce.fval(),
            ),
            r.1.fval() == cim_t1(self.rcs(), self.npc(), self.npe(), self.keyvals(), nonce.fval()),
    {
        let state = self.pc((nonce.dup(), self.keys[0].dup(), self.keys[1].dup()));
        let (t1, _t2) = self.pe((state.0.dup(), state.1.dup(), state.2.dup()));
        (state, t1)
    }

    /// The keystream for `len` message blocks, starting from the base state.
    fn gen_keystream(&self, state: (T, T, T), len: usize) -> (r: Vec<T>)
        requires
            self.wf(),
            len <= usize::MAX - 4,
            len == 0 || self.keys@.len() >= len + 3,
            state.0.ok() && state.1.ok() && state.2.ok(),
        ensures
            r@.len() == len,
            all_ok(r@),
            fvals(r@) == cim_ks(
                self.rcs(),
                self.npc(),
                self.npe(),
                (state.0.fval(), state.1.fval(), state.2.fval()),
                self.keyvals(),
                0,
                len as nat,
            ),
    {
        let ghost s0 = (state.0.fval(), state.1.fval(), state.2.fval());
        let ghost full = cim_ks(self.rcs(), self.npc(), self.npe(), s0, self.keyvals(), 0, len as nat);
        proof {
            lemma_cim_ks_len(self.rcs(), self.npc(), self.npe(), s0, self.keyvals(), 0, len as nat);
        }
        let mut keystream: Vec<T> = Vec::new();
        let mut st = state;
        let mut i: usize = 0;
        while i < len
            invariant
                self.wf(),
                len <= usize::MAX - 4,
                len == 0 || self.keys@.len() >= len + 3,
                st.0.ok() && st.1.ok() && st.2.ok(),
                all_ok(keystream@),
                i % 2 == 0,
                i <= len + 1,
                keystream@.len() == i || (i == len + 1 && keystream@.len() == len),
                fvals(keystream@) + cim_ks(
                    self.rcs(),
                    self.npc(),
                    self.npe(),
                    (st.0.fval(), st.1.fval(), st.2.fval()),
                    self.keyvals(),
                    i as nat,
                    len as nat,
                ) == full,
            decreases len + 2 - i,
        {
            let ghost pre = (st.0.fval(), st.1.fval(), st.2.fval());
            st = self.iter_keys(st, &self.keys[i + 2], &self.keys[i + 3]);
            let (out1, out2) = self.pe((st.0.dup(), st.1.dup(), st.2.dup()));
            keystream.push(out1);
            if i < len - 1 {
                keystream.push(out2);
            }
            proof {
                lemma_cim_ks_len(
                    self.rcs(),
                    self.npc(),
                    self.npe(),
                    (st.0.fval(), st.1.fval(), st.2.fval()),
                    self.keyvals(),
                    (i + 2) as nat,
                    len as nat,
                );
                assert(fvals(keystream@) + cim_ks(
                    self.rcs(),
                    self.npc(),
                    self.npe(),
                    (st.0.fval(), st.1.fval(), st.2.fval()),
                    self.keyvals(),
                    (i + 2) as nat,
                    len as nat,
                ) =~= full);
            }
            i += 2;
        }
        proof {
            assert(fvals(keystream@) =~= full);
        }
        keystream
    }

    /// The Horner MAC over the ciphertext blocks.
    fn authenticate(ct: &Vec<T>, t1: T, key: &T) -> (r: T)
        requires
            ct@.len() <= u64::MAX,
            all_ok(ct@),
            t1.ok(),
            key.ok(),
        ensures
            r.fval() == cim_mac(fvals(ct@), t1.fval(), key.fval()),
            r.ok(),
    {
        let mut tag = T::zero();
        let n = ct.len();
        for i in 0..n
            invariant
                n == ct@.len(),
                n <= u64::MAX,
                all_ok(ct@),
                key.ok(),
                tag.ok(),
                tag.fval() == cim_mac_fold(fvals(ct@).take(i as int), key.fval()),
        {
            tag = tag.add(&ct[i]).mul(key);
            proof {
                assert(fvals(ct@).take(i + 1).drop_last() =~= fvals(ct@).take(i as int));
            }
        }
        proof {
            assert(fvals(ct@).take(n as int) =~= fvals(ct@));
        }
        tag.add(&T::from_u64(n as u64)).mul(key).add(&t1)
    }

    /// Encrypt `message` under the materialized schedule and `nonce`; the
    /// result is the ciphertext blocks followed by the tag.  Fails with
    /// `LengthBound` exactly when the schedule is too short for the message.
    pub fn ae(&self, message: &Vec<T>, nonce: &T) -> (r: Result<Vec<T>, ZkError>)
        requires
            self.wf(),
            message@.len() <= usize::MAX - 4,
            all_ok(message@),
            nonce.ok(),
        ensures
            self.keys@.len() < message@.len() + 3 <==> r == Err::<Vec<T>, ZkError>(
                ZkError::LengthBound,
            ),
            r is Ok <==> self.keys@.len() >= message@.len() + 3,
            r matches Ok(ct) ==> {
                &&& ct@.len() == message@.len() + 1
                &&& all_ok(ct@)
                &&& fvals(ct@) == cim_ae(
                    self.rcs(),
                    self.npc(),
                    self.npe(),
                    self.keyvals(),
                    nonce.fval(),
                    fvals(message@),
                )
            },
    {
        if self.keys.len() < message.len() + 3 {
            return Err(ZkError::LengthBound);
        }
        let (state, t1) = self.gen_state_and_t(nonce);
        let keystream = self.gen_keystream(state, message.len());
        let mut ciphertext: Vec<T> = Vec::new();
        let n = message.len();
        let ghost blocks = cim_ct_blocks(
            self.rcs(),
            self.npc(),
            self.npe(),
            self.keyvals(),
            nonce.fval(),
            fvals(message@),
        );
        for i in 0..n
            invariant
                n == message@.len(),
                keystream@.len() == n,
                ciphertext@.len() == i,
                all_ok(message@),
                all_ok(keystream@),
                all_ok(ciphertext@),
                fvals(keystream@) == cim_keystream(
                    self.rcs(),
                    self.npc(),
                    self.npe(),
                    self.keyvals(),
                    nonce.fval(),
                    n as nat,
                ),
                blocks == cim_ct_blocks(
                    self.rcs(),
                    self.npc(),
                    self.npe(),
                    self.keyvals(),
                    nonce.fval(),
                    fvals(message@),
                ),
                fvals(ciphertext@) == blocks.take(i as int),
            {
            let ghost ct_pre = ciphertext@;
            ciphertext.push(message[i].add(&keystream[i]));
            proof {
                assert(fvals(ciphertext@) =~= blocks.take(i + 1));
                assert forall|j: int| 0 <= j <= i implies (#[trigger] ciphertext@[j]).ok() by {
                    if j < i {
                        assert(ct_pre[j].ok());
                    }
                }
            }
        }
        proof {
            assert(blocks.take(n as int) =~= blocks);
        }
        let tag = Self::authenticate(&ciphertext, t1, &self.keys[self.keys.len() - 1]);
        let ghost ct_pre2 = ciphertext@;
        ciphertext.push(tag);
        proof {
            assert forall|j: int| 0 <= j < ciphertext@.len() implies (
            #[trigger] ciphertext@[j]).ok() by {
                if j < ct_pre2.len() {
                    assert(ct_pre2[j].ok());
                }
            }
            assert(fvals(ciphertext@) =~= blocks.push(
                cim_mac(
                    blocks,
                    cim_t1(self.rcs(), self.npc(), self.npe(), self.keyvals(), nonce.fval()),
                    self.keyvals()[self.keyvals().len() - 1],
                ),
            ));
        }
        Ok(ciphertext)
    }

    /// Authenticated decryption: split off the transmitted tag, recompute the
    /// MAC over the remaining blocks, and only on a match subtract the
    /// keystream to recover the message.
    ///
    /// Fails with `LengthBound` when the schedule is too short, with
    /// `TagMismatch` exactly when the transmitted tag differs from the
    /// recomputed one, and with `Synthesis` only in a fallible backend.
    #[verifier::rlimit(60)]
    pub fn ad(&self, ciphertext: Vec<T>, nonce: &T) -> (r: Result<Vec<T>, ZkError>)
        requires
            self.wf(),
            ciphertext@.len() <= usize::MAX - 4,
            all_ok(ciphertext@),
            nonce.ok(),
        ensures
            self.keys@.len() < ciphertext@.len() + 2 <==> r == Err::<Vec<T>, ZkError>(
                ZkError::LengthBound,
            ),
            ({
                // The transmitted tag (an empty ciphertext is treated as
                // carrying tag 0 over no blocks) and the recomputed one.
                let blocks = if ciphertext@.len() == 0 {
                    Seq::<int>::empty()
                } else {
                    fvals(ciphertext@).drop_last()
                };
                let sent = if ciphertext@.len() == 0 {
                    0int
                } else {
                    fvals(ciphertext@).last()
                };
                let mac = cim_mac(
                    blocks,
                    cim_t1(self.rcs(), self.npc(), self.npe(), self.keyvals(), nonce.fval()),
                    self.keyvals()[self.keyvals().len() - 1],
                );
                let ks = cim_ks(
                    self.rcs(),
                    self.npc(),
                    self.npe(),
                    cim_base(self.rcs(), self.npc(), self.keyvals(), nonce.fval()),
                    self.keyvals(),
                    0,
                    blocks.len(),
                );
                &&& r == Err::<Vec<T>, ZkError>(ZkError::TagMismatch) ==> sent != mac
                &&& (self.keys@.len() >= ciphertext@.len() + 2 && sent != mac && T::infallible())
                    ==> r == Err::<Vec<T>, ZkError>(ZkError::TagMismatch)
                &&& (self.keys@.len() >= ciphertext@.len() + 2 && sent == mac && T::infallible())
                    ==> r is Ok
                &&& (r matches Err(z) && z == ZkError::Synthesis) ==> !T::infallible()
                &&& r matches Ok(m) ==> {
                    &&& sent == mac
                    &&& m@.len() == blocks.len()
                    &&& all_ok(m@)
                    &&& fvals(m@) == Seq::new(blocks.len(), |i: int| fsub(blocks[i], ks[i]))
                }
            }),
    {
        if self.keys.len() < ciphertext.len() + 2 {
            return Err(ZkError::LengthBound);
        }
        let ghost orig = ciphertext@;
        let mut ct = ciphertext;
        let expected = match ct.pop() {
            Some(e) => e,
            None => T::zero(),
        };
        proof {
            if orig.len() > 0 {
                assert(fvals(ct@) =~= fvals(orig).drop_last());
                assert(expected.fval() == fvals(orig).last());
                assert(orig[orig.len() - 1].ok());
                assert forall|j: int| 0 <= j < ct@.len() implies (#[trigger] ct@[j]).ok() by {
                    assert(orig[j].ok());
                }
            } else {
                assert(fvals(ct@) =~= Seq::<int>::empty());
            }
            assert(expected.ok());
        }
        let (state, t1) = self.gen_state_and_t(nonce);
        let tag = Self::authenticate(&ct, t1, &self.keys[self.keys.len() - 1]);
        let ok = match tag.eq_val(&expected) {
            Ok(b) => b,
            Err(e) => {
                return Err(e);
            },
        };
        if !ok {
            return Err(ZkError::TagMismatch);
        }
        let keystream = self.gen_keystream(state, ct.len());
        let n = ct.len();
        let ghost blocks = fvals(ct@);
        let ghost ksv = fvals(keystream@);
        let mut message: Vec<T> = Vec::new();
        for i in 0..n
            invariant
                n == ct@.len(),
                keystream@.len() == n,
                message@.len() == i,
                all_ok(ct@),
                all_ok(keystream@),
                all_ok(message@),
                blocks == fvals(ct@),
                ksv == fvals(keystream@),
                fvals(message@) == Seq::new(i as nat, |j: int| fsub(blocks[j], ksv[j])),
        {
            let ghost old_msg = message@;
            message.push(ct[i].sub(&keystream[i]));
            proof {
                let target = Seq::new((i + 1) as nat, |j: int| fsub(blocks[j], ksv[j]));
                assert forall|idx: int| 0 <= idx < i + 1 implies fvals(message@)[idx]
                    == target[idx] by {
                    assert(target[idx] == fsub(blocks[idx], ksv[idx]));
                    if idx < i {
                        assert(fvals(message@)[idx] == fvals(old_msg)[idx]);
                        assert(fvals(old_msg)[idx] == Seq::new(
                            i as nat,
                            |j: int| fsub(blocks[j], ksv[j]),
                        )[idx]);
                    } else {
                        assert(fvals(message@)[idx] == message@[idx].fval());
                        assert(blocks[idx] == ct@[idx].fval());
                        assert(ksv[idx] == keystream@[idx].fval());
                    }
                }
                assert(fvals(message@) =~= target);
                assert forall|idx: int| 0 <= idx <= i implies (#[trigger] message@[idx]).ok() by {
                    if idx < i {
                        assert(old_msg[idx].ok());
                    }
                }
            }
        }
        Ok(message)
    }
}

/// Decryption inverts encryption: for reduced message values, the blocks that
/// `ad` recovers from the output of `ae` are the message, and the transmitted
/// tag equals the recomputed one (so `ad` succeeds); any other value in the
/// tag position is rejected.
pub proof fn lemma_ae_roundtrip(
    rcs: Seq<int>,
    npc: nat,
    npe: nat,
    keys: Seq<int>,
    nonce: int,
    m: Seq<int>,
    sent: int,
)
    requires
        0 < npe <= npc,
        keys.len() >= m.len() + 3,
        forall|i: int| 0 <= i < m.len() ==> in_f(#[trigger] m[i]),
    ensures
        ({
            let ct = cim_ae(rcs, npc, npe, keys, nonce, m);
            let blocks = ct.drop_last();
            let ks = cim_ks(rcs, npc, npe, cim_base(rcs, npc, keys, nonce), keys, 0, blocks.len());
            &&& ct.last() == cim_mac(blocks, cim_t1(rcs, npc, npe, keys, nonce), keys[keys.len() - 1])
            &&& Seq::new(blocks.len(), |i: int| fsub(blocks[i], ks[i])) =~= m
            &&& sent != ct.last() ==> sent != cim_mac(
                blocks,
                cim_t1(rcs, npc, npe, keys, nonce),
                keys[keys.len() - 1],
            )
        }),
{
    let ct = cim_ae(rcs, npc, npe, keys, nonce, m);
    let blocks = cim_ct_blocks(rcs, npc, npe, keys, nonce, m);
    assert(ct.drop_last() =~= blocks);
    let ks = cim_keystream(rcs, npc, npe, keys, nonce, m.len());
    lemma_cim_ks_len(rcs, npc, npe, cim_base(rcs, npc, keys, nonce), keys, 0, m.len());
    assert forall|i: int| 0 <= i < m.len() implies #[trigger] fsub(blocks[i], ks[i]) == m[i] by {
        lemma_fadd_fsub_cancel(m[i], ks[i]);
    }
}

/// The BLS12-381 Ciminion primitive: authenticated encryption over native
/// field elements, under a caller-supplied parameter set.
pub struct CiminionPrimitiveBlsFr {}

impl CiminionPrimitiveBlsFr {
    /// Encrypt a message under the two master keys and a nonce; the result is
    /// the ciphertext blocks followed by the tag.  The subkey schedule is
    /// derived to fit the message, so encryption always succeeds.
    pub fn encrypt(
        parameters: CiminionParameters<FPlain>,
        message: &Vec<FPlain>,
        master_key: (FPlain, FPlain),
        nonce: &FPlain,
    ) -> (r: Vec<FPlain>)
        requires
            parameters.wf(),
            message@.len() <= usize::MAX - 4,
        ensures
            r@.len() == message@.len() + 1,
            fvals(r@) == cim_ae(
                parameters.rcs(),
                parameters.nb_rounds_pc as nat,
                parameters.nb_rounds_pe as nat,
                cim_keys(
                    parameters.rcs(),
                    parameters.nb_rounds_pc as nat,
                    master_key.0.fval(),
                    master_key.1.fval(),
                    cim_n_keys(message@.len()),
                ),
                nonce.fval(),
                fvals(message@),
            ),
    {
        proof {
            assert(all_ok(parameters.round_constants@));
            assert(all_ok(message@));
        }
        let mut chip = CiminionChip::new(parameters);
        chip.init(master_key.0, master_key.1, message.len());
        match chip.ae(message, nonce) {
            Ok(ct) => ct,
            Err(_) => {
                proof {
                    assert(false);
                }
                Vec::new()
            },
        }
    }
}

} // verus!
