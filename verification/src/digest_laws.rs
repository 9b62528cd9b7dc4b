//! What the config digest depends on.

use vstd::prelude::*;
use crate::bytes::{
    be_bytes, lemma_be_bytes_len, lemma_be_round_trip, lemma_radix_values, radix, u128_of,
};
use crate::digest::{
    concat_signers, concat_transmitters, config_digest, config_digest_preimage,
    onchain_config_bytes, sign_extended,
};
use crate::state::{signer_keys, transmitter_keys, Oracle};

verus! {

/// Two byte strings that are equal and begin with parts of one length have
/// the same parts.
pub proof fn lemma_split(a1: Seq<u8>, b1: Seq<u8>, a2: Seq<u8>, b2: Seq<u8>)
    requires
        a1 + b1 == a2 + b2,
        a1.len() == a2.len(),
    ensures
        a1 == a2,
        b1 == b2,
{
    let s1 = a1 + b1;
    let s2 = a2 + b2;
    assert(s1.len() == a1.len() + b1.len());
    assert(s2.len() == a2.len() + b2.len());
    assert forall|i: int| 0 <= i < a1.len() implies a1[i] == a2[i] by {
        assert(s1[i] == a1[i]);
        assert(s2[i] == a2[i]);
    }
    assert(a1 =~= a2);
    assert forall|i: int| 0 <= i < b1.len() implies b1[i] == b2[i] by {
        assert(s1[a1.len() + i] == b1[i]);
        assert(s2[a2.len() + i] == b2[i]);
    }
    assert(b1 =~= b2);
}

/// Byte strings can be joined in any grouping.
pub proof fn lemma_regroup(x: Seq<u8>, y: Seq<u8>, z: Seq<u8>)
    ensures
        (x + y) + z == x + (y + z),
{
    assert((x + y) + z =~= x + (y + z));
}

/// The signer keys of `n` oracles take `20 * n` bytes.
pub proof fn lemma_concat_signers_len(oracles: Seq<Oracle>)
    ensures
        concat_signers(oracles).len() == 20 * oracles.len(),
    decreases oracles.len(),
{
    if oracles.len() > 0 {
        lemma_concat_signers_len(oracles.drop_last());
    }
}

/// The transmitter keys of `n` oracles take `32 * n` bytes.
pub proof fn lemma_concat_transmitters_len(oracles: Seq<Oracle>)
    ensures
        concat_transmitters(oracles).len() == 32 * oracles.len(),
    decreases oracles.len(),
{
    if oracles.len() > 0 {
        lemma_concat_transmitters_len(oracles.drop_last());
    }
}

/// The signer keys one behind the other give each key back.
pub proof fn lemma_concat_signers_injective(a: Seq<Oracle>, b: Seq<Oracle>)
    requires
        a.len() == b.len(),
    ensures
        (concat_signers(a) == concat_signers(b)) == (signer_keys(a) == signer_keys(b)),
    decreases a.len(),
{
    if a.len() == 0 {
        assert(signer_keys(a) =~= signer_keys(b));
    } else {
        lemma_concat_signers_injective(a.drop_last(), b.drop_last());
        lemma_concat_signers_len(a.drop_last());
        lemma_concat_signers_len(b.drop_last());
        if concat_signers(a) == concat_signers(b) {
            lemma_split(
                concat_signers(a.drop_last()),
                a.last().signer.key@,
                concat_signers(b.drop_last()),
                b.last().signer.key@,
            );
            assert forall|i: int| 0 <= i < a.len() implies signer_keys(a)[i] == signer_keys(
                b,
            )[i] by {
                if i < a.len() - 1 {
                    assert(signer_keys(a.drop_last())[i] == signer_keys(b.drop_last())[i]);
                }
            }
            assert(signer_keys(a) =~= signer_keys(b));
        }
        if signer_keys(a) == signer_keys(b) {
            assert forall|i: int| 0 <= i < a.len() - 1 implies signer_keys(a.drop_last())[i]
                == signer_keys(b.drop_last())[i] by {
                assert(signer_keys(a)[i] == signer_keys(b)[i]);
            }
            assert(signer_keys(a.drop_last()) =~= signer_keys(b.drop_last()));
            assert(signer_keys(a)[a.len() - 1] == signer_keys(b)[a.len() - 1]);
        }
    }
}

/// The transmitter keys one behind the other give each key back.
pub proof fn lemma_concat_transmitters_injective(a: Seq<Oracle>, b: Seq<Oracle>)
    requires
        a.len() == b.len(),
    ensures
        (concat_transmitters(a) == concat_transmitters(b)) == (transmitter_keys(a)
            == transmitter_keys(b)),
    decreases a.len(),
{
    if a.len() == 0 {
        assert(transmitter_keys(a) =~= transmitter_keys(b));
    } else {
        lemma_concat_transmitters_injective(a.drop_last(), b.drop_last());
        lemma_concat_transmitters_len(a.drop_last());
        lemma_concat_transmitters_len(b.drop_last());
        if concat_transmitters(a) == concat_transmitters(b) {
            lemma_split(
                concat_transmitters(a.drop_last()),
                a.last().transmitter@,
                concat_transmitters(b.drop_last()),
                b.last().transmitter@,
            );
            assert forall|i: int| 0 <= i < a.len() implies transmitter_keys(a)[i]
                == transmitter_keys(b)[i] by {
                if i < a.len() - 1 {
                    assert(transmitter_keys(a.drop_last())[i] == transmitter_keys(
                        b.drop_last(),
                    )[i]);
                }
            }
            assert(transmitter_keys(a) =~= transmitter_keys(b));
        }
        if transmitter_keys(a) == transmitter_keys(b) {
            assert forall|i: int| 0 <= i < a.len() - 1 implies transmitter_keys(a.drop_last())[i]
                == transmitter_keys(b.drop_last())[i] by {
                assert(transmitter_keys(a)[i] == transmitter_keys(b)[i]);
            }
            assert(transmitter_keys(a.drop_last()) =~= transmitter_keys(b.drop_last()));
            assert(transmitter_keys(a)[a.len() - 1] == transmitter_keys(b)[a.len() - 1]);
        }
    }
}

/// Numbers that fit in `n` bytes and are encoded alike are the same number.
pub proof fn lemma_be_bytes_injective(v: nat, w: nat, n: nat)
    requires
        v < radix(n),
        w < radix(n),
        be_bytes(v, n) == be_bytes(w, n),
    ensures
        v == w,
{
    lemma_be_round_trip(v, n);
    lemma_be_round_trip(w, n);
}

/// Answer bounds that are encoded alike are the same bound.
pub proof fn lemma_sign_extended_injective(x: i128, y: i128)
    requires
        sign_extended(x) == sign_extended(y),
    ensures
        x == y,
{
    let head_x = Seq::new(
        8,
        |i: int|
            if x < 0 {
                0xFFu8
            } else {
                0x00u8
            },
    );
    let head_y = Seq::new(
        8,
        |i: int|
            if y < 0 {
                0xFFu8
            } else {
                0x00u8
            },
    );
    lemma_split(head_x, be_bytes(u128_of(x as int), 16), head_y, be_bytes(u128_of(y as int), 16));
    lemma_radix_values();
    lemma_be_bytes_injective(u128_of(x as int), u128_of(y as int), 16);
}

/// The preimage with its parts grouped from the right.
pub open spec fn grouped_preimage(
    program_id: Seq<u8>,
    aggregator_address: Seq<u8>,
    config_count: u32,
    oracles: Seq<Oracle>,
    f: u8,
    min_answer: i128,
    max_answer: i128,
    offchain_version: u64,
    offchain_config: Seq<u8>,
) -> Seq<u8> {
    program_id + (aggregator_address + (be_bytes(config_count as nat, 4) + (seq![
        oracles.len() as u8,
    ] + (concat_signers(oracles) + (concat_transmitters(oracles) + (seq![f] + (be_bytes(49, 4) + ((
    seq![1u8] + (sign_extended(min_answer) + sign_extended(max_answer))) + (be_bytes(
        offchain_version as nat,
        8,
    ) + (be_bytes(offchain_config.len(), 4) + offchain_config))))))))))
}

/// Grouping does not change the preimage.
pub proof fn lemma_grouped_preimage(
    program_id: Seq<u8>,
    aggregator_address: Seq<u8>,
    config_count: u32,
    oracles: Seq<Oracle>,
    f: u8,
    min_answer: i128,
    max_answer: i128,
    offchain_version: u64,
    offchain_config: Seq<u8>,
)
    ensures
        config_digest_preimage(
            program_id,
            aggregator_address,
            config_count,
            oracles,
            f,
            min_answer,
            max_answer,
            offchain_version,
            offchain_config,
        ) == grouped_preimage(
            program_id,
            aggregator_address,
            config_count,
            oracles,
            f,
            min_answer,
            max_answer,
            offchain_version,
            offchain_config,
        ),
        sign_extended(min_answer).len() == 24,
        sign_extended(max_answer).len() == 24,
{
    lemma_be_bytes_len(u128_of(min_answer as int), 16);
    lemma_be_bytes_len(u128_of(max_answer as int), 16);
    let onchain = onchain_config_bytes(min_answer, max_answer);
    assert(onchain.len() == 49);
    lemma_regroup(seq![1u8], sign_extended(min_answer), sign_extended(max_answer));
    let q1 = program_id;
    let q2 = aggregator_address;
    let q3 = be_bytes(config_count as nat, 4);
    let q4 = seq![oracles.len() as u8];
    let q5 = concat_signers(oracles);
    let q6 = concat_transmitters(oracles);
    let q7 = seq![f];
    let q8 = be_bytes(49, 4);
    let q9 = onchain;
    let q10 = be_bytes(offchain_version as nat, 8);
    let q11 = be_bytes(offchain_config.len(), 4);
    let q12 = offchain_config;
    let t11 = q11 + q12;
    let t10 = q10 + t11;
    let t9 = q9 + t10;
    let t8 = q8 + t9;
    let t7 = q7 + t8;
    let t6 = q6 + t7;
    let t5 = q5 + t6;
    let t4 = q4 + t5;
    let t3 = q3 + t4;
    let t2 = q2 + t3;
    let l2 = q1 + q2;
    let l3 = l2 + q3;
    let l4 = l3 + q4;
    let l5 = l4 + q5;
    let l6 = l5 + q6;
    let l7 = l6 + q7;
    let l8 = l7 + q8;
    let l9 = l8 + q9;
    let l10 = l9 + q10;
    let l11 = l10 + q11;
    lemma_regroup(q1, q2, t3);
    lemma_regroup(l2, q3, t4);
    lemma_regroup(l3, q4, t5);
    lemma_regroup(l4, q5, t6);
    lemma_regroup(l5, q6, t7);
    lemma_regroup(l6, q7, t8);
    lemma_regroup(l7, q8, t9);
    lemma_regroup(l8, q9, t10);
    lemma_regroup(l9, q10, t11);
    lemma_regroup(l10, q11, q12);
    assert(l11 + q12 == q1 + t2);
}

/// What goes into a config digest.
pub struct DigestInput {
    pub program_id: Seq<u8>,
    pub aggregator_address: Seq<u8>,
    pub config_count: u32,
    pub oracles: Seq<Oracle>,
    pub f: u8,
    pub min_answer: i128,
    pub max_answer: i128,
    pub offchain_version: u64,
    pub offchain_config: Seq<u8>,
}

impl DigestInput {
    /// The addresses have 32 bytes, there are at most 255 oracles, and the
    /// length of the offchain configuration fits in 32 bits.
    pub open spec fn wf(self) -> bool {
        &&& self.program_id.len() == 32
        &&& self.aggregator_address.len() == 32
        &&& self.oracles.len() <= 255
        &&& self.offchain_config.len() < 0x1_0000_0000
    }

    /// The bytes that are hashed.
    pub open spec fn preimage(self) -> Seq<u8> {
        config_digest_preimage(
            self.program_id,
            self.aggregator_address,
            self.config_count,
            self.oracles,
            self.f,
            self.min_answer,
            self.max_answer,
            self.offchain_version,
            self.offchain_config,
        )
    }

    /// The digest.
    pub open spec fn digest(self) -> Seq<u8> {
        config_digest(
            self.program_id,
            self.aggregator_address,
            self.config_count,
            self.oracles,
            self.f,
            self.min_answer,
            self.max_answer,
            self.offchain_version,
            self.offchain_config,
        )
    }

    /// Whether two inputs agree in all that the digest is made of: the
    /// program, the aggregator, the count of configurations, the signer and
    /// transmitter keys of the oracles in their order, `f`, the answer
    /// bounds, and the version and content of the offchain configuration.
    pub open spec fn same_content(self, other: DigestInput) -> bool {
        &&& self.program_id == other.program_id
        &&& self.aggregator_address == other.aggregator_address
        &&& self.config_count == other.config_count
        &&& signer_keys(self.oracles) == signer_keys(other.oracles)
        &&& transmitter_keys(self.oracles) == transmitter_keys(other.oracles)
        &&& self.f == other.f
        &&& self.min_answer == other.min_answer
        &&& self.max_answer == other.max_answer
        &&& self.offchain_version == other.offchain_version
        &&& self.offchain_config == other.offchain_config
    }
}

/// The bytes that are hashed into the config digest are the same for two
/// inputs exactly if the inputs agree in the oracle set, `f`, the offchain
/// configuration and the other parts, the count of configurations among
/// them. So the digest stays the same where none of them changes; and where
/// one changes, other bytes are hashed.
pub proof fn lemma_digest_depends_on_content(a: DigestInput, b: DigestInput)
    requires
        a.wf(),
        b.wf(),
    ensures
        (a.preimage() == b.preimage()) == a.same_content(b),
        a.same_content(b) ==> a.digest() == b.digest(),
{
    lemma_grouped_preimage(
        a.program_id,
        a.aggregator_address,
        a.config_count,
        a.oracles,
        a.f,
        a.min_answer,
        a.max_answer,
        a.offchain_version,
        a.offchain_config,
    );
    lemma_grouped_preimage(
        b.program_id,
        b.aggregator_address,
        b.config_count,
        b.oracles,
        b.f,
        b.min_answer,
        b.max_answer,
        b.offchain_version,
        b.offchain_config,
    );
    lemma_radix_values();
    if a.same_content(b) {
        assert(signer_keys(a.oracles).len() == signer_keys(b.oracles).len());
        lemma_concat_signers_injective(a.oracles, b.oracles);
        lemma_concat_transmitters_injective(a.oracles, b.oracles);
    }
    if a.preimage() == b.preimage() {
        let a13 = be_bytes(a.offchain_config.len(), 4) + a.offchain_config;
        let b13 = be_bytes(b.offchain_config.len(), 4) + b.offchain_config;
        let a12 = be_bytes(a.offchain_version as nat, 8) + a13;
        let b12 = be_bytes(b.offchain_version as nat, 8) + b13;
        let a10 = sign_extended(a.min_answer) + sign_extended(a.max_answer);
        let b10 = sign_extended(b.min_answer) + sign_extended(b.max_answer);
        let a9 = (seq![1u8] + a10) + a12;
        let b9 = (seq![1u8] + b10) + b12;
        let a8 = be_bytes(49, 4) + a9;
        let b8 = be_bytes(49, 4) + b9;
        let a7 = seq![a.f] + a8;
        let b7 = seq![b.f] + b8;
        let a6 = concat_transmitters(a.oracles) + a7;
        let b6 = concat_transmitters(b.oracles) + b7;
        let a5 = concat_signers(a.oracles) + a6;
        let b5 = concat_signers(b.oracles) + b6;
        let a4 = seq![a.oracles.len() as u8] + a5;
        let b4 = seq![b.oracles.len() as u8] + b5;
        let a3 = be_bytes(a.config_count as nat, 4) + a4;
        let b3 = be_bytes(b.config_count as nat, 4) + b4;
        let a2 = a.aggregator_address + a3;
        let b2 = b.aggregator_address + b3;
        lemma_split(a.program_id, a2, b.program_id, b2);
        lemma_split(a.aggregator_address, a3, b.aggregator_address, b3);
        lemma_be_bytes_len(a.config_count as nat, 4);
        lemma_be_bytes_len(b.config_count as nat, 4);
        lemma_split(be_bytes(a.config_count as nat, 4), a4, be_bytes(b.config_count as nat, 4), b4);
        lemma_be_bytes_injective(a.config_count as nat, b.config_count as nat, 4);
        lemma_split(seq![a.oracles.len() as u8], a5, seq![b.oracles.len() as u8], b5);
        assert(seq![a.oracles.len() as u8][0] == seq![b.oracles.len() as u8][0]);
        assert(a.oracles.len() == b.oracles.len());
        lemma_concat_signers_len(a.oracles);
        lemma_concat_signers_len(b.oracles);
        lemma_split(concat_signers(a.oracles), a6, concat_signers(b.oracles), b6);
        lemma_concat_signers_injective(a.oracles, b.oracles);
        lemma_concat_transmitters_len(a.oracles);
        lemma_concat_transmitters_len(b.oracles);
        lemma_split(concat_transmitters(a.oracles), a7, concat_transmitters(b.oracles), b7);
        lemma_concat_transmitters_injective(a.oracles, b.oracles);
        lemma_split(seq![a.f], a8, seq![b.f], b8);
        assert(seq![a.f][0] == seq![b.f][0]);
        lemma_split(be_bytes(49, 4), a9, be_bytes(49, 4), b9);
        lemma_split(seq![1u8] + a10, a12, seq![1u8] + b10, b12);
        lemma_split(seq![1u8], a10, seq![1u8], b10);
        lemma_split(
            sign_extended(a.min_answer),
            sign_extended(a.max_answer),
            sign_extended(b.min_answer),
            sign_extended(b.max_answer),
        );
        lemma_sign_extended_injective(a.min_answer, b.min_answer);
        lemma_sign_extended_injective(a.max_answer, b.max_answer);
        lemma_be_bytes_len(a.offchain_version as nat, 8);
        lemma_be_bytes_len(b.offchain_version as nat, 8);
        lemma_split(
            be_bytes(a.offchain_version as nat, 8),
            a13,
            be_bytes(b.offchain_version as nat, 8),
            b13,
        );
        lemma_be_bytes_injective(a.offchain_version as nat, b.offchain_version as nat, 8);
        lemma_be_bytes_len(a.offchain_config.len(), 4);
        lemma_be_bytes_len(b.offchain_config.len(), 4);
        lemma_split(
            be_bytes(a.offchain_config.len(), 4),
            a.offchain_config,
            be_bytes(b.offchain_config.len(), 4),
            b.offchain_config,
        );
    }
}

} // verus!
