//! The digests that bind reports and proposals to a configuration.

use vstd::prelude::*;
use crate::bytes::{be_bytes, i128_bits, push_all, push_be, push_repeat, u128_of};
use crate::crypto::{sha256, sha256_digest};
use crate::pubkey::Pubkey;
use crate::state::{Config, OffchainConfig, Oracle, Proposal, ProposedOracle, MAX_ORACLES};

verus! {

/// The signer keys of `oracles`, one behind the other.
pub open spec fn concat_signers(oracles: Seq<Oracle>) -> Seq<u8>
    decreases oracles.len(),
{
    if oracles.len() == 0 {
        Seq::empty()
    } else {
        concat_signers(oracles.drop_last()) + oracles.last().signer.key@
    }
}

/// The transmitter keys of `oracles`, one behind the other.
pub open spec fn concat_transmitters(oracles: Seq<Oracle>) -> Seq<u8>
    decreases oracles.len(),
{
    if oracles.len() == 0 {
        Seq::empty()
    } else {
        concat_transmitters(oracles.drop_last()) + oracles.last().transmitter@
    }
}

/// An answer bound as the offchain protocol encodes it: 24 bytes in two's
/// complement, that is the 16 bytes of the number behind 8 bytes of its sign.
pub open spec fn sign_extended(x: i128) -> Seq<u8> {
    Seq::new(
        8,
        |i: int|
            if x < 0 {
                0xFFu8
            } else {
                0x00u8
            },
    ) + be_bytes(u128_of(x as int), 16)
}

/// The onchain configuration: a version byte and the two answer bounds.
pub open spec fn onchain_config_bytes(min_answer: i128, max_answer: i128) -> Seq<u8> {
    seq![1u8] + sign_extended(min_answer) + sign_extended(max_answer)
}

/// The bytes that the config digest is the hash of.
pub open spec fn config_digest_preimage(
    program_id: Seq<u8>,
    aggregator_address: Seq<u8>,
    config_count: u32,
    oracles: Seq<Oracle>,
    f: u8,
    min_answer: i128,
    max_answer: i128,
    offchain_version: u64,
    offchain_config: Seq<u8>,
) -> Seq<u8> {
    program_id + aggregator_address + be_bytes(config_count as nat, 4) + seq![oracles.len() as u8]
        + concat_signers(oracles) + concat_transmitters(oracles) + seq![f] + be_bytes(
        onchain_config_bytes(min_answer, max_answer).len(),
        4,
    ) + onchain_config_bytes(min_answer, max_answer) + be_bytes(offchain_version as nat, 8)
        + be_bytes(offchain_config.len(), 4) + offchain_config
}

/// A hash with its first two bytes replaced by the tag of config digests,
/// 0x00 and 0x03.
pub open spec fn tagged(hash: Seq<u8>) -> Seq<u8> {
    hash.update(0, 0x00u8).update(1, 0x03u8)
}

/// The config digest: the tagged SHA-256 of the preimage.
pub open spec fn config_digest(
    program_id: Seq<u8>,
    aggregator_address: Seq<u8>,
    config_count: u32,
    oracles: Seq<Oracle>,
    f: u8,
    min_answer: i128,
    max_answer: i128,
    offchain_version: u64,
    offchain_config: Seq<u8>,
) -> Seq<u8> {
    tagged(
        sha256_digest(
            config_digest_preimage(
                program_id,
                aggregator_address,
                config_count,
                oracles,
                f,
                min_answer,
                max_answer,
                offchain_version,
                offchain_config,
            ),
        ),
    )
}

/// Appends the 24-byte encoding of an answer bound.
pub fn push_sign_extended(out: &mut Vec<u8>, x: i128)
    ensures
        final(out)@ == old(out)@ + sign_extended(x),
{
    // the offchain protocol expects 192-bit values
    if x < 0 {
        push_repeat(out, 0xFF, 8);
    } else {
        push_repeat(out, 0x00, 8);
    }
    push_be(out, i128_bits(x), 16);
    proof {
        assert(final(out)@ =~= old(out)@ + sign_extended(x));
    }
}

/// Appends the signer keys of `oracles`.
pub fn push_signers(out: &mut Vec<u8>, oracles: &[Oracle])
    ensures
        final(out)@ == old(out)@ + concat_signers(oracles@),
{
    let mut i: usize = 0;
    proof {
        assert(out@ =~= old(out)@ + concat_signers(oracles@.take(0)));
    }
    while i < oracles.len()
        invariant
            0 <= i <= oracles@.len(),
            out@ == old(out)@ + concat_signers(oracles@.take(i as int)),
        decreases oracles@.len() - i,
    {
        push_all(out, oracles[i].signer.key.as_slice());
        proof {
            assert(oracles@.take(i + 1).drop_last() =~= oracles@.take(i as int));
            assert(out@ =~= old(out)@ + concat_signers(oracles@.take(i + 1)));
        }
        i += 1;
    }
    proof {
        assert(oracles@.take(i as int) =~= oracles@);
    }
}

/// Appends the transmitter keys of `oracles`.
pub fn push_transmitters(out: &mut Vec<u8>, oracles: &[Oracle])
    ensures
        final(out)@ == old(out)@ + concat_transmitters(oracles@),
{
    let mut i: usize = 0;
    proof {
        assert(out@ =~= old(out)@ + concat_transmitters(oracles@.take(0)));
    }
    while i < oracles.len()
        invariant
            0 <= i <= oracles@.len(),
            out@ == old(out)@ + concat_transmitters(oracles@.take(i as int)),
        decreases oracles@.len() - i,
    {
        push_all(out, oracles[i].transmitter.bytes.as_slice());
        proof {
            assert(oracles@.take(i + 1).drop_last() =~= oracles@.take(i as int));
            assert(out@ =~= old(out)@ + concat_transmitters(oracles@.take(i + 1)));
        }
        i += 1;
    }
    proof {
        assert(oracles@.take(i as int) =~= oracles@);
    }
}

impl Config {
    /// The digest of this configuration with the given oracle set and
    /// offchain configuration, for the aggregator at `aggregator_address`
    /// under the program `program_id`.
    pub fn config_digest_from_data(
        &self,
        program_id: &Pubkey,
        aggregator_address: &Pubkey,
        offchain_config: &OffchainConfig,
        oracles: &[Oracle],
    ) -> (digest: [u8; 32])
        requires
            oracles@.len() <= MAX_ORACLES,
            offchain_config.wf(),
        ensures
            digest@ == config_digest(
                program_id@,
                aggregator_address@,
                self.config_count,
                oracles@,
                self.f,
                self.min_answer,
                self.max_answer,
                offchain_config.version,
                offchain_config.bytes@,
            ),
            digest@[0] == 0x00,
            digest@[1] == 0x03,
            sha256_digest(
                config_digest_preimage(
                    program_id@,
                    aggregator_address@,
                    self.config_count,
                    oracles@,
                    self.f,
                    self.min_answer,
                    self.max_answer,
                    offchain_config.version,
                    offchain_config.bytes@,
                ),
            ).len() == 32,
    {
        let mut onchain_config: Vec<u8> = Vec::new();
        onchain_config.push(1);
        push_sign_extended(&mut onchain_config, self.min_answer);
        push_sign_extended(&mut onchain_config, self.max_answer);
        proof {
            assert(onchain_config@ =~= onchain_config_bytes(self.min_answer, self.max_answer));
            crate::bytes::lemma_be_bytes_len(u128_of(self.min_answer as int), 16);
            crate::bytes::lemma_be_bytes_len(u128_of(self.max_answer as int), 16);
        }

        let mut data: Vec<u8> = Vec::new();
        push_all(&mut data, program_id.bytes.as_slice());
        push_all(&mut data, aggregator_address.bytes.as_slice());
        push_be(&mut data, self.config_count as u128, 4);
        // fits in a byte, since there are at most 19 oracles
        data.push(oracles.len() as u8);
        push_signers(&mut data, oracles);
        push_transmitters(&mut data, oracles);
        data.push(self.f);
        push_be(&mut data, onchain_config.len() as u128, 4);
        push_all(&mut data, onchain_config.as_slice());
        push_be(&mut data, offchain_config.version as u128, 8);
        push_be(&mut data, offchain_config.bytes.len() as u128, 4);
        push_all(&mut data, offchain_config.bytes.as_slice());
        proof {
            assert(data@ =~= config_digest_preimage(
                program_id@,
                aggregator_address@,
                self.config_count,
                oracles@,
                self.f,
                self.min_answer,
                self.max_answer,
                offchain_config.version,
                offchain_config.bytes@,
            ));
        }
        let mut result = sha256(data.as_slice());
        // prefix masking
        result[0] = 0x00;
        result[1] = 0x03;
        proof {
            assert(result@ =~= tagged(sha256_digest(data@)));
        }
        result
    }
}

/// The keys of the proposed oracles, one oracle behind the other: signer,
/// transmitter, payee.
pub open spec fn concat_proposed(oracles: Seq<ProposedOracle>) -> Seq<u8>
    decreases oracles.len(),
{
    if oracles.len() == 0 {
        Seq::empty()
    } else {
        concat_proposed(oracles.drop_last()) + oracles.last().signer.key@
            + oracles.last().transmitter@ + oracles.last().payee@
    }
}

/// The bytes that a proposal's digest is the hash of.
pub open spec fn proposal_digest_preimage(
    oracles: Seq<ProposedOracle>,
    f: u8,
    token_mint: Seq<u8>,
    offchain_version: u64,
    offchain_config: Seq<u8>,
) -> Seq<u8> {
    seq![oracles.len() as u8] + concat_proposed(oracles) + seq![f] + token_mint + be_bytes(
        offchain_version as nat,
        8,
    ) + be_bytes(offchain_config.len(), 4) + offchain_config
}

impl Proposal {
    /// What `digest` returns for this proposal.
    pub open spec fn spec_digest(&self) -> Seq<u8> {
        sha256_digest(
            proposal_digest_preimage(
                self.oracles@,
                self.f,
                self.token_mint@,
                self.offchain_config.version,
                self.offchain_config.bytes@,
            ),
        )
    }

    /// The digest of what is staged: the oracles with their payees, `f`, the
    /// token mint and the offchain configuration.
    pub fn digest(&self) -> (digest: [u8; 32])
        requires
            self.oracles.wf(),
            self.offchain_config.wf(),
        ensures
            digest@ == self.spec_digest(),
            self.spec_digest().len() == 32,
    {
        let mut data: Vec<u8> = Vec::new();
        // fits in a byte, since there are at most 19 oracles
        data.push(self.oracles.len() as u8);
        let oracles = self.oracles.as_slice();
        let mut i: usize = 0;
        proof {
            assert(data@ =~= seq![oracles@.len() as u8] + concat_proposed(oracles@.take(0)));
        }
        while i < oracles.len()
            invariant
                0 <= i <= oracles@.len(),
                data@ == seq![oracles@.len() as u8] + concat_proposed(oracles@.take(i as int)),
            decreases oracles@.len() - i,
        {
            push_all(&mut data, oracles[i].signer.key.as_slice());
            push_all(&mut data, oracles[i].transmitter.bytes.as_slice());
            push_all(&mut data, oracles[i].payee.bytes.as_slice());
            proof {
                assert(oracles@.take(i + 1).drop_last() =~= oracles@.take(i as int));
                assert(data@ =~= seq![oracles@.len() as u8] + concat_proposed(
                    oracles@.take(i + 1),
                ));
            }
            i += 1;
        }
        proof {
            assert(oracles@.take(i as int) =~= oracles@);
        }
        data.push(self.f);
        push_all(&mut data, self.token_mint.bytes.as_slice());
        push_be(&mut data, self.offchain_config.version as u128, 8);
        push_be(&mut data, self.offchain_config.bytes.len() as u128, 4);
        push_all(&mut data, self.offchain_config.bytes.as_slice());
        proof {
            assert(data@ =~= proposal_digest_preimage(
                self.oracles@,
                self.f,
                self.token_mint@,
                self.offchain_config.version,
                self.offchain_config.bytes@,
            ));
        }
        sha256(data.as_slice())
    }
}

} // verus!
