//! The operations of the store on its feeds: creating one, configuring it,
//! submitting rounds and answering queries.

use vstd::prelude::*;
use crate::access::{has_access, listed, AccessController};
use crate::deviation::{is_valid, within_threshold};
use crate::error::ErrorCode;
use crate::pubkey::Pubkey;
use crate::store::{Feed, NewTransmission, Transmission, Transmissions, FEED_VERSION};

verus! {

/// The size of a feed's header in its account.
pub const HEADER_SIZE: usize = 192;

/// The size of one round in a feed's account.
pub const TRANSMISSION_SIZE: usize = 48;

/// A store: the owner of feeds.
#[derive(Clone, Copy, Debug)]
pub struct Store {
    pub owner: Pubkey,
    pub proposed_owner: Pubkey,
    pub lowering_access_controller: Pubkey,
}

/// What to ask a feed.
#[derive(Clone, Copy, Debug, PartialEq, Eq, Structural)]
pub enum Scope {
    Version,
    Decimals,
    Description,
    RoundData { round_id: u32 },
    LatestRoundData,
    Aggregator,
}

/// A round as a query answers it.
#[derive(Clone, Copy, Debug, PartialEq, Eq, Structural)]
pub struct Round {
    pub round_id: u32,
    pub slot: u64,
    pub timestamp: u32,
    pub answer: i128,
}

/// What a feed answers.
#[derive(Clone, Debug)]
pub enum Answer {
    Version(u8),
    Decimals(u8),
    /// The description up to its first zero byte, as raw UTF-8.
    Description(Vec<u8>),
    RoundData(Round),
    LatestRoundData(Round),
    Aggregator(Pubkey),
}

/// How many rounds an account of `data_len` bytes has room for: what is
/// left after the 8 bytes of the discriminator and the header, in units of
/// a round. `None` where the account is too small or its size is uneven.
pub open spec fn feed_space(data_len: nat) -> Option<nat> {
    if data_len < 8 + HEADER_SIZE || (data_len - (8 + HEADER_SIZE)) % (TRANSMISSION_SIZE as int)
        != 0 {
        None
    } else {
        Some(((data_len - (8 + HEADER_SIZE)) / (TRANSMISSION_SIZE as int)) as nat)
    }
}

/// Why a feed cannot be created; `None` where it can. The live ring has to
/// hold a round and leave room for one in the historical ring.
pub open spec fn create_feed_error(
    data_len: nat,
    description: Seq<u8>,
    granularity: u8,
    live_length: u32,
) -> Option<ErrorCode> {
    match feed_space(data_len) {
        None => Some(ErrorCode::InsufficientSize),
        Some(space) => if live_length >= space || live_length == 0 || granularity == 0
            || description.len() > 32 {
            Some(ErrorCode::InvalidInput)
        } else {
            None
        },
    }
}

/// The description padded with zero bytes to 32.
pub open spec fn padded_description(description: Seq<u8>) -> Seq<u8> {
    Seq::new(
        32,
        |i: int|
            if i < description.len() {
                description[i]
            } else {
                0u8
            },
    )
}

/// The header of a new feed in an account of `data_len` bytes, owned by
/// `authority`. The live ring is to take `live_length` of the account's
/// rounds, which must be more than none and less than all, and every
/// `granularity`-th round is to be kept in the rest.
pub fn create_feed(
    data_len: usize,
    authority: Pubkey,
    description: &[u8],
    decimals: u8,
    granularity: u8,
    live_length: u32,
) -> (r: Result<Transmissions, ErrorCode>)
    ensures
        match r {
            Ok(feed) => {
                &&& create_feed_error(data_len as nat, description@, granularity, live_length)
                    is None
                &&& feed.version == FEED_VERSION
                &&& feed.state == Transmissions::NORMAL
                &&& feed.owner == authority
                &&& feed.proposed_owner@ == Pubkey::default_bytes()
                &&& feed.writer@ == Pubkey::default_bytes()
                &&& feed.description@ == padded_description(description@)
                &&& feed.decimals == decimals
                &&& feed.flagging_threshold == 0
                &&& feed.latest_round_id == 0
                &&& feed.granularity == granularity
                &&& feed.live_length == live_length
                &&& feed.live_cursor == 0
                &&& feed.historical_cursor == 0
            },
            Err(e) => create_feed_error(data_len as nat, description@, granularity, live_length)
                == Some(e),
        },
{
    // the account has to be of the right size: discriminator and header first
    if data_len < 8 + HEADER_SIZE {
        return Err(ErrorCode::InsufficientSize);
    }
    let len = data_len - (8 + HEADER_SIZE);
    if len % TRANSMISSION_SIZE != 0 {
        return Err(ErrorCode::InsufficientSize);
    }
    let space = len / TRANSMISSION_SIZE;
    // the live ring has to leave room for the historical one
    if live_length as usize >= space {
        return Err(ErrorCode::InvalidInput);
    }
    // both have to be more than zero
    if live_length == 0 {
        return Err(ErrorCode::InvalidInput);
    }
    if granularity == 0 {
        return Err(ErrorCode::InvalidInput);
    }
    if description.len() > 32 {
        return Err(ErrorCode::InvalidInput);
    }
    let mut padded = [0u8; 32];
    let mut i: usize = 0;
    while i < description.len()
        invariant
            0 <= i <= description@.len() <= 32,
            forall|j: int| 0 <= j < i ==> padded@[j] == description@[j],
            forall|j: int| i <= j < 32 ==> padded@[j] == 0,
        decreases description@.len() - i,
    {
        padded[i] = description[i];
        i += 1;
    }
    proof {
        assert(padded@ =~= padded_description(description@));
    }
    Ok(
        Transmissions {
            version: FEED_VERSION,
            state: Transmissions::NORMAL,
            owner: authority,
            proposed_owner: Pubkey::default(),
            writer: Pubkey::default(),
            description: padded,
            decimals,
            flagging_threshold: 0,
            latest_round_id: 0,
            granularity,
            live_length,
            live_cursor: 0,
            historical_cursor: 0,
        },
    )
}

/// Puts a feed together from its header and the rounds of its account: the
/// first `live_length` of them are the live ring, the rest the historical
/// one. `InvalidVersion` unless the header is of the version that this
/// library reads.
pub fn with_store(header: Transmissions, rounds: Vec<Transmission>) -> (r: Result<Feed, ErrorCode>)
    requires
        header.live_length <= rounds@.len(),
    ensures
        match r {
            Ok(feed) => {
                &&& header.version == FEED_VERSION
                &&& feed.header == header
                &&& feed.live@ == rounds@.take(header.live_length as int)
                &&& feed.historical@ == rounds@.skip(header.live_length as int)
            },
            Err(e) => e == ErrorCode::InvalidVersion && header.version != FEED_VERSION,
        },
{
    // only feeds of the current version are read
    if header.version != FEED_VERSION {
        return Err(ErrorCode::InvalidVersion);
    }
    let n = header.live_length as usize;
    let mut live = rounds;
    let historical = live.split_off(n);
    proof {
        assert(live@ =~= rounds@.take(n as int));
        assert(historical@ =~= rounds@.skip(n as int));
    }
    Ok(Feed { header, live, historical })
}

impl Feed {
    /// Whether the feed is well-formed: `insert`, `latest` and `fetch` ask
    /// for that.
    pub fn is_well_formed(&self) -> (r: bool)
        ensures
            r == self.wf(),
    {
        self.header.granularity > 0 && self.live.len() > 0 && self.historical.len() > 0
            && (self.header.live_cursor as usize) < self.live.len()
            && (self.header.historical_cursor as usize) < self.historical.len()
            && self.header.live_length as usize == self.live.len() && self.historical.len()
            <= 0xffff_ffff
    }
}

/// The key of who owns a feed: the owner of the store, where a store owns
/// the feed, else the feed's owner itself.
pub open spec fn owner_key(feed_owner: Pubkey, store: Option<&Store>) -> Seq<u8> {
    match store {
        Some(store) => store.owner@,
        None => feed_owner@,
    }
}

/// Only the owner of the feed passes: the owner of the store that owns the
/// feed, where `store` is given, else the feed's owner itself.
pub fn owner(feed_owner: &Pubkey, store: Option<&Store>, authority: &Pubkey) -> (r: Result<
    (),
    ErrorCode,
>)
    ensures
        match r {
            Ok(_) => authority@ == owner_key(*feed_owner, store),
            Err(e) => e == ErrorCode::Unauthorized && authority@ != owner_key(*feed_owner, store),
        },
{
    let owner = match store {
        // if a store owns the feed, the store's owner has to sign
        Some(store) => store.owner,
        // else it is an individual owner
        None => *feed_owner,
    };
    if *authority == owner {
        Ok(())
    } else {
        Err(ErrorCode::Unauthorized)
    }
}

/// Only the owner of the store passes.
pub fn store_owner(store: &Store, signer: &Pubkey) -> (r: Result<(), ErrorCode>)
    ensures
        match r {
            Ok(_) => signer@ == store.owner@,
            Err(e) => e == ErrorCode::Unauthorized && signer@ != store.owner@,
        },
{
    if *signer == store.owner {
        Ok(())
    } else {
        Err(ErrorCode::Unauthorized)
    }
}

/// Why `authority` may not lower a feed's flag; `None` where it may. The
/// owner of the store may, and whoever the store's lowering access
/// controller lists; of a feed without a store, its owner.
pub open spec fn lowering_access_error(
    feed_owner: Pubkey,
    store: Option<&Store>,
    controller_key: Pubkey,
    controller: AccessController,
    authority: Pubkey,
) -> Option<ErrorCode> {
    match store {
        Some(store) => if store.owner@ == authority@ {
            None
        } else if controller_key@ != store.lowering_access_controller@ {
            Some(ErrorCode::InvalidInput)
        } else if listed(controller.access_list@, authority) {
            None
        } else {
            Some(ErrorCode::Unauthorized)
        },
        None => if authority@ == feed_owner@ {
            None
        } else {
            Some(ErrorCode::Unauthorized)
        },
    }
}

/// Checks that `authority` may lower a feed's flag.
pub fn has_lowering_access(
    feed_owner: &Pubkey,
    store: Option<&Store>,
    controller_key: &Pubkey,
    controller: &AccessController,
    authority: &Pubkey,
) -> (r: Result<(), ErrorCode>)
    requires
        controller.wf(),
    ensures
        match r {
            Ok(_) => lowering_access_error(
                *feed_owner,
                store,
                *controller_key,
                *controller,
                *authority,
            ) is None,
            Err(e) => lowering_access_error(
                *feed_owner,
                store,
                *controller_key,
                *controller,
                *authority,
            ) == Some(e),
        },
{
    match store {
        Some(store) => {
            // the store's owner passes at once
            if store.owner == *authority {
                return Ok(());
            }
            // the controller has to be the store's
            if *controller_key != store.lowering_access_controller {
                return Err(ErrorCode::InvalidInput);
            }
            if has_access(controller, authority) {
                Ok(())
            } else {
                Err(ErrorCode::Unauthorized)
            }
        },
        None => {
            if *authority == *feed_owner {
                Ok(())
            } else {
                Err(ErrorCode::Unauthorized)
            }
        },
    }
}

/// Proposes a new owner of the feed, not the all-zero address. Only the
/// owner may.
pub fn transfer_feed_ownership(
    feed: &mut Transmissions,
    store: Option<&Store>,
    authority: &Pubkey,
    proposed_owner: Pubkey,
) -> (r: Result<(), ErrorCode>)
    ensures
        r == (if authority@ != owner_key(old(feed).owner, store) {
            Err::<(), ErrorCode>(ErrorCode::Unauthorized)
        } else if proposed_owner@ == Pubkey::default_bytes() {
            Err::<(), ErrorCode>(ErrorCode::InvalidInput)
        } else {
            Ok::<(), ErrorCode>(())
        }),
        match r {
            Ok(_) => *final(feed) == (Transmissions { proposed_owner, ..*old(feed) }),
            Err(_) => *final(feed) == *old(feed),
        },
{
    match owner(&feed.owner, store, authority) {
        Ok(_) => {},
        Err(e) => {
            return Err(e);
        },
    }
    if proposed_owner.is_default() {
        return Err(ErrorCode::InvalidInput);
    }
    feed.proposed_owner = proposed_owner;
    Ok(())
}

/// Makes the proposed owner the owner of the feed. Only the proposed owner
/// may: the owner of the store `store`, where the proposed owner is a store.
pub fn accept_feed_ownership(feed: &mut Transmissions, store: Option<&Store>, authority: &Pubkey) -> (r:
    Result<(), ErrorCode>)
    ensures
        match r {
            Ok(_) => {
                &&& authority@ == owner_key(old(feed).proposed_owner, store)
                &&& final(feed).owner == old(feed).proposed_owner
                &&& final(feed).proposed_owner@ == Pubkey::default_bytes()
                &&& *final(feed) == (Transmissions {
                    owner: final(feed).owner,
                    proposed_owner: final(feed).proposed_owner,
                    ..*old(feed)
                })
            },
            Err(e) => e == ErrorCode::Unauthorized && authority@ != owner_key(
                old(feed).proposed_owner,
                store,
            ) && *final(feed) == *old(feed),
        },
{
    match owner(&feed.proposed_owner, store, authority) {
        Ok(_) => {},
        Err(e) => {
            return Err(e);
        },
    }
    feed.owner = feed.proposed_owner;
    feed.proposed_owner = Pubkey::default();
    Ok(())
}

/// Sets the threshold above which an answer flags the feed. Only the owner may.
pub fn set_validator_config(
    feed: &mut Transmissions,
    store: Option<&Store>,
    authority: &Pubkey,
    flagging_threshold: u32,
) -> (r: Result<(), ErrorCode>)
    ensures
        match r {
            Ok(_) => authority@ == owner_key(old(feed).owner, store) && *final(feed) == (
            Transmissions { flagging_threshold, ..*old(feed) }),
            Err(e) => e == ErrorCode::Unauthorized && authority@ != owner_key(
                old(feed).owner,
                store,
            ) && *final(feed) == *old(feed),
        },
{
    match owner(&feed.owner, store, authority) {
        Ok(_) => {},
        Err(e) => {
            return Err(e);
        },
    }
    feed.flagging_threshold = flagging_threshold;
    Ok(())
}

/// Sets who may submit rounds to the feed. Only the owner may.
pub fn set_writer(feed: &mut Transmissions, store: Option<&Store>, authority: &Pubkey, writer: Pubkey) -> (r:
    Result<(), ErrorCode>)
    ensures
        match r {
            Ok(_) => authority@ == owner_key(old(feed).owner, store) && *final(feed) == (
            Transmissions { writer, ..*old(feed) }),
            Err(e) => e == ErrorCode::Unauthorized && authority@ != owner_key(
                old(feed).owner,
                store,
            ) && *final(feed) == *old(feed),
        },
{
    match owner(&feed.owner, store, authority) {
        Ok(_) => {},
        Err(e) => {
            return Err(e);
        },
    }
    feed.writer = writer;
    Ok(())
}

/// Lowers the feed's flag. See `has_lowering_access` for who may.
pub fn lower_flag(
    feed: &mut Transmissions,
    store: Option<&Store>,
    controller_key: &Pubkey,
    controller: &AccessController,
    authority: &Pubkey,
) -> (r: Result<(), ErrorCode>)
    requires
        controller.wf(),
    ensures
        match r {
            Ok(_) => lowering_access_error(
                old(feed).owner,
                store,
                *controller_key,
                *controller,
                *authority,
            ) is None && *final(feed) == (Transmissions {
                state: Transmissions::NORMAL,
                ..*old(feed)
            }),
            Err(e) => lowering_access_error(
                old(feed).owner,
                store,
                *controller_key,
                *controller,
                *authority,
            ) == Some(e) && *final(feed) == *old(feed),
        },
{
    match has_lowering_access(&feed.owner, store, controller_key, controller, authority) {
        Ok(_) => {},
        Err(e) => {
            return Err(e);
        },
    }
    feed.state = Transmissions::NORMAL;
    Ok(())
}

/// The round that is stored for what the aggregator hands over at `slot`:
/// the low 32 bits of the timestamp are kept.
pub open spec fn stored_round(round: NewTransmission, slot: u64) -> Transmission {
    Transmission { slot, timestamp: (round.timestamp % 0x1_0000_0000) as u32, answer: round.answer }
}

/// Whether the answer of `round` deviates too far from the newest answer of `feed`.
pub open spec fn deviates(feed: Feed, round: NewTransmission) -> bool {
    match feed@.latest() {
        Some(previous) => !within_threshold(
            feed.header.flagging_threshold,
            previous.answer,
            round.answer,
        ),
        None => false,
    }
}

/// Takes a round from the aggregator into the feed, at the slot `slot`. Only
/// the feed's writer may submit. An answer that deviates too far from the
/// one before raises the feed's flag, and nothing lowers it here.
pub fn submit(feed: &mut Feed, authority: &Pubkey, round: NewTransmission, slot: u64) -> (r: Result<
    (),
    ErrorCode,
>)
    requires
        old(feed).wf(),
        old(feed).header.latest_round_id < u32::MAX,
    ensures
        final(feed).wf(),
        match r {
            Ok(_) => {
                &&& authority@ == old(feed).header.writer@
                &&& final(feed)@ == old(feed)@.insert(stored_round(round, slot))
                &&& final(feed).header.state == if deviates(*old(feed), round) {
                    Transmissions::FLAGGED
                } else {
                    old(feed).header.state
                }
                &&& final(feed).header.version == old(feed).header.version
                &&& final(feed).header.owner == old(feed).header.owner
                &&& final(feed).header.proposed_owner == old(feed).header.proposed_owner
                &&& final(feed).header.writer == old(feed).header.writer
                &&& final(feed).header.description == old(feed).header.description
                &&& final(feed).header.decimals == old(feed).header.decimals
                &&& final(feed).header.flagging_threshold == old(feed).header.flagging_threshold
                &&& final(feed).header.live_length == old(feed).header.live_length
            },
            Err(e) => e == ErrorCode::Unauthorized && authority@ != old(feed).header.writer@
                && *final(feed) == *old(feed),
        },
{
    // only the aggregator of this feed may write to it
    if *authority != feed.header.writer {
        return Err(ErrorCode::Unauthorized);
    }
    let round = Transmission {
        slot,
        answer: round.answer,
        timestamp: (round.timestamp % 0x1_0000_0000) as u32,
    };
    let previous_round = feed.latest();
    feed.insert(round);

    let flagging_threshold = feed.header.flagging_threshold;
    let valid = match previous_round {
        Some(previous_round) => is_valid(flagging_threshold, previous_round.answer, round.answer),
        None => true,
    };
    if !valid {
        // raise the flag
        feed.header.state = Transmissions::FLAGGED;
    }
    Ok(())
}

/// A new store, owned by `owner`.
pub fn initialize(owner: Pubkey, lowering_access_controller: Pubkey) -> (store: Store)
    ensures
        store.owner == owner,
        store.proposed_owner@ == Pubkey::default_bytes(),
        store.lowering_access_controller == lowering_access_controller,
{
    Store { owner, proposed_owner: Pubkey::default(), lowering_access_controller }
}

/// Proposes a new owner of the store, not the all-zero address. Only the
/// owner may.
pub fn transfer_store_ownership(store: &mut Store, authority: &Pubkey, proposed_owner: Pubkey) -> (r:
    Result<(), ErrorCode>)
    ensures
        r == (if authority@ != old(store).owner@ {
            Err::<(), ErrorCode>(ErrorCode::Unauthorized)
        } else if proposed_owner@ == Pubkey::default_bytes() {
            Err::<(), ErrorCode>(ErrorCode::InvalidInput)
        } else {
            Ok::<(), ErrorCode>(())
        }),
        match r {
            Ok(_) => *final(store) == (Store { proposed_owner, ..*old(store) }),
            Err(_) => *final(store) == *old(store),
        },
{
    match store_owner(store, authority) {
        Ok(_) => {},
        Err(e) => {
            return Err(e);
        },
    }
    if proposed_owner.is_default() {
        return Err(ErrorCode::InvalidInput);
    }
    store.proposed_owner = proposed_owner;
    Ok(())
}

/// Makes the proposed owner the owner of the store. Only the proposed owner may.
pub fn accept_store_ownership(store: &mut Store, authority: &Pubkey) -> (r: Result<(), ErrorCode>)
    ensures
        match r {
            Ok(_) => {
                &&& authority@ == old(store).proposed_owner@
                &&& final(store).owner == old(store).proposed_owner
                &&& final(store).proposed_owner@ == Pubkey::default_bytes()
                &&& final(store).lowering_access_controller == old(store).lowering_access_controller
            },
            Err(e) => e == ErrorCode::Unauthorized && authority@ != old(store).proposed_owner@
                && *final(store) == *old(store),
        },
{
    if *authority != store.proposed_owner {
        return Err(ErrorCode::Unauthorized);
    }
    store.owner = store.proposed_owner;
    store.proposed_owner = Pubkey::default();
    Ok(())
}

/// Puts another access controller in charge of lowering flags. Only the
/// owner of the store may.
pub fn set_lowering_access_controller(store: &mut Store, authority: &Pubkey, access_controller: Pubkey) -> (r:
    Result<(), ErrorCode>)
    ensures
        match r {
            Ok(_) => authority@ == old(store).owner@ && *final(store) == (Store {
                lowering_access_controller: access_controller,
                ..*old(store)
            }),
            Err(e) => e == ErrorCode::Unauthorized && authority@ != old(store).owner@ && *final(store) == *old(store),
        },
{
    match store_owner(store, authority) {
        Ok(_) => {},
        Err(e) => {
            return Err(e);
        },
    }
    store.lowering_access_controller = access_controller;
    Ok(())
}

/// The place of the first zero byte of a description, or its length.
pub open spec fn description_end(description: Seq<u8>) -> int
    decreases description.len(),
{
    if description.len() == 0 || description[0] == 0 {
        0
    } else {
        1 + description_end(description.skip(1))
    }
}

/// The description of a feed without its padding: the bytes before the
/// first zero byte.
pub fn description_bytes(description: &[u8; 32]) -> (r: Vec<u8>)
    ensures
        r@ == description@.take(description_end(description@)),
        0 <= description_end(description@) <= 32,
{
    let mut out: Vec<u8> = Vec::new();
    let mut i: usize = 0;
    proof {
        assert(description@.skip(0) =~= description@);
    }
    while i < 32 && description[i] != 0
        invariant
            0 <= i <= 32,
            out@ == description@.take(i as int),
            description_end(description@) == i + description_end(description@.skip(i as int)),
        decreases 32 - i,
    {
        out.push(description[i]);
        proof {
            assert(description@.skip(i as int).skip(1) =~= description@.skip(i + 1));
            assert(out@ =~= description@.take(i + 1));
        }
        i += 1;
    }
    out
}

/// Answers a query. `NotFound` for a round that the feed does not hold.
pub fn query(feed: &Feed, scope: Scope) -> (r: Result<Answer, ErrorCode>)
    requires
        feed.wf(),
    ensures
        match scope {
            Scope::Version => r matches Ok(Answer::Version(v)) && v == feed.header.version,
            Scope::Decimals => r matches Ok(Answer::Decimals(d)) && d == feed.header.decimals,
            Scope::Description => r matches Ok(Answer::Description(d)) && d@
                == feed.header.description@.take(description_end(feed.header.description@)),
            Scope::RoundData { round_id } => match feed@.fetch(round_id as nat) {
                Some(round) => r matches Ok(Answer::RoundData(found)) && found == (Round {
                    round_id,
                    slot: round.slot,
                    timestamp: round.timestamp,
                    answer: round.answer,
                }),
                None => r matches Err(e) && e == ErrorCode::NotFound,
            },
            Scope::LatestRoundData => match feed@.latest() {
                Some(round) => r matches Ok(Answer::LatestRoundData(found)) && found == (Round {
                    round_id: feed.header.latest_round_id,
                    slot: round.slot,
                    timestamp: round.timestamp,
                    answer: round.answer,
                }),
                None => r matches Err(e) && e == ErrorCode::NotFound,
            },
            Scope::Aggregator => r matches Ok(Answer::Aggregator(a)) && a == feed.header.writer,
        },
{
    match scope {
        Scope::Version => Ok(Answer::Version(feed.header.version)),
        Scope::Decimals => Ok(Answer::Decimals(feed.header.decimals)),
        Scope::Description => Ok(Answer::Description(description_bytes(&feed.header.description))),
        Scope::RoundData { round_id } => match feed.fetch(round_id) {
            Some(round) => Ok(
                Answer::RoundData(
                    Round {
                        round_id,
                        slot: round.slot,
                        answer: round.answer,
                        timestamp: round.timestamp,
                    },
                ),
            ),
            None => Err(ErrorCode::NotFound),
        },
        Scope::LatestRoundData => match feed.latest() {
            Some(round) => Ok(
                Answer::LatestRoundData(
                    Round {
                        round_id: feed.header.latest_round_id,
                        slot: round.slot,
                        answer: round.answer,
                        timestamp: round.timestamp,
                    },
                ),
            ),
            None => Err(ErrorCode::NotFound),
        },
        Scope::Aggregator => Ok(Answer::Aggregator(feed.header.writer)),
    }
}

} // verus!
