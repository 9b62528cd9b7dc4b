//! The ledger of committed rounds: a "live" ring that holds every round and
//! a "historical" ring that holds every round whose id is a multiple of the
//! feed's granularity.

use vstd::prelude::*;
use crate::pubkey::Pubkey;

verus! {

/// The layout version of feeds that this library reads.
pub const FEED_VERSION: u8 = 2;

/// One committed round.
#[derive(Clone, Copy, Debug, PartialEq, Eq, Structural)]
pub struct Transmission {
    pub slot: u64,
    pub timestamp: u32,
    pub answer: i128,
}

impl Default for Transmission {
    fn default() -> (r: Transmission)
        ensures
            r == (Transmission { slot: 0, timestamp: 0, answer: 0 }),
    {
        Transmission { slot: 0, timestamp: 0, answer: 0 }
    }
}

/// A round as the aggregator hands it over, before the slot is known.
#[derive(Clone, Copy, Debug, PartialEq, Eq, Structural)]
pub struct NewTransmission {
    pub timestamp: u64,
    pub answer: i128,
}

/// The mathematical content of a feed: both rings with their cursors.
pub struct Ledger {
    pub latest_round_id: nat,
    pub granularity: nat,
    pub live: Seq<Transmission>,
    pub historical: Seq<Transmission>,
    pub live_cursor: nat,
    pub historical_cursor: nat,
}

impl Ledger {
    /// Both rings are non-empty, the cursors point into them and the
    /// granularity is positive.
    pub open spec fn wf(self) -> bool {
        &&& self.granularity > 0
        &&& self.live.len() > 0
        &&& self.historical.len() > 0
        &&& self.live_cursor < self.live.len()
        &&& self.historical_cursor < self.historical.len()
    }

    /// A feed without rounds, its slots zeroed.
    pub open spec fn empty(granularity: nat, live_length: nat, historical_length: nat) -> Ledger {
        Ledger {
            latest_round_id: 0,
            granularity,
            live: Seq::new(live_length, |i: int| Transmission { slot: 0, timestamp: 0, answer: 0 }),
            historical: Seq::new(
                historical_length,
                |i: int| Transmission { slot: 0, timestamp: 0, answer: 0 },
            ),
            live_cursor: 0,
            historical_cursor: 0,
        }
    }

    /// The feed after one more round: written at the live cursor, and at the
    /// historical cursor too when the new round id is a multiple of the
    /// granularity.
    pub open spec fn insert(self, round: Transmission) -> Ledger {
        let id = self.latest_round_id + 1;
        let sampled = id % self.granularity == 0;
        Ledger {
            latest_round_id: id,
            granularity: self.granularity,
            live: self.live.update(self.live_cursor as int, round),
            live_cursor: (self.live_cursor + 1) % self.live.len(),
            historical: if sampled {
                self.historical.update(self.historical_cursor as int, round)
            } else {
                self.historical
            },
            historical_cursor: if sampled {
                (self.historical_cursor + 1) % self.historical.len()
            } else {
                self.historical_cursor
            },
        }
    }

    /// The feed after the given rounds, inserted in order.
    pub open spec fn insert_all(self, rounds: Seq<Transmission>) -> Ledger
        decreases rounds.len(),
    {
        if rounds.len() == 0 {
            self
        } else {
            self.insert_all(rounds.drop_last()).insert(rounds.last())
        }
    }

    /// The newest round, if there is one.
    pub open spec fn latest(self) -> Option<Transmission> {
        if self.latest_round_id == 0 {
            None
        } else {
            Some(self.live[((self.live_cursor + self.live.len() - 1) % (self.live.len() as int))])
        }
    }

    /// The oldest round id that the live ring still answers for, 0 at the least.
    pub open spec fn live_start(self) -> nat {
        if self.latest_round_id >= self.live.len() - 1 {
            (self.latest_round_id - (self.live.len() - 1)) as nat
        } else {
            0
        }
    }

    /// The newest multiple of the granularity that is not above the latest round id.
    pub open spec fn historical_end(self) -> nat {
        (self.latest_round_id - self.latest_round_id % self.granularity) as nat
    }

    /// The oldest round id that the historical ring still answers for, 0 at
    /// the least.
    pub open spec fn historical_start(self) -> nat {
        let span = self.granularity * (self.historical.len() - 1);
        if self.historical_end() >= span {
            (self.historical_end() - span) as nat
        } else {
            0
        }
    }

    /// Whether the live ring answers for `round_id`.
    pub open spec fn in_live_window(self, round_id: nat) -> bool {
        self.live_start() <= round_id <= self.latest_round_id
    }

    /// Whether the historical ring answers for `round_id`.
    pub open spec fn in_historical_window(self, round_id: nat) -> bool {
        self.historical_start() <= round_id <= self.historical_end()
    }

    /// `round_id` rounded down to a multiple of the granularity.
    pub open spec fn sampled_id(self, round_id: nat) -> nat {
        (round_id - round_id % self.granularity) as nat
    }

    /// The slot of the live ring that answers for `round_id`.
    pub open spec fn live_index(self, round_id: nat) -> int {
        (self.live_cursor - (self.latest_round_id - round_id + 1)) % (self.live.len() as int)
    }

    /// The slot of the historical ring that answers for `round_id`.
    pub open spec fn historical_index(self, round_id: nat) -> int {
        let offset = (self.historical_end() - self.sampled_id(round_id)) / (self.granularity as int);
        (self.historical_cursor - (offset + 1)) % (self.historical.len() as int)
    }

    /// What a lookup of `round_id` gives: nothing for a round of the future,
    /// the slot of the live ring inside the live window, else the slot of the
    /// historical ring inside the historical window, else nothing.
    pub open spec fn fetch(self, round_id: nat) -> Option<Transmission> {
        if round_id > self.latest_round_id {
            None
        } else if self.in_live_window(round_id) {
            Some(self.live[self.live_index(round_id)])
        } else if self.in_historical_window(round_id) {
            Some(self.historical[self.historical_index(round_id)])
        } else {
            None
        }
    }
}

/// Stepping back `offset` slots from `cursor` in a ring of `len` slots, by
/// cases instead of by a remainder.
pub proof fn lemma_ring_index(cursor: int, offset: int, len: int)
    requires
        0 <= cursor < len,
        1 <= offset <= len,
    ensures
        (cursor - offset) % len == if cursor >= offset {
            cursor - offset
        } else {
            len - (offset - cursor)
        },
        0 <= (cursor - offset) % len < len,
{
    if cursor >= offset {
        vstd::arithmetic::div_mod::lemma_small_mod((cursor - offset) as nat, len as nat);
    } else {
        vstd::arithmetic::div_mod::lemma_mod_add_multiples_vanish(cursor - offset, len);
        vstd::arithmetic::div_mod::lemma_small_mod((cursor - offset + len) as nat, len as nat);
    }
}

/// How many samples lie between a round id inside the historical window and
/// the window's end: fewer than the ring has slots.
pub proof fn lemma_historical_offset(end: int, id: int, g: int, h: int)
    requires
        g > 0,
        h > 0,
        0 <= id <= end,
        end % g == 0,
        id >= end - g * (h - 1),
    ensures
        (id - id % g) % g == 0,
        id - id % g <= end,
        0 <= (end - (id - id % g)) / g <= h - 1,
        (end - (id - id % g)) == g * ((end - (id - id % g)) / g),
{
    let a = end / g;
    let b = id / g;
    vstd::arithmetic::div_mod::lemma_fundamental_div_mod(end, g);
    vstd::arithmetic::div_mod::lemma_fundamental_div_mod(id, g);
    assert(end == g * a);
    assert(id - id % g == g * b);
    assert(b <= a) by (nonlinear_arith)
        requires
            g > 0,
            g * b <= g * a,
    ;
    assert(a - b <= h - 1) by (nonlinear_arith)
        requires
            g > 0,
            0 <= id % g < g,
            id == g * b + id % g,
            id >= g * a - g * (h - 1),
    ;
    assert(end - (id - id % g) == g * (a - b)) by (nonlinear_arith)
        requires
            end == g * a,
            id - id % g == g * b,
    ;
    vstd::arithmetic::div_mod::lemma_div_multiples_vanish(a - b, g);
    assert(g * (a - b) == (a - b) * g) by (nonlinear_arith);
    vstd::arithmetic::div_mod::lemma_mod_multiples_basic(b, g);
    assert(g * b == b * g) by (nonlinear_arith);
}

/// The header of a feed.
#[derive(Clone, Copy, Debug)]
pub struct Transmissions {
    pub version: u8,
    pub state: u8,
    pub owner: Pubkey,
    pub proposed_owner: Pubkey,
    pub writer: Pubkey,
    /// Raw UTF-8 byte string, zero-padded.
    pub description: [u8; 32],
    pub decimals: u8,
    pub flagging_threshold: u32,
    pub latest_round_id: u32,
    pub granularity: u8,
    pub live_length: u32,
    pub live_cursor: u32,
    pub historical_cursor: u32,
}

impl Transmissions {
    /// The state of a feed whose last answer stayed within the threshold.
    pub const NORMAL: u8 = 0;

    /// The state of a feed whose last answer deviated too far.
    pub const FLAGGED: u8 = 1;
}

/// A feed: its header and the two rings.
#[derive(Clone, Debug)]
pub struct Feed {
    pub header: Transmissions,
    pub live: Vec<Transmission>,
    pub historical: Vec<Transmission>,
}

impl View for Feed {
    type V = Ledger;

    open spec fn view(&self) -> Ledger {
        Ledger {
            latest_round_id: self.header.latest_round_id as nat,
            granularity: self.header.granularity as nat,
            live: self.live@,
            historical: self.historical@,
            live_cursor: self.header.live_cursor as nat,
            historical_cursor: self.header.historical_cursor as nat,
        }
    }
}

impl Feed {
    /// The header agrees with the rings, and the rings are well-formed.
    pub open spec fn wf(&self) -> bool {
        &&& self@.wf()
        &&& self.header.live_length == self.live@.len()
        &&& self.historical@.len() <= u32::MAX
    }

    /// Appends a round.
    pub fn insert(&mut self, round: Transmission)
        requires
            old(self).wf(),
            old(self).header.latest_round_id < u32::MAX,
        ensures
            final(self).wf(),
            final(self)@ == old(self)@.insert(round),
            final(self).header.version == old(self).header.version,
            final(self).header.state == old(self).header.state,
            final(self).header.owner == old(self).header.owner,
            final(self).header.proposed_owner == old(self).header.proposed_owner,
            final(self).header.writer == old(self).header.writer,
            final(self).header.description == old(self).header.description,
            final(self).header.decimals == old(self).header.decimals,
            final(self).header.flagging_threshold == old(self).header.flagging_threshold,
            final(self).header.live_length == old(self).header.live_length,
    {
        self.header.latest_round_id += 1;
        let live_len: u64 = self.live.len() as u64;
        let cursor: usize = self.header.live_cursor as usize;
        self.live[cursor] = round;
        self.header.live_cursor = ((self.header.live_cursor as u64 + 1) % live_len) as u32;
        if self.header.latest_round_id % (self.header.granularity as u32) == 0 {
            let historical_len: u64 = self.historical.len() as u64;
            let cursor: usize = self.header.historical_cursor as usize;
            self.historical[cursor] = round;
            self.header.historical_cursor = ((self.header.historical_cursor as u64 + 1)
                % historical_len) as u32;
        }
    }

    /// The newest round, or `None` before the first insert.
    pub fn latest(&self) -> (r: Option<Transmission>)
        requires
            self.wf(),
        ensures
            r == self@.latest(),
    {
        if self.header.latest_round_id == 0 {
            return None;
        }
        let len: u64 = self.header.live_length as u64;
        let i: u64 = (self.header.live_cursor as u64 + (len - 1)) % len;
        Some(self.live[i as usize])
    }

    /// Looks a round up by its id: exactly inside the live window, rounded
    /// down to a multiple of the granularity inside the historical window,
    /// `None` for a round of the future or one that is no longer retained.
    pub fn fetch(&self, round_id: u32) -> (r: Option<Transmission>)
        requires
            self.wf(),
        ensures
            r == self@.fetch(round_id as nat),
    {
        if self.header.latest_round_id < round_id {
            return None;
        }
        let latest: u64 = self.header.latest_round_id as u64;
        let id: u64 = round_id as u64;
        let granularity: u64 = self.header.granularity as u64;
        let live_len: u64 = self.live.len() as u64;
        let historical_len: u64 = self.historical.len() as u64;

        let live_start: u64 = if latest >= live_len - 1 {
            latest - (live_len - 1)
        } else {
            0
        };
        proof {
            vstd::arithmetic::div_mod::lemma_mod_decreases(latest as nat, granularity as nat);
            vstd::arithmetic::div_mod::lemma_mod_decreases(id as nat, granularity as nat);
        }
        let historical_end: u64 = latest - latest % granularity;
        assert(granularity * (historical_len - 1) <= 0xff * 0xffff_ffff) by (nonlinear_arith)
            requires
                0 < granularity <= 0xff,
                0 < historical_len <= 0xffff_ffff,
        ;
        let span: u64 = granularity * (historical_len - 1);
        let historical_start: u64 = if historical_end >= span {
            historical_end - span
        } else {
            0
        };

        if live_start <= id {
            // one more step back, since the cursor points past the newest round
            let offset: u64 = latest - id + 1;
            let cursor: u64 = self.header.live_cursor as u64;
            proof {
                lemma_ring_index(cursor as int, offset as int, live_len as int);
            }
            let index: u64 = if cursor >= offset {
                cursor - offset
            } else {
                live_len - (offset - cursor)
            };
            Some(self.live[index as usize])
        } else if historical_start <= id && id <= historical_end {
            proof {
                vstd::arithmetic::div_mod::lemma_fundamental_div_mod(latest as int, granularity as int);
                vstd::arithmetic::div_mod::lemma_mod_multiples_basic(
                    (latest / granularity) as int,
                    granularity as int,
                );
                assert(historical_end as int == (latest / granularity) * granularity)
                    by (nonlinear_arith)
                    requires
                        latest as int == granularity * (latest / granularity) + latest % granularity,
                        historical_end == latest - latest % granularity,
                ;
                lemma_historical_offset(
                    historical_end as int,
                    id as int,
                    granularity as int,
                    historical_len as int,
                );
            }
            let sampled: u64 = id - id % granularity;
            let offset: u64 = (historical_end - sampled) / granularity + 1;
            let cursor: u64 = self.header.historical_cursor as u64;
            proof {
                lemma_ring_index(cursor as int, offset as int, historical_len as int);
            }
            let index: u64 = if cursor >= offset {
                cursor - offset
            } else {
                historical_len - (offset - cursor)
            };
            Some(self.historical[index as usize])
        } else {
            None
        }
    }
}

} // verus!
