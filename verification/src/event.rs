//! Events for the host: an append-only log of 64-bit words that the host
//! drains between transactions. The log is an explicit value, handed to
//! each function that writes to it.

use vstd::prelude::*;
use vstd::std_specs::convert::FromSpecImpl;
use crate::market::MarketData;

verus! {

/// Tag of an event about a player.
pub const EVENT_PLAYER_UPDATE: u64 = 1;

/// Tag of an event about a market.
pub const EVENT_MARKET_UPDATE: u64 = 2;

/// Tag of an event about a bet.
pub const EVENT_BET_UPDATE: u64 = 3;

/// The first word of an event: the tag in the upper half, the number of
/// payload words in the lower half.
pub open spec fn event_header(typ: u64, len: u64) -> u64 {
    (typ << 32) | len
}

/// Where tag and length each fit in 32 bits, the header gives both back.
pub proof fn lemma_event_header_decodes(typ: u64, len: u64)
    requires
        typ <= 0xffff_ffff,
        len <= 0xffff_ffff,
    ensures
        event_header(typ, len) >> 32 == typ,
        event_header(typ, len) & 0xffff_ffff == len,
        event_header(typ, len) == typ * 0x1_0000_0000 + len,
{
    assert(((typ << 32) | len) >> 32 == typ && ((typ << 32) | len) & 0xffff_ffff == len && ((typ
        << 32) | len) == typ * 0x1_0000_0000 + len) by (bit_vector)
        requires
            typ <= 0xffff_ffff,
            len <= 0xffff_ffff,
    ;
}

/// Hands the logged events to the host: `a` with the whole log appended,
/// and the log left empty.
pub fn clear_events(events: &mut Vec<u64>, a: Vec<u64>) -> (c: Vec<u64>)
    ensures
        c@ == a@ + old(events)@,
        final(events)@ == Seq::<u64>::empty(),
{
    let mut c = a;
    c.append(events);
    assert(events@ =~= Seq::<u64>::empty());
    c
}

/// Logs one event: its header word, then its payload, which is moved out
/// of `data`.
pub fn insert_event(events: &mut Vec<u64>, typ: u64, data: &mut Vec<u64>)
    ensures
        final(events)@ == old(events)@.push(event_header(typ, old(data)@.len() as u64)) + old(
            data,
        )@,
        final(data)@ == Seq::<u64>::empty(),
{
    events.push((typ << 32) | (data.len() as u64));
    events.append(data);
    assert(data@ =~= Seq::<u64>::empty());
}

/// What a market event reports: the outstanding supply of each side.
pub struct MarketEvent {
    pub total_yes_shares: u64,
    pub total_no_shares: u64,
}

impl View for MarketEvent {
    type V = (u64, u64);

    /// The YES supply, then the NO supply.
    open spec fn view(&self) -> (u64, u64) {
        (self.total_yes_shares, self.total_no_shares)
    }
}

impl MarketEvent {
    /// Reads an event from the first two words of `u64data`; `None` where
    /// there are fewer.
    pub fn from_data(u64data: &[u64]) -> (r: Option<MarketEvent>)
        ensures
            u64data@.len() < 2 ==> r is None,
            u64data@.len() >= 2 ==> r is Some && r->Some_0@ == (u64data@[0], u64data@[1]),
    {
        if u64data.len() < 2 {
            return None;
        }
        Some(MarketEvent { total_yes_shares: u64data[0], total_no_shares: u64data[1] })
    }

    /// Appends the event's payload to `data`: the YES supply, then the NO
    /// supply.
    pub fn to_data(&self, data: &mut Vec<u64>)
        ensures
            final(data)@ == old(data)@.push(self@.0).push(self@.1),
    {
        data.push(self.total_yes_shares);
        data.push(self.total_no_shares);
    }
}

impl From<&MarketData> for MarketEvent {
    /// The event that reports the supplies of `m`.
    fn from(m: &MarketData) -> (event: MarketEvent) {
        MarketEvent { total_yes_shares: m.total_yes_shares, total_no_shares: m.total_no_shares }
    }
}

impl FromSpecImpl<&MarketData> for MarketEvent {
    open spec fn obeys_from_spec() -> bool {
        true
    }

    open spec fn from_spec(m: &MarketData) -> MarketEvent {
        MarketEvent { total_yes_shares: m.total_yes_shares, total_no_shares: m.total_no_shares }
    }
}

} // verus!
