//! The persisted layout of a market record: a sequence of 64-bit words.
//!
//! ```text
//! [ title_len, title words ..,
//!   start_time, end_time, resolution_time,
//!   total_yes_shares, total_no_shares, b,
//!   pool_balance, total_volume,
//!   resolved (0 or 1), outcome (0 unresolved, 1 NO won, 2 YES won),
//!   total_fees_collected ]
//! ```

use vstd::prelude::*;
use crate::market::{MarketData, MarketView};

verus! {

/// Words of a record besides its title words.
pub const FIXED_WORDS: usize = 12;

/// The stored form of an outcome.
pub open spec fn outcome_tag(outcome: Option<bool>) -> u64 {
    match outcome {
        None => 0,
        Some(false) => 1,
        Some(true) => 2,
    }
}

/// The outcome that a stored tag stands for; every tag above 1 reads as
/// "YES won".
pub open spec fn outcome_of_tag(tag: u64) -> Option<bool> {
    if tag == 0 {
        None
    } else if tag == 1 {
        Some(false)
    } else {
        Some(true)
    }
}

/// The stored form of a flag.
pub open spec fn flag_word(flag: bool) -> u64 {
    if flag {
        1
    } else {
        0
    }
}

impl MarketView {
    /// The words that a record is stored as.
    pub open spec fn to_words(self) -> Seq<u64> {
        seq![self.title.len() as u64] + self.title + seq![
            self.start_time,
            self.end_time,
            self.resolution_time,
            self.total_yes_shares,
            self.total_no_shares,
            self.b,
            self.pool_balance,
            self.total_volume,
            flag_word(self.resolved),
            outcome_tag(self.outcome),
            self.total_fees_collected,
        ]
    }
}

/// The record at the front of `words` and the number of words it takes, or
/// `None` where `words` ends before the record does.
pub open spec fn market_of_words(words: Seq<u64>) -> Option<(MarketView, nat)> {
    if words.len() < FIXED_WORDS || words[0] > words.len() - FIXED_WORDS {
        None
    } else {
        let n = words[0] as int;
        Some(
            (
                MarketView {
                    title: words.subrange(1, n + 1),
                    start_time: words[n + 1],
                    end_time: words[n + 2],
                    resolution_time: words[n + 3],
                    total_yes_shares: words[n + 4],
                    total_no_shares: words[n + 5],
                    b: words[n + 6],
                    pool_balance: words[n + 7],
                    total_volume: words[n + 8],
                    resolved: words[n + 9] != 0,
                    outcome: outcome_of_tag(words[n + 10]),
                    total_fees_collected: words[n + 11],
                },
                (n + FIXED_WORDS) as nat,
            ),
        )
    }
}

/// The value of what `from_data` returns.
pub open spec fn view_of_parsed(r: Option<(MarketData, usize)>) -> Option<(MarketView, nat)> {
    match r {
        Some((m, used)) => Some((m@, used as nat)),
        None => None,
    }
}

/// Reading back what was written gives the same record, whatever follows
/// it, and takes exactly the words that were written.
pub proof fn lemma_storage_round_trip(m: MarketView, rest: Seq<u64>)
    requires
        m.title.len() <= u64::MAX,
    ensures
        market_of_words(m.to_words() + rest) == Some((m, m.to_words().len())),
{
    let words = m.to_words() + rest;
    let n = m.title.len() as int;
    assert(words[0] == n);
    assert(words.subrange(1, n + 1) =~= m.title);
    assert(market_of_words(words)->Some_0.0.outcome == m.outcome);
    assert(market_of_words(words)->Some_0.0.resolved == m.resolved);
}

impl MarketData {
    /// Reads the record at the front of `u64data` and returns it with the
    /// number of words it took; `None` where `u64data` ends before the
    /// record does. Nothing is validated: a nonzero flag reads as resolved,
    /// and every outcome tag above 1 as "YES won".
    pub fn from_data(u64data: &[u64]) -> (r: Option<(MarketData, usize)>)
        ensures
            view_of_parsed(r) == market_of_words(u64data@),
    {
        let len: usize = u64data.len();
        if len < FIXED_WORDS {
            return None;
        }
        let title_len_word: u64 = u64data[0];
        if title_len_word > (len - FIXED_WORDS) as u64 {
            return None;
        }
        let title_len: usize = title_len_word as usize;
        let mut title: Vec<u64> = Vec::new();
        let mut i: usize = 0;
        while i < title_len
            invariant
                i <= title_len <= len - FIXED_WORDS,
                len == u64data@.len(),
                title@ =~= u64data@.subrange(1, i + 1),
            decreases title_len - i,
        {
            title.push(u64data[1 + i]);
            i += 1;
        }
        let base: usize = 1 + title_len;
        let outcome_val: u64 = u64data[base + 9];
        let outcome: Option<bool> = if outcome_val == 0 {
            None
        } else if outcome_val == 1 {
            Some(false)
        } else {
            Some(true)
        };
        let market = MarketData {
            title,
            start_time: u64data[base],
            end_time: u64data[base + 1],
            resolution_time: u64data[base + 2],
            total_yes_shares: u64data[base + 3],
            total_no_shares: u64data[base + 4],
            b: u64data[base + 5],
            pool_balance: u64data[base + 6],
            total_volume: u64data[base + 7],
            resolved: u64data[base + 8] != 0,
            outcome,
            total_fees_collected: u64data[base + 10],
        };
        Some((market, base + 11))
    }

    /// Appends the stored form of the record to `data`.
    pub fn to_data(&self, data: &mut Vec<u64>)
        ensures
            final(data)@ == old(data)@ + self@.to_words(),
    {
        data.push(self.title.len() as u64);
        data.extend_from_slice(self.title.as_slice());
        data.push(self.start_time);
        data.push(self.end_time);
        data.push(self.resolution_time);
        data.push(self.total_yes_shares);
        data.push(self.total_no_shares);
        data.push(self.b);
        data.push(self.pool_balance);
        data.push(self.total_volume);
        data.push(
            if self.resolved {
                1
            } else {
                0
            },
        );
        data.push(
            match self.outcome {
                None => 0,
                Some(false) => 1,
                Some(true) => 2,
            },
        );
        data.push(self.total_fees_collected);
        assert(data@ =~= old(data)@ + self@.to_words());
    }
}

} // verus!
