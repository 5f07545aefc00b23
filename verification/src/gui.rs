//! The files that hand the bars and the trades of a run to a chart viewer.
//!
//! Both files are little-endian: a version of eight bytes, a count of
//! eight bytes and then the records. A number that is not a whole number
//! is stored as the eight bytes of a double, which this module takes and
//! hands on as the `u64` of its bits.

use crate::trader::constant::Direction;
use vstd::bytes::{spec_u64_to_le_bytes, u64_to_le_bytes};
use vstd::prelude::*;

verus! {

/// The version that both files begin with.
pub const VERSION: u64 = 0;

/// One bar of the chart: the time in seconds since 1970 and the bits of
/// five doubles.
#[derive(Debug, Clone, Copy, PartialEq, Eq, Structural)]
pub struct CandleRecord {
    pub timestamp: u64,
    pub open_price: u64,
    pub high_price: u64,
    pub low_price: u64,
    pub close_price: u64,
    pub volume: u64,
}

/// One trade of the chart: the time in seconds since 1970, the code of
/// the direction and the bits of two doubles.
#[derive(Debug, Clone, Copy, PartialEq, Eq, Structural)]
pub struct TradeMark {
    pub timestamp: u64,
    pub direction: u8,
    pub price: u64,
    pub volume: u64,
}

/// The code of a direction in the file of trades: one for long, two for
/// short, zero for any other.
pub open spec fn direction_code_spec(d: Direction) -> u8 {
    match d {
        Direction::LONG => 1,
        Direction::SHORT => 2,
        Direction::NET => 0,
    }
}

/// The code of a direction in the file of trades.
pub fn direction_code(d: Direction) -> (r: u8)
    ensures
        r == direction_code_spec(d),
{
    match d {
        Direction::LONG => 1,
        Direction::SHORT => 2,
        Direction::NET => 0,
    }
}

/// The 48 bytes of one bar.
pub open spec fn candle_bytes(c: CandleRecord) -> Seq<u8> {
    spec_u64_to_le_bytes(c.timestamp) + spec_u64_to_le_bytes(c.open_price)
        + spec_u64_to_le_bytes(c.high_price) + spec_u64_to_le_bytes(c.low_price)
        + spec_u64_to_le_bytes(c.close_price) + spec_u64_to_le_bytes(c.volume)
}

/// The 25 bytes of one trade.
pub open spec fn mark_bytes(t: TradeMark) -> Seq<u8> {
    spec_u64_to_le_bytes(t.timestamp) + seq![t.direction] + spec_u64_to_le_bytes(t.price)
        + spec_u64_to_le_bytes(t.volume)
}

/// The bytes of a list of bars, one bar after the other.
pub open spec fn candles_bytes(cs: Seq<CandleRecord>) -> Seq<u8>
    decreases cs.len(),
{
    if cs.len() == 0 {
        Seq::empty()
    } else {
        candles_bytes(cs.drop_last()) + candle_bytes(cs.last())
    }
}

/// The bytes of a list of trades, one trade after the other.
pub open spec fn marks_bytes(ts: Seq<TradeMark>) -> Seq<u8>
    decreases ts.len(),
{
    if ts.len() == 0 {
        Seq::empty()
    } else {
        marks_bytes(ts.drop_last()) + mark_bytes(ts.last())
    }
}

/// The file of bars: the version, the count and the bars.
pub open spec fn history_file(cs: Seq<CandleRecord>) -> Seq<u8> {
    spec_u64_to_le_bytes(VERSION) + spec_u64_to_le_bytes(cs.len() as u64) + candles_bytes(cs)
}

/// The file of trades: the version, the count and the trades.
pub open spec fn trades_file(ts: Seq<TradeMark>) -> Seq<u8> {
    spec_u64_to_le_bytes(VERSION) + spec_u64_to_le_bytes(ts.len() as u64) + marks_bytes(ts)
}

/// The file of bars has sixteen bytes and 48 for every bar.
pub proof fn lemma_history_file_len(cs: Seq<CandleRecord>)
    ensures
        candles_bytes(cs).len() == 48 * cs.len(),
        history_file(cs).len() == 16 + 48 * cs.len(),
    decreases cs.len(),
{
    vstd::bytes::lemma_auto_spec_u64_to_from_le_bytes();
    if cs.len() > 0 {
        lemma_history_file_len(cs.drop_last());
    }
}

/// The file of trades has sixteen bytes and 25 for every trade.
pub proof fn lemma_trades_file_len(ts: Seq<TradeMark>)
    ensures
        marks_bytes(ts).len() == 25 * ts.len(),
        trades_file(ts).len() == 16 + 25 * ts.len(),
    decreases ts.len(),
{
    vstd::bytes::lemma_auto_spec_u64_to_from_le_bytes();
    if ts.len() > 0 {
        lemma_trades_file_len(ts.drop_last());
    }
}

fn put_u64(out: &mut Vec<u8>, x: u64)
    ensures
        final(out)@ == old(out)@ + spec_u64_to_le_bytes(x),
{
    let mut bytes = u64_to_le_bytes(x);
    out.append(&mut bytes);
}

/// The window that shows the chart. It keeps nothing but whether it was
/// brought up to date.
#[derive(Debug)]
pub struct CandleChartDialog {
    pub updated: bool,
}

impl CandleChartDialog {
    /// A window that was not brought up to date.
    pub fn new() -> (r: Self)
        ensures
            !r.updated,
    {
        CandleChartDialog { updated: false }
    }

    /// The bytes of the file of bars for a history.
    pub fn update_history(&mut self, history: &Vec<CandleRecord>) -> (bytes: Vec<u8>)
        ensures
            bytes@ == history_file(history@),
            bytes@.len() == 16 + 48 * history@.len(),
            *final(self) == *old(self),
    {
        proof {
            lemma_history_file_len(history@);
        }
        let mut out: Vec<u8> = Vec::new();
        put_u64(&mut out, VERSION);
        put_u64(&mut out, history.len() as u64);
        let ghost head = out@;
        let n: usize = history.len();
        let mut i: usize = 0;
        proof {
            assert(history@.take(0) =~= Seq::<CandleRecord>::empty());
            assert(head + Seq::<u8>::empty() =~= head);
        }
        while i < n
            invariant
                i <= n,
                n == history@.len(),
                out@ == head + candles_bytes(history@.take(i as int)),
            decreases n - i,
        {
            let c = history[i];
            let ghost before = candles_bytes(history@.take(i as int));
            proof {
                assert(history@.take(i + 1).drop_last() =~= history@.take(i as int));
                assert(history@.take(i + 1).last() == c);
            }
            put_u64(&mut out, c.timestamp);
            put_u64(&mut out, c.open_price);
            put_u64(&mut out, c.high_price);
            put_u64(&mut out, c.low_price);
            put_u64(&mut out, c.close_price);
            put_u64(&mut out, c.volume);
            proof {
                assert(out@ =~= head + (before + candle_bytes(c)));
            }
            i = i + 1;
        }
        proof {
            assert(history@.take(n as int) =~= history@);
        }
        out
    }

    /// The bytes of the file of trades for a list of trades.
    pub fn update_trades(&mut self, trades: &Vec<TradeMark>) -> (bytes: Vec<u8>)
        ensures
            bytes@ == trades_file(trades@),
            bytes@.len() == 16 + 25 * trades@.len(),
            *final(self) == *old(self),
    {
        proof {
            lemma_trades_file_len(trades@);
        }
        let mut out: Vec<u8> = Vec::new();
        put_u64(&mut out, VERSION);
        put_u64(&mut out, trades.len() as u64);
        let ghost head = out@;
        let n: usize = trades.len();
        let mut i: usize = 0;
        proof {
            assert(trades@.take(0) =~= Seq::<TradeMark>::empty());
            assert(head + Seq::<u8>::empty() =~= head);
        }
        while i < n
            invariant
                i <= n,
                n == trades@.len(),
                out@ == head + marks_bytes(trades@.take(i as int)),
            decreases n - i,
        {
            let t = trades[i];
            let ghost before = marks_bytes(trades@.take(i as int));
            proof {
                assert(trades@.take(i + 1).drop_last() =~= trades@.take(i as int));
                assert(trades@.take(i + 1).last() == t);
            }
            put_u64(&mut out, t.timestamp);
            out.push(t.direction);
            put_u64(&mut out, t.price);
            put_u64(&mut out, t.volume);
            proof {
                assert(out@ =~= head + (before + mark_bytes(t)));
            }
            i = i + 1;
        }
        proof {
            assert(trades@.take(n as int) =~= trades@);
        }
        out
    }

    /// Whether the chart was brought up to date.
    pub fn is_updated(&self) -> (r: bool)
        ensures
            r == self.updated,
    {
        self.updated
    }
}

} // verus!
