//! Exchanges instruments trade on, and the codes naming them.

use vstd::prelude::*;
use vstd::string::StringSliceAdditionalSpecFns;

verus! {

/// A stock exchange.
#[derive(Clone, Copy, Debug, PartialEq, Eq, Structural)]
pub enum Exchange {
    /// Shanghai.
    SH,
    /// Shenzhen.
    SZ,
    /// Hong Kong.
    HK,
    /// Nasdaq.
    NASDAQ,
}

/// ASCII upper-casing of one byte; other bytes pass through.
pub open spec fn spec_upper_byte(b: u8) -> u8 {
    if 97 <= b <= 122 {
        (b - 32) as u8
    } else {
        b
    }
}

/// The exchange a code names, compared byte for byte after ASCII
/// upper-casing; nothing for an unknown code.
pub open spec fn spec_exchange_of_bytes(b: Seq<u8>) -> Option<Exchange> {
    if b.len() == 2 {
        let c0 = spec_upper_byte(b[0]);
        let c1 = spec_upper_byte(b[1]);
        if c0 == 83 && c1 == 72 {
            Some(Exchange::SH)
        } else if c0 == 83 && c1 == 90 {
            Some(Exchange::SZ)
        } else if c0 == 72 && c1 == 75 {
            Some(Exchange::HK)
        } else {
            None
        }
    } else if b.len() == 6 && spec_upper_byte(b[0]) == 78 && spec_upper_byte(b[1]) == 65
        && spec_upper_byte(b[2]) == 83 && spec_upper_byte(b[3]) == 68 && spec_upper_byte(b[4]) == 65
        && spec_upper_byte(b[5]) == 81 {
        Some(Exchange::NASDAQ)
    } else {
        None
    }
}

/// Short code of an exchange.
pub open spec fn spec_exchange_code(e: Exchange) -> Seq<char> {
    match e {
        Exchange::SH => "SH"@,
        Exchange::SZ => "SZ"@,
        Exchange::HK => "HK"@,
        Exchange::NASDAQ => "NASDAQ"@,
    }
}

/// IANA time-zone name of an exchange's market clock.
pub open spec fn spec_time_zone_name(e: Exchange) -> Seq<char> {
    match e {
        Exchange::SH => "Asia/Chongqing"@,
        Exchange::SZ => "Asia/Chongqing"@,
        Exchange::HK => "Asia/Hong_Kong"@,
        Exchange::NASDAQ => "America/New_York"@,
    }
}

fn upper_byte(b: u8) -> (r: u8)
    ensures
        r == spec_upper_byte(b),
{
    if 97 <= b && b <= 122 {
        b - 32
    } else {
        b
    }
}

impl Exchange {
    /// Short code of this exchange.
    pub fn as_code(&self) -> (r: &'static str)
        ensures
            r@ == spec_exchange_code(*self),
    {
        match self {
            Exchange::SH => "SH",
            Exchange::SZ => "SZ",
            Exchange::HK => "HK",
            Exchange::NASDAQ => "NASDAQ",
        }
    }

    /// Parses an exchange code, ignoring ASCII case; an unknown code is an
    /// error carrying a short message.
    pub fn from_str(s: &str) -> (r: Result<Exchange, String>)
        ensures
            match r {
                Ok(e) => spec_exchange_of_bytes(s.spec_bytes()) == Some(e),
                Err(_) => spec_exchange_of_bytes(s.spec_bytes()) is None,
            },
    {
        let b = s.as_bytes();
        if b.len() == 2 {
            let c0 = upper_byte(b[0]);
            let c1 = upper_byte(b[1]);
            if c0 == 83 && c1 == 72 {
                return Ok(Exchange::SH);
            }
            if c0 == 83 && c1 == 90 {
                return Ok(Exchange::SZ);
            }
            if c0 == 72 && c1 == 75 {
                return Ok(Exchange::HK);
            }
        } else if b.len() == 6 {
            if upper_byte(b[0]) == 78 && upper_byte(b[1]) == 65 && upper_byte(b[2]) == 83
                && upper_byte(b[3]) == 68 && upper_byte(b[4]) == 65 && upper_byte(b[5]) == 81 {
                return Ok(Exchange::NASDAQ);
            }
        }
        Err("expected an exchange code: SH, SZ, HK or NASDAQ".to_owned())
    }

    /// IANA name of this exchange's time zone; callers resolve it against
    /// a time-zone database.
    pub fn time_zone_name(&self) -> (r: &'static str)
        ensures
            r@ == spec_time_zone_name(*self),
    {
        match self {
            Exchange::SH => "Asia/Chongqing",
            Exchange::SZ => "Asia/Chongqing",
            Exchange::HK => "Asia/Hong_Kong",
            Exchange::NASDAQ => "America/New_York",
        }
    }
}

/// One trading session of an exchange's day, in seconds of the day.
#[derive(Clone, Copy, Debug, PartialEq, Eq, Structural)]
pub struct MarketTime {
    /// When the session opens, in seconds of the day.
    pub start_time: u32,
    /// When the session closes, in seconds of the day.
    pub end_time: u32,
}

/// The market counts as open at `time` for a session table ordered by
/// ascending start: trivially when the table is empty, and otherwise only
/// from the first session's start through the last session's end, inside
/// some session.
pub open spec fn spec_market_open(times: Seq<MarketTime>, time: u32) -> bool {
    ||| times.len() == 0
    ||| {
        &&& times.first().start_time <= time
        &&& time <= times.last().end_time
        &&& exists|i: int|
            0 <= i < times.len() && (#[trigger] times[i]).start_time <= time <= times[i].end_time
    }
}

/// Decides the market status from the session table, ordered by ascending
/// start time, and the time of day: "MarketTrading" when the market is
/// open, "MarketClosed" otherwise.
#[verifier::loop_isolation(false)]
pub fn market_status(market_times: &Vec<MarketTime>, time: u32) -> (r: &'static str)
    ensures
        spec_market_open(market_times@, time) ==> r@ == "MarketTrading"@,
        !spec_market_open(market_times@, time) ==> r@ == "MarketClosed"@,
{
    let len = market_times.len();
    if len == 0 {
        return "MarketTrading";
    }
    if time < market_times[0].start_time {
        return "MarketClosed";
    }
    if time > market_times[len - 1].end_time {
        return "MarketClosed";
    }
    let mut i: usize = 0;
    while i < len
        invariant
            i <= len,
            forall|t: int|
                0 <= t < i ==> !((#[trigger] market_times@[t]).start_time <= time
                    <= market_times@[t].end_time),
        decreases len - i,
    {
        let session = &market_times[i];
        if session.start_time <= time && time <= session.end_time {
            return "MarketTrading";
        }
        i = i + 1;
    }
    "MarketClosed"
}

} // verus!
