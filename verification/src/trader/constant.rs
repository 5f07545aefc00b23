//! The closed enumerations of the trading platform.

use crate::error::ErrorKind;
use crate::text::same_text;
use vstd::prelude::*;
use vstd::string::StringExecFns;

verus! {

/// Direction of an order, a trade or a position.
#[derive(Debug, Clone, Copy, PartialEq, Eq, Structural)]
pub enum Direction {
    LONG,
    SHORT,
    NET,
}

/// Intent of an order. The engine passes it through to the trade untouched.
#[derive(Debug, Clone, Copy, PartialEq, Eq, Structural)]
pub enum Offset_ {
    NONE,
    OPEN,
    CLOSE,
    CLOSETODAY,
    CLOSEYESTERDAY,
}

/// Status of a limit order.
#[derive(Debug, Clone, Copy, PartialEq, Eq, Hash, Structural)]
pub enum Status {
    SUBMITTING,
    NOTTRADED,
    PARTTRADED,
    ALLTRADED,
    CANCELLED,
    REJECTED,
}

/// Kind of an instrument.
#[derive(Debug, Clone, Copy, PartialEq, Eq, Structural)]
pub enum Product {
    EQUITY,
    FUTURES,
    OPTION,
    INDEX,
    FOREX,
    SPOT,
    ETF,
    BOND,
    WARRANT,
    SPREAD,
    FUND,
    CFD,
    SWAP,
}

/// Type of an order.
#[derive(Debug, Clone, Copy, PartialEq, Eq, Structural)]
pub enum OrderType {
    LIMIT,
    MARKET,
    STOP,
    FAK,
    FOK,
    RFQ,
}

/// Type of an option.
#[derive(Debug, Clone, Copy, PartialEq, Eq, Structural)]
pub enum OptionType {
    CALL,
    PUT,
}

/// Currency of an account.
#[derive(Debug, Clone, Copy, PartialEq, Eq, Structural)]
pub enum Currency {
    USD,
    HKD,
    CNY,
    CAD,
}

/// Length of a bar.
#[derive(Debug, Clone, Copy, PartialEq, Eq, Hash, Structural)]
pub enum Interval {
    MINUTE,
    HOUR,
    DAILY,
    WEEKLY,
    TICK,
}

/// The interval that a text names, if it names one.
pub open spec fn interval_named(s: Seq<char>) -> Option<Interval> {
    if s == "1m"@ {
        Some(Interval::MINUTE)
    } else if s == "1h"@ {
        Some(Interval::HOUR)
    } else if s == "d"@ {
        Some(Interval::DAILY)
    } else if s == "w"@ {
        Some(Interval::WEEKLY)
    } else if s == "tick"@ {
        Some(Interval::TICK)
    } else {
        None
    }
}

impl Direction {
    /// The label of the value.
    pub open spec fn text(self) -> Seq<char> {
        match self {
            Direction::LONG => "LONG"@,
            Direction::SHORT => "SHORT"@,
            Direction::NET => "NET"@,
        }
    }

    /// The name of the direction.
    pub fn to_string(&self) -> (r: String)
        ensures
            r@ == self.text(),
    {
        match self {
            Direction::LONG => String::from_str("LONG"),
            Direction::SHORT => String::from_str("SHORT"),
            Direction::NET => String::from_str("NET"),
        }
    }

    /// `+1` for a long, `-1` for a short, `0` for a net direction.
    pub open spec fn sign(self) -> int {
        match self {
            Direction::LONG => 1,
            Direction::SHORT => -1,
            Direction::NET => 0,
        }
    }
}

impl Offset_ {
    /// The label of the value.
    pub open spec fn text(self) -> Seq<char> {
        match self {
            Offset_::NONE => ""@,
            Offset_::OPEN => "开"@,
            Offset_::CLOSE => "平"@,
            Offset_::CLOSETODAY => "平今"@,
            Offset_::CLOSEYESTERDAY => "平昨"@,
        }
    }

    /// The label of the offset.
    pub fn to_string(&self) -> (r: String)
        ensures
            r@ == self.text(),
    {
        match self {
            Offset_::NONE => String::from_str(""),
            Offset_::OPEN => String::from_str("开"),
            Offset_::CLOSE => String::from_str("平"),
            Offset_::CLOSETODAY => String::from_str("平今"),
            Offset_::CLOSEYESTERDAY => String::from_str("平昨"),
        }
    }
}

impl Status {
    /// The label of the value.
    pub open spec fn text(self) -> Seq<char> {
        match self {
            Status::SUBMITTING => "提交中"@,
            Status::NOTTRADED => "未成交"@,
            Status::PARTTRADED => "部分成交"@,
            Status::ALLTRADED => "全部成交"@,
            Status::CANCELLED => "已撤销"@,
            Status::REJECTED => "拒单"@,
        }
    }

    /// The label of the status.
    pub fn to_string(&self) -> (r: String)
        ensures
            r@ == self.text(),
    {
        match self {
            Status::SUBMITTING => String::from_str("提交中"),
            Status::NOTTRADED => String::from_str("未成交"),
            Status::PARTTRADED => String::from_str("部分成交"),
            Status::ALLTRADED => String::from_str("全部成交"),
            Status::CANCELLED => String::from_str("已撤销"),
            Status::REJECTED => String::from_str("拒单"),
        }
    }

    /// An order in one of these states still rests in the book.
    pub open spec fn active(self) -> bool {
        self == Status::SUBMITTING || self == Status::NOTTRADED || self == Status::PARTTRADED
    }

    /// Whether an order in this state still rests in the book.
    pub fn is_active(&self) -> (r: bool)
        ensures
            r == self.active(),
    {
        match self {
            Status::SUBMITTING => true,
            Status::NOTTRADED => true,
            Status::PARTTRADED => true,
            _ => false,
        }
    }
}

impl OrderType {
    /// The label of the value.
    pub open spec fn text(self) -> Seq<char> {
        match self {
            OrderType::LIMIT => "限价"@,
            OrderType::MARKET => "市价"@,
            OrderType::STOP => "STOP"@,
            OrderType::FAK => "FAK"@,
            OrderType::FOK => "FOK"@,
            OrderType::RFQ => "询价"@,
        }
    }

    /// The label of the order type.
    pub fn to_string(&self) -> (r: String)
        ensures
            r@ == self.text(),
    {
        match self {
            OrderType::LIMIT => String::from_str("限价"),
            OrderType::MARKET => String::from_str("市价"),
            OrderType::STOP => String::from_str("STOP"),
            OrderType::FAK => String::from_str("FAK"),
            OrderType::FOK => String::from_str("FOK"),
            OrderType::RFQ => String::from_str("询价"),
        }
    }
}

impl Interval {
    /// The label of the value.
    pub open spec fn text(self) -> Seq<char> {
        match self {
            Interval::MINUTE => "1m"@,
            Interval::HOUR => "1h"@,
            Interval::DAILY => "d"@,
            Interval::WEEKLY => "w"@,
            Interval::TICK => "tick"@,
        }
    }

    /// The label of the interval.
    pub fn to_string(&self) -> (r: String)
        ensures
            r@ == self.text(),
    {
        match self {
            Interval::MINUTE => String::from_str("1m"),
            Interval::HOUR => String::from_str("1h"),
            Interval::DAILY => String::from_str("d"),
            Interval::WEEKLY => String::from_str("w"),
            Interval::TICK => String::from_str("tick"),
        }
    }

    /// Reads an interval from its label. Any other text is a configuration
    /// error.
    pub fn from_str(s: &str) -> (r: Result<Interval, ErrorKind>)
        ensures
            r == match interval_named(s@) {
                Some(i) => Ok::<Interval, ErrorKind>(i),
                None => Err::<Interval, ErrorKind>(ErrorKind::Config),
            },
    {
        if same_text(s, "1m") {
            Ok(Interval::MINUTE)
        } else if same_text(s, "1h") {
            Ok(Interval::HOUR)
        } else if same_text(s, "d") {
            Ok(Interval::DAILY)
        } else if same_text(s, "w") {
            Ok(Interval::WEEKLY)
        } else if same_text(s, "tick") {
            Ok(Interval::TICK)
        } else {
            Err(ErrorKind::Config)
        }
    }
}

} // verus!
