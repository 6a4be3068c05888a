use vstd::prelude::*;
use crate::decimal::parse_unsigned;
use crate::decimal::parse_unsigned_str;
use crate::text::same_text;

verus! {

/// Granularity of the requested records.
#[derive(Clone, Copy, Debug, PartialEq, Eq, Structural)]
pub enum Timeframe {
    Hour,
    Day,
    Month,
}

impl Timeframe {
    /// The number by which the server knows this timeframe.
    pub open spec fn spec_code(self) -> nat {
        match self {
            Timeframe::Hour => 1,
            Timeframe::Day => 2,
            Timeframe::Month => 3,
        }
    }

    pub fn code(self) -> (r: u8)
        ensures
            r as nat == self.spec_code(),
    {
        match self {
            Timeframe::Hour => 1,
            Timeframe::Day => 2,
            Timeframe::Month => 3,
        }
    }
}

/// The timeframe that a keyword names: `hour`, `day` or `month`.
pub open spec fn timeframe_named(s: Seq<char>) -> Option<Timeframe> {
    if s == "hour"@ {
        Some(Timeframe::Hour)
    } else if s == "day"@ {
        Some(Timeframe::Day)
    } else if s == "month"@ {
        Some(Timeframe::Month)
    } else {
        None
    }
}

/// Reads a timeframe keyword; any other text is refused.
pub fn parse_timeframe(s: &str) -> (r: Option<Timeframe>)
    ensures
        r == timeframe_named(s@),
{
    if same_text(s, "hour") {
        Some(Timeframe::Hour)
    } else if same_text(s, "day") {
        Some(Timeframe::Day)
    } else if same_text(s, "month") {
        Some(Timeframe::Month)
    } else {
        None
    }
}

/// Why a configuration was refused, naming the offending option.
#[derive(Clone, Copy, Debug, PartialEq, Eq, Structural)]
pub enum ConfigError {
    BadTimeframe,
    BadStartYear,
    BadEndYear,
    YearsOutOfOrder,
    EmptyStation,
    BadConnectTimeout,
    BadReceiveTimeout,
}

pub open spec fn max_year() -> nat {
    0xffff
}

pub open spec fn max_timeout() -> nat {
    0xffff_ffff_ffff_ffff
}

/// The first check, in order, that the given option texts fail, if any.
pub open spec fn config_error(
    start_year: Seq<char>,
    end_year: Seq<char>,
    station: Seq<char>,
    timeframe: Seq<char>,
    connect_timeout: Seq<char>,
    receive_timeout: Seq<char>,
) -> Option<ConfigError> {
    if timeframe_named(timeframe) is None {
        Some(ConfigError::BadTimeframe)
    } else if parse_unsigned(start_year, max_year()) is None {
        Some(ConfigError::BadStartYear)
    } else if parse_unsigned(end_year, max_year()) is None {
        Some(ConfigError::BadEndYear)
    } else if parse_unsigned(start_year, max_year())->0 > parse_unsigned(end_year, max_year())->0 {
        Some(ConfigError::YearsOutOfOrder)
    } else if station.len() == 0 {
        Some(ConfigError::EmptyStation)
    } else if parse_unsigned(connect_timeout, max_timeout()) is None {
        Some(ConfigError::BadConnectTimeout)
    } else if parse_unsigned(receive_timeout, max_timeout()) is None {
        Some(ConfigError::BadReceiveTimeout)
    } else {
        None
    }
}

/// A validated configuration for one run; built once, never changed.
pub struct RunConfig {
    pub station: String,
    pub start_year: u16,
    pub end_year: u16,
    pub timeframe: Timeframe,
    pub directory: String,
    pub connect_timeout_ms: u64,
    /// Accepted and kept, but requests apply the connect timeout only.
    pub receive_timeout_ms: u64,
}

impl RunConfig {
    pub open spec fn wf(&self) -> bool {
        self.start_year <= self.end_year && self.station@.len() > 0
    }

    /// Validates the option texts and builds the configuration from them.
    pub fn from_args(
        start_year: &str,
        end_year: &str,
        station: &str,
        timeframe: &str,
        directory: &str,
        connect_timeout: &str,
        receive_timeout: &str,
    ) -> (r: Result<RunConfig, ConfigError>)
        ensures
            match r {
                Ok(c) => {
                    &&& config_error(
                        start_year@,
                        end_year@,
                        station@,
                        timeframe@,
                        connect_timeout@,
                        receive_timeout@,
                    ) is None
                    &&& c.wf()
                    &&& c.station@ == station@
                    &&& c.directory@ == directory@
                    &&& Some(c.timeframe) == timeframe_named(timeframe@)
                    &&& parse_unsigned(start_year@, max_year()) == Some(c.start_year as nat)
                    &&& parse_unsigned(end_year@, max_year()) == Some(c.end_year as nat)
                    &&& parse_unsigned(connect_timeout@, max_timeout()) == Some(
                        c.connect_timeout_ms as nat,
                    )
                    &&& parse_unsigned(receive_timeout@, max_timeout()) == Some(
                        c.receive_timeout_ms as nat,
                    )
                },
                Err(e) => config_error(
                    start_year@,
                    end_year@,
                    station@,
                    timeframe@,
                    connect_timeout@,
                    receive_timeout@,
                ) == Some(e),
            },
    {
        let tf = match parse_timeframe(timeframe) {
            Some(t) => t,
            None => {
                return Err(ConfigError::BadTimeframe);
            },
        };
        let start = match parse_unsigned_str(start_year, 0xffff) {
            Some(v) => v as u16,
            None => {
                return Err(ConfigError::BadStartYear);
            },
        };
        let end = match parse_unsigned_str(end_year, 0xffff) {
            Some(v) => v as u16,
            None => {
                return Err(ConfigError::BadEndYear);
            },
        };
        if start > end {
            return Err(ConfigError::YearsOutOfOrder);
        }
        if station.unicode_len() == 0 {
            return Err(ConfigError::EmptyStation);
        }
        let connect = match parse_unsigned_str(connect_timeout, 0xffff_ffff_ffff_ffff) {
            Some(v) => v,
            None => {
                return Err(ConfigError::BadConnectTimeout);
            },
        };
        let receive = match parse_unsigned_str(receive_timeout, 0xffff_ffff_ffff_ffff) {
            Some(v) => v,
            None => {
                return Err(ConfigError::BadReceiveTimeout);
            },
        };
        Ok(
            RunConfig {
                station: station.to_string(),
                start_year: start,
                end_year: end,
                timeframe: tf,
                directory: directory.to_string(),
                connect_timeout_ms: connect,
                receive_timeout_ms: receive,
            },
        )
    }
}

/// Any timeframe keyword other than `hour`, `day` or `month` refuses the
/// whole configuration, so no run can start from it.
pub proof fn lemma_unknown_timeframe_refused(
    start_year: Seq<char>,
    end_year: Seq<char>,
    station: Seq<char>,
    timeframe: Seq<char>,
    connect_timeout: Seq<char>,
    receive_timeout: Seq<char>,
)
    requires
        timeframe != "hour"@,
        timeframe != "day"@,
        timeframe != "month"@,
    ensures
        config_error(start_year, end_year, station, timeframe, connect_timeout, receive_timeout)
            == Some(ConfigError::BadTimeframe),
{
}

} // verus!
