//! Run configuration: the source directory, the output filename, the start
//! time, and the two durations, built from positional argument text.
//!
//! The two required paths must be present; an explicitly supplied start time
//! must parse against the fixed format `YYYY-MM-DD HH:MM:SS` or construction
//! fails; a duration falls back silently to its default when its text is not
//! a positive decimal number.

use vstd::prelude::*;

use chrono::Datelike;
use chrono::TimeZone;
use chrono::Timelike;

use crate::decimal::Decimal;
use crate::decimal::accepts;
use crate::decimal::frac_digits_of;
use crate::decimal::int_digits_of;
use crate::decimal::parsed_is_zero;
use crate::decimal::sign_len;
use crate::decimal::strip_leading_zeros;
use crate::decimal::strip_trailing_zeros;
use crate::digits::dec_digits;
use crate::digits::lemma_dec_digits_shape;
use crate::schedule::StartTime;

verus! {

/// A failure to build the configuration from the supplied arguments.
#[derive(Clone, Copy, Debug, PartialEq, Eq, Structural)]
pub enum ConfigError {
    /// The source folder path was not supplied.
    MissingSourcePath,
    /// The output filename was not supplied.
    MissingOutputFilename,
    /// A start time was supplied but did not parse against the fixed format.
    StartTimeParse,
}

impl ConfigError {
    /// A human-readable description of the failure.
    pub fn message(&self) -> (r: &'static str)
        ensures
            self is MissingSourcePath ==> r@ == "Didn't get path to source folder"@,
            self is MissingOutputFilename ==> r@ == "Didn't get the name of output file"@,
            self is StartTimeParse ==> r@ == "Failed to parse provided start time"@,
    {
        match self {
            ConfigError::MissingSourcePath => "Didn't get path to source folder",
            ConfigError::MissingOutputFilename => "Didn't get the name of output file",
            ConfigError::StartTimeParse => "Failed to parse provided start time",
        }
    }
}

/// The immutable run parameters.
#[derive(Debug)]
pub struct Config {
    /// The directory to scan for wallpapers.
    pub source_path: String,
    /// Where the rendered document is written.
    pub output_filename: String,
    /// When the slideshow starts.
    pub starttime: StartTime,
    /// Seconds each file is shown; positive.
    pub duration: Decimal,
    /// Seconds each transition takes; positive.
    pub trans_duration: Decimal,
}

/// The texts of an optional argument, for speaking about it in contracts.
pub open spec fn text_of(o: Option<&String>) -> Option<Seq<char>> {
    match o {
        Some(s) => Some(s@),
        None => None,
    }
}

/// How a duration field relates to its optional argument text: the parsed
/// canonical decimal when the text is a positive decimal number, and the
/// whole-number default otherwise.
pub open spec fn duration_matches(d: Decimal, text: Option<Seq<char>>, default_value: int) -> bool {
    match text {
        Some(t) => {
            if accepts(t) && sign_len(t) == 0 && !parsed_is_zero(t) {
                &&& d.int_part@ == strip_leading_zeros(int_digits_of(t))
                &&& d.frac_part@ == strip_trailing_zeros(frac_digits_of(t))
                &&& !d.negative
            } else {
                d.int_part@ == dec_digits(default_value) && d.frac_part@.len() == 0 && !d.negative
            }
        },
        None => d.int_part@ == dec_digits(default_value) && d.frac_part@.len() == 0 && !d.negative,
    }
}

/// The duration for an optional argument text: its value when it is a
/// positive decimal number, the default otherwise.
fn duration_or_default(text: Option<&String>, default_value: u64) -> (d: Decimal)
    requires
        default_value >= 1,
    ensures
        d.wf(),
        d.spec_positive(),
        duration_matches(d, text_of(text), default_value as int),
{
    proof {
        lemma_dec_digits_shape(default_value as int);
    }
    match text {
        Some(s) => {
            match Decimal::parse(s.as_str()) {
                Some(p) => {
                    if p.is_positive() {
                        p
                    } else {
                        Decimal::from_u64(default_value)
                    }
                },
                None => Decimal::from_u64(default_value),
            }
        },
        None => Decimal::from_u64(default_value),
    }
}

impl Config {
    /// The timing fields are well-formed and both durations positive.
    pub open spec fn wf(&self) -> bool {
        &&& self.starttime.wf()
        &&& self.duration.wf()
        &&& self.duration.spec_positive()
        &&& self.trans_duration.wf()
        &&& self.trans_duration.spec_positive()
    }

    /// Assembles a configuration from already-separated parts: the paths and
    /// the start time verbatim, each duration from its optional text with
    /// silent fallback to the defaults of 300 and 60 seconds.
    pub fn from_parts(
        source_path: String,
        output_filename: String,
        starttime: StartTime,
        duration_text: Option<&String>,
        trans_duration_text: Option<&String>,
    ) -> (c: Config)
        requires
            starttime.wf(),
        ensures
            c.wf(),
            c.source_path == source_path,
            c.output_filename == output_filename,
            c.starttime == starttime,
            duration_matches(c.duration, text_of(duration_text), 300),
            duration_matches(c.trans_duration, text_of(trans_duration_text), 60),
    {
        let duration = duration_or_default(duration_text, 300);
        let trans_duration = duration_or_default(trans_duration_text, 60);
        Config { source_path, output_filename, starttime, duration, trans_duration }
    }

    /// Builds the configuration from the positional arguments: source path,
    /// output filename, then optionally a start time, a static duration and
    /// a transition duration. Fails when a required path is absent or a
    /// supplied start time does not parse; an absent start time defaults to
    /// the current local time.
    pub fn new(args: Vec<String>) -> (r: Result<Config, ConfigError>)
        ensures
            args@.len() == 0 ==> r == Err::<Config, ConfigError>(ConfigError::MissingSourcePath),
            args@.len() == 1 ==> r == Err::<Config, ConfigError>(
                ConfigError::MissingOutputFilename,
            ),
            r matches Ok(c) ==> {
                &&& args@.len() >= 2
                &&& c.wf()
                &&& c.source_path@ == args@[0]@
                &&& c.output_filename@ == args@[1]@
                &&& duration_matches(
                    c.duration,
                    (if args@.len() > 3 {
                        Some(args@[3]@)
                    } else {
                        None
                    }),
                    300,
                )
                &&& duration_matches(
                    c.trans_duration,
                    (if args@.len() > 4 {
                        Some(args@[4]@)
                    } else {
                        None
                    }),
                    60,
                )
            },
            r is Err && args@.len() >= 2 ==> args@.len() >= 3 && r == Err::<Config, ConfigError>(
                ConfigError::StartTimeParse,
            ),
    {
        if args.len() == 0 {
            return Err(ConfigError::MissingSourcePath);
        }
        if args.len() == 1 {
            return Err(ConfigError::MissingOutputFilename);
        }
        let source_path = args[0].clone();
        let output_filename = args[1].clone();
        let starttime: StartTime;
        if args.len() > 2 {
            match parse_start_time(args[2].as_str()) {
                Some(t) => {
                    starttime = t;
                },
                None => {
                    return Err(ConfigError::StartTimeParse);
                },
            }
        } else {
            starttime = now_local();
        }
        let duration_text = if args.len() > 3 {
            Some(&args[3])
        } else {
            None
        };
        let trans_duration_text = if args.len() > 4 {
            Some(&args[4])
        } else {
            None
        };
        Ok(
            Config::from_parts(
                source_path,
                output_filename,
                starttime,
                duration_text,
                trans_duration_text,
            ),
        )
    }
}

/// Relies on chrono's `Local::now` and its `Datelike` / `Timelike`
/// accessors, which document month in 1..=12, day in 1..=31, hour below 24,
/// and minute and second below 60. The result is the machine's current local
/// time, so nothing more is assumed of it.
#[verifier::external_body]
fn now_local() -> (t: StartTime)
    ensures
        t.wf(),
{
    let n = chrono::Local::now();
    StartTime {
        year: n.year(),
        month: n.month(),
        day: n.day(),
        hour: n.hour(),
        minute: n.minute(),
        second: n.second(),
    }
}

/// Relies on chrono's `TimeZone::datetime_from_str` on `Local` with the
/// fixed format `%Y-%m-%d %H:%M:%S`: a successful parse yields a valid
/// date-time, whose accessors document month in 1..=12, day in 1..=31, hour
/// below 24, and minute and second below 60. Whether a text maps to a local
/// time depends on the machine's time zone, so nothing more is assumed.
#[allow(deprecated)]
#[verifier::external_body]
fn parse_start_time(s: &str) -> (r: Option<StartTime>)
    ensures
        r matches Some(t) ==> t.wf(),
{
    match chrono::Local.datetime_from_str(s, "%Y-%m-%d %H:%M:%S") {
        Ok(d) => Some(
            StartTime {
                year: d.year(),
                month: d.month(),
                day: d.day(),
                hour: d.hour(),
                minute: d.minute(),
                second: d.second(),
            },
        ),
        Err(_) => None,
    }
}

} // verus!
