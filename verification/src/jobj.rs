//! A value together with the code of its kind, as a host language sees it.
use crate::j::kind_name;
use crate::j::scalar_series;
use crate::j::J;
use crate::series::Series;
use crate::text::same_text;
use chrono::TimeZone;
use vstd::prelude::*;
use vstd::string::StringExecFns;

verus! {

/// The kinds of values, in the order of their codes.
#[derive(Clone, Copy, Debug, PartialEq, Eq, Structural)]
pub enum JType {
    Null,
    Boolean,
    I64,
    Date,
    Time,
    Datetime,
    Timestamp,
    Duration,
    F64,
    String,
    Cat,
    Series,
    Matrix,
    List,
    Dict,
    DataFrame,
    Error,
}

impl JType {
    /// The code of the kind: its position among the kinds, from 0.
    pub open spec fn spec_code(self) -> u8 {
        match self {
            JType::Null => 0,
            JType::Boolean => 1,
            JType::I64 => 2,
            JType::Date => 3,
            JType::Time => 4,
            JType::Datetime => 5,
            JType::Timestamp => 6,
            JType::Duration => 7,
            JType::F64 => 8,
            JType::String => 9,
            JType::Cat => 10,
            JType::Series => 11,
            JType::Matrix => 12,
            JType::List => 13,
            JType::Dict => 14,
            JType::DataFrame => 15,
            JType::Error => 16,
        }
    }

    /// The code of the kind.
    pub fn code(self) -> (r: u8)
        ensures
            r == self.spec_code(),
    {
        match self {
            JType::Null => 0,
            JType::Boolean => 1,
            JType::I64 => 2,
            JType::Date => 3,
            JType::Time => 4,
            JType::Datetime => 5,
            JType::Timestamp => 6,
            JType::Duration => 7,
            JType::F64 => 8,
            JType::String => 9,
            JType::Cat => 10,
            JType::Series => 11,
            JType::Matrix => 12,
            JType::List => 13,
            JType::Dict => 14,
            JType::DataFrame => 15,
            JType::Error => 16,
        }
    }
}

/// The kind of a value.
pub open spec fn kind_of(j: J) -> JType {
    match j {
        J::Null => JType::Null,
        J::Boolean(_) => JType::Boolean,
        J::I64(_) => JType::I64,
        J::Date(_) => JType::Date,
        J::Time(_) => JType::Time,
        J::Datetime { .. } => JType::Datetime,
        J::Timestamp { .. } => JType::Timestamp,
        J::Duration(_) => JType::Duration,
        J::F64(_) => JType::F64,
        J::String(_) => JType::String,
        J::Cat(_) => JType::Cat,
        J::Series(_) => JType::Series,
        J::Matrix(_) => JType::Matrix,
        J::MixedList(_) => JType::List,
        J::Dict(_) => JType::Dict,
        J::DataFrame(_) => JType::DataFrame,
        J::Error(_) => JType::Error,
    }
}

/// Whether the zone database knows a zone of this name.
pub uninterp spec fn zone_known(name: Seq<char>) -> bool;

/// The text that shows an instant in a zone: its date, its time of day and
/// the zone's abbreviation or offset. `nanos` tells whether `at` counts
/// nanoseconds since the epoch, else milliseconds. `None` where the zone is
/// not known or the instant is out of the calendar's range.
pub uninterp spec fn instant_text(nanos: bool, at: i64, zone: Seq<char>) -> Option<Seq<char>>;

/// `str::parse::<chrono_tz::Tz>`: whether the name is that of a zone. The
/// result is named, not stated.
#[verifier::external_body]
fn known_zone(name: &str) -> (r: bool)
    ensures
        r == zone_known(name@),
{
    name.parse::<chrono_tz::Tz>().is_ok()
}

/// `chrono::DateTime::from_timestamp_millis`, `DateTime::with_timezone` into
/// the zone of this name, and `to_string`. The result is named, not stated;
/// a zone that is not known gives none.
#[verifier::external_body]
fn millis_text(at: i64, zone: &str) -> (r: Option<String>)
    ensures
        match r {
            Some(s) => instant_text(false, at, zone@) == Some(s@),
            None => instant_text(false, at, zone@) is None,
        },
        !zone_known(zone@) ==> r is None,
{
    match (zone.parse::<chrono_tz::Tz>(), chrono::DateTime::from_timestamp_millis(at)) {
        (Ok(tz), Some(utc)) => Some(utc.with_timezone(&tz).to_string()),
        _ => None,
    }
}

/// `chrono::DateTime::from_timestamp_nanos`, `DateTime::with_timezone` into
/// the zone of this name, and `to_string`. The result is named, not stated;
/// a zone that is not known gives none.
#[verifier::external_body]
fn nanos_text(at: i64, zone: &str) -> (r: Option<String>)
    ensures
        match r {
            Some(s) => instant_text(true, at, zone@) == Some(s@),
            None => instant_text(true, at, zone@) is None,
        },
        !zone_known(zone@) ==> r is None,
{
    match zone.parse::<chrono_tz::Tz>() {
        Ok(tz) => Some(chrono::DateTime::from_timestamp_nanos(at).with_timezone(&tz).to_string()),
        Err(_) => None,
    }
}

/// A value with the code of its kind.
#[derive(Debug)]
pub struct JObj {
    j: J,
    j_type: u8,
}

/// The message about a value that is no instant.
pub open spec fn not_temporal(what: Seq<char>, j: J) -> Seq<char> {
    what + " only available for 'datetime' and 'timestamp', got "@ + kind_name(j)
}

impl JObj {
    /// The value.
    pub closed spec fn value(&self) -> J {
        self.j
    }

    /// The code of the kind.
    pub closed spec fn kind_code(&self) -> u8 {
        self.j_type
    }

    /// The code is that of the value's kind.
    pub open spec fn wf(&self) -> bool {
        self.kind_code() == kind_of(self.value()).spec_code()
    }

    /// The value with the code of its kind.
    pub fn new(j: J) -> (r: JObj)
        ensures
            r.value() == j,
            r.wf(),
    {
        let j_type = match &j {
            J::Null => JType::Null,
            J::Boolean(_) => JType::Boolean,
            J::I64(_) => JType::I64,
            J::Date(_) => JType::Date,
            J::Time(_) => JType::Time,
            J::Datetime { .. } => JType::Datetime,
            J::Timestamp { .. } => JType::Timestamp,
            J::Duration(_) => JType::Duration,
            J::F64(_) => JType::F64,
            J::String(_) => JType::String,
            J::Cat(_) => JType::Cat,
            J::Series(_) => JType::Series,
            J::Matrix(_) => JType::Matrix,
            J::MixedList(_) => JType::List,
            J::Dict(_) => JType::Dict,
            J::DataFrame(_) => JType::DataFrame,
            J::Error(_) => JType::Error,
        };
        JObj { j, j_type: j_type.code() }
    }

    /// An instant in a zone: milliseconds since the epoch where `unit` is
    /// `ms`, else nanoseconds.
    pub fn new_temporal(num: i64, timezone: &str, unit: &str) -> (r: JObj)
        ensures
            r.wf(),
            unit@ == "ms"@ ==> (r.value() matches J::Datetime { ms, timezone: z } && ms == num && z@
                == timezone@),
            unit@ != "ms"@ ==> (r.value() matches J::Timestamp { ns, timezone: z } && ns == num
                && z@ == timezone@),
    {
        if same_text(unit, "ms") {
            JObj {
                j: J::Datetime { ms: num, timezone: timezone.to_owned() },
                j_type: JType::Datetime.code(),
            }
        } else {
            JObj {
                j: J::Timestamp { ns: num, timezone: timezone.to_owned() },
                j_type: JType::Timestamp.code(),
            }
        }
    }

    /// The value.
    pub fn j(&self) -> (r: &J)
        ensures
            *r == self.value(),
    {
        &self.j
    }

    /// The code of the kind.
    pub fn j_type(&self) -> (r: u8)
        ensures
            r == self.kind_code(),
    {
        self.j_type
    }

    /// The column of length 1 that a scalar value makes.
    pub fn as_series(&self) -> (r: Result<Series, String>)
        ensures
            match scalar_series(self.value()) {
                Some(v) => r is Ok && r->Ok_0@ == v,
                None => r is Err && r->Err_0@ == "cannot turn into a series"@,
            },
    {
        self.j.into_series()
    }

    /// The zone of an instant.
    pub fn tz(&self) -> (r: Result<&str, String>)
        ensures
            match self.value() {
                J::Datetime { ms: _, timezone } => r is Ok && r->Ok_0@ == timezone@,
                J::Timestamp { ns: _, timezone } => r is Ok && r->Ok_0@ == timezone@,
                _ => r is Err && r->Err_0@ == not_temporal("timezone"@, self.value()),
            },
    {
        match &self.j {
            J::Datetime { ms: _, timezone } => Ok(timezone.as_str()),
            J::Timestamp { ns: _, timezone } => Ok(timezone.as_str()),
            _ => Err(
                "timezone".to_owned().concat(
                    " only available for 'datetime' and 'timestamp', got ",
                ).concat(self.j.get_type_name().as_str()),
            ),
        }
    }

    /// The text that shows an instant in its zone.
    pub fn format_temporal(&self) -> (r: Result<String, String>)
        ensures
            match self.value() {
                J::Datetime { ms, timezone } => match instant_text(false, ms, timezone@) {
                    Some(s) => r is Ok && r->Ok_0@ == s,
                    None => r is Err && r->Err_0@ == "no such instant or zone"@,
                },
                J::Timestamp { ns, timezone } => match instant_text(true, ns, timezone@) {
                    Some(s) => r is Ok && r->Ok_0@ == s,
                    None => r is Err && r->Err_0@ == "no such instant or zone"@,
                },
                _ => r is Err && r->Err_0@ == not_temporal("format temporal"@, self.value()),
            },
    {
        match &self.j {
            J::Datetime { ms, timezone } => temporal_text(millis_text(*ms, timezone.as_str())),
            J::Timestamp { ns, timezone } => temporal_text(nanos_text(*ns, timezone.as_str())),
            _ => Err(
                "format temporal".to_owned().concat(
                    " only available for 'datetime' and 'timestamp', got ",
                ).concat(self.j.get_type_name().as_str()),
            ),
        }
    }

    /// The same instant in the zone `timezone`, which the zone database must
    /// know.
    pub fn with_timezone(&self, timezone: &str) -> (r: Result<JObj, String>)
        requires
            zone_known(timezone@),
        ensures
            match self.value() {
                J::Datetime { ms, timezone: _ } => r is Ok && r->Ok_0.kind_code() == self.kind_code()
                    && (r->Ok_0.value() matches J::Datetime { ms: m, timezone: z } && m == ms && z@
                    == timezone@),
                J::Timestamp { ns, timezone: _ } => r is Ok && r->Ok_0.kind_code()
                    == self.kind_code() && (r->Ok_0.value() matches J::Timestamp {
                    ns: n,
                    timezone: z,
                } && n == ns && z@ == timezone@),
                _ => r is Err && r->Err_0@ == not_temporal("with timezone"@, self.value()),
            },
    {
        match &self.j {
            J::Datetime { ms, timezone: _ } => Ok(
                JObj { j: J::Datetime { ms: *ms, timezone: timezone.to_owned() }, j_type: self.j_type },
            ),
            J::Timestamp { ns, timezone: _ } => Ok(
                JObj {
                    j: J::Timestamp { ns: *ns, timezone: timezone.to_owned() },
                    j_type: self.j_type,
                },
            ),
            _ => Err(
                "with timezone".to_owned().concat(
                    " only available for 'datetime' and 'timestamp', got ",
                ).concat(self.j.get_type_name().as_str()),
            ),
        }
    }

    /// The same instant in the zone `timezone`; a zone that the zone database
    /// does not know is refused.
    pub fn in_timezone(&self, timezone: &str) -> (r: Result<JObj, String>)
        ensures
            !zone_known(timezone@) ==> r is Err && r->Err_0@ == "unknown time zone: "@ + timezone@,
            zone_known(timezone@) ==> match self.value() {
                J::Datetime { ms, timezone: _ } => r is Ok && r->Ok_0.kind_code() == self.kind_code()
                    && (r->Ok_0.value() matches J::Datetime { ms: m, timezone: z } && m == ms && z@
                    == timezone@),
                J::Timestamp { ns, timezone: _ } => r is Ok && r->Ok_0.kind_code()
                    == self.kind_code() && (r->Ok_0.value() matches J::Timestamp {
                    ns: n,
                    timezone: z,
                } && n == ns && z@ == timezone@),
                _ => r is Err && r->Err_0@ == not_temporal("with timezone"@, self.value()),
            },
    {
        if known_zone(timezone) {
            self.with_timezone(timezone)
        } else {
            Err("unknown time zone: ".to_owned().concat(timezone))
        }
    }
}

/// The text of an instant, given what the calendar made of it.
pub fn temporal_text(text: Option<String>) -> (r: Result<String, String>)
    ensures
        match text {
            Some(s) => r == Ok::<String, String>(s),
            None => r is Err && r->Err_0@ == "no such instant or zone"@,
        },
{
    match text {
        Some(s) => Ok(s),
        None => Err("no such instant or zone".to_owned()),
    }
}

} // verus!
