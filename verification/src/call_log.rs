//! Call-log records: the raw shape handed over by the device source and the
//! normalized, identifiable form. Only missed calls are ever reported.

use vstd::prelude::*;
use crate::fault::Fault;
use crate::identify::Identifier;
use crate::timeparse::{convert_string_to_timestamp, datetime_seconds, valid_datetime};

verus! {

/// A call-log entry as the device source hands it over.
#[derive(Debug)]
pub struct RawCallLog {
    pub name: String,
    pub phone_number: String,
    pub log_type: String,
    pub date: String,
    pub duration: String,
}

/// A batch of raw call-log entries, in source order.
#[derive(Debug)]
pub struct RawCallLogList(pub Vec<RawCallLog>);

/// The recognized call types.
#[derive(Clone, Copy, Debug, PartialEq, Eq, Structural)]
pub enum CallLogType {
    INCOMING,
    OUTGOING,
    REJECTED,
    MISSED,
}

/// Whether a raw type string is one of the recognized call types.
/// Any other string is a programming error on the device side, so parsing
/// demands one of these.
pub open spec fn is_known_call_type(s: Seq<char>) -> bool {
    ||| s == "MISSED"@
    ||| s == "REJECTED"@
    ||| s == "OUTGOING"@
    ||| s == "INCOMING"@
}

/// The call type a recognized type string denotes.
pub open spec fn spec_call_type(s: Seq<char>) -> CallLogType
    recommends
        is_known_call_type(s),
{
    if s == "MISSED"@ {
        CallLogType::MISSED
    } else if s == "REJECTED"@ {
        CallLogType::REJECTED
    } else if s == "OUTGOING"@ {
        CallLogType::OUTGOING
    } else {
        CallLogType::INCOMING
    }
}

impl CallLogType {
    /// Parses a recognized call-type string.
    pub fn parse_type(t: &str) -> (r: CallLogType)
        requires
            is_known_call_type(t@),
        ensures
            r == spec_call_type(t@),
    {
        let s = t.to_owned();
        if s == String::from_str("MISSED") {
            CallLogType::MISSED
        } else if s == String::from_str("REJECTED") {
            CallLogType::REJECTED
        } else if s == String::from_str("OUTGOING") {
            CallLogType::OUTGOING
        } else {
            CallLogType::INCOMING
        }
    }
}

/// A normalized call-log entry: call time as epoch seconds, type decoded.
#[derive(Debug)]
pub struct CallLog {
    pub name: String,
    pub log_type: CallLogType,
    pub timestamp: i64,
    pub phone_number: String,
    pub duration: String,
}

/// Whether `log` is the normalization of the raw entry `l`.
pub open spec fn is_normalized_call_log(l: RawCallLog, log: CallLog) -> bool {
    &&& log.name@ == l.name@
    &&& log.log_type == spec_call_type(l.log_type@)
    &&& log.timestamp as int == datetime_seconds(l.date@)
    &&& log.phone_number@ == l.phone_number@
    &&& log.duration@ == l.duration@
}

impl CallLog {
    /// Normalizes one raw entry; rejects a malformed date.
    pub fn from_raw(l: &RawCallLog) -> (r: Result<CallLog, Fault>)
        requires
            is_known_call_type(l.log_type@),
        ensures
            r is Ok <==> valid_datetime(l.date@),
            r matches Ok(log) ==> is_normalized_call_log(*l, log),
            r is Err ==> r == Result::<CallLog, Fault>::Err(Fault::Parse),
    {
        match convert_string_to_timestamp(l.date.as_str()) {
            Ok(ts) => Ok(
                CallLog {
                    name: l.name.clone(),
                    log_type: CallLogType::parse_type(l.log_type.as_str()),
                    timestamp: ts,
                    phone_number: l.phone_number.clone(),
                    duration: l.duration.clone(),
                },
            ),
            Err(e) => Err(e),
        }
    }

    pub fn get_log_type(&self) -> (r: &CallLogType)
        ensures
            r == self.log_type,
    {
        &self.log_type
    }

    pub fn get_number(&self) -> (r: &String)
        ensures
            r@ == self.phone_number@,
    {
        &self.phone_number
    }
}

impl Identifier for CallLog {
    open spec fn spec_timestamp(&self) -> int {
        self.timestamp as int
    }

    open spec fn spec_body(&self) -> Seq<char> {
        self.phone_number@
    }

    fn get_timestamp(&self) -> (r: i64) {
        self.timestamp
    }

    fn get_body(&self) -> (r: String) {
        self.phone_number.clone()
    }
}

impl RawCallLogList {
    pub fn len(&self) -> (r: usize)
        ensures
            r == self.0@.len(),
    {
        self.0.len()
    }

    /// Normalizes a whole batch, dropping and reordering nothing; fails if
    /// any date is malformed.
    pub fn convert_to_vec(&self) -> (r: Result<Vec<CallLog>, Fault>)
        requires
            forall|i: int|
                0 <= i < self.0@.len() ==> is_known_call_type(#[trigger] self.0@[i].log_type@),
        ensures
            r is Ok <==> (forall|i: int|
                0 <= i < self.0@.len() ==> valid_datetime(#[trigger] self.0@[i].date@)),
            r matches Ok(v) ==> {
                &&& v@.len() == self.0@.len()
                &&& forall|i: int|
                    0 <= i < v@.len() ==> is_normalized_call_log(self.0@[i], #[trigger] v@[i])
            },
            r is Err ==> r == Result::<Vec<CallLog>, Fault>::Err(Fault::Parse),
    {
        let mut v: Vec<CallLog> = Vec::new();
        let mut i: usize = 0;
        while i < self.0.len()
            invariant
                i <= self.0@.len(),
                v@.len() == i,
                forall|j: int|
                    0 <= j < self.0@.len() ==> is_known_call_type(#[trigger] self.0@[j].log_type@),
                forall|j: int| 0 <= j < i ==> valid_datetime(#[trigger] self.0@[j].date@),
                forall|j: int| 0 <= j < i ==> is_normalized_call_log(self.0@[j], #[trigger] v@[j]),
            decreases self.0@.len() - i,
        {
            match CallLog::from_raw(&self.0[i]) {
                Ok(log) => {
                    v.push(log);
                },
                Err(e) => {
                    return Err(e);
                },
            }
            i = i + 1;
        }
        Ok(v)
    }
}

} // verus!
