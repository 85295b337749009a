//! Short-message records: the raw shape handed over by the device source and
//! the normalized, identifiable form.

use vstd::prelude::*;
use crate::fault::Fault;
use crate::identify::Identifier;
use crate::timeparse::{convert_string_to_timestamp, datetime_seconds, valid_datetime};

verus! {

/// A short message as the device source hands it over, with the receive time
/// still a string.
#[derive(Debug)]
pub struct RawMessage {
    pub threadid: u64,
    pub message_type: String,
    pub read: bool,
    pub number: String,
    pub received: String,
    pub body: String,
}

/// A batch of raw messages, in source order.
#[derive(Debug)]
pub struct RawMessageList(pub Vec<RawMessage>);

/// A normalized short message: receive time as epoch seconds.
#[derive(Debug)]
pub struct Message {
    pub threadid: u64,
    pub read: bool,
    pub number: String,
    pub timestamp: i64,
    pub body: String,
}

/// Whether `msg` is the normalization of the raw record `m`.
pub open spec fn is_normalized_message(m: RawMessage, msg: Message) -> bool {
    &&& msg.threadid == m.threadid
    &&& msg.read == m.read
    &&& msg.number@ == m.number@
    &&& msg.timestamp as int == datetime_seconds(m.received@)
    &&& msg.body@ == m.body@
}

impl Message {
    /// Normalizes one raw message; rejects a malformed receive time.
    pub fn from_raw(m: &RawMessage) -> (r: Result<Message, Fault>)
        ensures
            r is Ok <==> valid_datetime(m.received@),
            r matches Ok(msg) ==> is_normalized_message(*m, msg),
            r is Err ==> r == Result::<Message, Fault>::Err(Fault::Parse),
    {
        match convert_string_to_timestamp(m.received.as_str()) {
            Ok(ts) => Ok(
                Message {
                    threadid: m.threadid,
                    read: m.read,
                    number: m.number.clone(),
                    timestamp: ts,
                    body: m.body.clone(),
                },
            ),
            Err(e) => Err(e),
        }
    }

    pub fn get_number(&self) -> (r: &String)
        ensures
            r@ == self.number@,
    {
        &self.number
    }

    pub fn get_content(&self) -> (r: &String)
        ensures
            r@ == self.body@,
    {
        &self.body
    }
}

impl Identifier for Message {
    open spec fn spec_timestamp(&self) -> int {
        self.timestamp as int
    }

    open spec fn spec_body(&self) -> Seq<char> {
        self.number@ + self.body@
    }

    fn get_timestamp(&self) -> (r: i64) {
        self.timestamp
    }

    fn get_body(&self) -> (r: String) {
        let mut s = self.number.clone();
        s.append(self.body.as_str());
        s
    }
}

impl RawMessageList {
    /// Normalizes a whole batch, dropping and reordering nothing; fails if
    /// any receive time is malformed.
    pub fn convert_to_vec(&self) -> (r: Result<Vec<Message>, Fault>)
        ensures
            r is Ok <==> (forall|i: int|
                0 <= i < self.0@.len() ==> valid_datetime(#[trigger] self.0@[i].received@)),
            r matches Ok(v) ==> {
                &&& v@.len() == self.0@.len()
                &&& forall|i: int|
                    0 <= i < v@.len() ==> is_normalized_message(self.0@[i], #[trigger] v@[i])
            },
            r is Err ==> r == Result::<Vec<Message>, Fault>::Err(Fault::Parse),
    {
        let mut v: Vec<Message> = Vec::new();
        let mut i: usize = 0;
        while i < self.0.len()
            invariant
                i <= self.0@.len(),
                v@.len() == i,
                forall|j: int| 0 <= j < i ==> valid_datetime(#[trigger] self.0@[j].received@),
                forall|j: int| 0 <= j < i ==> is_normalized_message(self.0@[j], #[trigger] v@[j]),
            decreases self.0@.len() - i,
        {
            match Message::from_raw(&self.0[i]) {
                Ok(msg) => {
                    v.push(msg);
                },
                Err(e) => {
                    return Err(e);
                },
            }
            i = i + 1;
        }
        Ok(v)
    }
}

} // verus!
