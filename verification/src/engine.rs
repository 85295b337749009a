//! The poll-cycle engine: the decisions of one polling iteration.
//!
//! Each cycle diffs the battery and SIM readings, then walks the fetched
//! message and call-log batches in source order: an event whose identifier is
//! not yet in the dedup store is turned into a notification and recorded.
//! The first run instead seeds the store from the backlog without emitting
//! anything.

use vstd::prelude::*;
use crate::battery::{spec_battery_step, battery_step, BatteryStatus, CurrentStatus};
use crate::call_log::{CallLog, CallLogType};
use crate::device_info::{sim_note, sim_step, SIMState};
use crate::fault::Fault;
use crate::identify::{identifier_of, Identifier};
use crate::sms::Message;
use crate::store::{Category, DedupStore, SCHEMA_VERSION};

verus! {

/// The dedup identifier of a message.
pub open spec fn message_id(m: Message) -> Seq<char> {
    identifier_of(m.timestamp as int, m.number@ + m.body@)
}

/// The dedup identifier of a call-log entry.
pub open spec fn call_id(c: CallLog) -> Seq<char> {
    identifier_of(c.timestamp as int, c.phone_number@)
}

/// The notification text for a new short message.
pub open spec fn sms_note(m: Message) -> Seq<char> {
    "[Receive SMS]\nFrom: "@ + m.number@ + "\nContent: "@ + m.body@
}

/// The notification text for a new missed call.
pub open spec fn missed_call_note(c: CallLog) -> Seq<char> {
    "[Missed Call]\nCall from: "@ + c.phone_number@
}

/// The views of a list of notification strings.
pub open spec fn note_views(notes: Seq<String>) -> Seq<Seq<char>> {
    Seq::new(notes.len(), |i: int| notes[i]@)
}

proof fn lemma_note_views_push(notes: Seq<String>, s: String)
    ensures
        note_views(notes.push(s)) == note_views(notes).push(s@),
{
    assert(note_views(notes.push(s)) =~= note_views(notes).push(s@));
}

/// What processing a message batch against a dedup table yields: the grown
/// table and the notifications, in source order. A message already in the
/// table (or repeated earlier in the batch) contributes nothing.
pub open spec fn process_msgs(t: Map<Seq<char>, int>, msgs: Seq<Message>) -> (Map<Seq<char>, int>,
    Seq<Seq<char>>)
    decreases msgs.len(),
{
    if msgs.len() == 0 {
        (t, Seq::empty())
    } else {
        let m = msgs[0];
        if t.contains_key(message_id(m)) {
            process_msgs(t, msgs.drop_first())
        } else {
            let r = process_msgs(t.insert(message_id(m), m.timestamp as int), msgs.drop_first());
            (r.0, seq![sms_note(m)] + r.1)
        }
    }
}

/// What processing a call-log batch yields. Only entries whose type is
/// `MISSED` participate; every other entry is discarded before
/// identification.
pub open spec fn process_calls(t: Map<Seq<char>, int>, logs: Seq<CallLog>) -> (Map<Seq<char>, int>,
    Seq<Seq<char>>)
    decreases logs.len(),
{
    if logs.len() == 0 {
        (t, Seq::empty())
    } else {
        let c = logs[0];
        if c.log_type != CallLogType::MISSED {
            process_calls(t, logs.drop_first())
        } else if t.contains_key(call_id(c)) {
            process_calls(t, logs.drop_first())
        } else {
            let r = process_calls(t.insert(call_id(c), c.timestamp as int), logs.drop_first());
            (r.0, seq![missed_call_note(c)] + r.1)
        }
    }
}

/// Processes one fetched message batch: for each message not yet recorded,
/// emits its notification and records its identifier, checking before
/// inserting.
#[verifier::loop_isolation(false)]
pub fn process_messages(store: &mut DedupStore, msgs: &Vec<Message>) -> (notes: Vec<String>)
    ensures
        final(store).spec_table(Category::Messages) == process_msgs(
            old(store).spec_table(Category::Messages),
            msgs@,
        ).0,
        note_views(notes@) == process_msgs(old(store).spec_table(Category::Messages), msgs@).1,
        final(store).spec_table(Category::CallLogs) == old(store).spec_table(Category::CallLogs),
        final(store).spec_version() == old(store).spec_version(),
{
    let ghost t0 = store.spec_table(Category::Messages);
    let mut notes: Vec<String> = Vec::new();
    let mut i: usize = 0;
    proof {
        assert(msgs@.skip(0) =~= msgs@);
    }
    while i < msgs.len()
        invariant
            i <= msgs@.len(),
            store.spec_table(Category::CallLogs) == old(store).spec_table(Category::CallLogs),
            store.spec_version() == old(store).spec_version(),
            process_msgs(t0, msgs@).0 == process_msgs(
                store.spec_table(Category::Messages),
                msgs@.skip(i as int),
            ).0,
            process_msgs(t0, msgs@).1 == note_views(notes@) + process_msgs(
                store.spec_table(Category::Messages),
                msgs@.skip(i as int),
            ).1,
        decreases msgs@.len() - i,
    {
        let msg = &msgs[i];
        let ghost t_cur = store.spec_table(Category::Messages);
        let ghost rest = msgs@.skip(i as int);
        proof {
            assert(rest[0] == msgs@[i as int]);
            assert(rest.drop_first() =~= msgs@.skip(i as int + 1));
        }
        let id = msg.get_identifier();
        if !store.contains(Category::Messages, &id) {
            let mut s = String::from_str("[Receive SMS]\nFrom: ");
            s.append(msg.get_number().as_str());
            s.append("\nContent: ");
            s.append(msg.get_content().as_str());
            proof {
                assert(s@ == sms_note(msgs@[i as int]));
                lemma_note_views_push(notes@, s);
            }
            let ghost notes_before = notes@;
            notes.push(s);
            let ts = msg.get_timestamp();
            let _ = store.record(Category::Messages, id, ts);
            proof {
                let r = process_msgs(
                    t_cur.insert(message_id(rest[0]), rest[0].timestamp as int),
                    rest.drop_first(),
                );
                assert(note_views(notes_before) + (seq![sms_note(rest[0])] + r.1) =~= note_views(
                    notes@,
                ) + r.1);
            }
        }
        i = i + 1;
    }
    proof {
        assert(msgs@.skip(msgs@.len() as int) =~= Seq::<Message>::empty());
        assert(note_views(notes@) + Seq::<Seq<char>>::empty() =~= note_views(notes@));
    }
    notes
}

/// Processes one fetched call-log batch: only missed calls participate; each
/// missed call not yet recorded yields a notification and a record.
#[verifier::loop_isolation(false)]
pub fn process_call_logs(store: &mut DedupStore, logs: &Vec<CallLog>) -> (notes: Vec<String>)
    ensures
        final(store).spec_table(Category::CallLogs) == process_calls(
            old(store).spec_table(Category::CallLogs),
            logs@,
        ).0,
        note_views(notes@) == process_calls(old(store).spec_table(Category::CallLogs), logs@).1,
        final(store).spec_table(Category::Messages) == old(store).spec_table(Category::Messages),
        final(store).spec_version() == old(store).spec_version(),
{
    let ghost t0 = store.spec_table(Category::CallLogs);
    let mut notes: Vec<String> = Vec::new();
    let mut i: usize = 0;
    proof {
        assert(logs@.skip(0) =~= logs@);
    }
    while i < logs.len()
        invariant
            i <= logs@.len(),
            store.spec_table(Category::Messages) == old(store).spec_table(Category::Messages),
            store.spec_version() == old(store).spec_version(),
            process_calls(t0, logs@).0 == process_calls(
                store.spec_table(Category::CallLogs),
                logs@.skip(i as int),
            ).0,
            process_calls(t0, logs@).1 == note_views(notes@) + process_calls(
                store.spec_table(Category::CallLogs),
                logs@.skip(i as int),
            ).1,
        decreases logs@.len() - i,
    {
        let entry = &logs[i];
        let ghost t_cur = store.spec_table(Category::CallLogs);
        let ghost rest = logs@.skip(i as int);
        proof {
            assert(rest[0] == logs@[i as int]);
            assert(rest.drop_first() =~= logs@.skip(i as int + 1));
        }
        if matches!(*entry.get_log_type(), CallLogType::MISSED) {
            let id = entry.get_identifier();
            if !store.contains(Category::CallLogs, &id) {
                let mut s = String::from_str("[Missed Call]\nCall from: ");
                s.append(entry.get_number().as_str());
                proof {
                    assert(s@ == missed_call_note(logs@[i as int]));
                    lemma_note_views_push(notes@, s);
                }
                let ghost notes_before = notes@;
                notes.push(s);
                let ts = entry.get_timestamp();
                let _ = store.record(Category::CallLogs, id, ts);
                proof {
                    let r = process_calls(
                        t_cur.insert(call_id(rest[0]), rest[0].timestamp as int),
                        rest.drop_first(),
                    );
                    assert(note_views(notes_before) + (seq![missed_call_note(rest[0])] + r.1)
                        =~= note_views(notes@) + r.1);
                }
            }
        }
        i = i + 1;
    }
    proof {
        assert(logs@.skip(logs@.len() as int) =~= Seq::<CallLog>::empty());
        assert(note_views(notes@) + Seq::<Seq<char>>::empty() =~= note_views(notes@));
    }
    notes
}

/// Processing never removes a recorded identifier: the dedup table only
/// grows.
pub proof fn lemma_process_msgs_monotonic(t: Map<Seq<char>, int>, msgs: Seq<Message>, k: Seq<char>)
    requires
        t.contains_key(k),
    ensures
        process_msgs(t, msgs).0.contains_key(k),
    decreases msgs.len(),
{
    if msgs.len() > 0 {
        let m = msgs[0];
        if t.contains_key(message_id(m)) {
            lemma_process_msgs_monotonic(t, msgs.drop_first(), k);
        } else {
            lemma_process_msgs_monotonic(
                t.insert(message_id(m), m.timestamp as int),
                msgs.drop_first(),
                k,
            );
        }
    }
}

/// After a batch is processed, every message of the batch is recorded.
pub proof fn lemma_process_msgs_records_all(t: Map<Seq<char>, int>, msgs: Seq<Message>, i: int)
    requires
        0 <= i < msgs.len(),
    ensures
        process_msgs(t, msgs).0.contains_key(message_id(msgs[i])),
    decreases msgs.len(),
{
    let m = msgs[0];
    let t2 = if t.contains_key(message_id(m)) {
        t
    } else {
        t.insert(message_id(m), m.timestamp as int)
    };
    if i == 0 {
        lemma_process_msgs_monotonic(t2, msgs.drop_first(), message_id(m));
    } else {
        assert(msgs.drop_first()[i - 1] == msgs[i]);
        lemma_process_msgs_records_all(t2, msgs.drop_first(), i - 1);
    }
}

/// A batch whose messages are all recorded already changes nothing and emits
/// nothing.
pub proof fn lemma_process_msgs_stable(t: Map<Seq<char>, int>, msgs: Seq<Message>)
    requires
        forall|i: int| 0 <= i < msgs.len() ==> t.contains_key(message_id(#[trigger] msgs[i])),
    ensures
        process_msgs(t, msgs) == (t, Seq::<Seq<char>>::empty()),
    decreases msgs.len(),
{
    if msgs.len() > 0 {
        assert(t.contains_key(message_id(msgs[0])));
        assert(forall|i: int|
            0 <= i < msgs.drop_first().len() ==> t.contains_key(
                message_id(#[trigger] msgs.drop_first()[i]),
            )) by {
            assert(forall|i: int|
                0 <= i < msgs.drop_first().len() ==> #[trigger] msgs.drop_first()[i] == msgs[i + 1]);
        }
        lemma_process_msgs_stable(t, msgs.drop_first());
    }
}

/// Idempotence across poll cycles: processing the same message batch a second
/// time emits no notification and leaves the dedup table unchanged, so each
/// raw event yields at most one notification and one record.
pub proof fn lemma_process_msgs_idempotent(t: Map<Seq<char>, int>, msgs: Seq<Message>)
    ensures
        ({
            let first = process_msgs(t, msgs);
            process_msgs(first.0, msgs) == (first.0, Seq::<Seq<char>>::empty())
        }),
{
    let first = process_msgs(t, msgs);
    assert forall|i: int| 0 <= i < msgs.len() implies first.0.contains_key(
        message_id(#[trigger] msgs[i]),
    ) by {
        lemma_process_msgs_records_all(t, msgs, i);
    }
    lemma_process_msgs_stable(first.0, msgs);
}

/// Processing never removes a recorded identifier from the call-log table.
pub proof fn lemma_process_calls_monotonic(t: Map<Seq<char>, int>, logs: Seq<CallLog>, k: Seq<char>)
    requires
        t.contains_key(k),
    ensures
        process_calls(t, logs).0.contains_key(k),
    decreases logs.len(),
{
    if logs.len() > 0 {
        let c = logs[0];
        if c.log_type != CallLogType::MISSED || t.contains_key(call_id(c)) {
            lemma_process_calls_monotonic(t, logs.drop_first(), k);
        } else {
            lemma_process_calls_monotonic(
                t.insert(call_id(c), c.timestamp as int),
                logs.drop_first(),
                k,
            );
        }
    }
}

/// After a batch is processed, every missed call of the batch is recorded.
pub proof fn lemma_process_calls_records_missed(t: Map<Seq<char>, int>, logs: Seq<CallLog>, i: int)
    requires
        0 <= i < logs.len(),
        logs[i].log_type == CallLogType::MISSED,
    ensures
        process_calls(t, logs).0.contains_key(call_id(logs[i])),
    decreases logs.len(),
{
    let c = logs[0];
    let t2 = if c.log_type != CallLogType::MISSED || t.contains_key(call_id(c)) {
        t
    } else {
        t.insert(call_id(c), c.timestamp as int)
    };
    if i == 0 {
        lemma_process_calls_monotonic(t2, logs.drop_first(), call_id(c));
    } else {
        assert(logs.drop_first()[i - 1] == logs[i]);
        lemma_process_calls_records_missed(t2, logs.drop_first(), i - 1);
    }
}

/// A batch whose missed calls are all recorded already changes nothing and
/// emits nothing.
pub proof fn lemma_process_calls_stable(t: Map<Seq<char>, int>, logs: Seq<CallLog>)
    requires
        forall|i: int|
            0 <= i < logs.len() && (#[trigger] logs[i]).log_type == CallLogType::MISSED
                ==> t.contains_key(call_id(logs[i])),
    ensures
        process_calls(t, logs) == (t, Seq::<Seq<char>>::empty()),
    decreases logs.len(),
{
    if logs.len() > 0 {
        assert(forall|i: int|
            0 <= i < logs.drop_first().len() && (#[trigger] logs.drop_first()[i]).log_type
                == CallLogType::MISSED ==> t.contains_key(call_id(logs.drop_first()[i]))) by {
            assert(forall|i: int|
                0 <= i < logs.drop_first().len() ==> #[trigger] logs.drop_first()[i] == logs[i + 1]);
        }
        lemma_process_calls_stable(t, logs.drop_first());
    }
}

/// Idempotence across poll cycles: processing the same call-log batch a
/// second time emits no notification and leaves the dedup table unchanged.
pub proof fn lemma_process_calls_idempotent(t: Map<Seq<char>, int>, logs: Seq<CallLog>)
    ensures
        ({
            let first = process_calls(t, logs);
            process_calls(first.0, logs) == (first.0, Seq::<Seq<char>>::empty())
        }),
{
    let first = process_calls(t, logs);
    assert forall|i: int|
        0 <= i < logs.len() && (#[trigger] logs[i]).log_type == CallLogType::MISSED implies first.0.contains_key(
        call_id(logs[i]),
    ) by {
        lemma_process_calls_records_missed(t, logs, i);
    }
    lemma_process_calls_stable(first.0, logs);
}

/// Only missed calls participate: a batch without a missed call changes
/// nothing and emits nothing, whatever its other entries are.
pub proof fn lemma_process_calls_ignores_others(t: Map<Seq<char>, int>, logs: Seq<CallLog>)
    requires
        forall|i: int| 0 <= i < logs.len() ==> (#[trigger] logs[i]).log_type != CallLogType::MISSED,
    ensures
        process_calls(t, logs) == (t, Seq::<Seq<char>>::empty()),
{
    lemma_process_calls_stable(t, logs);
}

/// What seeding the call-log table from the backlog yields: the table after
/// the inserts that were attempted, and whether all succeeded. Only missed
/// calls are seeded; a duplicate identifier stops the seeding with a failure.
pub open spec fn seed_calls(t: Map<Seq<char>, int>, logs: Seq<CallLog>) -> (Map<Seq<char>, int>,
    bool)
    decreases logs.len(),
{
    if logs.len() == 0 {
        (t, true)
    } else {
        let c = logs[0];
        if c.log_type != CallLogType::MISSED {
            seed_calls(t, logs.drop_first())
        } else if t.contains_key(call_id(c)) {
            (t, false)
        } else {
            seed_calls(t.insert(call_id(c), c.timestamp as int), logs.drop_first())
        }
    }
}

/// What seeding the message table from the backlog yields. Every message is
/// seeded; a duplicate identifier stops the seeding with a failure.
pub open spec fn seed_msgs(t: Map<Seq<char>, int>, msgs: Seq<Message>) -> (Map<Seq<char>, int>,
    bool)
    decreases msgs.len(),
{
    if msgs.len() == 0 {
        (t, true)
    } else {
        let m = msgs[0];
        if t.contains_key(message_id(m)) {
            (t, false)
        } else {
            seed_msgs(t.insert(message_id(m), m.timestamp as int), msgs.drop_first())
        }
    }
}

/// Seeding never removes a recorded identifier.
pub proof fn lemma_seed_calls_monotonic(t: Map<Seq<char>, int>, logs: Seq<CallLog>, k: Seq<char>)
    requires
        t.contains_key(k),
    ensures
        seed_calls(t, logs).0.contains_key(k),
    decreases logs.len(),
{
    if logs.len() > 0 {
        let c = logs[0];
        if c.log_type != CallLogType::MISSED {
            lemma_seed_calls_monotonic(t, logs.drop_first(), k);
        } else if !t.contains_key(call_id(c)) {
            lemma_seed_calls_monotonic(
                t.insert(call_id(c), c.timestamp as int),
                logs.drop_first(),
                k,
            );
        }
    }
}

/// A successful seeding records every missed call of the backlog.
pub proof fn lemma_seed_calls_records_missed(t: Map<Seq<char>, int>, logs: Seq<CallLog>, i: int)
    requires
        seed_calls(t, logs).1,
        0 <= i < logs.len(),
        logs[i].log_type == CallLogType::MISSED,
    ensures
        seed_calls(t, logs).0.contains_key(call_id(logs[i])),
    decreases logs.len(),
{
    let c = logs[0];
    if c.log_type != CallLogType::MISSED {
        lemma_seed_calls_records_missed(t, logs.drop_first(), i - 1);
        assert(logs.drop_first()[i - 1] == logs[i]);
    } else {
        let t2 = t.insert(call_id(c), c.timestamp as int);
        if i == 0 {
            lemma_seed_calls_monotonic(t2, logs.drop_first(), call_id(c));
        } else {
            lemma_seed_calls_records_missed(t2, logs.drop_first(), i - 1);
            assert(logs.drop_first()[i - 1] == logs[i]);
        }
    }
}

/// Seeding never removes a recorded message identifier.
pub proof fn lemma_seed_msgs_monotonic(t: Map<Seq<char>, int>, msgs: Seq<Message>, k: Seq<char>)
    requires
        t.contains_key(k),
    ensures
        seed_msgs(t, msgs).0.contains_key(k),
    decreases msgs.len(),
{
    if msgs.len() > 0 {
        let m = msgs[0];
        if !t.contains_key(message_id(m)) {
            lemma_seed_msgs_monotonic(
                t.insert(message_id(m), m.timestamp as int),
                msgs.drop_first(),
                k,
            );
        }
    }
}

/// A successful seeding records every message of the backlog.
pub proof fn lemma_seed_msgs_records_all(t: Map<Seq<char>, int>, msgs: Seq<Message>, i: int)
    requires
        seed_msgs(t, msgs).1,
        0 <= i < msgs.len(),
    ensures
        seed_msgs(t, msgs).0.contains_key(message_id(msgs[i])),
    decreases msgs.len(),
{
    let m = msgs[0];
    let t2 = t.insert(message_id(m), m.timestamp as int);
    if i == 0 {
        lemma_seed_msgs_monotonic(t2, msgs.drop_first(), message_id(m));
    } else {
        lemma_seed_msgs_records_all(t2, msgs.drop_first(), i - 1);
        assert(msgs.drop_first()[i - 1] == msgs[i]);
    }
}

/// The backlog is baseline only: after a successful first-run seeding,
/// re-reading the same backlog in a later poll cycle emits no notification
/// and changes nothing.
pub proof fn lemma_seeded_backlog_silent(
    tc: Map<Seq<char>, int>,
    logs: Seq<CallLog>,
    tm: Map<Seq<char>, int>,
    msgs: Seq<Message>,
)
    requires
        seed_calls(tc, logs).1,
        seed_msgs(tm, msgs).1,
    ensures
        process_calls(seed_calls(tc, logs).0, logs) == (
            seed_calls(tc, logs).0,
            Seq::<Seq<char>>::empty(),
        ),
        process_msgs(seed_msgs(tm, msgs).0, msgs) == (
            seed_msgs(tm, msgs).0,
            Seq::<Seq<char>>::empty(),
        ),
{
    assert forall|i: int|
        0 <= i < logs.len() && (#[trigger] logs[i]).log_type == CallLogType::MISSED implies seed_calls(
        tc,
        logs,
    ).0.contains_key(call_id(logs[i])) by {
        lemma_seed_calls_records_missed(tc, logs, i);
    }
    lemma_process_calls_stable(seed_calls(tc, logs).0, logs);
    assert forall|i: int| 0 <= i < msgs.len() implies seed_msgs(tm, msgs).0.contains_key(
        message_id(#[trigger] msgs[i]),
    ) by {
        lemma_seed_msgs_records_all(tm, msgs, i);
    }
    lemma_process_msgs_stable(seed_msgs(tm, msgs).0, msgs);
}

/// First-run bootstrap: creates the schema, then records every backlog event
/// as baseline without emitting any notification. Missed calls are seeded
/// first, then all messages; the first duplicate insert stops the seeding
/// with a storage fault, which the caller treats as fatal to startup.
#[verifier::loop_isolation(false)]
pub fn bootstrap(store: &mut DedupStore, call_logs: &Vec<CallLog>, messages: &Vec<Message>) -> (r:
    Result<(), Fault>)
    requires
        !old(store).spec_is_initialized(),
    ensures
        final(store).spec_version() == Some(SCHEMA_VERSION),
        ({
            let (tc, okc) = seed_calls(old(store).spec_table(Category::CallLogs), call_logs@);
            &&& final(store).spec_table(Category::CallLogs) == tc
            &&& if okc {
                let (tm, okm) = seed_msgs(old(store).spec_table(Category::Messages), messages@);
                &&& final(store).spec_table(Category::Messages) == tm
                &&& r == if okm {
                    Result::<(), Fault>::Ok(())
                } else {
                    Result::<(), Fault>::Err(Fault::Storage)
                }
            } else {
                &&& final(store).spec_table(Category::Messages) == old(store).spec_table(
                    Category::Messages,
                )
                &&& r == Result::<(), Fault>::Err(Fault::Storage)
            }
        }),
{
    store.initialize();
    let ghost c0 = store.spec_table(Category::CallLogs);
    let ghost m0 = store.spec_table(Category::Messages);
    let mut i: usize = 0;
    proof {
        assert(call_logs@.skip(0) =~= call_logs@);
    }
    while i < call_logs.len()
        invariant
            i <= call_logs@.len(),
            store.spec_table(Category::Messages) == m0,
            store.spec_version() == Some(SCHEMA_VERSION),
            seed_calls(c0, call_logs@) == seed_calls(
                store.spec_table(Category::CallLogs),
                call_logs@.skip(i as int),
            ),
        decreases call_logs@.len() - i,
    {
        let entry = &call_logs[i];
        let ghost rest = call_logs@.skip(i as int);
        proof {
            assert(rest[0] == call_logs@[i as int]);
            assert(rest.drop_first() =~= call_logs@.skip(i as int + 1));
        }
        if matches!(*entry.get_log_type(), CallLogType::MISSED) {
            let id = entry.get_identifier();
            let ts = entry.get_timestamp();
            if let Err(e) = store.record(Category::CallLogs, id, ts) {
                return Err(e);
            }
        }
        i = i + 1;
    }
    proof {
        assert(call_logs@.skip(call_logs@.len() as int) =~= Seq::<CallLog>::empty());
    }
    let mut j: usize = 0;
    let ghost c_final = store.spec_table(Category::CallLogs);
    proof {
        assert(messages@.skip(0) =~= messages@);
    }
    while j < messages.len()
        invariant
            j <= messages@.len(),
            store.spec_table(Category::CallLogs) == c_final,
            seed_calls(c0, call_logs@) == (c_final, true),
            store.spec_version() == Some(SCHEMA_VERSION),
            seed_msgs(m0, messages@) == seed_msgs(
                store.spec_table(Category::Messages),
                messages@.skip(j as int),
            ),
        decreases messages@.len() - j,
    {
        let msg = &messages[j];
        let ghost rest = messages@.skip(j as int);
        proof {
            assert(rest[0] == messages@[j as int]);
            assert(rest.drop_first() =~= messages@.skip(j as int + 1));
        }
        let id = msg.get_identifier();
        let ts = msg.get_timestamp();
        if let Err(e) = store.record(Category::Messages, id, ts) {
            return Err(e);
        }
        j = j + 1;
    }
    proof {
        assert(messages@.skip(messages@.len() as int) =~= Seq::<Message>::empty());
    }
    Ok(())
}

/// The notifications one sim diff contributes to a cycle.
pub open spec fn sim_notes_of(prev: SIMState, cur: SIMState) -> Seq<Seq<char>> {
    if cur != prev {
        seq![sim_note(cur)]
    } else {
        Seq::empty()
    }
}

/// The notifications one battery diff contributes to a cycle.
pub open spec fn battery_notes_of(prev: CurrentStatus, cur: BatteryStatus) -> Seq<Seq<char>> {
    match spec_battery_step(prev, cur).0 {
        Some(n) => seq![n],
        None => Seq::empty(),
    }
}

/// One full poll cycle's decisions. The battery and SIM readings are
/// required: their fetch failure is fatal to the loop and handled by the
/// caller. The message and call-log batches are optional: a failed fetch
/// skips that source for this cycle only. Returns the notifications to
/// enqueue, in order (battery, SIM, messages, call logs), and the snapshots
/// to carry into the next cycle.
#[verifier::loop_isolation(false)]
pub fn poll_cycle(
    store: &mut DedupStore,
    battery_prev: &CurrentStatus,
    battery_cur: &BatteryStatus,
    sim_prev: &SIMState,
    sim_cur: &SIMState,
    messages: &Option<Vec<Message>>,
    call_logs: &Option<Vec<CallLog>>,
) -> (r: (Vec<String>, CurrentStatus, SIMState))
    ensures
        ({
            let (mt, mnotes) = match messages {
                Some(m) => process_msgs(old(store).spec_table(Category::Messages), m@),
                None => (old(store).spec_table(Category::Messages), Seq::<Seq<char>>::empty()),
            };
            let (ct, cnotes) = match call_logs {
                Some(c) => process_calls(old(store).spec_table(Category::CallLogs), c@),
                None => (old(store).spec_table(Category::CallLogs), Seq::<Seq<char>>::empty()),
            };
            &&& final(store).spec_table(Category::Messages) == mt
            &&& final(store).spec_table(Category::CallLogs) == ct
            &&& final(store).spec_version() == old(store).spec_version()
            &&& note_views(r.0@) == battery_notes_of(*battery_prev, *battery_cur) + sim_notes_of(
                *sim_prev,
                *sim_cur,
            ) + mnotes + cnotes
            &&& r.1 == spec_battery_step(*battery_prev, *battery_cur).1
            &&& r.2 == *sim_cur
        }),
{
    let mut notes: Vec<String> = Vec::new();
    let (battery_note, battery_next) = battery_step(battery_prev, battery_cur);
    if let Some(n) = battery_note {
        proof {
            lemma_note_views_push(notes@, n);
        }
        notes.push(n);
    }
    let (sim_note_opt, sim_next) = sim_step(sim_prev, sim_cur);
    if let Some(n) = sim_note_opt {
        proof {
            lemma_note_views_push(notes@, n);
        }
        notes.push(n);
    }
    let ghost head = note_views(notes@);
    proof {
        assert(head =~= battery_notes_of(*battery_prev, *battery_cur) + sim_notes_of(
            *sim_prev,
            *sim_cur,
        ));
    }
    if let Some(msgs) = messages {
        let msg_notes = process_messages(store, msgs);
        let ghost mid = note_views(msg_notes@);
        append_notes(&mut notes, msg_notes);
        proof {
            assert(note_views(notes@) =~= head + mid);
        }
    }
    let ghost before_calls = note_views(notes@);
    if let Some(logs) = call_logs {
        let call_notes = process_call_logs(store, logs);
        let ghost tail = note_views(call_notes@);
        append_notes(&mut notes, call_notes);
        proof {
            assert(note_views(notes@) =~= before_calls + tail);
        }
    }
    proof {
        let mnotes = match messages {
            Some(m) => process_msgs(old(store).spec_table(Category::Messages), m@).1,
            None => Seq::<Seq<char>>::empty(),
        };
        let cnotes = match call_logs {
            Some(c) => process_calls(old(store).spec_table(Category::CallLogs), c@).1,
            None => Seq::<Seq<char>>::empty(),
        };
        assert(note_views(notes@) =~= battery_notes_of(*battery_prev, *battery_cur) + sim_notes_of(
            *sim_prev,
            *sim_cur,
        ) + mnotes + cnotes);
    }
    (notes, battery_next, sim_next)
}

/// Moves every notification of `extra` onto the end of `notes`, in order.
fn append_notes(notes: &mut Vec<String>, extra: Vec<String>)
    ensures
        final(notes)@ == old(notes)@ + extra@,
{
    let mut k: usize = 0;
    let ghost base = notes@;
    let ghost all = extra@;
    let mut extra = extra;
    while k < extra.len()
        invariant
            k <= all.len(),
            extra@ == all,
            notes@ =~= base + all.take(k as int),
        decreases all.len() - k,
    {
        let s = extra[k].clone();
        notes.push(s);
        proof {
            assert(base + all.take(k as int + 1) =~= (base + all.take(k as int)).push(all[k as int]));
        }
        k = k + 1;
    }
    proof {
        assert(all.take(all.len() as int) =~= all);
    }
}

} // verus!
