//! The dispatch channel's command kinds and the shutdown protocol's
//! decisions.
//!
//! The poll loop and the dispatch task each consume commands of the same two
//! kinds. A consumer drains the notifications already queued ahead of the
//! first terminate command, then stops: cooperative shutdown, no loss of
//! queued work.

use vstd::prelude::*;
use crate::engine::note_views;

verus! {

/// A command carried by the dispatch queue or a control channel: forward a
/// notification text upstream, or terminate.
#[derive(Debug)]
pub enum InnerCommand {
    Message(String),
    Terminate,
}

/// What the dispatch task does in reaction to one received command.
#[derive(Debug)]
pub enum DispatchAction {
    Forward(String),
    Stop,
}

/// The dispatch task's decision for one received command: a notification is
/// forwarded to the upstream sink unchanged; a terminate command stops the
/// task.
pub fn upstream_step(cmd: InnerCommand) -> (r: DispatchAction)
    ensures
        match cmd {
            InnerCommand::Message(m) => r matches DispatchAction::Forward(f) && f@ == m@,
            InnerCommand::Terminate => r is Stop,
        },
{
    match cmd {
        InnerCommand::Message(m) => DispatchAction::Forward(m),
        InnerCommand::Terminate => DispatchAction::Stop,
    }
}

/// The notification texts queued strictly ahead of the first terminate
/// command.
pub open spec fn dispatched_before_terminate(cmds: Seq<InnerCommand>) -> Seq<Seq<char>>
    decreases cmds.len(),
{
    if cmds.len() == 0 {
        Seq::empty()
    } else {
        match cmds[0] {
            InnerCommand::Terminate => Seq::empty(),
            InnerCommand::Message(m) => seq![m@] + dispatched_before_terminate(cmds.drop_first()),
        }
    }
}

/// Drains a queue as a consumer does on shutdown: every notification already
/// queued ahead of the first terminate command is handed out, in order and
/// none lost; the first terminate stops the drain.
#[verifier::loop_isolation(false)]
pub fn drain_until_terminate(cmds: &Vec<InnerCommand>) -> (r: Vec<String>)
    ensures
        note_views(r@) == dispatched_before_terminate(cmds@),
{
    let mut out: Vec<String> = Vec::new();
    let mut i: usize = 0;
    proof {
        assert(cmds@.skip(0) =~= cmds@);
    }
    while i < cmds.len()
        invariant
            i <= cmds@.len(),
            dispatched_before_terminate(cmds@) == note_views(out@) + dispatched_before_terminate(
                cmds@.skip(i as int),
            ),
        decreases cmds@.len() - i,
    {
        let ghost rest = cmds@.skip(i as int);
        proof {
            assert(rest[0] == cmds@[i as int]);
            assert(rest.drop_first() =~= cmds@.skip(i as int + 1));
        }
        match &cmds[i] {
            InnerCommand::Terminate => {
                proof {
                    assert(note_views(out@) + Seq::<Seq<char>>::empty() =~= note_views(out@));
                }
                return out;
            },
            InnerCommand::Message(m) => {
                let ghost out_before = out@;
                let text = m.clone();
                out.push(text);
                proof {
                    assert(note_views(out@) =~= note_views(out_before).push(m@));
                    assert(note_views(out_before) + (seq![m@] + dispatched_before_terminate(
                        rest.drop_first(),
                    )) =~= note_views(out@) + dispatched_before_terminate(rest.drop_first()));
                }
            },
        }
        i = i + 1;
    }
    proof {
        assert(cmds@.skip(cmds@.len() as int) =~= Seq::<InnerCommand>::empty());
        assert(note_views(out@) + Seq::<Seq<char>>::empty() =~= note_views(out@));
    }
    out
}

} // verus!
