//! What holds of every session, proved of the state machine.

use vstd::prelude::*;
use crate::breakpoint::{lemma_planted_none, lemma_planted_one_more, planted};
use crate::command::{break_target, BreakTarget, DebuggerCommand};
use crate::error::DebugError;
use crate::protocol::{
    ActionView, AfterKill, AfterPlant, Event, Message, Phase, ReactionView,
};
use crate::session::{
    initial, known, on_planting_word, queue, retire, step, unplant, wf, with_word, DebuggerView,
};

verus! {

/// `continue` without a traced process is refused with `NoActiveProcess`,
/// and the session is left exactly as it was: the pending breakpoints, like
/// everything else, are untouched.
pub proof fn law_continue_needs_process(s: DebuggerView)
    requires
        s.phase is Prompt,
        s.inferior is None,
    ensures
        step(s, Event::Command(DebuggerCommand::Continue)).0 == s,
        step(s, Event::Command(DebuggerCommand::Continue)).0.break_list == s.break_list,
        step(s, Event::Command(DebuggerCommand::Continue)).1 == (ReactionView {
            messages: seq![Message::Failure(DebugError::NoActiveProcess)],
            action: ActionView::Prompt,
        }),
{
}

/// `backtrace` without a traced process is refused with `NoActiveProcess`,
/// and the session is left exactly as it was.
pub proof fn law_backtrace_needs_process(s: DebuggerView)
    requires
        s.phase is Prompt,
        s.inferior is None,
    ensures
        step(s, Event::Command(DebuggerCommand::Backtrace)).0 == s,
        step(s, Event::Command(DebuggerCommand::Backtrace)).1 == (ReactionView {
            messages: seq![Message::Failure(DebugError::NoActiveProcess)],
            action: ActionView::Prompt,
        }),
{
}

/// `run` with a traced process at hand first has that process killed: the
/// target is not started before the kill has been confirmed.
pub proof fn law_run_kills_old_process_first(s: DebuggerView, args: Vec<String>)
    requires
        s.phase is Prompt,
        s.inferior is Some,
    ensures
        step(s, Event::Command(DebuggerCommand::Run(args))).1.action == ActionView::Kill(
            s.inferior->0.pid,
        ),
        step(s, Event::Command(DebuggerCommand::Run(args))).0.phase == Phase::Killing(
            AfterKill::Launch(args),
        ),
        step(
            step(s, Event::Command(DebuggerCommand::Run(args))).0,
            Event::Killed,
        ).1.action == ActionView::Launch(args@),
        step(
            step(s, Event::Command(DebuggerCommand::Run(args))).0,
            Event::Killed,
        ).0.inferior is None,
{
}

/// Whenever the controller asks for the target to be started, it holds no
/// traced process and waits for the start: two processes are never traced
/// at a time.
pub proof fn law_launch_only_without_process(s: DebuggerView, event: Event)
    requires
        step(s, event).1.action is Launch,
    ensures
        step(s, event).0.inferior is None,
        step(s, event).0.phase is Launching,
{
}

/// A traced process comes into a session that holds none only as the
/// outcome of a start that the controller has asked for.
pub proof fn law_process_only_from_launch(s: DebuggerView, event: Event)
    requires
        s.inferior is None,
        step(s, event).0.inferior is Some,
    ensures
        s.phase is Launching,
        event is Launched,
{
}

/// Once the session is left, every event is answered with `Exit` and
/// changes nothing.
pub proof fn law_finished_stays_finished(s: DebuggerView, event: Event)
    requires
        s.phase is Finished,
    ensures
        step(s, event).0 == s,
        step(s, event).1.action == ActionView::Exit,
{
}

/// Planting a pending breakpoint plants a trap: once the word that holds
/// the breakpoint has been read, the address holds the trap opcode, the
/// table holds the byte that was there before, and all other memory and all
/// other entries are as they were.
pub proof fn law_planting_plants_trap(s: DebuggerView, next: AfterPlant, word: u64)
    requires
        s.inferior is Some,
        s.break_list.len() > 0,
        !s.restore_map.contains_key(s.break_list[0]),
    ensures
        on_planting_word(s, next, Some(word)).0.inferior is Some,
        planted(
            with_word(s.inferior->0, s.break_list[0], Some(word)).memory,
            s.restore_map,
            seq![s.break_list[0]],
            on_planting_word(s, next, Some(word)).0.inferior->0.memory,
            on_planting_word(s, next, Some(word)).0.restore_map,
        ),
{
    let addr = s.break_list[0];
    let read = with_word(s.inferior->0, addr, Some(word));
    lemma_planted_none(read.memory, s.restore_map);
    lemma_planted_one_more(
        read.memory,
        s.restore_map,
        Seq::empty(),
        read.memory,
        s.restore_map,
        addr,
    );
    assert(Seq::<usize>::empty().push(addr) =~= seq![addr]);
}

/// A session starts in a well-formed state.
pub proof fn law_initial_is_wf()
    ensures
        wf(initial()),
{
    assert((initial().installed + initial().break_list) =~= Seq::<usize>::empty());
}

/// Retiring the traced process keeps the session well formed, whatever the
/// controller goes on to wait for.
proof fn lemma_retire_keeps_wf(s: DebuggerView, phase: Phase)
    requires
        wf(s),
        !(phase is Planted),
    ensures
        wf(DebuggerView { phase, ..retire(s) }),
{
    let r = DebuggerView { phase, ..retire(s) };
    assert(r.installed + r.break_list =~= s.installed + s.break_list);
}

/// Queueing a breakpoint keeps the session well formed.
proof fn lemma_queue_keeps_wf(s: DebuggerView, addr: usize)
    requires
        wf(s),
    ensures
        wf(queue(s, addr).0),
{
    let q = queue(s, addr).0;
    if !known(s, addr) {
        let all = s.installed + s.break_list;
        assert(q.installed + q.break_list =~= all.push(addr));
        assert forall|i: int| 0 <= i < all.len() implies all[i] != addr by {
            if i < s.installed.len() {
                assert(s.installed[i] == all[i]);
                assert(s.installed.contains(all[i]));
            } else {
                assert(s.break_list[i - s.installed.len()] == all[i]);
                assert(s.break_list.contains(all[i]));
            }
        }
    }
}

/// Planting the first pending breakpoint keeps the session well formed.
proof fn lemma_planting_keeps_wf(s: DebuggerView, next: AfterPlant, word: Option<u64>)
    requires
        wf(s),
    ensures
        wf(on_planting_word(s, next, word).0),
{
    if s.inferior is Some && s.break_list.len() > 0 {
        let addr = s.break_list[0];
        let rest = s.break_list.skip(1);
        let all = s.installed + s.break_list;
        let n = s.installed.len() as int;
        assert(all[n] == addr);
        assert forall|i: int, j: int|
            0 <= i < (s.installed + rest).len() && 0 <= j < (s.installed + rest).len() && i
                != j implies (s.installed + rest)[i] != (s.installed + rest)[j] by {
            let ii = if i < n {
                i
            } else {
                i + 1
            };
            let jj = if j < n {
                j
            } else {
                j + 1
            };
            assert((s.installed + rest)[i] == all[ii]);
            assert((s.installed + rest)[j] == all[jj]);
        }
        if !s.restore_map.contains_key(addr) && word is Some {
            let t = on_planting_word(s, next, word).0;
            assert(t.installed + t.break_list =~= all);
            assert forall|a: usize| t.restore_map.contains_key(a) <==> t.installed.contains(a) by {
                if t.installed.contains(a) {
                    let i = choose|i: int| 0 <= i < t.installed.len() && t.installed[i] == a;
                    if i < n {
                        assert(s.installed[i] == a);
                    }
                }
                if s.installed.contains(a) {
                    let i = choose|i: int| 0 <= i < s.installed.len() && s.installed[i] == a;
                    assert(t.installed[i] == a);
                }
                if a == addr {
                    assert(t.installed[n] == a);
                }
            }
        }
    }
}

/// Taking back the trap planted last keeps the session well formed.
proof fn lemma_unplant_keeps_wf(s: DebuggerView, addr: usize, phase: Phase)
    requires
        wf(s),
        s.installed.len() > 0,
        s.installed.last() == addr,
        !(phase is Planted),
        !(phase is Launching),
    ensures
        wf(DebuggerView { phase, ..unplant(s, addr) }),
{
    let u = unplant(s, addr);
    let all = s.installed + s.break_list;
    let n = s.installed.len() as int;
    assert forall|i: int, j: int|
        0 <= i < (u.installed + u.break_list).len() && 0 <= j < (u.installed
            + u.break_list).len() && i != j implies (u.installed + u.break_list)[i] != (
    u.installed + u.break_list)[j] by {
        let ii = if i < n - 1 {
            i
        } else {
            i + 1
        };
        let jj = if j < n - 1 {
            j
        } else {
            j + 1
        };
        assert((u.installed + u.break_list)[i] == all[ii]);
        assert((u.installed + u.break_list)[j] == all[jj]);
    }
    assert forall|a: usize| u.restore_map.contains_key(a) <==> u.installed.contains(a) by {
        if u.installed.contains(a) {
            let i = choose|i: int| 0 <= i < u.installed.len() && u.installed[i] == a;
            assert(s.installed[i] == a);
            assert(all[i] == a && all[n - 1] == addr);
        }
        if s.installed.contains(a) && a != addr {
            let i = choose|i: int| 0 <= i < s.installed.len() && s.installed[i] == a;
            assert(u.installed[i] == a);
        }
    }
}

/// Every event leaves a well-formed session well formed.
pub proof fn law_step_keeps_wf(s: DebuggerView, event: Event)
    requires
        wf(s),
    ensures
        wf(step(s, event).0),
{
    match (s.phase, event) {
        (Phase::Prompt, Event::Command(DebuggerCommand::Break(arg))) => {
            match break_target(arg) {
                Some(BreakTarget::Address(addr)) => {
                    lemma_queue_keeps_wf(s, addr);
                },
                _ => {},
            }
        },
        (Phase::Killing(after), Event::Killed) => {
            lemma_retire_keeps_wf(s, Phase::Launching);
            lemma_retire_keeps_wf(s, Phase::Prompt);
            lemma_retire_keeps_wf(s, Phase::Finished);
        },
        (Phase::Launching, Event::Launched(pid)) => {
            lemma_retire_keeps_wf(s, Phase::Prompt);
            let r = retire(s);
            assert(r.installed + r.break_list =~= s.installed + s.break_list);
        },
        (Phase::Planting(next), Event::Word(word)) => {
            lemma_planting_keeps_wf(s, next, word);
        },
        (Phase::Planted(next, addr), Event::Written(false)) => {
            lemma_unplant_keeps_wf(s, addr, Phase::Prompt);
            lemma_unplant_keeps_wf(s, addr, Phase::Resuming);
            lemma_unplant_keeps_wf(s, addr, Phase::Planting(next));
        },
        (Phase::Resuming, Event::Waited(report)) => {
            lemma_retire_keeps_wf(s, Phase::Prompt);
        },
        (Phase::Resolving, Event::Located(Some(addr))) => {
            lemma_queue_keeps_wf(s, addr);
        },
        (Phase::Leaving, Event::Exited(gone)) => {
            lemma_retire_keeps_wf(s, Phase::Finished);
        },
        _ => {},
    }
}

} // verus!
