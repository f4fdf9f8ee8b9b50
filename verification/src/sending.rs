use vstd::prelude::*;

use crate::conversation::{initial_agents, resolve_initial_agents, UiReplyRef};
use crate::text::{str_eq, strings_view, to_owned};
use crate::timeline::PersistedTaskTimelineEntry;
use crate::ui::UiTurnFinishedReason;

verus! {

broadcast use vstd::string::group_string_axioms;

/// The agents that answer a sent message: those the message mentions (or
/// else the active agent), as the replies resolve them, and the active agent
/// where that leaves none.
pub open spec fn first_turn_agents(
    mentions: Seq<Seq<char>>,
    replies: Seq<UiReplyRef>,
    timeline: Seq<PersistedTaskTimelineEntry>,
    active: Seq<char>,
) -> Seq<Seq<char>> {
    let asked = if mentions.len() == 0 {
        seq![active]
    } else {
        mentions
    };
    let resolved = initial_agents(asked, replies, timeline);
    if resolved.len() == 0 {
        seq![active]
    } else {
        resolved
    }
}

/// Chooses the agents whose turns a sent message starts.
pub fn first_turn_agents_for(
    mentions: Vec<String>,
    replies: &[UiReplyRef],
    timeline: &Vec<PersistedTaskTimelineEntry>,
    active: &str,
) -> (out: Vec<String>)
    ensures
        strings_view(out@) == first_turn_agents(strings_view(mentions@), replies@, timeline@, active@),
{
    let asked = if mentions.len() == 0 {
        let v = vec![to_owned(active)];
        assert(strings_view(v@) =~= seq![active@]);
        v
    } else {
        mentions
    };
    let resolved = resolve_initial_agents(asked, replies, timeline);
    if resolved.len() == 0 {
        let v = vec![to_owned(active)];
        assert(strings_view(v@) =~= seq![active@]);
        v
    } else {
        resolved
    }
}

/// How a running turn ended.
pub enum TurnEnd {
    /// It finished; the agents it handed over to run next.
    Completed { next_agents: Vec<String> },
    /// It stopped on an error, or because it was cancelled.
    Failed { cancelled: bool },
}

/// A turn to start: the agent that takes it, and the turn it follows.
pub struct TurnLaunch {
    pub agent_name: String,
    pub after_turn: String,
}

/// What follows the end of a turn: how the turn is reported, which turns
/// start next, and whether the message is then fully answered.
pub struct SendAction {
    pub reason: UiTurnFinishedReason,
    pub launches: Vec<TurnLaunch>,
    pub done: bool,
}

/// `v` without its first occurrence of `x`.
pub open spec fn without_first(v: Seq<Seq<char>>, x: Seq<char>) -> Seq<Seq<char>>
    decreases v.len(),
{
    if v.len() == 0 {
        v
    } else if v[0] == x {
        v.drop_first()
    } else {
        seq![v[0]] + without_first(v.drop_first(), x)
    }
}

pub open spec fn launches_view(v: Seq<TurnLaunch>) -> Seq<(Seq<char>, Seq<char>)> {
    v.map_values(|l: TurnLaunch| (l.agent_name@, l.after_turn@))
}

/// The running turns after `turn_id` ended, and what follows: a completed
/// turn is reported idle and starts a turn for each agent it handed over to,
/// each following it; a failed one is reported cancelled or failed and starts
/// nothing. The message is answered once no turn runs and none starts.
pub open spec fn send_step_of(running: Seq<Seq<char>>, turn_id: Seq<char>, end: TurnEnd) -> (
    Seq<Seq<char>>,
    UiTurnFinishedReason,
    Seq<(Seq<char>, Seq<char>)>,
    bool,
) {
    let rest = without_first(running, turn_id);
    match end {
        TurnEnd::Completed { next_agents } => {
            let launches = strings_view(next_agents@).map_values(|a: Seq<char>| (a, turn_id));
            (rest, UiTurnFinishedReason::Idle, launches, rest.len() == 0 && launches.len() == 0)
        },
        TurnEnd::Failed { cancelled } => (
            rest,
            if cancelled {
                UiTurnFinishedReason::Cancelled
            } else {
                UiTurnFinishedReason::Failed
            },
            Seq::empty(),
            rest.len() == 0,
        ),
    }
}

fn remove_first(running: &mut Vec<String>, turn_id: &str)
    ensures
        strings_view(final(running)@) == without_first(strings_view(old(running)@), turn_id@),
    decreases old(running)@.len(),
{
    let ghost before = strings_view(running@);
    let mut i: usize = 0;
    while i < running.len()
        invariant
            i <= running@.len(),
            before == strings_view(running@),
            before == strings_view(old(running)@),
            forall|k: int| 0 <= k < i ==> (#[trigger] before[k]) != turn_id@,
        decreases running.len() - i,
    {
        if str_eq(running[i].as_str(), turn_id) {
            running.remove(i);
            proof {
                lemma_without_first_at(before, turn_id@, i as int);
            }
            assert(strings_view(running@) =~= before.remove(i as int));
            return;
        }
        i += 1;
    }
    proof {
        lemma_without_first_absent(before, turn_id@);
    }
}

proof fn lemma_without_first_at(v: Seq<Seq<char>>, x: Seq<char>, i: int)
    requires
        0 <= i < v.len(),
        v[i] == x,
        forall|k: int| 0 <= k < i ==> (#[trigger] v[k]) != x,
    ensures
        without_first(v, x) == v.remove(i),
    decreases i,
{
    if i == 0 {
        assert(v.drop_first() =~= v.remove(0));
    } else {
        let t = v.drop_first();
        assert forall|k: int| 0 <= k < i - 1 implies (#[trigger] t[k]) != x by {
            assert(t[k] == v[k + 1]);
        }
        lemma_without_first_at(t, x, i - 1);
        assert(seq![v[0]] + t.remove(i - 1) =~= v.remove(i));
    }
}

proof fn lemma_without_first_absent(v: Seq<Seq<char>>, x: Seq<char>)
    requires
        forall|k: int| 0 <= k < v.len() ==> (#[trigger] v[k]) != x,
    ensures
        without_first(v, x) == v,
    decreases v.len(),
{
    if v.len() > 0 {
        let t = v.drop_first();
        assert forall|k: int| 0 <= k < t.len() implies (#[trigger] t[k]) != x by {
            assert(t[k] == v[k + 1]);
        }
        lemma_without_first_absent(t, x);
        assert(seq![v[0]] + t =~= v);
    }
}

/// Takes in the end of turn `turn_id` while a message is being answered:
/// the turn leaves the running turns, and the answer says how to report it,
/// which turns start next, and whether the message is answered.
pub fn send_step(running: &mut Vec<String>, turn_id: &str, end: TurnEnd) -> (out: SendAction)
    ensures
        ({
            let (rest, reason, launches, done) = send_step_of(strings_view(old(running)@), turn_id@, end);
            &&& strings_view(final(running)@) == rest
            &&& out.reason == reason
            &&& launches_view(out.launches@) == launches
            &&& out.done == done
        }),
{
    remove_first(running, turn_id);
    match end {
        TurnEnd::Completed { next_agents } => {
            let ghost nv = strings_view(next_agents@);
            let mut launches: Vec<TurnLaunch> = Vec::new();
            let mut i: usize = 0;
            while i < next_agents.len()
                invariant
                    i <= next_agents@.len(),
                    nv == strings_view(next_agents@),
                    launches_view(launches@) == nv.take(i as int).map_values(|a: Seq<char>| (a, turn_id@)),
                decreases next_agents.len() - i,
            {
                let ghost before = launches@;
                launches.push(TurnLaunch { agent_name: to_owned(next_agents[i].as_str()), after_turn: to_owned(turn_id) });
                assert(nv[i as int] == next_agents@[i as int]@);
                assert(launches_view(launches@) =~= launches_view(before).push((nv[i as int], turn_id@)));
                assert(nv.take(i + 1) =~= nv.take(i as int).push(nv[i as int]));
                assert(launches_view(launches@) =~= nv.take(i + 1).map_values(|a: Seq<char>| (a, turn_id@)));
                i += 1;
            }
            assert(nv.take(i as int) =~= nv);
            let done = running.len() == 0 && launches.len() == 0;
            SendAction { reason: UiTurnFinishedReason::Idle, launches, done }
        },
        TurnEnd::Failed { cancelled } => {
            let launches: Vec<TurnLaunch> = Vec::new();
            assert(launches_view(launches@) =~= Seq::<(Seq<char>, Seq<char>)>::empty());
            let reason = if cancelled {
                UiTurnFinishedReason::Cancelled
            } else {
                UiTurnFinishedReason::Failed
            };
            let done = running.len() == 0;
            SendAction { reason, launches, done }
        },
    }
}

} // verus!
