//! What holds of every run of a worker: the laws that relate several steps.

use crate::alphabet::is_symbol;
use crate::cursor::{advanced, lemma_advanced};
use crate::model::{GroupView, TargetView};
use crate::worker::{
    cool_down_command, invite_command, next_state, reaction_to, rejection, search_command,
    CommandView, EventView, Operation, Phase, ReactionView, RecordView, StepError, UserView,
};
use vstd::prelude::*;

verus! {

/// The worker after `events` were reported to it one after another. A
/// refused event ends the run: it and what follows change nothing.
pub open spec fn state_after(w: UserView, events: Seq<EventView>) -> UserView
    decreases events.len(),
{
    if events.len() == 0 || rejection(w, events[0]) is Some {
        w
    } else {
        state_after(next_state(w, events[0]), events.drop_first())
    }
}

/// The worker's answers to `events` reported one after another, up to the
/// first refused event.
pub open spec fn reactions(w: UserView, events: Seq<EventView>) -> Seq<ReactionView>
    decreases events.len(),
{
    if events.len() == 0 || rejection(w, events[0]) is Some {
        Seq::empty()
    } else {
        seq![reaction_to(w, events[0])] + reactions(
            next_state(w, events[0]),
            events.drop_first(),
        )
    }
}

/// The commands of a sequence of answers, in order.
pub open spec fn commands(answers: Seq<ReactionView>) -> Seq<CommandView> {
    answers.map_values(|r: ReactionView| r.command)
}

/// One invitation into `group` for each of `targets`, in order.
pub open spec fn invitations(group: GroupView, targets: Seq<TargetView>) -> Seq<CommandView> {
    targets.map_values(|t: TargetView| invite_command(group, t))
}

/// Whether `event` reports a call that was answered, with success or not.
pub open spec fn is_reply(event: EventView) -> bool {
    event is Accepted || event is Refused
}

/// Every step keeps a worker well formed.
pub proof fn lemma_step_keeps_wf(w: UserView, event: EventView)
    requires
        w.wf(),
        rejection(w, event) is None,
    ensures
        next_state(w, event).wf(),
{
    lemma_advanced(w.offset);
}

/// The invite counter never goes down, and it goes up by exactly one with
/// every invite call that was answered.
pub proof fn lemma_counter_counts_invites(w: UserView, event: EventView)
    requires
        w.wf(),
        rejection(w, event) is None,
    ensures
        next_state(w, event).sent == if w.phase == Phase::Inviting && is_reply(event) {
            w.sent + 1
        } else {
            w.sent
        },
{
}

/// A refused join is not fatal: the worker logs the refusal and goes on to
/// its first search, one step further in the alphabet.
pub proof fn lemma_refused_join_goes_on(w: UserView, detail: Seq<char>)
    requires
        w.wf(),
        w.phase == Phase::Joining,
    ensures
        rejection(w, EventView::Refused(detail)) is None,
        next_state(w, EventView::Refused(detail)).phase == Phase::Searching,
        reaction_to(w, EventView::Refused(detail)) == (ReactionView {
            records: seq![RecordView::Refused { operation: Operation::Join, detail }],
            command: search_command(advanced(w.offset)),
        }),
{
}

/// A refused search is an empty cycle: the worker logs the refusal, invites
/// nobody and rests before its next cycle.
pub proof fn lemma_refused_search_cools_down(w: UserView, detail: Seq<char>)
    requires
        w.wf(),
        w.phase == Phase::Searching,
    ensures
        rejection(w, EventView::Refused(detail)) is None,
        next_state(w, EventView::Refused(detail)) == (UserView {
            phase: Phase::CoolingDown,
            ..w
        }),
        reaction_to(w, EventView::Refused(detail)) == (ReactionView {
            records: seq![RecordView::Refused { operation: Operation::Search, detail }],
            command: cool_down_command(),
        }),
{
}

/// A call that cannot be completed ends the worker: it asks for nothing
/// more, and it refuses every later event.
pub proof fn lemma_failure_stops_worker(w: UserView, later: EventView)
    requires
        w.wf(),
        w.phase == Phase::Joining || w.phase == Phase::Searching || w.phase == Phase::Inviting,
    ensures
        rejection(w, EventView::Failed) is None,
        next_state(w, EventView::Failed).phase == Phase::Stopped,
        reaction_to(w, EventView::Failed).command == CommandView::Stop,
        rejection(next_state(w, EventView::Failed), later) == Some(StepError::UnexpectedEvent),
{
}

/// After the cool-down the cursor has moved one step and the next search
/// asks for the new symbol.
pub proof fn lemma_cycle_advances_cursor(w: UserView)
    requires
        w.wf(),
        w.phase == Phase::CoolingDown,
    ensures
        rejection(w, EventView::Elapsed) is None,
        next_state(w, EventView::Elapsed).offset == advanced(w.offset),
        is_symbol(next_state(w, EventView::Elapsed).offset),
        reaction_to(w, EventView::Elapsed).command == search_command(advanced(w.offset)),
{
    lemma_advanced(w.offset);
}

/// The rest of a batch: with the invite of `pending[next]` outstanding and
/// one reply for it and for every user after it, the worker invites each of
/// those users in order and then rests.
proof fn lemma_batch_rest(w: UserView, replies: Seq<EventView>)
    requires
        w.wf(),
        w.phase == Phase::Inviting,
        replies.len() == w.pending.len() - w.next,
        forall|i: int| 0 <= i < replies.len() ==> is_reply(#[trigger] replies[i]),
    ensures
        reactions(w, replies).len() == replies.len(),
        commands(reactions(w, replies)) == invitations(
            w.group,
            w.pending.skip(w.next as int + 1),
        ).push(cool_down_command()),
        forall|i: int|
            0 <= i < replies.len() ==> (#[trigger] reactions(w, replies)[i]).records.last()
                == (RecordView::InviteSent {
                counter: (w.sent + i + 1) as nat,
                target: w.pending[w.next as int + i].display_name,
                group: w.group.name,
                account: w.account.name,
            }),
        state_after(w, replies) == (UserView {
            phase: Phase::CoolingDown,
            pending: Seq::empty(),
            next: 0,
            sent: w.sent + replies.len(),
            ..w
        }),
    decreases replies.len(),
{
    let first = replies[0];
    assert(is_reply(first));
    assert(rejection(w, first) is None);
    let then = next_state(w, first);
    let rest = replies.drop_first();
    let all = reactions(w, replies);
    assert(all == seq![reaction_to(w, first)] + reactions(then, rest));
    if w.next + 1 < w.pending.len() {
        assert forall|i: int| 0 <= i < rest.len() implies is_reply(#[trigger] rest[i]) by {
            assert(rest[i] == replies[i + 1]);
        }
        lemma_batch_rest(then, rest);
        let tail = reactions(then, rest);
        assert(commands(all) =~= seq![invite_command(w.group, w.pending[w.next as int + 1])] + commands(
            tail,
        ));
        assert(invitations(w.group, w.pending.skip(w.next as int + 1)) =~= seq![
            invite_command(w.group, w.pending[w.next as int + 1]),
        ] + invitations(w.group, w.pending.skip(w.next as int + 2)));
        assert(commands(all) =~= invitations(w.group, w.pending.skip(w.next as int + 1)).push(
            cool_down_command(),
        ));
        assert forall|i: int| 0 <= i < replies.len() implies (#[trigger] all[i]).records.last()
            == (RecordView::InviteSent {
            counter: (w.sent + i + 1) as nat,
            target: w.pending[w.next as int + i].display_name,
            group: w.group.name,
            account: w.account.name,
        }) by {
            if i > 0 {
                assert(all[i] == tail[i - 1]);
            }
        }
    } else {
        assert(rest.len() == 0);
        assert(reactions(then, rest) =~= Seq::empty());
        assert(commands(all) =~= seq![cool_down_command()]);
        assert(invitations(w.group, w.pending.skip(w.next as int + 1)) =~= Seq::empty());
        assert(commands(all) =~= invitations(w.group, w.pending.skip(w.next as int + 1)).push(
            cool_down_command(),
        ));
    }
}

/// A search result of `k` users leads to exactly `k` invite calls, one for
/// each user and in the order of the result, whatever mix of successes and
/// refusals answers them; after the last answer the worker rests. Each
/// answered invite is recorded under the next number of the counter.
pub proof fn lemma_batch_invites_every_target(
    w: UserView,
    targets: Seq<TargetView>,
    replies: Seq<EventView>,
)
    requires
        w.wf(),
        w.phase == Phase::Searching,
        replies.len() == targets.len(),
        forall|i: int| 0 <= i < replies.len() ==> is_reply(#[trigger] replies[i]),
    ensures
        ({
            let events = seq![EventView::Found(targets)] + replies;
            let answers = reactions(w, events);
            &&& answers.len() == targets.len() + 1
            &&& commands(answers) == invitations(w.group, targets).push(cool_down_command())
            &&& forall|i: int|
                0 <= i < targets.len() ==> (#[trigger] answers[i + 1]).records.last()
                    == (RecordView::InviteSent {
                    counter: (w.sent + i + 1) as nat,
                    target: targets[i].display_name,
                    group: w.group.name,
                    account: w.account.name,
                })
            &&& state_after(w, events) == (UserView {
                phase: Phase::CoolingDown,
                sent: w.sent + targets.len(),
                ..w
            })
        }),
{
    let found = EventView::Found(targets);
    let events = seq![found] + replies;
    let answers = reactions(w, events);
    assert(events[0] == found);
    assert(events.drop_first() =~= replies);
    assert(rejection(w, found) is None);
    let then = next_state(w, found);
    assert(answers == seq![reaction_to(w, found)] + reactions(then, replies));
    if targets.len() == 0 {
        assert(reactions(then, replies) =~= Seq::empty());
        assert(commands(answers) =~= seq![cool_down_command()]);
        assert(invitations(w.group, targets) =~= Seq::empty());
        assert(commands(answers) =~= invitations(w.group, targets).push(cool_down_command()));
        assert(state_after(w, events) == then);
        assert(then == (UserView { phase: Phase::CoolingDown, sent: w.sent, ..w }));
    } else {
        lemma_batch_rest(then, replies);
        let tail = reactions(then, replies);
        assert(commands(answers) =~= seq![invite_command(w.group, targets[0])] + commands(tail));
        assert(invitations(w.group, targets) =~= seq![invite_command(w.group, targets[0])]
            + invitations(w.group, targets.skip(1)));
        assert(commands(answers) =~= invitations(w.group, targets).push(cool_down_command()));
        assert forall|i: int| 0 <= i < targets.len() implies (#[trigger] answers[i
            + 1]).records.last() == (RecordView::InviteSent {
            counter: (w.sent + i + 1) as nat,
            target: targets[i].display_name,
            group: w.group.name,
            account: w.account.name,
        }) by {
            assert(answers[i + 1] == tail[i]);
        }
        assert(state_after(w, events) == state_after(then, replies));
        assert(w.pending =~= Seq::empty());
    }
}

} // verus!
