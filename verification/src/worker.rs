//! One account's worker as a state machine.
//!
//! A worker never performs a remote call itself. It hands its driver a
//! `Command`, the driver carries it out and reports what happened as an
//! `Event`, and `User::step` answers with the records to log and the next
//! command. The life of a worker is: join the group once, then for ever
//! advance the cursor, search, invite every user found, and cool down.

use crate::alphabet::is_symbol;
use crate::cursor::{advance, advanced};
use crate::model::{targets_view, Account, AccountView, Group, GroupView, Target, TargetView};
use vstd::prelude::*;

verus! {

/// Number of users one search asks for.
pub const PAGE_SIZE: u32 = 10;

/// Seconds a worker rests between two cycles.
pub const COOL_DOWN_SECONDS: u64 = 180;

/// Where a worker stands in its life.
#[derive(Clone, Copy, Debug, PartialEq, Eq, Structural)]
pub enum Phase {
    /// Built, not yet started.
    Created,
    /// The join call is outstanding.
    Joining,
    /// A search call is outstanding.
    Searching,
    /// An invite call is outstanding.
    Inviting,
    /// The cool-down between two cycles is running.
    CoolingDown,
    /// A call could not be completed; the worker has ended.
    Stopped,
}

/// The three remote operations.
#[derive(Clone, Copy, Debug, PartialEq, Eq, Structural)]
pub enum Operation {
    Join,
    Search,
    Invite,
}

/// The order in which a search lists the users it finds.
#[derive(Clone, Copy, Debug, PartialEq, Eq, Structural)]
pub enum SearchOrder {
    /// Most recent login first.
    LastLogin,
}

/// What the driver reports back after carrying out a command.
#[derive(Debug, PartialEq, Eq)]
pub enum Event {
    /// The worker's task has begun.
    Started,
    /// A join or invite call was answered with success.
    Accepted,
    /// A call was answered, but not with success; the text describes the
    /// answer.
    Refused(String),
    /// A search was answered with success and these users, in order.
    Found(Vec<Target>),
    /// The cool-down is over.
    Elapsed,
    /// A call could not be completed at all.
    Failed,
}

/// What an `Event` holds.
pub enum EventView {
    Started,
    Accepted,
    Refused(Seq<char>),
    Found(Seq<TargetView>),
    Elapsed,
    Failed,
}

impl View for Event {
    type V = EventView;

    open spec fn view(&self) -> EventView {
        match self {
            Event::Started => EventView::Started,
            Event::Accepted => EventView::Accepted,
            Event::Refused(detail) => EventView::Refused(detail@),
            Event::Found(targets) => EventView::Found(targets_view(targets@)),
            Event::Elapsed => EventView::Elapsed,
            Event::Failed => EventView::Failed,
        }
    }
}

/// What the worker asks its driver to do next.
#[derive(Debug, PartialEq, Eq)]
pub enum Command {
    /// Join the group.
    Join { group_id: String },
    /// Search for users by prefix.
    Search { prefix: char, page_size: u32, order: SearchOrder },
    /// Invite a user into the group; `override_block` asks the service to
    /// send the invitation even where a block would hold it back.
    Invite { group_id: String, user_id: String, override_block: bool },
    /// Rest, without holding up any other worker.
    Sleep { seconds: u64 },
    /// Nothing more: the worker has ended.
    Stop,
}

/// What a `Command` holds.
pub enum CommandView {
    Join { group_id: Seq<char> },
    Search { prefix: char, page_size: u32, order: SearchOrder },
    Invite { group_id: Seq<char>, user_id: Seq<char>, override_block: bool },
    Sleep { seconds: u64 },
    Stop,
}

impl View for Command {
    type V = CommandView;

    open spec fn view(&self) -> CommandView {
        match self {
            Command::Join { group_id } => CommandView::Join { group_id: group_id@ },
            Command::Search { prefix, page_size, order } => CommandView::Search {
                prefix: *prefix,
                page_size: *page_size,
                order: *order,
            },
            Command::Invite { group_id, user_id, override_block } => CommandView::Invite {
                group_id: group_id@,
                user_id: user_id@,
                override_block: *override_block,
            },
            Command::Sleep { seconds } => CommandView::Sleep { seconds: *seconds },
            Command::Stop => CommandView::Stop,
        }
    }
}

/// One entry of the worker's log.
#[derive(Debug, PartialEq, Eq)]
pub enum Record {
    /// A call was answered, but not with success.
    Refused { operation: Operation, detail: String },
    /// An invite call was completed; `counter` numbers the worker's invites
    /// from one.
    InviteSent { counter: u64, target: String, group: String, account: String },
}

/// What a `Record` holds.
pub enum RecordView {
    Refused { operation: Operation, detail: Seq<char> },
    InviteSent { counter: nat, target: Seq<char>, group: Seq<char>, account: Seq<char> },
}

impl View for Record {
    type V = RecordView;

    open spec fn view(&self) -> RecordView {
        match self {
            Record::Refused { operation, detail } => RecordView::Refused {
                operation: *operation,
                detail: detail@,
            },
            Record::InviteSent { counter, target, group, account } => RecordView::InviteSent {
                counter: *counter as nat,
                target: target@,
                group: group@,
                account: account@,
            },
        }
    }
}

/// The views of a sequence of records, in the same order.
pub open spec fn records_view(records: Seq<Record>) -> Seq<RecordView> {
    records.map_values(|r: Record| r@)
}

/// The worker's answer to an event: what to log, then what to do.
#[derive(Debug, PartialEq, Eq)]
pub struct Reaction {
    pub records: Vec<Record>,
    pub command: Command,
}

/// What a `Reaction` holds.
pub struct ReactionView {
    pub records: Seq<RecordView>,
    pub command: CommandView,
}

impl View for Reaction {
    type V = ReactionView;

    open spec fn view(&self) -> ReactionView {
        ReactionView { records: records_view(self.records@), command: self.command@ }
    }
}

/// Why a worker did not take a step.
#[derive(Clone, Copy, Debug, PartialEq, Eq, Structural)]
pub enum StepError {
    /// The event answers no command that the worker has outstanding.
    UnexpectedEvent,
}

/// A worker as contracts see it.
pub struct UserView {
    pub account: AccountView,
    pub group: GroupView,
    /// The cursor: the prefix of the latest search.
    pub offset: char,
    pub phase: Phase,
    /// The users of the search result being worked through.
    pub pending: Seq<TargetView>,
    /// Position in `pending` of the user whose invite is outstanding.
    pub next: nat,
    /// Invite calls completed so far.
    pub sent: nat,
}

impl UserView {
    /// The cursor is a symbol, and a search result is held exactly while its
    /// users are being invited.
    pub open spec fn wf(self) -> bool {
        &&& is_symbol(self.offset)
        &&& self.phase == Phase::Inviting ==> self.next < self.pending.len()
        &&& self.phase != Phase::Inviting ==> self.pending.len() == 0 && self.next == 0
    }
}

/// A worker that has not started yet.
pub open spec fn fresh_worker(account: AccountView, group: GroupView, offset: char) -> UserView {
    UserView {
        account,
        group,
        offset,
        phase: Phase::Created,
        pending: Seq::empty(),
        next: 0,
        sent: 0,
    }
}

/// Whether `event` answers the command that a worker in `phase` has
/// outstanding.
pub open spec fn expects(phase: Phase, event: EventView) -> bool {
    match phase {
        Phase::Created => event is Started,
        Phase::Joining => event is Accepted || event is Refused || event is Failed,
        Phase::Searching => event is Found || event is Refused || event is Failed,
        Phase::Inviting => event is Accepted || event is Refused || event is Failed,
        Phase::CoolingDown => event is Elapsed,
        Phase::Stopped => false,
    }
}

/// Why the worker `w` refuses `event`, if it does.
pub open spec fn rejection(w: UserView, event: EventView) -> Option<StepError> {
    if !expects(w.phase, event) {
        Some(StepError::UnexpectedEvent)
    } else {
        None
    }
}

/// The search for `prefix`: a fixed page size, most recent login first.
pub open spec fn search_command(prefix: char) -> CommandView {
    CommandView::Search { prefix, page_size: PAGE_SIZE, order: SearchOrder::LastLogin }
}

/// The invitation of `target` into `group`, overriding a block.
pub open spec fn invite_command(group: GroupView, target: TargetView) -> CommandView {
    CommandView::Invite { group_id: group.id, user_id: target.id, override_block: true }
}

/// The rest between two cycles.
pub open spec fn cool_down_command() -> CommandView {
    CommandView::Sleep { seconds: COOL_DOWN_SECONDS }
}

/// The record of a refusal, where `event` is one; else nothing.
pub open spec fn refusal_records(operation: Operation, event: EventView) -> Seq<RecordView> {
    match event {
        EventView::Refused(detail) => seq![RecordView::Refused { operation, detail }],
        _ => Seq::empty(),
    }
}

/// The record of the invite that `w` has outstanding, once it is completed.
pub open spec fn invite_record(w: UserView) -> RecordView {
    RecordView::InviteSent {
        counter: w.sent + 1,
        target: w.pending[w.next as int].display_name,
        group: w.group.name,
        account: w.account.name,
    }
}

/// The users that `event` brings, where it is a search result; else none.
pub open spec fn found_targets(event: EventView) -> Seq<TargetView> {
    match event {
        EventView::Found(targets) => targets,
        _ => Seq::empty(),
    }
}

/// The worker after `event`, where it does not refuse it.
pub open spec fn next_state(w: UserView, event: EventView) -> UserView {
    if event is Failed {
        UserView { phase: Phase::Stopped, pending: Seq::empty(), next: 0, ..w }
    } else {
        match w.phase {
            Phase::Created => UserView { phase: Phase::Joining, ..w },
            Phase::Joining | Phase::CoolingDown => UserView {
                offset: advanced(w.offset),
                phase: Phase::Searching,
                ..w
            },
            Phase::Searching => {
                if found_targets(event).len() > 0 {
                    UserView { phase: Phase::Inviting, pending: found_targets(event), next: 0, ..w }
                } else {
                    UserView { phase: Phase::CoolingDown, ..w }
                }
            },
            Phase::Inviting => {
                if w.next + 1 < w.pending.len() {
                    UserView { next: w.next + 1, sent: w.sent + 1, ..w }
                } else {
                    UserView {
                        phase: Phase::CoolingDown,
                        pending: Seq::empty(),
                        next: 0,
                        sent: w.sent + 1,
                        ..w
                    }
                }
            },
            Phase::Stopped => w,
        }
    }
}

/// The worker's answer to `event`, where it does not refuse it.
pub open spec fn reaction_to(w: UserView, event: EventView) -> ReactionView {
    if event is Failed {
        ReactionView { records: Seq::empty(), command: CommandView::Stop }
    } else {
        match w.phase {
            Phase::Created => ReactionView {
                records: Seq::empty(),
                command: CommandView::Join { group_id: w.group.id },
            },
            Phase::Joining => ReactionView {
                records: refusal_records(Operation::Join, event),
                command: search_command(advanced(w.offset)),
            },
            Phase::CoolingDown => ReactionView {
                records: Seq::empty(),
                command: search_command(advanced(w.offset)),
            },
            Phase::Searching => {
                if found_targets(event).len() > 0 {
                    ReactionView {
                        records: Seq::empty(),
                        command: invite_command(w.group, found_targets(event)[0]),
                    }
                } else {
                    ReactionView {
                        records: refusal_records(Operation::Search, event),
                        command: cool_down_command(),
                    }
                }
            },
            Phase::Inviting => ReactionView {
                records: refusal_records(Operation::Invite, event).push(invite_record(w)),
                command: if w.next + 1 < w.pending.len() {
                    invite_command(w.group, w.pending[(w.next + 1) as int])
                } else {
                    cool_down_command()
                },
            },
            Phase::Stopped => ReactionView { records: Seq::empty(), command: CommandView::Stop },
        }
    }
}

/// One account's worker.
pub struct User {
    account: Account,
    group: Group,
    offset: char,
    phase: Phase,
    pending: Vec<Target>,
    next: usize,
    sent: u64,
}

impl View for User {
    type V = UserView;

    closed spec fn view(&self) -> UserView {
        UserView {
            account: self.account@,
            group: self.group@,
            offset: self.offset,
            phase: self.phase,
            pending: targets_view(self.pending@),
            next: self.next as nat,
            sent: self.sent as nat,
        }
    }
}

impl User {
    /// The worker is in a state that its own steps can lead to.
    pub open spec fn wf(&self) -> bool {
        self@.wf()
    }

    /// A worker for `account` and `group` whose cursor stands at `offset`.
    /// It has not started: its first event is `Event::Started`.
    pub fn new(account: Account, group: Group, offset: char) -> (worker: User)
        requires
            is_symbol(offset),
        ensures
            worker.wf(),
            worker@ == fresh_worker(account@, group@, offset),
    {
        let worker = User {
            account,
            group,
            offset,
            phase: Phase::Created,
            pending: Vec::new(),
            next: 0,
            sent: 0,
        };
        proof {
            assert(targets_view(worker.pending@) =~= Seq::empty());
        }
        worker
    }

    /// The account this worker acts for.
    pub fn account(&self) -> (account: &Account)
        ensures
            account@ == self@.account,
    {
        &self.account
    }

    /// The group this worker invites into.
    pub fn group(&self) -> (group: &Group)
        ensures
            group@ == self@.group,
    {
        &self.group
    }

    /// The cursor.
    pub fn offset(&self) -> (offset: char)
        ensures
            offset == self@.offset,
    {
        self.offset
    }

    /// Where the worker stands.
    pub fn phase(&self) -> (phase: Phase)
        ensures
            phase == self@.phase,
    {
        self.phase
    }

    /// Number of invite calls completed so far.
    pub fn invites_sent(&self) -> (sent: u64)
        ensures
            sent == self@.sent,
    {
        self.sent
    }

    /// Whether `event` answers the command this worker has outstanding.
    pub fn awaits(&self, event: &Event) -> (yes: bool)
        ensures
            yes == expects(self@.phase, event@),
    {
        match self.phase {
            Phase::Created => matches!(event, Event::Started),
            Phase::Joining | Phase::Inviting => matches!(
                event,
                Event::Accepted | Event::Refused(_) | Event::Failed
            ),
            Phase::Searching => matches!(
                event,
                Event::Found(_) | Event::Refused(_) | Event::Failed
            ),
            Phase::CoolingDown => matches!(event, Event::Elapsed),
            Phase::Stopped => false,
        }
    }

    /// Takes one step: the driver reports `event`, the worker moves on and
    /// answers with what to log and what to do next. An event that answers
    /// nothing outstanding is refused and leaves the worker as it was.
    /// While an invite is outstanding the counter must have room for it.
    pub fn step(&mut self, event: Event) -> (result: Result<Reaction, StepError>)
        requires
            old(self).wf(),
            old(self)@.phase == Phase::Inviting ==> old(self)@.sent < u64::MAX,
        ensures
            final(self).wf(),
            result is Ok <==> rejection(old(self)@, event@) is None,
            result matches Ok(reaction) ==> final(self)@ == next_state(old(self)@, event@)
                && reaction@ == reaction_to(old(self)@, event@),
            result matches Err(error) ==> rejection(old(self)@, event@) == Some(error)
                && final(self)@ == old(self)@,
    {
        if !self.awaits(&event) {
            return Err(StepError::UnexpectedEvent);
        }
        match event {
            Event::Failed => Ok(self.halt()),
            Event::Started => Ok(self.begin_join()),
            Event::Elapsed => Ok(self.begin_cycle(no_records())),
            Event::Found(targets) => {
                assert(targets_view(targets@).len() == targets@.len());
                if targets.len() > 0 {
                    Ok(self.begin_batch(targets))
                } else {
                    Ok(self.cool_down(no_records()))
                }
            },
            Event::Accepted => {
                match self.phase {
                    Phase::Joining => Ok(self.begin_cycle(no_records())),
                    _ => Ok(self.settle_invite(no_records())),
                }
            },
            Event::Refused(detail) => {
                match self.phase {
                    Phase::Joining => {
                        let records = refusal(Operation::Join, detail);
                        Ok(self.begin_cycle(records))
                    },
                    Phase::Searching => {
                        let records = refusal(Operation::Search, detail);
                        Ok(self.cool_down(records))
                    },
                    _ => {
                        let records = refusal(Operation::Invite, detail);
                        Ok(self.settle_invite(records))
                    },
                }
            },
        }
    }

    fn halt(&mut self) -> (reaction: Reaction)
        requires
            old(self).wf(),
        ensures
            final(self).wf(),
            final(self)@ == (UserView {
                phase: Phase::Stopped,
                pending: Seq::empty(),
                next: 0,
                ..old(self)@
            }),
            reaction@ == (ReactionView { records: Seq::empty(), command: CommandView::Stop }),
    {
        self.phase = Phase::Stopped;
        self.pending = Vec::new();
        self.next = 0;
        let reaction = Reaction { records: Vec::new(), command: Command::Stop };
        proof {
            assert(targets_view(self.pending@) =~= Seq::empty());
            assert(records_view(reaction.records@) =~= Seq::empty());
        }
        reaction
    }

    fn begin_join(&mut self) -> (reaction: Reaction)
        requires
            old(self).wf(),
            old(self)@.phase == Phase::Created,
        ensures
            final(self).wf(),
            final(self)@ == (UserView { phase: Phase::Joining, ..old(self)@ }),
            reaction@ == (ReactionView {
                records: Seq::empty(),
                command: CommandView::Join { group_id: old(self)@.group.id },
            }),
    {
        self.phase = Phase::Joining;
        let reaction = Reaction {
            records: Vec::new(),
            command: Command::Join { group_id: self.group.id.clone() },
        };
        proof {
            assert(records_view(reaction.records@) =~= Seq::empty());
        }
        reaction
    }

    fn begin_cycle(&mut self, records: Vec<Record>) -> (reaction: Reaction)
        requires
            old(self).wf(),
            old(self)@.phase == Phase::Joining || old(self)@.phase == Phase::CoolingDown,
        ensures
            final(self).wf(),
            final(self)@ == (UserView {
                offset: advanced(old(self)@.offset),
                phase: Phase::Searching,
                ..old(self)@
            }),
            reaction@ == (ReactionView {
                records: records_view(records@),
                command: search_command(advanced(old(self)@.offset)),
            }),
    {
        self.offset = advance(self.offset);
        self.phase = Phase::Searching;
        Reaction {
            records,
            command: Command::Search {
                prefix: self.offset,
                page_size: PAGE_SIZE,
                order: SearchOrder::LastLogin,
            },
        }
    }

    fn cool_down(&mut self, records: Vec<Record>) -> (reaction: Reaction)
        requires
            old(self).wf(),
            old(self)@.phase == Phase::Searching,
        ensures
            final(self).wf(),
            final(self)@ == (UserView { phase: Phase::CoolingDown, ..old(self)@ }),
            reaction@ == (ReactionView {
                records: records_view(records@),
                command: cool_down_command(),
            }),
    {
        self.phase = Phase::CoolingDown;
        Reaction { records, command: Command::Sleep { seconds: COOL_DOWN_SECONDS } }
    }

    fn begin_batch(&mut self, targets: Vec<Target>) -> (reaction: Reaction)
        requires
            old(self).wf(),
            old(self)@.phase == Phase::Searching,
            targets.len() > 0,
        ensures
            final(self).wf(),
            final(self)@ == (UserView {
                phase: Phase::Inviting,
                pending: targets_view(targets@),
                next: 0,
                ..old(self)@
            }),
            reaction@ == (ReactionView {
                records: Seq::empty(),
                command: invite_command(old(self)@.group, targets_view(targets@)[0]),
            }),
    {
        let command = self.invite(&targets[0]);
        self.phase = Phase::Inviting;
        self.pending = targets;
        self.next = 0;
        let reaction = Reaction { records: Vec::new(), command };
        proof {
            assert(records_view(reaction.records@) =~= Seq::empty());
        }
        reaction
    }

    fn settle_invite(&mut self, records: Vec<Record>) -> (reaction: Reaction)
        requires
            old(self).wf(),
            old(self)@.phase == Phase::Inviting,
            old(self)@.sent < u64::MAX,
        ensures
            final(self).wf(),
            final(self)@ == next_state(old(self)@, EventView::Accepted),
            reaction@ == (ReactionView {
                records: records_view(records@).push(invite_record(old(self)@)),
                command: if old(self)@.next + 1 < old(self)@.pending.len() {
                    invite_command(old(self)@.group, old(self)@.pending[(old(self)@.next + 1) as int])
                } else {
                    cool_down_command()
                },
            }),
    {
        let mut records = records;
        let ghost earlier = records@;
        assert(targets_view(self.pending@).len() == self.pending@.len());
        assert(self.next < self.pending.len());
        self.sent = self.sent + 1;
        let record = Record::InviteSent {
            counter: self.sent,
            target: self.pending[self.next].display_name.clone(),
            group: self.group.name.clone(),
            account: self.account.name.clone(),
        };
        assert(record@ == invite_record(old(self)@));
        records.push(record);
        assert(records_view(records@) =~= records_view(earlier).push(invite_record(old(self)@)));
        if self.next + 1 < self.pending.len() {
            self.next = self.next + 1;
            let command = self.invite(&self.pending[self.next]);
            Reaction { records, command }
        } else {
            self.phase = Phase::CoolingDown;
            self.pending = Vec::new();
            self.next = 0;
            assert(targets_view(self.pending@) =~= Seq::empty());
            Reaction { records, command: Command::Sleep { seconds: COOL_DOWN_SECONDS } }
        }
    }

    fn invite(&self, target: &Target) -> (command: Command)
        ensures
            command@ == invite_command(self@.group, target@),
    {
        Command::Invite {
            group_id: self.group.id.clone(),
            user_id: target.id.clone(),
            override_block: true,
        }
    }
}

/// An empty list of records.
fn no_records() -> (records: Vec<Record>)
    ensures
        records_view(records@) == Seq::<RecordView>::empty(),
{
    let records: Vec<Record> = Vec::new();
    assert(records_view(records@) =~= Seq::empty());
    records
}

/// The records of a refusal of `operation` described by `detail`.
fn refusal(operation: Operation, detail: String) -> (records: Vec<Record>)
    ensures
        records_view(records@) == refusal_records(operation, EventView::Refused(detail@)),
{
    let mut records: Vec<Record> = Vec::new();
    records.push(Record::Refused { operation, detail });
    assert(records_view(records@) =~= refusal_records(operation, EventView::Refused(detail@)));
    records
}

} // verus!
