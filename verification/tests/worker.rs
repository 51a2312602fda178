use invite_fleet::model::{Account, Group, Target};
use invite_fleet::worker::{
    Command, Event, Operation, Phase, Reaction, Record, SearchOrder, StepError, User,
    COOL_DOWN_SECONDS, PAGE_SIZE,
};

fn account(name: &str) -> Account {
    Account { name: name.to_string(), cookie: format!("auth={}", name), proxy: None }
}

fn group() -> Group {
    Group { name: "Friends".to_string(), id: "grp_1".to_string() }
}

fn target(n: usize) -> Target {
    Target { id: format!("usr_{}", n), display_name: format!("User {}", n) }
}

fn search(prefix: char) -> Command {
    Command::Search { prefix, page_size: 10, order: SearchOrder::LastLogin }
}

fn invite(n: usize) -> Command {
    Command::Invite {
        group_id: "grp_1".to_string(),
        user_id: format!("usr_{}", n),
        override_block: true,
    }
}

fn sent(counter: u64, n: usize, account: &str) -> Record {
    Record::InviteSent {
        counter,
        target: format!("User {}", n),
        group: "Friends".to_string(),
        account: account.to_string(),
    }
}

fn cool_down() -> Command {
    Command::Sleep { seconds: 180 }
}

// A worker that has joined and whose first search, for the symbol after
// `offset`, is outstanding.
fn searching(offset: char) -> User {
    let mut worker = User::new(account("first"), group(), offset);
    worker.step(Event::Started).unwrap();
    worker.step(Event::Accepted).unwrap();
    worker
}

#[test]
fn fixed_parameters_have_their_values() {
    assert_eq!(PAGE_SIZE, 10);
    assert_eq!(COOL_DOWN_SECONDS, 180);
}

#[test]
fn new_worker_has_not_started() {
    let worker = User::new(account("first"), group(), 'c');
    assert_eq!(worker.phase(), Phase::Created);
    assert_eq!(worker.offset(), 'c');
    assert_eq!(worker.invites_sent(), 0);
    assert_eq!(worker.account(), &account("first"));
    assert_eq!(worker.group(), &group());
}

#[test]
fn start_asks_to_join_the_group() {
    let mut worker = User::new(account("first"), group(), '0');
    let reaction = worker.step(Event::Started).unwrap();
    assert_eq!(
        reaction,
        Reaction { records: vec![], command: Command::Join { group_id: "grp_1".to_string() } }
    );
    assert_eq!(worker.phase(), Phase::Joining);
    assert_eq!(worker.offset(), '0');
}

#[test]
fn accepted_join_leads_to_the_first_search() {
    let mut worker = User::new(account("first"), group(), '0');
    worker.step(Event::Started).unwrap();
    let reaction = worker.step(Event::Accepted).unwrap();
    assert_eq!(reaction, Reaction { records: vec![], command: search('1') });
    assert_eq!(worker.phase(), Phase::Searching);
    assert_eq!(worker.offset(), '1');
}

#[test]
fn refused_join_is_logged_and_still_leads_to_the_first_search() {
    let mut worker = User::new(account("first"), group(), 'c');
    worker.step(Event::Started).unwrap();
    let reaction = worker.step(Event::Refused("already a member".to_string())).unwrap();
    assert_eq!(
        reaction,
        Reaction {
            records: vec![Record::Refused {
                operation: Operation::Join,
                detail: "already a member".to_string(),
            }],
            command: search('d'),
        }
    );
    assert_eq!(worker.phase(), Phase::Searching);
}

#[test]
fn failed_join_stops_the_worker() {
    let mut worker = User::new(account("first"), group(), 'c');
    worker.step(Event::Started).unwrap();
    let reaction = worker.step(Event::Failed).unwrap();
    assert_eq!(reaction, Reaction { records: vec![], command: Command::Stop });
    assert_eq!(worker.phase(), Phase::Stopped);
}

#[test]
fn search_asks_for_ten_users_by_last_login() {
    let mut worker = User::new(account("first"), group(), 'y');
    worker.step(Event::Started).unwrap();
    let reaction = worker.step(Event::Accepted).unwrap();
    assert_eq!(
        reaction.command,
        Command::Search { prefix: 'z', page_size: 10, order: SearchOrder::LastLogin }
    );
}

#[test]
fn two_targets_get_two_invites_and_counters_one_and_two() {
    let mut worker = searching('0');
    let first = worker.step(Event::Found(vec![target(1), target(2)])).unwrap();
    assert_eq!(first, Reaction { records: vec![], command: invite(1) });
    assert_eq!(worker.phase(), Phase::Inviting);
    let second = worker.step(Event::Accepted).unwrap();
    assert_eq!(second, Reaction { records: vec![sent(1, 1, "first")], command: invite(2) });
    let third = worker.step(Event::Accepted).unwrap();
    assert_eq!(third, Reaction { records: vec![sent(2, 2, "first")], command: cool_down() });
    assert_eq!(worker.phase(), Phase::CoolingDown);
    assert_eq!(worker.invites_sent(), 2);
}

#[test]
fn every_target_is_invited_in_order_whatever_the_answers() {
    for k in 0..6usize {
        for mask in 0..(1u32 << k) {
            let mut worker = searching('a');
            let targets: Vec<Target> = (0..k).map(target).collect();
            let mut commands = vec![worker.step(Event::Found(targets)).unwrap().command];
            for i in 0..k {
                let reply = if mask & (1 << i) == 0 {
                    Event::Accepted
                } else {
                    Event::Refused(format!("no {}", i))
                };
                commands.push(worker.step(reply).unwrap().command);
            }
            let mut expected: Vec<Command> = (0..k).map(invite).collect();
            expected.push(cool_down());
            assert_eq!(commands, expected);
            assert_eq!(worker.invites_sent(), k as u64);
            assert_eq!(worker.phase(), Phase::CoolingDown);
        }
    }
}

#[test]
fn refused_invite_is_logged_and_the_batch_goes_on() {
    let mut worker = searching('0');
    worker.step(Event::Found(vec![target(1), target(2), target(3)])).unwrap();
    let reaction = worker.step(Event::Refused("blocked".to_string())).unwrap();
    assert_eq!(
        reaction,
        Reaction {
            records: vec![
                Record::Refused { operation: Operation::Invite, detail: "blocked".to_string() },
                sent(1, 1, "first"),
            ],
            command: invite(2),
        }
    );
    let reaction = worker.step(Event::Accepted).unwrap();
    assert_eq!(reaction, Reaction { records: vec![sent(2, 2, "first")], command: invite(3) });
    let reaction = worker.step(Event::Refused("gone".to_string())).unwrap();
    assert_eq!(
        reaction,
        Reaction {
            records: vec![
                Record::Refused { operation: Operation::Invite, detail: "gone".to_string() },
                sent(3, 3, "first"),
            ],
            command: cool_down(),
        }
    );
}

#[test]
fn empty_search_result_leads_to_the_cool_down() {
    let mut worker = searching('0');
    let reaction = worker.step(Event::Found(vec![])).unwrap();
    assert_eq!(reaction, Reaction { records: vec![], command: cool_down() });
    assert_eq!(worker.phase(), Phase::CoolingDown);
    assert_eq!(worker.invites_sent(), 0);
}

#[test]
fn refused_search_is_logged_invites_nobody_and_cools_down() {
    let mut worker = searching('0');
    let reaction = worker.step(Event::Refused("status 500".to_string())).unwrap();
    assert_eq!(
        reaction,
        Reaction {
            records: vec![Record::Refused {
                operation: Operation::Search,
                detail: "status 500".to_string(),
            }],
            command: Command::Sleep { seconds: 180 },
        }
    );
    assert_eq!(worker.phase(), Phase::CoolingDown);
    assert_eq!(worker.invites_sent(), 0);
    let reaction = worker.step(Event::Elapsed).unwrap();
    assert_eq!(reaction, Reaction { records: vec![], command: search('2') });
}

#[test]
fn failed_search_stops_the_worker() {
    let mut worker = searching('0');
    let reaction = worker.step(Event::Failed).unwrap();
    assert_eq!(reaction, Reaction { records: vec![], command: Command::Stop });
    assert_eq!(worker.phase(), Phase::Stopped);
}

#[test]
fn failed_invite_stops_the_worker_in_the_middle_of_a_batch() {
    let mut worker = searching('0');
    worker.step(Event::Found(vec![target(1), target(2), target(3)])).unwrap();
    worker.step(Event::Accepted).unwrap();
    let reaction = worker.step(Event::Failed).unwrap();
    assert_eq!(reaction, Reaction { records: vec![], command: Command::Stop });
    assert_eq!(worker.phase(), Phase::Stopped);
    assert_eq!(worker.invites_sent(), 1);
}

#[test]
fn stopped_worker_refuses_every_event() {
    let mut worker = searching('0');
    worker.step(Event::Failed).unwrap();
    let events = vec![
        Event::Started,
        Event::Accepted,
        Event::Refused("x".to_string()),
        Event::Found(vec![target(1)]),
        Event::Elapsed,
        Event::Failed,
    ];
    for event in events {
        assert!(!worker.awaits(&event));
        assert_eq!(worker.step(event), Err(StepError::UnexpectedEvent));
        assert_eq!(worker.phase(), Phase::Stopped);
    }
}

#[test]
fn unexpected_event_leaves_the_worker_as_it_was() {
    let mut worker = User::new(account("first"), group(), 'k');
    assert_eq!(worker.step(Event::Accepted), Err(StepError::UnexpectedEvent));
    assert_eq!(worker.step(Event::Failed), Err(StepError::UnexpectedEvent));
    assert_eq!(worker.phase(), Phase::Created);
    worker.step(Event::Started).unwrap();
    assert_eq!(worker.step(Event::Started), Err(StepError::UnexpectedEvent));
    assert_eq!(worker.step(Event::Elapsed), Err(StepError::UnexpectedEvent));
    assert_eq!(worker.step(Event::Found(vec![target(1)])), Err(StepError::UnexpectedEvent));
    assert_eq!(worker.phase(), Phase::Joining);
    assert_eq!(worker.offset(), 'k');
    worker.step(Event::Accepted).unwrap();
    assert_eq!(worker.step(Event::Accepted), Err(StepError::UnexpectedEvent));
    assert_eq!(worker.phase(), Phase::Searching);
    assert_eq!(worker.offset(), 'l');
    worker.step(Event::Found(vec![target(1)])).unwrap();
    assert_eq!(worker.step(Event::Found(vec![target(2)])), Err(StepError::UnexpectedEvent));
    assert_eq!(worker.step(Event::Elapsed), Err(StepError::UnexpectedEvent));
    assert_eq!(worker.phase(), Phase::Inviting);
    let reaction = worker.step(Event::Accepted).unwrap();
    assert_eq!(reaction, Reaction { records: vec![sent(1, 1, "first")], command: cool_down() });
    assert_eq!(worker.step(Event::Accepted), Err(StepError::UnexpectedEvent));
    assert_eq!(worker.step(Event::Failed), Err(StepError::UnexpectedEvent));
    assert_eq!(worker.phase(), Phase::CoolingDown);
}

#[test]
fn awaits_tells_which_events_a_phase_answers_to() {
    let mut worker = User::new(account("first"), group(), '0');
    assert!(worker.awaits(&Event::Started));
    assert!(!worker.awaits(&Event::Accepted));
    worker.step(Event::Started).unwrap();
    assert!(worker.awaits(&Event::Accepted));
    assert!(worker.awaits(&Event::Refused(String::new())));
    assert!(worker.awaits(&Event::Failed));
    assert!(!worker.awaits(&Event::Found(vec![])));
    assert!(!worker.awaits(&Event::Elapsed));
    worker.step(Event::Accepted).unwrap();
    assert!(worker.awaits(&Event::Found(vec![])));
    assert!(worker.awaits(&Event::Refused(String::new())));
    assert!(worker.awaits(&Event::Failed));
    assert!(!worker.awaits(&Event::Accepted));
    worker.step(Event::Found(vec![])).unwrap();
    assert!(worker.awaits(&Event::Elapsed));
    assert!(!worker.awaits(&Event::Failed));
}

#[test]
fn counter_runs_on_across_cycles() {
    let mut worker = searching('0');
    worker.step(Event::Found(vec![target(1), target(2)])).unwrap();
    worker.step(Event::Accepted).unwrap();
    worker.step(Event::Accepted).unwrap();
    assert_eq!(worker.step(Event::Elapsed).unwrap().command, search('2'));
    worker.step(Event::Found(vec![target(3)])).unwrap();
    let reaction = worker.step(Event::Accepted).unwrap();
    assert_eq!(reaction.records, vec![sent(3, 3, "first")]);
    assert_eq!(worker.invites_sent(), 3);
}

#[test]
fn cursor_visits_every_symbol_once_in_thirty_six_cycles() {
    let mut worker = searching('z');
    let mut seen = vec![worker.offset()];
    for _ in 1..36 {
        worker.step(Event::Found(vec![])).unwrap();
        worker.step(Event::Elapsed).unwrap();
        seen.push(worker.offset());
    }
    let expected: Vec<char> = "0123456789abcdefghijklmnopqrstuvwxyz".chars().collect();
    assert_eq!(seen, expected);
    worker.step(Event::Found(vec![])).unwrap();
    assert_eq!(worker.step(Event::Elapsed).unwrap().command, search('0'));
}
