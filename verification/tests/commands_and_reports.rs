use secret_santa::commands::ban_user;
use secret_santa::commands::check_submit;
use secret_santa::commands::join_event;
use secret_santa::commands::match_users;
use secret_santa::commands::set_phase;
use secret_santa::commands::submit;
use secret_santa::commands::unmatch_users;
use secret_santa::commands::JoinReply;
use secret_santa::commands::MatchReply;
use secret_santa::commands::SubmitGate;
use secret_santa::commands::SubmitReply;
use secret_santa::commands::UnmatchReply;
use secret_santa::phase::Phase;
use secret_santa::phase::PhaseChange;
use secret_santa::report::append_decimal;
use secret_santa::report::reveal_message;
use secret_santa::report::status_report;
use secret_santa::users::TableError;
use secret_santa::users::UserInfo;
use secret_santa::users::UserTable;

fn user(id: u64, name: &str, giftee: Option<u64>, joined: bool, banned: bool) -> UserInfo {
    UserInfo {
        discord_id: id,
        username: name.to_string(),
        letter: None,
        submission: None,
        giftee_id: giftee,
        is_banned: banned,
        has_joined: joined,
    }
}

#[test]
fn join_button_flow() {
    let mut t = UserTable::new();
    assert_eq!(join_event(&mut t, Phase::Swap, 1, "a".to_string()), JoinReply::WrongPhase);
    assert_eq!(t.len(), 0);
    assert_eq!(join_event(&mut t, Phase::Join, 1, "a".to_string()), JoinReply::Joined);
    assert_eq!(join_event(&mut t, Phase::Join, 1, "a".to_string()), JoinReply::AlreadyJoined);
    t.leave(1);
    assert_eq!(join_event(&mut t, Phase::Join, 1, "a".to_string()), JoinReply::Rejoined);
    assert!(t.get_userinfo_by_id(1).unwrap().has_joined);
    assert!(ban_user(&mut t, Phase::Join, 1));
    assert_eq!(join_event(&mut t, Phase::Join, 1, "a".to_string()), JoinReply::Banned);
    assert_eq!(t.len(), 1);
}

#[test]
fn ban_is_announced_only_while_joining() {
    let mut t = UserTable::from_rows(vec![user(1, "a", None, true, false), user(2, "b", None, true, false)]).unwrap();
    assert!(!ban_user(&mut t, Phase::Swap, 1));
    assert!(t.is_user_banned(1));
    assert!(ban_user(&mut t, Phase::Join, 2));
}

#[test]
fn manual_matching() {
    let mut t = UserTable::from_rows(vec![
        user(1, "a", None, true, false),
        user(2, "b", None, true, false),
        user(3, "c", Some(4), true, false),
    ])
    .unwrap();
    assert_eq!(match_users(&mut t, Phase::Join, 1, 2), Ok(MatchReply::WrongPhase));
    assert_eq!(t.check_if_matched(1), Ok(false));
    assert_eq!(match_users(&mut t, Phase::Swap, 1, 9), Err(TableError::NoRow));
    assert_eq!(match_users(&mut t, Phase::Swap, 9, 1), Err(TableError::NoRow));
    assert_eq!(match_users(&mut t, Phase::Read, 1, 3), Ok(MatchReply::AlreadyMatched));
    assert_eq!(match_users(&mut t, Phase::Swap, 1, 2), Ok(MatchReply::Matched));
    assert_eq!(t.get_giftee(1), Ok(2));
    assert_eq!(t.get_giftee(2), Ok(1));
    assert_eq!(unmatch_users(&mut t, Phase::Join, 1), Ok(UnmatchReply::Unmatched));
    assert_eq!(t.check_if_matched(1), Ok(false));
    assert_eq!(t.check_if_matched(2), Ok(false));
    assert_eq!(unmatch_users(&mut t, Phase::Read, 1), Ok(UnmatchReply::NotMatched));
    assert_eq!(unmatch_users(&mut t, Phase::Read, 7), Err(TableError::NoRow));
}

#[test]
fn phase_command_prepares_the_table() {
    let mut t = UserTable::from_rows(vec![
        user(1, "a", None, true, false),
        user(2, "b", None, true, false),
        user(3, "c", None, false, false),
    ])
    .unwrap();
    assert_eq!(set_phase(&mut t, Phase::Join, Phase::Read), PhaseChange::Refused);
    assert_eq!(t.check_if_matched(1), Ok(false));
    assert_eq!(set_phase(&mut t, Phase::Join, Phase::Swap), PhaseChange::MatchThenSet);
    assert_eq!(t.get_giftee(1), Ok(2));
    assert_eq!(t.get_giftee(2), Ok(1));
    assert_eq!(t.check_if_matched(3), Ok(false));
    t.set_submission(1, "gift".to_string());
    assert_eq!(set_phase(&mut t, Phase::Swap, Phase::Join), PhaseChange::Refused);
    assert_eq!(t.get_giftee(1), Ok(2));
    assert_eq!(set_phase(&mut t, Phase::Swap, Phase::Read), PhaseChange::SetOnly);
    assert_eq!(set_phase(&mut t, Phase::Read, Phase::Read), PhaseChange::AlreadyInPhase);
    assert_eq!(set_phase(&mut t, Phase::Read, Phase::Join), PhaseChange::ResetThenSet);
    assert_eq!(t.check_if_matched(1), Ok(false));
    assert_eq!(t.get_userinfo_by_id(1).unwrap().submission, None);
}

#[test]
fn submission_gate_and_length() {
    let mut t = UserTable::from_rows(vec![
        user(1, "a", Some(2), true, false),
        user(2, "b", None, true, false),
        user(3, "c", Some(1), false, false),
    ])
    .unwrap();
    assert_eq!(check_submit(&t, 9, true, Phase::Swap), SubmitGate::NotJoined);
    assert_eq!(check_submit(&t, 3, true, Phase::Swap), SubmitGate::NotJoined);
    assert_eq!(check_submit(&t, 1, false, Phase::Swap), SubmitGate::NotInDirectMessage);
    assert_eq!(check_submit(&t, 2, true, Phase::Swap), SubmitGate::NoGiftee);
    assert_eq!(check_submit(&t, 1, true, Phase::Join), SubmitGate::WrongPhase);
    assert_eq!(check_submit(&t, 1, true, Phase::Read), SubmitGate::Ready);
    let long: String = "x".repeat(2001);
    assert_eq!(submit(&mut t, 1, long), SubmitReply::TooLong);
    assert_eq!(t.get_userinfo_by_id(1).unwrap().submission, None);
    let exact: String = "é".repeat(2000);
    assert_eq!(submit(&mut t, 1, exact.clone()), SubmitReply::Stored);
    assert_eq!(t.get_userinfo_by_id(1).unwrap().submission, Some(exact));
}

#[test]
fn decimal_numbers() {
    for n in [0u64, 7, 10, 99, 100, 1234567890, u64::MAX] {
        let mut s = String::from("#");
        append_decimal(&mut s, n);
        assert_eq!(s, format!("#{}", n));
    }
}

#[test]
fn status_report_lists_groups() {
    let mut a = user(11, "alice", None, true, false);
    a.letter = Some("hi".to_string());
    let users = vec![
        a,
        user(22, "bob", None, true, false),
        user(33, "carol", None, false, true),
        user(44, "dave", None, false, false),
    ];
    let text = status_report(&users);
    assert_eq!(
        text,
        "=== BANNED USERS ===\ncarol, 33\n\n=== JOINED USERS, LETTER NOT WRITTEN ===\nbob, 22\n\n=== JOINED USERS WITH LETTER ===\nalice, 11\n"
    );
    assert_eq!(
        status_report(&Vec::new()),
        "=== BANNED USERS ===\n\n=== JOINED USERS, LETTER NOT WRITTEN ===\n\n=== JOINED USERS WITH LETTER ===\n"
    );
}

#[test]
fn reveal_message_closes_the_loop() {
    let order = vec![(1u64, "a".to_string()), (2, "b".to_string()), (3, "c".to_string())];
    assert_eq!(
        reveal_message(&order),
        "The current matching order is:\n\n`a` -> `b` -> `c` -> `a`"
    );
    assert_eq!(
        reveal_message(&vec![(5u64, "solo".to_string())]),
        "The current matching order is:\n\n`solo` -> `solo`"
    );
    assert_eq!(reveal_message(&Vec::new()), "The current matching order is:\n\n");
}

#[test]
fn one_running_action_per_user() {
    let mut r = secret_santa::running::RunningActions::new();
    assert!(!r.is_running(1));
    assert!(r.try_begin(1));
    assert!(r.is_running(1));
    assert!(!r.try_begin(1));
    assert!(r.try_begin(2));
    r.finish(1);
    assert!(!r.is_running(1));
    assert!(r.is_running(2));
    assert!(r.try_begin(1));
}
