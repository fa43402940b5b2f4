use secret_santa::users::TableError;
use secret_santa::users::UserInfo;
use secret_santa::users::UserTable;

fn user(id: u64, name: &str, giftee: Option<u64>, joined: bool, banned: bool) -> UserInfo {
    UserInfo {
        discord_id: id,
        username: name.to_string(),
        letter: None,
        submission: None,
        giftee_id: giftee,
        is_banned: banned,
        has_joined: joined,
    }
}

fn table_of(rows: Vec<UserInfo>) -> UserTable {
    UserTable::from_rows(rows).expect("distinct ids")
}

#[test]
fn created_user_is_found_fresh() {
    let mut t = UserTable::new();
    assert_eq!(t.create_user("alice".to_string(), 7), Ok(()));
    let u = t.get_userinfo_by_id(7).unwrap();
    assert_eq!(u.username, "alice");
    assert!(u.has_joined);
    assert!(!u.is_banned);
    assert_eq!(u.letter, None);
    assert_eq!(u.submission, None);
    assert_eq!(u.giftee_id, None);
    assert_eq!(t.check_if_matched(7), Ok(false));
    assert!(t.get_userinfo_by_id(8).is_none());
}

#[test]
fn creating_a_user_twice_is_refused() {
    let mut t = UserTable::new();
    t.create_user("alice".to_string(), 7).unwrap();
    assert_eq!(t.create_user("alice again".to_string(), 7), Err(TableError::DuplicateUser));
    assert_eq!(t.len(), 1);
    assert_eq!(t.get_userinfo_by_id(7).unwrap().username, "alice");
}

#[test]
fn duplicate_rows_are_refused() {
    let r = UserTable::from_rows(vec![
        user(1, "a", None, true, false),
        user(2, "b", None, true, false),
        user(1, "c", None, true, false),
    ]);
    assert!(matches!(r, Err(TableError::DuplicateUser)));
}

#[test]
fn leave_and_rejoin() {
    let mut t = table_of(vec![user(1, "a", None, true, false), user(2, "b", None, true, false)]);
    t.leave(1);
    assert!(!t.get_userinfo_by_id(1).unwrap().has_joined);
    assert!(t.get_userinfo_by_id(2).unwrap().has_joined);
    t.rejoin_user(1);
    assert!(t.get_userinfo_by_id(1).unwrap().has_joined);
}

#[test]
fn letter_counts_rows_written() {
    let mut t = table_of(vec![user(1, "a", None, true, false)]);
    assert_eq!(t.set_letter(1, "dear santa".to_string()), 1);
    assert_eq!(t.get_userinfo_by_id(1).unwrap().letter, Some("dear santa".to_string()));
    assert_eq!(t.set_letter(99, "nobody".to_string()), 0);
}

#[test]
fn giftee_lookups() {
    let t = table_of(vec![
        user(1, "a", Some(2), true, false),
        user(2, "b", None, true, false),
        user(3, "c", Some(4), true, false),
    ]);
    assert_eq!(t.get_giftee(1), Ok(2));
    assert_eq!(t.get_giftee(2), Err(TableError::NullGiftee));
    assert_eq!(t.get_giftee(9), Err(TableError::NoRow));
    assert_eq!(t.get_santa(2), Ok(1));
    assert_eq!(t.get_santa(1), Err(TableError::NoRow));
    assert_eq!(t.check_if_matched(1), Ok(true));
    assert_eq!(t.check_if_matched(2), Ok(false));
    assert_eq!(t.check_if_matched(5), Err(TableError::NoRow));
}

#[test]
fn santa_lookup_takes_first_row() {
    let t = table_of(vec![
        user(5, "e", Some(9), true, false),
        user(1, "a", Some(9), true, false),
        user(9, "i", None, true, false),
    ]);
    assert_eq!(t.get_santa(9), Ok(5));
}

#[test]
fn giftee_letter_follows_the_match() {
    let mut t = table_of(vec![
        user(1, "a", Some(2), true, false),
        user(2, "b", None, true, false),
        user(3, "c", Some(4), true, false),
    ]);
    assert_eq!(t.get_giftee_letter(1), Ok(None));
    t.set_letter(2, "a scarf".to_string());
    assert_eq!(t.get_giftee_letter(1), Ok(Some("a scarf".to_string())));
    assert_eq!(t.get_giftee_letter(2), Err(TableError::NoRow));
    assert_eq!(t.get_giftee_letter(3), Err(TableError::NoRow));
    assert_eq!(t.get_giftee_letter(8), Err(TableError::NoRow));
}

#[test]
fn match_is_mutual_and_unmatch_frees_both() {
    let mut t = table_of(vec![
        user(1, "a", None, true, false),
        user(2, "b", None, true, false),
        user(3, "c", Some(1), true, false),
    ]);
    t.set_match(1, 2);
    assert_eq!(t.get_giftee(1), Ok(2));
    assert_eq!(t.get_giftee(2), Ok(1));
    t.remove_match(1);
    assert_eq!(t.check_if_matched(1), Ok(false));
    assert_eq!(t.get_giftee(2), Err(TableError::NullGiftee));
    assert_eq!(t.get_giftee(3), Err(TableError::NullGiftee));
    assert_eq!(t.get_santa(1), Err(TableError::NoRow));
}

#[test]
fn ban_and_failed_unban() {
    let mut t = table_of(vec![user(1, "a", None, true, false)]);
    assert!(!t.is_user_banned(1));
    t.ban_user(1);
    assert!(t.is_user_banned(1));
    assert!(!t.get_userinfo_by_id(1).unwrap().has_joined);
    assert_eq!(t.unban_user(1), Err(TableError::MalformedStatement));
    assert!(t.is_user_banned(1));
    assert!(!t.is_user_banned(42));
}

#[test]
fn ban_and_reassign_hands_on_the_giftee() {
    let mut t = table_of(vec![
        user(1, "a", Some(2), true, false),
        user(2, "b", Some(3), true, false),
        user(3, "c", Some(1), true, false),
    ]);
    assert_eq!(t.ban_and_reassign_user(2), Ok(()));
    assert_eq!(t.get_giftee(1), Ok(3));
    let b = t.get_userinfo_by_id(2).unwrap();
    assert!(b.is_banned);
    assert!(!b.has_joined);
    assert_eq!(b.giftee_id, None);
    assert_eq!(t.get_santa(2), Err(TableError::NoRow));
    assert_eq!(t.get_giftee(3), Ok(1));
}

#[test]
fn ban_and_reassign_fails_without_giftee() {
    let mut t = table_of(vec![user(1, "a", None, true, false)]);
    assert_eq!(t.ban_and_reassign_user(1), Err(TableError::NullGiftee));
    assert!(!t.is_user_banned(1));
    assert_eq!(t.ban_and_reassign_user(5), Err(TableError::NoRow));
}

#[test]
fn reset_clears_assignments_and_submissions() {
    let mut t = table_of(vec![user(1, "a", Some(2), true, false), user(2, "b", Some(1), true, false)]);
    t.set_submission(1, "a book".to_string());
    assert_eq!(t.get_userinfo_by_id(1).unwrap().submission, Some("a book".to_string()));
    t.reset_giftees_and_submissions();
    for u in t.get_all_users() {
        assert_eq!(u.giftee_id, None);
        assert_eq!(u.submission, None);
    }
}

#[test]
fn participants_and_circle() {
    let mut t = table_of(vec![
        user(10, "a", None, true, false),
        user(20, "b", None, false, false),
        user(30, "c", None, true, true),
        user(40, "d", None, true, false),
        user(50, "e", None, true, false),
    ]);
    let p = t.participants();
    assert_eq!(p, vec![10, 40, 50]);
    t.assign_in_circle(&p);
    assert_eq!(t.get_giftee(10), Ok(40));
    assert_eq!(t.get_giftee(40), Ok(50));
    assert_eq!(t.get_giftee(50), Ok(10));
    assert_eq!(t.get_giftee(20), Err(TableError::NullGiftee));
    let order = t.get_matching_order();
    let ids: Vec<u64> = order.iter().map(|p| p.0).collect();
    let names: Vec<&str> = order.iter().map(|p| p.1.as_str()).collect();
    assert_eq!(ids, vec![10, 40, 50]);
    assert_eq!(names, vec!["a", "d", "e"]);
}

#[test]
fn matching_order_stops_at_a_broken_chain() {
    let t = table_of(vec![
        user(1, "a", None, true, false),
        user(2, "b", Some(3), true, false),
        user(3, "c", Some(4), true, false),
    ]);
    let ids: Vec<u64> = t.get_matching_order().iter().map(|p| p.0).collect();
    assert_eq!(ids, vec![2, 3]);
    let empty = table_of(vec![user(1, "a", None, true, false)]);
    assert!(empty.get_matching_order().is_empty());
}

#[test]
fn all_users_in_table_order() {
    let t = table_of(vec![user(3, "c", None, true, false), user(1, "a", None, false, true)]);
    let all = t.get_all_users();
    assert_eq!(all.len(), 2);
    assert_eq!(all[0].discord_id, 3);
    assert_eq!(all[1].discord_id, 1);
    assert!(all[1].is_banned);
}
