//! The texts the host receives: the status report that lists banned and
//! joined users, and the matching order written as a loop of names.

use vstd::prelude::*;
use vstd::string::*;
use crate::users::UserInfo;
use crate::users::UserRecord;
use crate::users::records;

verus! {

/// The character of a decimal digit.
pub open spec fn digit_char(d: int) -> char {
    if d == 0 {
        '0'
    } else if d == 1 {
        '1'
    } else if d == 2 {
        '2'
    } else if d == 3 {
        '3'
    } else if d == 4 {
        '4'
    } else if d == 5 {
        '5'
    } else if d == 6 {
        '6'
    } else if d == 7 {
        '7'
    } else if d == 8 {
        '8'
    } else {
        '9'
    }
}

/// A number written in decimal, without leading zeros.
pub open spec fn decimal(n: nat) -> Seq<char>
    decreases n,
{
    if n < 10 {
        seq![digit_char(n as int)]
    } else {
        decimal(n / 10) + seq![digit_char((n % 10) as int)]
    }
}

fn digit_text(d: u64) -> (s: &'static str)
    requires
        d < 10,
    ensures
        s@ == seq![digit_char(d as int)],
{
    if d == 0 {
        proof {
            reveal_strlit("0");
        }
        "0"
    } else if d == 1 {
        proof {
            reveal_strlit("1");
        }
        "1"
    } else if d == 2 {
        proof {
            reveal_strlit("2");
        }
        "2"
    } else if d == 3 {
        proof {
            reveal_strlit("3");
        }
        "3"
    } else if d == 4 {
        proof {
            reveal_strlit("4");
        }
        "4"
    } else if d == 5 {
        proof {
            reveal_strlit("5");
        }
        "5"
    } else if d == 6 {
        proof {
            reveal_strlit("6");
        }
        "6"
    } else if d == 7 {
        proof {
            reveal_strlit("7");
        }
        "7"
    } else if d == 8 {
        proof {
            reveal_strlit("8");
        }
        "8"
    } else {
        proof {
            reveal_strlit("9");
        }
        "9"
    }
}

/// Appends a number written in decimal.
pub fn append_decimal(out: &mut String, n: u64)
    ensures
        final(out)@ == old(out)@ + decimal(n as nat),
    decreases n,
{
    if n >= 10 {
        append_decimal(out, n / 10);
    }
    out.append(digit_text(n % 10));
    proof {
        if n >= 10 {
            assert(decimal(n as nat) == decimal((n / 10) as nat) + seq![digit_char((n % 10) as int)]);
        }
    }
}

/// The line that names a user in the status report: name, comma, id.
pub open spec fn user_line(r: UserRecord) -> Seq<char> {
    r.username + ", "@ + decimal(r.discord_id as nat) + "\n"@
}

/// The lines of a list of users, in order.
pub open spec fn user_lines(rs: Seq<UserRecord>) -> Seq<char>
    decreases rs.len(),
{
    if rs.len() == 0 {
        Seq::empty()
    } else {
        user_lines(rs.drop_last()) + user_line(rs.last())
    }
}

/// The users the status report lists as banned.
pub open spec fn is_banned_user(r: UserRecord) -> bool {
    r.is_banned
}

/// The users the status report lists as joined without a letter.
pub open spec fn joined_without_letter(r: UserRecord) -> bool {
    r.letter is None && r.has_joined
}

/// The users the status report lists as joined with a letter.
pub open spec fn joined_with_letter(r: UserRecord) -> bool {
    r.letter is Some && r.has_joined
}

/// The status report: the banned users, the joined users who have not
/// written a letter, and the joined users who have, each under a heading
/// and in table order.
pub open spec fn status_text(rows: Seq<UserRecord>) -> Seq<char> {
    "=== BANNED USERS ===\n"@ + user_lines(rows.filter(|r: UserRecord| is_banned_user(r)))
        + "\n=== JOINED USERS, LETTER NOT WRITTEN ===\n"@ + user_lines(
        rows.filter(|r: UserRecord| joined_without_letter(r)),
    ) + "\n=== JOINED USERS WITH LETTER ===\n"@ + user_lines(
        rows.filter(|r: UserRecord| joined_with_letter(r)),
    )
}

#[derive(Clone, Copy)]
enum Group {
    Banned,
    NoLetter,
    WithLetter,
}

spec fn in_group(g: Group, r: UserRecord) -> bool {
    match g {
        Group::Banned => is_banned_user(r),
        Group::NoLetter => joined_without_letter(r),
        Group::WithLetter => joined_with_letter(r),
    }
}

fn belongs(g: Group, u: &UserInfo) -> (b: bool)
    ensures
        b == in_group(g, u@),
{
    match g {
        Group::Banned => u.is_banned,
        Group::NoLetter => u.letter.is_none() && u.has_joined,
        Group::WithLetter => u.letter.is_some() && u.has_joined,
    }
}

fn append_group(out: &mut String, users: &Vec<UserInfo>, g: Group)
    ensures
        final(out)@ == old(out)@ + user_lines(records(users@).filter(|r: UserRecord| in_group(g, r))),
{
    let ghost rs = records(users@);
    let ghost start = out@;
    let ghost p = |r: UserRecord| in_group(g, r);
    let mut i: usize = 0;
    while i < users.len()
        invariant
            i <= users.len(),
            rs == records(users@),
            rs.len() == users.len(),
            p == (|r: UserRecord| in_group(g, r)),
            out@ == start + user_lines(rs.take(i as int).filter(p)),
        decreases users.len() - i,
    {
        let ghost before = out@;
        let u = &users[i];
        proof {
            assert(rs.take(i as int + 1) =~= rs.take(i as int).push(rs[i as int]));
            rs.take(i as int).lemma_filter_push(rs[i as int], p);
            assert(rs[i as int] == u@);
        }
        if belongs(g, u) {
            out.append(u.username.as_str());
            out.append(", ");
            append_decimal(out, u.discord_id);
            out.append("\n");
            proof {
                let f = rs.take(i as int).filter(p);
                let f1 = f.push(u@);
                assert(f1.drop_last() =~= f);
                assert(user_lines(f1) == user_lines(f) + user_line(u@));
                assert(out@ =~= start + user_lines(rs.take(i as int + 1).filter(p)));
            }
        }
        i = i + 1;
    }
    assert(rs.take(users.len() as int) =~= rs);
}

/// The status report for a list of users (see `status_text`).
pub fn status_report(users: &Vec<UserInfo>) -> (text: String)
    ensures
        text@ == status_text(records(users@)),
{
    let mut buffer = String::new();
    buffer.append("=== BANNED USERS ===\n");
    append_group(&mut buffer, users, Group::Banned);
    buffer.append("\n=== JOINED USERS, LETTER NOT WRITTEN ===\n");
    append_group(&mut buffer, users, Group::NoLetter);
    buffer.append("\n=== JOINED USERS WITH LETTER ===\n");
    append_group(&mut buffer, users, Group::WithLetter);
    proof {
        let rs = records(users@);
        assert((|r: UserRecord| in_group(Group::Banned, r)) =~= (|r: UserRecord| is_banned_user(r)));
        assert((|r: UserRecord| in_group(Group::NoLetter, r)) =~= (|r: UserRecord|
            joined_without_letter(r)));
        assert((|r: UserRecord| in_group(Group::WithLetter, r)) =~= (|r: UserRecord|
            joined_with_letter(r)));
        assert(buffer@ =~= status_text(rs));
    }
    buffer
}

/// A name between backticks.
pub open spec fn quoted(name: Seq<char>) -> Seq<char> {
    "`"@ + name + "`"@
}

/// Names between backticks, joined by arrows.
pub open spec fn joined_names(names: Seq<Seq<char>>) -> Seq<char>
    decreases names.len(),
{
    if names.len() == 0 {
        Seq::empty()
    } else if names.len() == 1 {
        quoted(names[0])
    } else {
        joined_names(names.drop_last()) + " -> "@ + quoted(names.last())
    }
}

/// The matching order written as a loop: the names joined by arrows, and
/// an arrow back to the first name.
pub open spec fn order_loop(names: Seq<Seq<char>>) -> Seq<char> {
    if names.len() == 0 {
        Seq::empty()
    } else {
        joined_names(names) + " -> "@ + quoted(names[0])
    }
}

/// The names in a matching order of (id, name) pairs.
pub open spec fn order_names(order: Seq<(u64, String)>) -> Seq<Seq<char>> {
    order.map_values(|p: (u64, String)| p.1@)
}

/// The message that reveals the matching order.
pub open spec fn reveal_text(names: Seq<Seq<char>>) -> Seq<char> {
    "The current matching order is:\n\n"@ + order_loop(names)
}

/// The message that reveals a matching order of (id, name) pairs (see
/// `reveal_text`).
pub fn reveal_message(order: &Vec<(u64, String)>) -> (text: String)
    ensures
        text@ == reveal_text(order_names(order@)),
{
    let ghost names = order_names(order@);
    let mut body = String::new();
    let mut i: usize = 0;
    while i < order.len()
        invariant
            i <= order.len(),
            names == order_names(order@),
            names.len() == order.len(),
            body@ == joined_names(names.take(i as int)),
        decreases order.len() - i,
    {
        let name = &order[i].1;
        proof {
            assert(names[i as int] == name@);
            assert(names.take(i as int + 1).drop_last() =~= names.take(i as int));
        }
        if i > 0 {
            body.append(" -> ");
        }
        body.append("`");
        body.append(name.as_str());
        body.append("`");
        proof {
            if i == 0 {
                assert(body@ =~= quoted(names.take(1)[0]));
            } else {
                assert(body@ =~= joined_names(names.take(i as int)) + " -> "@ + quoted(name@));
            }
        }
        i = i + 1;
    }
    proof {
        assert(names.take(order.len() as int) =~= names);
    }
    if order.len() > 0 {
        body.append(" -> `");
        body.append(order[0].1.as_str());
        body.append("`");
        proof {
            assert(names[0] == order@[0].1@);
            reveal_strlit(" -> `");
            reveal_strlit(" -> ");
            reveal_strlit("`");
            assert(" -> `"@ =~= " -> "@ + "`"@);
            assert(body@ =~= order_loop(names));
        }
    } else {
        assert(order_loop(names) =~= Seq::<char>::empty());
    }
    let mut text = String::new();
    text.append("The current matching order is:\n\n");
    text.append(body.as_str());
    assert(text@ =~= reveal_text(names));
    text
}

/// The revealed order closes its loop: for a non-empty order it reads as
/// the names joined by arrows with the first name appended once more.
pub proof fn lemma_order_is_a_loop(names: Seq<Seq<char>>)
    requires
        names.len() > 0,
    ensures
        order_loop(names) == joined_names(names.push(names[0])),
{
    assert(names.push(names[0]).drop_last() =~= names);
}

/// The two joined groups of the status report split the joined users: each
/// joined user is in exactly one of them, so together they list as many
/// users as have joined.
pub proof fn lemma_joined_groups_split(rows: Seq<UserRecord>)
    ensures
        rows.filter(|r: UserRecord| joined_without_letter(r)).len() + rows.filter(
            |r: UserRecord| joined_with_letter(r),
        ).len() == rows.filter(|r: UserRecord| r.has_joined).len(),
        forall|i: int|
            0 <= i < rows.len() && (#[trigger] rows[i]).has_joined ==> (joined_without_letter(rows[i])
                != joined_with_letter(rows[i])),
    decreases rows.len(),
{
    reveal(Seq::filter);
    if rows.len() > 0 {
        lemma_joined_groups_split(rows.drop_last());
    }
}

/// Nobody who has not joined is listed under a joined heading: when no user
/// has joined, both joined sections of the status report are empty.
pub proof fn lemma_no_joined_lines_without_joined_users(rows: Seq<UserRecord>)
    requires
        forall|i: int| 0 <= i < rows.len() ==> !(#[trigger] rows[i]).has_joined,
    ensures
        status_text(rows) == "=== BANNED USERS ===\n"@ + user_lines(
            rows.filter(|r: UserRecord| r.is_banned),
        ) + "\n=== JOINED USERS, LETTER NOT WRITTEN ===\n"@
            + "\n=== JOINED USERS WITH LETTER ===\n"@,
{
    let p1 = |r: UserRecord| joined_without_letter(r);
    let p2 = |r: UserRecord| joined_with_letter(r);
    rows.lemma_all_neg_filter_empty(p1);
    rows.lemma_all_neg_filter_empty(p2);
    assert(rows.filter(|r: UserRecord| is_banned_user(r)) =~= rows.filter(|r: UserRecord| r.is_banned)) by {
        assert((|r: UserRecord| is_banned_user(r)) =~= (|r: UserRecord| r.is_banned));
    }
    assert(user_lines(rows.filter(p1)) =~= Seq::<char>::empty());
    assert(user_lines(rows.filter(p2)) =~= Seq::<char>::empty());
    assert(status_text(rows) =~= "=== BANNED USERS ===\n"@ + user_lines(
        rows.filter(|r: UserRecord| r.is_banned),
    ) + "\n=== JOINED USERS, LETTER NOT WRITTEN ===\n"@ + "\n=== JOINED USERS WITH LETTER ===\n"@);
}

/// A user who neither is banned nor has joined does not appear in the
/// status report: adding one leaves the report as it was.
pub proof fn lemma_absent_user_not_reported(rows: Seq<UserRecord>, r: UserRecord)
    requires
        !r.is_banned,
        !r.has_joined,
    ensures
        status_text(rows.push(r)) == status_text(rows),
{
    rows.lemma_filter_push(r, |x: UserRecord| is_banned_user(x));
    rows.lemma_filter_push(r, |x: UserRecord| joined_without_letter(x));
    rows.lemma_filter_push(r, |x: UserRecord| joined_with_letter(x));
}

/// A joined user with a letter who is not banned is listed last under the
/// last heading: adding one to the end adds exactly their line to the end
/// of the report.
pub proof fn lemma_joined_writer_listed_last(rows: Seq<UserRecord>, r: UserRecord)
    requires
        !r.is_banned,
        r.has_joined,
        r.letter is Some,
    ensures
        status_text(rows.push(r)) == status_text(rows) + user_line(r),
{
    let p3 = |x: UserRecord| joined_with_letter(x);
    rows.lemma_filter_push(r, |x: UserRecord| is_banned_user(x));
    rows.lemma_filter_push(r, |x: UserRecord| joined_without_letter(x));
    rows.lemma_filter_push(r, p3);
    assert(rows.filter(p3).push(r).drop_last() =~= rows.filter(p3));
    assert(user_lines(rows.filter(p3).push(r)) == user_lines(rows.filter(p3)) + user_line(r));
    assert(status_text(rows.push(r)) =~= status_text(rows) + user_line(r));
}

/// A joined user without a letter who is not banned adds exactly their
/// line at the end of the middle section.
pub proof fn lemma_joined_without_letter_listed(rows: Seq<UserRecord>, r: UserRecord)
    requires
        !r.is_banned,
        r.has_joined,
        r.letter is None,
    ensures
        status_text(rows.push(r)) == "=== BANNED USERS ===\n"@ + user_lines(
            rows.filter(|x: UserRecord| is_banned_user(x)),
        ) + "\n=== JOINED USERS, LETTER NOT WRITTEN ===\n"@ + user_lines(
            rows.filter(|x: UserRecord| joined_without_letter(x)),
        ) + user_line(r) + "\n=== JOINED USERS WITH LETTER ===\n"@ + user_lines(
            rows.filter(|x: UserRecord| joined_with_letter(x)),
        ),
{
    let p2 = |x: UserRecord| joined_without_letter(x);
    rows.lemma_filter_push(r, |x: UserRecord| is_banned_user(x));
    rows.lemma_filter_push(r, p2);
    rows.lemma_filter_push(r, |x: UserRecord| joined_with_letter(x));
    assert(rows.filter(p2).push(r).drop_last() =~= rows.filter(p2));
    assert(user_lines(rows.filter(p2).push(r)) == user_lines(rows.filter(p2)) + user_line(r));
    assert(status_text(rows.push(r)) =~= "=== BANNED USERS ===\n"@ + user_lines(
        rows.filter(|x: UserRecord| is_banned_user(x)),
    ) + "\n=== JOINED USERS, LETTER NOT WRITTEN ===\n"@ + user_lines(rows.filter(p2)) + user_line(r)
        + "\n=== JOINED USERS WITH LETTER ===\n"@ + user_lines(
        rows.filter(|x: UserRecord| joined_with_letter(x)),
    ));
}

} // verus!
