//! Laws of the participant table: what lookups see after each statement,
//! and what matching the participants in a circle gives.

use vstd::prelude::*;
use crate::users::UserRecord;
use crate::users::TableError;
use crate::users::has_user;
use crate::users::lookup;
use crate::users::unique_ids;
use crate::users::update_where;
use crate::users::fresh_record;
use crate::users::with_id;
use crate::users::santas_of;
use crate::users::set_banned;
use crate::users::set_banned_unassigned;
use crate::users::set_giftee;
use crate::users::set_letter_text;
use crate::users::set_submission_text;
use crate::users::giftee_letter;
use crate::users::every_row;
use crate::users::clear_assignment;
use crate::users::match_pair;
use crate::users::without_match;
use crate::users::giftee_of;
use crate::users::matched;
use crate::users::banned;
use crate::users::takes_part;
use crate::users::user_takes_part;
use crate::users::participant_ids;
use crate::users::circle_steps;
use crate::users::matched_in_circle;
use crate::users::order_from;
use crate::users::first_matched_index;
use crate::users::matching_order_ids;
use crate::users::lemma_lookup_at;
use crate::users::lemma_lookup_id;

verus! {

/// An update that keeps every id keeps the ids distinct, and the row a
/// lookup finds afterwards is the row it found before, rewritten if the
/// update selected it.
pub proof fn lemma_lookup_after_update(
    rows: Seq<UserRecord>,
    sel: spec_fn(UserRecord) -> bool,
    set: spec_fn(UserRecord) -> UserRecord,
    id: u64,
)
    requires
        unique_ids(rows),
        forall|r: UserRecord| #[trigger] set(r).discord_id == r.discord_id,
    ensures
        unique_ids(update_where(rows, sel, set)),
        lookup(update_where(rows, sel, set), id) == match lookup(rows, id) {
            Some(r) => Some(if sel(r) { set(r) } else { r }),
            None => None,
        },
{
    let after = update_where(rows, sel, set);
    assert forall|i: int| 0 <= i < rows.len() implies #[trigger] after[i].discord_id
        == rows[i].discord_id by {
        assert(set(rows[i]).discord_id == rows[i].discord_id);
    }
    assert forall|a: int, b: int|
        0 <= a < after.len() && 0 <= b < after.len() && a != b implies #[trigger] after[a].discord_id
        != #[trigger] after[b].discord_id by {
        assert(rows[a].discord_id != rows[b].discord_id);
    }
    if has_user(rows, id) {
        let i: int = choose|i: int| 0 <= i < rows.len() && #[trigger] rows[i].discord_id == id;
        lemma_lookup_at(rows, i);
        lemma_lookup_at(after, i);
    } else {
        if has_user(after, id) {
            let j: int = choose|j: int| 0 <= j < after.len() && #[trigger] after[j].discord_id == id;
            assert(rows[j].discord_id == id);
        }
    }
}

/// A user added to the table is found under their id, joined, not banned,
/// with nothing written and nobody assigned.
pub proof fn lemma_created_user_is_found(rows: Seq<UserRecord>, id: u64, username: Seq<char>)
    requires
        unique_ids(rows),
        !has_user(rows, id),
    ensures
        unique_ids(rows.push(fresh_record(id, username))),
        lookup(rows.push(fresh_record(id, username)), id) == Some(fresh_record(id, username)),
        matched(rows.push(fresh_record(id, username)), id) == Ok::<bool, TableError>(false),
        !banned(rows.push(fresh_record(id, username)), id),
{
    let after = rows.push(fresh_record(id, username));
    assert forall|a: int, b: int|
        0 <= a < after.len() && 0 <= b < after.len() && a != b implies #[trigger] after[a].discord_id
        != #[trigger] after[b].discord_id by {
        if a < rows.len() && b < rows.len() {
            assert(rows[a].discord_id != rows[b].discord_id);
        } else if a < rows.len() {
            assert(rows[a].discord_id == after[a].discord_id);
        } else {
            assert(rows[b].discord_id == after[b].discord_id);
        }
    }
    lemma_lookup_at(after, rows.len() as int);
}

/// After two users are matched, each has the other as giftee.
pub proof fn lemma_match_is_mutual(rows: Seq<UserRecord>, santa: u64, giftee: u64)
    requires
        unique_ids(rows),
        has_user(rows, santa),
        has_user(rows, giftee),
        santa != giftee,
    ensures
        ({
            let after = match_pair(rows, santa, giftee);
            &&& unique_ids(after)
            &&& giftee_of(after, santa) == Ok::<u64, TableError>(giftee)
            &&& giftee_of(after, giftee) == Ok::<u64, TableError>(santa)
            &&& matched(after, santa) == Ok::<bool, TableError>(true)
            &&& matched(after, giftee) == Ok::<bool, TableError>(true)
        }),
{
    let mid = update_where(rows, with_id(giftee), set_giftee(Some(santa)));
    assert forall|r: UserRecord| #[trigger] set_giftee(Some(santa))(r).discord_id == r.discord_id by {}
    assert forall|r: UserRecord| #[trigger] set_giftee(Some(giftee))(r).discord_id == r.discord_id by {}
    lemma_lookup_after_update(rows, with_id(giftee), set_giftee(Some(santa)), santa);
    lemma_lookup_after_update(rows, with_id(giftee), set_giftee(Some(santa)), giftee);
    lemma_lookup_after_update(mid, with_id(santa), set_giftee(Some(giftee)), santa);
    lemma_lookup_after_update(mid, with_id(santa), set_giftee(Some(giftee)), giftee);
}

/// After a user's matches are undone, the user has no giftee and is
/// nobody's giftee.
pub proof fn lemma_unmatched_user_is_free(rows: Seq<UserRecord>, id: u64)
    requires
        unique_ids(rows),
        has_user(rows, id),
    ensures
        ({
            let after = without_match(rows, id);
            &&& unique_ids(after)
            &&& matched(after, id) == Ok::<bool, TableError>(false)
            &&& forall|i: int| 0 <= i < after.len() ==> #[trigger] after[i].giftee_id != Some(id)
        }),
{
    let mid = update_where(rows, with_id(id), set_giftee(None));
    assert forall|r: UserRecord| #[trigger] set_giftee(None)(r).discord_id == r.discord_id by {}
    lemma_lookup_after_update(rows, with_id(id), set_giftee(None), id);
    lemma_lookup_after_update(mid, santas_of(id), set_giftee(None), id);
}

/// A banned user is banned and no longer joined.
pub proof fn lemma_ban_sticks(rows: Seq<UserRecord>, id: u64)
    requires
        unique_ids(rows),
        has_user(rows, id),
    ensures
        ({
            let after = update_where(rows, with_id(id), set_banned());
            &&& unique_ids(after)
            &&& banned(after, id)
            &&& lookup(after, id) matches Some(r) && !r.has_joined
        }),
{
    assert forall|r: UserRecord| #[trigger] set_banned()(r).discord_id == r.discord_id by {}
    lemma_lookup_after_update(rows, with_id(id), set_banned(), id);
}

/// When a user with a giftee (other than themselves) is banned and
/// reassigned, each of the user's santas now has the user's giftee, nobody
/// has the user as giftee, the user is banned and out, and every other row
/// keeps its giftee.
pub proof fn lemma_reassign_hands_on_giftee(rows: Seq<UserRecord>, id: u64, g: u64)
    requires
        unique_ids(rows),
        giftee_of(rows, id) == Ok::<u64, TableError>(g),
        g != id,
    ensures
        ({
            let after = update_where(
                update_where(rows, santas_of(id), set_giftee(Some(g))),
                with_id(id),
                set_banned_unassigned(),
            );
            &&& unique_ids(after)
            &&& after.len() == rows.len()
            &&& forall|i: int|
                0 <= i < rows.len() && #[trigger] rows[i].giftee_id == Some(id) && rows[i].discord_id
                    != id ==> after[i].giftee_id == Some(g)
            &&& forall|i: int| 0 <= i < after.len() ==> #[trigger] after[i].giftee_id != Some(id)
            &&& forall|i: int|
                0 <= i < rows.len() && #[trigger] rows[i].giftee_id != Some(id) && rows[i].discord_id
                    != id ==> after[i] == rows[i]
            &&& lookup(after, id) matches Some(r) && r.is_banned && !r.has_joined && r.giftee_id is None
        }),
{
    let mid = update_where(rows, santas_of(id), set_giftee(Some(g)));
    assert forall|r: UserRecord| #[trigger] set_giftee(Some(g))(r).discord_id == r.discord_id by {}
    assert forall|r: UserRecord| #[trigger] set_banned_unassigned()(r).discord_id == r.discord_id by {}
    lemma_lookup_after_update(rows, santas_of(id), set_giftee(Some(g)), id);
    lemma_lookup_after_update(mid, with_id(id), set_banned_unassigned(), id);
}

/// After a reset nobody has a giftee or a submission.
pub proof fn lemma_reset_clears_everyone(rows: Seq<UserRecord>)
    ensures
        forall|i: int|
            0 <= i < rows.len() ==> #[trigger] update_where(rows, every_row(), clear_assignment())[i].giftee_id
                is None && update_where(rows, every_row(), clear_assignment())[i].submission is None,
{
}

/// After `k` steps of matching in a circle, each of the first `k` ids in
/// `order` has the next one as giftee, and users not among them are as
/// they were.
proof fn lemma_circle_prefix(rows: Seq<UserRecord>, order: Seq<u64>, k: int)
    requires
        unique_ids(rows),
        order.no_duplicates(),
        forall|i: int| 0 <= i < order.len() ==> has_user(rows, #[trigger] order[i]),
        0 <= k <= order.len(),
    ensures
        unique_ids(circle_steps(rows, order, k)),
        circle_steps(rows, order, k).len() == rows.len(),
        forall|i: int|
            0 <= i < k ==> #[trigger] giftee_of(circle_steps(rows, order, k), order[i]) == Ok::<
                u64,
                TableError,
            >(order[(i + 1) % (order.len() as int)]),
        forall|x: u64|
            (forall|i: int| 0 <= i < k ==> order[i] != x) ==> #[trigger] lookup(
                circle_steps(rows, order, k),
                x,
            ) == lookup(rows, x),
    decreases k,
{
    if k > 0 {
        let n: int = order.len() as int;
        lemma_circle_prefix(rows, order, k - 1);
        let prev = circle_steps(rows, order, k - 1);
        let f = set_giftee(Some(order[k % n]));
        let sel = with_id(order[k - 1]);
        assert forall|r: UserRecord| #[trigger] f(r).discord_id == r.discord_id by {}
        assert(circle_steps(rows, order, k) == update_where(prev, sel, f));
        assert forall|i: int| 0 <= i < k implies #[trigger] giftee_of(
            circle_steps(rows, order, k),
            order[i],
        ) == Ok::<u64, TableError>(order[(i + 1) % n]) by {
            lemma_lookup_after_update(prev, sel, f, order[i]);
            lemma_lookup_id(prev, order[i]);
            if i < k - 1 {
                assert(giftee_of(prev, order[i]) == Ok::<u64, TableError>(order[(i + 1) % n]));
                assert(order[i] != order[k - 1]);
            } else {
                assert(forall|j: int| 0 <= j < k - 1 ==> #[trigger] order[j] != order[k - 1]);
                assert(lookup(prev, order[k - 1]) == lookup(rows, order[k - 1]));
                lemma_lookup_id(rows, order[k - 1]);
            }
        }
        assert forall|x: u64| (forall|i: int| 0 <= i < k ==> order[i] != x) implies #[trigger] lookup(
            circle_steps(rows, order, k),
            x,
        ) == lookup(rows, x) by {
            lemma_lookup_after_update(prev, sel, f, x);
            lemma_lookup_id(prev, x);
            assert(order[k - 1] != x);
            assert(forall|i: int| 0 <= i < k - 1 ==> order[i] != x);
        }
        lemma_lookup_after_update(prev, sel, f, 0);
    }
}

/// Matching a list of distinct participants in a circle gives each the
/// next one in the list as giftee, the last one the first, and leaves
/// everyone else as they were.
pub proof fn lemma_circle_matching(rows: Seq<UserRecord>, order: Seq<u64>)
    requires
        unique_ids(rows),
        order.no_duplicates(),
        forall|i: int| 0 <= i < order.len() ==> has_user(rows, #[trigger] order[i]),
    ensures
        unique_ids(matched_in_circle(rows, order)),
        forall|i: int|
            0 <= i < order.len() ==> #[trigger] giftee_of(matched_in_circle(rows, order), order[i])
                == Ok::<u64, TableError>(order[(i + 1) % (order.len() as int)]),
        forall|x: u64|
            !order.contains(x) ==> #[trigger] lookup(matched_in_circle(rows, order), x) == lookup(
                rows,
                x,
            ),
{
    lemma_circle_prefix(rows, order, order.len() as int);
    assert forall|x: u64| !order.contains(x) implies #[trigger] lookup(
        matched_in_circle(rows, order),
        x,
    ) == lookup(rows, x) by {
        assert(forall|i: int| 0 <= i < order.len() ==> order[i] != x);
    }
}

/// The participant ids are distinct ids of rows that take part, and every
/// row that takes part is among them.
pub proof fn lemma_participants(rows: Seq<UserRecord>)
    requires
        unique_ids(rows),
    ensures
        participant_ids(rows).no_duplicates(),
        forall|k: int|
            0 <= k < participant_ids(rows).len() ==> has_user(rows, #[trigger] participant_ids(rows)[k])
                && user_takes_part(rows, participant_ids(rows)[k]),
        forall|i: int|
            0 <= i < rows.len() && takes_part(#[trigger] rows[i]) ==> participant_ids(rows).contains(
                rows[i].discord_id,
            ),
    decreases rows.len(),
{
    let f = |r: UserRecord| if takes_part(r) { Some(r.discord_id) } else { None };
    let p = participant_ids(rows);
    if rows.len() == 0 {
        assert(p =~= Seq::<u64>::empty());
    } else {
        let front = rows.drop_last();
        let last = rows.last();
        assert(unique_ids(front));
        lemma_participants(front);
        let q = participant_ids(front);
        assert(p == q + if takes_part(last) { seq![last.discord_id] } else { Seq::<u64>::empty() });
        // every id in q belongs to a row of `front`, so not to `last`
        assert forall|k: int| 0 <= k < q.len() implies #[trigger] q[k] != last.discord_id by {
            let j: int = choose|j: int| 0 <= j < front.len() && #[trigger] front[j].discord_id == q[k];
            assert(rows[j].discord_id == q[k]);
            assert(rows[rows.len() - 1].discord_id == last.discord_id);
        }
        assert forall|k: int| 0 <= k < p.len() implies has_user(rows, #[trigger] p[k])
            && user_takes_part(rows, p[k]) by {
            if k < q.len() {
                assert(p[k] == q[k]);
                let j: int = choose|j: int| 0 <= j < front.len() && #[trigger] front[j].discord_id == q[k];
                assert(rows[j] == front[j]);
                lemma_lookup_at(front, j);
                lemma_lookup_at(rows, j);
            } else {
                lemma_lookup_at(rows, rows.len() - 1);
            }
        }
        assert forall|i: int| 0 <= i < rows.len() && takes_part(#[trigger] rows[i]) implies p.contains(
            rows[i].discord_id,
        ) by {
            if i < rows.len() - 1 {
                assert(front[i] == rows[i]);
                let k: int = choose|k: int| 0 <= k < q.len() && q[k] == front[i].discord_id;
                assert(p[k] == q[k]);
            } else {
                assert(p[p.len() - 1] == last.discord_id);
            }
        }
    }
}

/// Matching in a circle keeps every row in its place with its id.
proof fn lemma_circle_keeps_ids(rows: Seq<UserRecord>, order: Seq<u64>, k: int)
    ensures
        circle_steps(rows, order, k).len() == rows.len(),
        forall|j: int|
            0 <= j < rows.len() ==> #[trigger] circle_steps(rows, order, k)[j].discord_id
                == rows[j].discord_id,
    decreases k,
{
    if k > 0 && order.len() > 0 {
        lemma_circle_keeps_ids(rows, order, k - 1);
    }
}

/// There are no more participants than rows.
proof fn lemma_participants_len(rows: Seq<UserRecord>)
    ensures
        participant_ids(rows).len() <= rows.len(),
    decreases rows.len(),
{
    if rows.len() > 0 {
        lemma_participants_len(rows.drop_last());
    }
}

/// The first participant id is that of the first row, in table order, that
/// takes part.
proof fn lemma_first_participant(rows: Seq<UserRecord>) -> (i0: int)
    requires
        unique_ids(rows),
        participant_ids(rows).len() > 0,
    ensures
        0 <= i0 < rows.len(),
        takes_part(rows[i0]),
        rows[i0].discord_id == participant_ids(rows)[0],
        forall|j: int| 0 <= j < i0 ==> !takes_part(#[trigger] rows[j]),
    decreases rows.len(),
{
    let front = rows.drop_last();
    let last = rows.last();
    let q = participant_ids(front);
    assert(unique_ids(front));
    assert(participant_ids(rows) == q + if takes_part(last) {
        seq![last.discord_id]
    } else {
        Seq::<u64>::empty()
    });
    if q.len() > 0 {
        let i0: int = lemma_first_participant(front);
        assert(rows[i0] == front[i0]);
        assert forall|j: int| 0 <= j < i0 implies !takes_part(#[trigger] rows[j]) by {
            assert(rows[j] == front[j]);
        }
        i0
    } else {
        lemma_participants(front);
        assert forall|j: int| 0 <= j < rows.len() - 1 implies !takes_part(#[trigger] rows[j]) by {
            assert(rows[j] == front[j]);
            if takes_part(front[j]) {
                assert(q.contains(front[j].discord_id));
            }
        }
        rows.len() - 1
    }
}

/// Following giftees around a circle of distinct ids from `p[i]` meets the
/// rest of the circle, in order, and stops before returning to `p[0]`.
proof fn lemma_walk_circle(rows: Seq<UserRecord>, p: Seq<u64>, i: int, fuel: nat)
    requires
        p.no_duplicates(),
        p.len() >= 1,
        forall|k: int|
            0 <= k < p.len() ==> #[trigger] giftee_of(rows, p[k]) == Ok::<u64, TableError>(
                p[(k + 1) % (p.len() as int)],
            ),
        0 <= i < p.len(),
        fuel >= p.len() - i,
    ensures
        order_from(rows, p[i], p[0], fuel) == p.subrange(i, p.len() as int),
    decreases p.len() - i,
{
    let n: int = p.len() as int;
    assert(giftee_of(rows, p[i]) == Ok::<u64, TableError>(p[(i + 1) % n]));
    if i + 1 < n {
        vstd::arithmetic::div_mod::lemma_small_mod((i + 1) as nat, n as nat);
        let g: u64 = p[i + 1];
        assert(g != p[0]);
        assert(giftee_of(rows, g) == Ok::<u64, TableError>(p[(i + 2) % n]));
        lemma_lookup_id(rows, g);
        lemma_walk_circle(rows, p, i + 1, (fuel - 1) as nat);
        assert(order_from(rows, p[i], p[0], fuel) == seq![p[i]] + order_from(
            rows,
            g,
            p[0],
            (fuel - 1) as nat,
        ));
        assert(p.subrange(i, n) =~= seq![p[i]] + p.subrange(i + 1, n));
    } else {
        vstd::arithmetic::div_mod::lemma_mod_self_0(n);
        assert(order_from(rows, p[i], p[0], fuel) =~= seq![p[i]]);
        assert(p.subrange(i, n) =~= seq![p[i]]);
    }
}

/// Once the participants are matched in a circle, and nobody else holds a
/// giftee, the matching order lists every participant exactly once, in
/// table order.
pub proof fn lemma_order_after_circle(rows: Seq<UserRecord>)
    requires
        unique_ids(rows),
        participant_ids(rows).len() > 0,
        forall|i: int|
            0 <= i < rows.len() && !takes_part(#[trigger] rows[i]) ==> rows[i].giftee_id is None,
    ensures
        matching_order_ids(matched_in_circle(rows, participant_ids(rows))) == participant_ids(rows),
{
    let p = participant_ids(rows);
    let n: int = p.len() as int;
    lemma_participants(rows);
    lemma_circle_matching(rows, p);
    lemma_circle_keeps_ids(rows, p, n);
    lemma_participants_len(rows);
    let after = matched_in_circle(rows, p);
    let i0: int = lemma_first_participant(rows);
    // the first participant's row now has a giftee
    lemma_lookup_at(after, i0);
    assert(giftee_of(after, p[0]) == Ok::<u64, TableError>(p[(0int + 1) % n]));
    assert(after[i0].giftee_id is Some);
    // rows before it do not take part, so they are unchanged and unmatched
    assert forall|j: int| 0 <= j < i0 implies #[trigger] after[j].giftee_id is None by {
        let id: u64 = rows[j].discord_id;
        assert(!takes_part(rows[j]));
        if p.contains(id) {
            let k: int = choose|k: int| 0 <= k < p.len() && p[k] == id;
            assert(user_takes_part(rows, p[k]));
            lemma_lookup_at(rows, j);
        }
        lemma_lookup_at(rows, j);
        lemma_lookup_at(after, j);
        assert(lookup(after, id) == lookup(rows, id));
    }
    let c: int = first_matched_index(after);
    assert(0 <= i0 < after.len() && after[i0].giftee_id is Some && forall|j: int|
        0 <= j < i0 ==> #[trigger] after[j].giftee_id is None);
    assert(0 <= c < after.len() && after[c].giftee_id is Some);
    if c < i0 {
        assert(after[c].giftee_id is None);
    }
    if c > i0 {
        assert(after[i0].giftee_id is None);
    }
    assert(c == i0);
    lemma_walk_circle(after, p, 0, after.len());
    assert(p.subrange(0, n) =~= p);
}

/// A letter a giftee writes is the letter their santa reads.
pub proof fn lemma_letter_reaches_santa(rows: Seq<UserRecord>, santa: u64, giftee: u64, text: Seq<char>)
    requires
        unique_ids(rows),
        giftee_of(rows, santa) == Ok::<u64, TableError>(giftee),
        has_user(rows, giftee),
    ensures
        giftee_letter(update_where(rows, with_id(giftee), set_letter_text(text)), santa) == Some(
            Some(text),
        ),
{
    assert forall|r: UserRecord| #[trigger] set_letter_text(text)(r).discord_id == r.discord_id by {}
    lemma_lookup_after_update(rows, with_id(giftee), set_letter_text(text), santa);
    lemma_lookup_after_update(rows, with_id(giftee), set_letter_text(text), giftee);
    lemma_lookup_id(rows, santa);
    lemma_lookup_id(rows, giftee);
}

/// A submission a santa stores is what their row then holds, and nobody
/// else's row changes.
pub proof fn lemma_submission_is_stored(rows: Seq<UserRecord>, santa: u64, text: Seq<char>, other: u64)
    requires
        unique_ids(rows),
        has_user(rows, santa),
        other != santa,
    ensures
        lookup(update_where(rows, with_id(santa), set_submission_text(text)), santa) matches Some(r)
            && r.submission == Some(text),
        lookup(update_where(rows, with_id(santa), set_submission_text(text)), other) == lookup(
            rows,
            other,
        ),
{
    assert forall|r: UserRecord| #[trigger] set_submission_text(text)(r).discord_id == r.discord_id by {}
    lemma_lookup_after_update(rows, with_id(santa), set_submission_text(text), santa);
    lemma_lookup_after_update(rows, with_id(santa), set_submission_text(text), other);
    lemma_lookup_id(rows, santa);
    lemma_lookup_id(rows, other);
}

} // verus!
