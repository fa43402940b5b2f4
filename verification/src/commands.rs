//! The decisions that the bot's commands and its join button take, and what
//! each does to the table of participants. Checking the caller's host role,
//! talking to Discord and reading or writing the database are left to the
//! caller; these functions receive the current phase and the table, and say
//! which answer the command gives.

use vstd::prelude::*;
use crate::phase::Phase;
use crate::phase::PhaseChange;
use crate::phase::phase_change;
use crate::phase::plan_phase_change;
use crate::phase::phase_in;
use crate::users::UserTable;
use crate::users::UserRecord;
use crate::users::TableError;
use crate::users::lookup;
use crate::users::banned;
use crate::users::matched;
use crate::users::has_user;
use crate::users::update_where;
use crate::users::with_id;
use crate::users::set_joined;
use crate::users::set_banned;
use crate::users::fresh_record;
use crate::users::match_pair;
use crate::users::without_match;
use crate::users::every_row;
use crate::users::clear_assignment;
use crate::users::matched_in_circle;
use crate::users::participant_ids;
use crate::users::set_submission_text;
use crate::users::unique_ids;
use crate::users::giftee_of;
use crate::users::takes_part;
use crate::table_laws::lemma_ban_sticks;
use crate::table_laws::lemma_created_user_is_found;
use crate::table_laws::lemma_lookup_after_update;
use crate::table_laws::lemma_circle_matching;
use crate::table_laws::lemma_participants;
use crate::table_laws::lemma_order_after_circle;
use crate::users::matching_order_ids;

verus! {

/// The answer to a press of the join button.
#[derive(Clone, Copy, Debug, PartialEq, Eq, Structural)]
pub enum JoinReply {
    /// Joining is only possible in the joining phase.
    WrongPhase,
    /// The user is banned and cannot join.
    Banned,
    /// The user is in the event already.
    AlreadyJoined,
    /// The user had left and is back.
    Rejoined,
    /// The user is new and now joined.
    Joined,
}

/// What a press of the join button answers.
pub open spec fn join_reply(rows: Seq<UserRecord>, phase: Phase, user_id: u64) -> JoinReply {
    if phase != Phase::Join {
        JoinReply::WrongPhase
    } else if banned(rows, user_id) {
        JoinReply::Banned
    } else {
        match lookup(rows, user_id) {
            Some(r) => if r.has_joined {
                JoinReply::AlreadyJoined
            } else {
                JoinReply::Rejoined
            },
            None => JoinReply::Joined,
        }
    }
}

/// The table after a press of the join button that gave `reply`.
pub open spec fn join_effect(
    rows: Seq<UserRecord>,
    reply: JoinReply,
    user_id: u64,
    username: Seq<char>,
) -> Seq<UserRecord> {
    match reply {
        JoinReply::Rejoined => update_where(rows, with_id(user_id), set_joined(true)),
        JoinReply::Joined => rows.push(fresh_record(user_id, username)),
        _ => rows,
    }
}

/// A user presses the join button: outside the joining phase, or when
/// banned, nothing happens; a user who left joins again; a new user gets a
/// row.
pub fn join_event(table: &mut UserTable, phase: Phase, user_id: u64, username: String) -> (r:
    JoinReply)
    requires
        old(table).wf(),
    ensures
        final(table).wf(),
        r == join_reply(old(table)@, phase, user_id),
        final(table)@ == join_effect(old(table)@, r, user_id, username@),
        phase != Phase::Join ==> r == JoinReply::WrongPhase && final(table)@ == old(table)@,
{
    if phase != Phase::Join {
        return JoinReply::WrongPhase;
    }
    if table.is_user_banned(user_id) {
        return JoinReply::Banned;
    }
    match table.get_userinfo_by_id(user_id) {
        Some(user) => {
            if user.has_joined {
                JoinReply::AlreadyJoined
            } else {
                table.rejoin_user(user.discord_id);
                JoinReply::Rejoined
            }
        },
        None => {
            proof {
                lookup_none_means_no_user(old(table)@, user_id);
            }
            let created = table.create_user(username, user_id);
            assert(created is Ok);
            JoinReply::Joined
        },
    }
}

proof fn lookup_none_means_no_user(rows: Seq<UserRecord>, id: u64)
    ensures
        lookup(rows, id) is None <==> !has_user(rows, id),
{
}

/// The answer of the command that matches a santa with a giftee.
#[derive(Clone, Copy, Debug, PartialEq, Eq, Structural)]
pub enum MatchReply {
    /// Matching by hand is only possible while swapping or reading.
    WrongPhase,
    /// The santa has a giftee already, or the giftee has one.
    AlreadyMatched,
    /// The two are now matched with each other.
    Matched,
}

/// What the matching command answers; an error when either user has no row.
pub open spec fn match_reply(rows: Seq<UserRecord>, phase: Phase, santa: u64, giftee: u64) -> Result<
    MatchReply,
    TableError,
> {
    if !(phase == Phase::Swap || phase == Phase::Read) {
        Ok(MatchReply::WrongPhase)
    } else {
        match matched(rows, santa) {
            Err(e) => Err(e),
            Ok(a) => match matched(rows, giftee) {
                Err(e) => Err(e),
                Ok(b) => if a || b {
                    Ok(MatchReply::AlreadyMatched)
                } else {
                    Ok(MatchReply::Matched)
                },
            },
        }
    }
}

/// The host matches a santa with a giftee by hand: allowed while swapping
/// or reading, and only when neither has a giftee yet; the two then have
/// each other as giftee.
pub fn match_users(table: &mut UserTable, phase: Phase, santa: u64, giftee: u64) -> (r: Result<
    MatchReply,
    TableError,
>)
    requires
        old(table).wf(),
    ensures
        final(table).wf(),
        r == match_reply(old(table)@, phase, santa, giftee),
        r == Ok::<MatchReply, TableError>(MatchReply::Matched) ==> final(table)@ == match_pair(
            old(table)@,
            santa,
            giftee,
        ),
        r != Ok::<MatchReply, TableError>(MatchReply::Matched) ==> final(table)@ == old(table)@,
        r == Ok::<MatchReply, TableError>(MatchReply::Matched) ==> (phase == Phase::Swap || phase
            == Phase::Read) && matched(old(table)@, santa) == Ok::<bool, TableError>(false) && matched(
            old(table)@,
            giftee,
        ) == Ok::<bool, TableError>(false),
{
    let allowed = vec![Phase::Swap, Phase::Read];
    let ok_phase = phase_in(phase, &allowed);
    proof {
        assert(allowed@ == seq![Phase::Swap, Phase::Read]);
        if phase == Phase::Swap {
            assert(allowed@[0] == phase);
        }
        if phase == Phase::Read {
            assert(allowed@[1] == phase);
        }
    }
    if !ok_phase {
        return Ok(MatchReply::WrongPhase);
    }
    let check1 = match table.check_if_matched(santa) {
        Ok(b) => b,
        Err(e) => {
            return Err(e);
        },
    };
    let check2 = match table.check_if_matched(giftee) {
        Ok(b) => b,
        Err(e) => {
            return Err(e);
        },
    };
    if check1 || check2 {
        return Ok(MatchReply::AlreadyMatched);
    }
    table.set_match(santa, giftee);
    Ok(MatchReply::Matched)
}

/// The answer of the command that undoes a santa's match.
#[derive(Clone, Copy, Debug, PartialEq, Eq, Structural)]
pub enum UnmatchReply {
    /// The user has no giftee.
    NotMatched,
    /// The user's matches are undone.
    Unmatched,
}

/// What the unmatching command answers; an error when the user has no row.
pub open spec fn unmatch_reply(rows: Seq<UserRecord>, santa: u64) -> Result<UnmatchReply, TableError> {
    match matched(rows, santa) {
        Err(e) => Err(e),
        Ok(true) => Ok(UnmatchReply::Unmatched),
        Ok(false) => Ok(UnmatchReply::NotMatched),
    }
}

/// The host undoes a santa's match, in any phase: the santa loses their
/// giftee and whoever had the santa as giftee loses theirs.
pub fn unmatch_users(table: &mut UserTable, phase: Phase, santa: u64) -> (r: Result<
    UnmatchReply,
    TableError,
>)
    requires
        old(table).wf(),
    ensures
        final(table).wf(),
        r == unmatch_reply(old(table)@, santa),
        r == Ok::<UnmatchReply, TableError>(UnmatchReply::Unmatched) ==> final(table)@
            == without_match(old(table)@, santa),
        r != Ok::<UnmatchReply, TableError>(UnmatchReply::Unmatched) ==> final(table)@ == old(
            table,
        )@,
{
    let allowed = vec![Phase::Join, Phase::Read, Phase::Swap];
    let ok_phase = phase_in(phase, &allowed);
    proof {
        assert(allowed@ == seq![Phase::Join, Phase::Read, Phase::Swap]);
        match phase {
            Phase::Join => assert(allowed@[0] == phase),
            Phase::Read => assert(allowed@[1] == phase),
            Phase::Swap => assert(allowed@[2] == phase),
        }
    }
    if !ok_phase {
        return Ok(UnmatchReply::NotMatched);
    }
    let check = match table.check_if_matched(santa) {
        Ok(b) => b,
        Err(e) => {
            return Err(e);
        },
    };
    if !check {
        return Ok(UnmatchReply::NotMatched);
    }
    table.remove_match(santa);
    Ok(UnmatchReply::Unmatched)
}

/// The host bans a user; the answer says whether the ban is announced,
/// which it is only in the joining phase.
pub fn ban_user(table: &mut UserTable, phase: Phase, user_id: u64) -> (announce: bool)
    requires
        old(table).wf(),
    ensures
        final(table).wf(),
        final(table)@ == update_where(old(table)@, with_id(user_id), set_banned()),
        announce == (phase == Phase::Join),
{
    table.ban_user(user_id);
    phase == Phase::Join
}

/// The table after a phase change that was planned as `c`: going back to
/// joining clears every assignment and submission, going on to swapping
/// matches the participants in a circle in table order.
pub open spec fn phase_effect(rows: Seq<UserRecord>, c: PhaseChange) -> Seq<UserRecord> {
    match c {
        PhaseChange::ResetThenSet => update_where(rows, every_row(), clear_assignment()),
        PhaseChange::MatchThenSet => matched_in_circle(rows, participant_ids(rows)),
        _ => rows,
    }
}

/// The host asks to move the event from `current` to `requested`: the
/// answer is the planned change, and the table is prepared for the new
/// phase; storing the new phase is left to the caller.
pub fn set_phase(table: &mut UserTable, current: Phase, requested: Phase) -> (c: PhaseChange)
    requires
        old(table).wf(),
    ensures
        final(table).wf(),
        c == phase_change(current, requested),
        final(table)@ == phase_effect(old(table)@, c),
        c != PhaseChange::ResetThenSet && c != PhaseChange::MatchThenSet ==> final(table)@ == old(
            table,
        )@,
{
    let c = plan_phase_change(current, requested);
    match c {
        PhaseChange::ResetThenSet => {
            table.reset_giftees_and_submissions();
        },
        PhaseChange::MatchThenSet => {
            let order = table.participants();
            table.assign_in_circle(&order);
        },
        _ => {},
    }
    c
}

/// Whether a santa may submit a gift now.
#[derive(Clone, Copy, Debug, PartialEq, Eq, Structural)]
pub enum SubmitGate {
    /// The user is not in the event.
    NotJoined,
    /// Gifts are submitted in direct messages only.
    NotInDirectMessage,
    /// The user has no giftee yet.
    NoGiftee,
    /// Gifts are submitted while swapping or reading.
    WrongPhase,
    /// The submission can be asked for.
    Ready,
}

/// The checks before a submission, in order.
pub open spec fn submit_gate(
    rows: Seq<UserRecord>,
    user_id: u64,
    in_direct_message: bool,
    phase: Phase,
) -> SubmitGate {
    if !(lookup(rows, user_id) matches Some(r) && r.has_joined) {
        SubmitGate::NotJoined
    } else if !in_direct_message {
        SubmitGate::NotInDirectMessage
    } else if matched(rows, user_id) != Ok::<bool, TableError>(true) {
        SubmitGate::NoGiftee
    } else if !(phase == Phase::Swap || phase == Phase::Read) {
        SubmitGate::WrongPhase
    } else {
        SubmitGate::Ready
    }
}

/// Decides whether a santa may submit: they must be joined, write in a
/// direct message, have a giftee, and the event must be swapping or
/// reading.
pub fn check_submit(table: &UserTable, user_id: u64, in_direct_message: bool, phase: Phase) -> (g:
    SubmitGate)
    requires
        table.wf(),
    ensures
        g == submit_gate(table@, user_id, in_direct_message, phase),
        g == SubmitGate::Ready <==> (lookup(table@, user_id) matches Some(r) && r.has_joined)
            && in_direct_message && matched(table@, user_id) == Ok::<bool, TableError>(true) && (phase
            == Phase::Swap || phase == Phase::Read),
{
    match table.get_userinfo_by_id(user_id) {
        Some(u) => {
            if !u.has_joined {
                return SubmitGate::NotJoined;
            }
        },
        None => {
            return SubmitGate::NotJoined;
        },
    }
    if !in_direct_message {
        return SubmitGate::NotInDirectMessage;
    }
    match table.check_if_matched(user_id) {
        Ok(true) => {},
        _ => {
            return SubmitGate::NoGiftee;
        },
    }
    if !(phase == Phase::Swap || phase == Phase::Read) {
        return SubmitGate::WrongPhase;
    }
    SubmitGate::Ready
}

/// The longest submission that is stored, in characters.
pub const MAX_SUBMISSION_CHARS: usize = 2000;

/// The answer to a submitted gift.
#[derive(Clone, Copy, Debug, PartialEq, Eq, Structural)]
pub enum SubmitReply {
    /// The text is longer than `MAX_SUBMISSION_CHARS`; nothing is stored.
    TooLong,
    /// The gift is stored.
    Stored,
}

/// A santa sends the text of their gift: it is stored unless it is too
/// long.
pub fn submit(table: &mut UserTable, santa_id: u64, message: String) -> (r: SubmitReply)
    requires
        old(table).wf(),
    ensures
        final(table).wf(),
        r == (if message@.len() > MAX_SUBMISSION_CHARS {
            SubmitReply::TooLong
        } else {
            SubmitReply::Stored
        }),
        r == SubmitReply::Stored ==> final(table)@ == update_where(
            old(table)@,
            with_id(santa_id),
            set_submission_text(message@),
        ),
        r == SubmitReply::TooLong ==> final(table)@ == old(table)@,
{
    if message.as_str().unicode_len() > MAX_SUBMISSION_CHARS {
        return SubmitReply::TooLong;
    }
    table.set_submission(santa_id, message);
    SubmitReply::Stored
}

/// A banned user who presses the join button is refused as banned.
pub proof fn lemma_banned_user_cannot_join(rows: Seq<UserRecord>, user_id: u64)
    requires
        unique_ids(rows),
        has_user(rows, user_id),
    ensures
        join_reply(
            update_where(rows, with_id(user_id), set_banned()),
            Phase::Join,
            user_id,
        ) == JoinReply::Banned,
{
    lemma_ban_sticks(rows, user_id);
}

/// A new user who joins and presses the button again is told they are in
/// the event already.
pub proof fn lemma_join_twice(rows: Seq<UserRecord>, user_id: u64, username: Seq<char>)
    requires
        unique_ids(rows),
        !has_user(rows, user_id),
    ensures
        join_reply(rows, Phase::Join, user_id) == JoinReply::Joined,
        join_reply(
            join_effect(rows, JoinReply::Joined, user_id, username),
            Phase::Join,
            user_id,
        ) == JoinReply::AlreadyJoined,
{
    lookup_none_means_no_user(rows, user_id);
    lemma_created_user_is_found(rows, user_id, username);
}

/// A user who left and was not banned comes back with the join button and
/// is then joined again.
pub proof fn lemma_leave_then_rejoin(rows: Seq<UserRecord>, user_id: u64, username: Seq<char>)
    requires
        unique_ids(rows),
        has_user(rows, user_id),
        !banned(rows, user_id),
    ensures
        ({
            let left = update_where(rows, with_id(user_id), set_joined(false));
            let back = join_effect(left, JoinReply::Rejoined, user_id, username);
            &&& join_reply(left, Phase::Join, user_id) == JoinReply::Rejoined
            &&& lookup(back, user_id) matches Some(r) && r.has_joined
        }),
{
    let left = update_where(rows, with_id(user_id), set_joined(false));
    assert forall|r: UserRecord| #[trigger] set_joined(false)(r).discord_id == r.discord_id by {}
    assert forall|r: UserRecord| #[trigger] set_joined(true)(r).discord_id == r.discord_id by {}
    lemma_lookup_after_update(rows, with_id(user_id), set_joined(false), user_id);
    lemma_lookup_after_update(left, with_id(user_id), set_joined(true), user_id);
}

/// Moving on to swapping matches every participant (joined and not banned)
/// in a circle: each one's giftee is the next participant in table order,
/// the last one's is the first, nobody else's row changes, and when there
/// are at least two participants nobody is their own giftee.
pub proof fn lemma_swap_matches_participants(rows: Seq<UserRecord>)
    requires
        unique_ids(rows),
    ensures
        ({
            let p = participant_ids(rows);
            let after = phase_effect(rows, PhaseChange::MatchThenSet);
            &&& unique_ids(after)
            &&& forall|i: int|
                0 <= i < p.len() ==> #[trigger] giftee_of(after, p[i]) == Ok::<u64, TableError>(
                    p[(i + 1) % (p.len() as int)],
                )
            &&& forall|i: int|
                0 <= i < p.len() && p.len() >= 2 ==> #[trigger] giftee_of(after, p[i]) != Ok::<
                    u64,
                    TableError,
                >(p[i])
            &&& forall|x: u64| !p.contains(x) ==> #[trigger] lookup(after, x) == lookup(rows, x)
            &&& forall|i: int|
                0 <= i < rows.len() && takes_part(#[trigger] rows[i]) ==> giftee_of(
                    after,
                    rows[i].discord_id,
                ) is Ok
        }),
{
    let p = participant_ids(rows);
    lemma_participants(rows);
    lemma_circle_matching(rows, p);
    let after = phase_effect(rows, PhaseChange::MatchThenSet);
    let n: int = p.len() as int;
    assert forall|i: int| 0 <= i < n && n >= 2 implies #[trigger] giftee_of(after, p[i]) != Ok::<
        u64,
        TableError,
    >(p[i]) by {
        assert(giftee_of(after, p[i]) == Ok::<u64, TableError>(p[(i + 1) % n]));
        if i + 1 < n {
            vstd::arithmetic::div_mod::lemma_small_mod((i + 1) as nat, n as nat);
            assert(p[i + 1] != p[i]);
        } else {
            vstd::arithmetic::div_mod::lemma_mod_self_0(n);
            assert(p[0] != p[i]);
        }
    }
    assert forall|i: int| 0 <= i < rows.len() && takes_part(#[trigger] rows[i]) implies giftee_of(
        after,
        rows[i].discord_id,
    ) is Ok by {
        let k: int = choose|k: int| 0 <= k < p.len() && p[k] == rows[i].discord_id;
        assert(giftee_of(after, p[k]) == Ok::<u64, TableError>(p[(k + 1) % n]));
    }
}

/// Going back to joining leaves nobody with a giftee or a submission.
pub proof fn lemma_back_to_join_clears(rows: Seq<UserRecord>)
    ensures
        forall|i: int|
            0 <= i < rows.len() ==> (#[trigger] phase_effect(rows, PhaseChange::ResetThenSet)[i]).giftee_id
                is None && phase_effect(rows, PhaseChange::ResetThenSet)[i].submission is None,
{
}

/// Starting from a table where nobody holds a giftee (as after going back
/// to joining), moving on to swapping and then revealing the matching order
/// lists every participant exactly once, in table order; the revealed loop
/// closes back on the first of them.
pub proof fn lemma_reveal_after_swap(rows: Seq<UserRecord>)
    requires
        unique_ids(rows),
        participant_ids(rows).len() > 0,
        forall|i: int| 0 <= i < rows.len() ==> (#[trigger] rows[i]).giftee_id is None,
    ensures
        matching_order_ids(phase_effect(rows, PhaseChange::MatchThenSet)) == participant_ids(rows),
{
    lemma_order_after_circle(rows);
}

/// Only going back to joining or on to swapping changes the table: a move
/// that is refused, asks for the current phase, or goes on to reading
/// leaves every row as it was.
pub proof fn lemma_other_moves_keep_table(rows: Seq<UserRecord>, current: Phase, requested: Phase)
    ensures
        !(current == Phase::Read && requested == Phase::Join) && !(current == Phase::Join
            && requested == Phase::Swap) ==> phase_effect(rows, phase_change(current, requested))
            == rows,
        current == Phase::Swap && requested == Phase::Read ==> phase_change(current, requested)
            == PhaseChange::SetOnly && phase_effect(rows, PhaseChange::SetOnly) == rows,
{
}

/// Outside the joining phase the join button is refused and nothing
/// changes, whoever presses it.
pub proof fn lemma_join_only_while_joining(
    rows: Seq<UserRecord>,
    phase: Phase,
    user_id: u64,
    username: Seq<char>,
)
    requires
        phase != Phase::Join,
    ensures
        join_reply(rows, phase, user_id) == JoinReply::WrongPhase,
        join_effect(rows, join_reply(rows, phase, user_id), user_id, username) == rows,
{
}

/// Matching by hand never overwrites an existing match: when either the
/// santa or the giftee has a giftee already, the answer is not `Matched`
/// (so the table is unchanged), and it is `AlreadyMatched` when both have
/// rows and the phase allows matching.
pub proof fn lemma_match_never_overwrites(
    rows: Seq<UserRecord>,
    phase: Phase,
    santa: u64,
    giftee: u64,
)
    requires
        matched(rows, santa) == Ok::<bool, TableError>(true) || matched(rows, giftee) == Ok::<
            bool,
            TableError,
        >(true),
    ensures
        match_reply(rows, phase, santa, giftee) != Ok::<MatchReply, TableError>(MatchReply::Matched),
        (phase == Phase::Swap || phase == Phase::Read) && has_user(rows, santa) && has_user(
            rows,
            giftee,
        ) ==> match_reply(rows, phase, santa, giftee) == Ok::<MatchReply, TableError>(
            MatchReply::AlreadyMatched,
        ),
{
    lookup_none_means_no_user(rows, santa);
    lookup_none_means_no_user(rows, giftee);
}

/// A joined user with a giftee, writing in a direct message, may submit in
/// both the swapping and the reading phase, and only then.
pub proof fn lemma_submit_open_while_swapping_or_reading(
    rows: Seq<UserRecord>,
    user_id: u64,
    phase: Phase,
)
    requires
        lookup(rows, user_id) matches Some(r) && r.has_joined,
        matched(rows, user_id) == Ok::<bool, TableError>(true),
    ensures
        submit_gate(rows, user_id, true, Phase::Swap) == SubmitGate::Ready,
        submit_gate(rows, user_id, true, Phase::Read) == SubmitGate::Ready,
        submit_gate(rows, user_id, true, Phase::Join) == SubmitGate::WrongPhase,
{
}

} // verus!
