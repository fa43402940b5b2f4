//! The table of event participants: one row per Discord user, with the
//! letter they wrote, the gift they submitted, the user whose letter they
//! answer (their giftee), and whether they are banned or currently joined.
//!
//! Every operation is stated over the sequence of rows as the statement it
//! stands for: a lookup finds the row with an id, an update rewrites the
//! rows that a condition selects and leaves the others as they were.

use vstd::prelude::*;

verus! {

/// One participant as the bot stores it.
#[derive(Debug)]
pub struct UserInfo {
    pub discord_id: u64,
    pub username: String,
    pub letter: Option<String>,
    pub submission: Option<String>,
    pub giftee_id: Option<u64>,
    pub is_banned: bool,
    pub has_joined: bool,
}

/// The mathematical content of a `UserInfo`.
pub struct UserRecord {
    pub discord_id: u64,
    pub username: Seq<char>,
    pub letter: Option<Seq<char>>,
    pub submission: Option<Seq<char>>,
    pub giftee_id: Option<u64>,
    pub is_banned: bool,
    pub has_joined: bool,
}

/// The characters of an optional text.
pub open spec fn text_of(t: Option<String>) -> Option<Seq<char>> {
    match t {
        Some(s) => Some(s@),
        None => None,
    }
}

impl View for UserInfo {
    type V = UserRecord;

    open spec fn view(&self) -> UserRecord {
        UserRecord {
            discord_id: self.discord_id,
            username: self.username@,
            letter: text_of(self.letter),
            submission: text_of(self.submission),
            giftee_id: self.giftee_id,
            is_banned: self.is_banned,
            has_joined: self.has_joined,
        }
    }
}

fn copy_text(t: &Option<String>) -> (r: Option<String>)
    ensures
        text_of(r) == text_of(*t),
{
    match t {
        Some(s) => Some(s.clone()),
        None => None,
    }
}

impl UserInfo {
    /// A copy of the row.
    pub fn duplicate(&self) -> (r: UserInfo)
        ensures
            r@ == self@,
    {
        UserInfo {
            discord_id: self.discord_id,
            username: self.username.clone(),
            letter: copy_text(&self.letter),
            submission: copy_text(&self.submission),
            giftee_id: self.giftee_id,
            is_banned: self.is_banned,
            has_joined: self.has_joined,
        }
    }
}

/// Why a statement on the table gave no result.
#[derive(Clone, Copy, Debug, PartialEq, Eq, Structural)]
pub enum TableError {
    /// The query found no row.
    NoRow,
    /// The row was found, but its giftee is unset where a giftee was read.
    NullGiftee,
    /// A row with that id exists already.
    DuplicateUser,
    /// The statement is not valid and was not run.
    MalformedStatement,
}

/// The row with a given id exists.
pub open spec fn has_user(rows: Seq<UserRecord>, id: u64) -> bool {
    exists|i: int| 0 <= i < rows.len() && #[trigger] rows[i].discord_id == id
}

/// The row with a given id, if there is one.
pub open spec fn lookup(rows: Seq<UserRecord>, id: u64) -> Option<UserRecord> {
    if has_user(rows, id) {
        Some(rows[choose|i: int| 0 <= i < rows.len() && #[trigger] rows[i].discord_id == id])
    } else {
        None
    }
}

/// No two rows share an id.
pub open spec fn unique_ids(rows: Seq<UserRecord>) -> bool {
    forall|i: int, j: int|
        0 <= i < rows.len() && 0 <= j < rows.len() && i != j ==> #[trigger] rows[i].discord_id
            != #[trigger] rows[j].discord_id
}

/// The rows after an update: those that `sel` selects are rewritten by
/// `set`, the others stay, and the order is kept.
pub open spec fn update_where(
    rows: Seq<UserRecord>,
    sel: spec_fn(UserRecord) -> bool,
    set: spec_fn(UserRecord) -> UserRecord,
) -> Seq<UserRecord> {
    rows.map_values(|r: UserRecord| if sel(r) { set(r) } else { r })
}

/// How many rows `sel` selects.
pub open spec fn count_where(rows: Seq<UserRecord>, sel: spec_fn(UserRecord) -> bool) -> nat
    decreases rows.len(),
{
    if rows.len() == 0 {
        0
    } else {
        count_where(rows.drop_last(), sel) + if sel(rows.last()) {
            1nat
        } else {
            0nat
        }
    }
}

/// The row a new participant gets: joined, not banned, nothing written,
/// nobody assigned.
pub open spec fn fresh_record(id: u64, username: Seq<char>) -> UserRecord {
    UserRecord {
        discord_id: id,
        username: username,
        letter: None,
        submission: None,
        giftee_id: None,
        is_banned: false,
        has_joined: true,
    }
}

/// Selects the row of one user.
pub open spec fn with_id(id: u64) -> spec_fn(UserRecord) -> bool {
    |r: UserRecord| r.discord_id == id
}

/// Selects the rows whose giftee is a given user: that user's santas.
pub open spec fn santas_of(id: u64) -> spec_fn(UserRecord) -> bool {
    |r: UserRecord| r.giftee_id == Some(id)
}

/// Selects every row.
pub open spec fn every_row() -> spec_fn(UserRecord) -> bool {
    |r: UserRecord| true
}

/// The row with `has_joined` set to a value.
pub open spec fn set_joined(joined: bool) -> spec_fn(UserRecord) -> UserRecord {
    |r: UserRecord| UserRecord { has_joined: joined, ..r }
}

/// The row of a banned user: banned, and no longer joined.
pub open spec fn set_banned() -> spec_fn(UserRecord) -> UserRecord {
    |r: UserRecord| UserRecord { has_joined: false, is_banned: true, ..r }
}

/// The row of a banned user who also loses their giftee.
pub open spec fn set_banned_unassigned() -> spec_fn(UserRecord) -> UserRecord {
    |r: UserRecord| UserRecord { has_joined: false, is_banned: true, giftee_id: None, ..r }
}

/// The row with a new letter.
pub open spec fn set_letter_text(t: Seq<char>) -> spec_fn(UserRecord) -> UserRecord {
    |r: UserRecord| UserRecord { letter: Some(t), ..r }
}

/// The row with a new submission.
pub open spec fn set_submission_text(t: Seq<char>) -> spec_fn(UserRecord) -> UserRecord {
    |r: UserRecord| UserRecord { submission: Some(t), ..r }
}

/// The row with a new giftee, or none.
pub open spec fn set_giftee(g: Option<u64>) -> spec_fn(UserRecord) -> UserRecord {
    |r: UserRecord| UserRecord { giftee_id: g, ..r }
}

/// The row with neither giftee nor submission.
pub open spec fn clear_assignment() -> spec_fn(UserRecord) -> UserRecord {
    |r: UserRecord| UserRecord { giftee_id: None, submission: None, ..r }
}

/// The rows after two users are matched both ways: the second gets the
/// first as giftee, then the first gets the second.
pub open spec fn match_pair(rows: Seq<UserRecord>, user_id1: u64, user_id2: u64) -> Seq<UserRecord> {
    update_where(
        update_where(rows, with_id(user_id2), set_giftee(Some(user_id1))),
        with_id(user_id1),
        set_giftee(Some(user_id2)),
    )
}

/// The rows after a user's matches are undone: the user loses their
/// giftee, then whoever had the user as giftee loses theirs.
pub open spec fn without_match(rows: Seq<UserRecord>, user_id: u64) -> Seq<UserRecord> {
    update_where(
        update_where(rows, with_id(user_id), set_giftee(None)),
        santas_of(user_id),
        set_giftee(None),
    )
}

/// The giftee of a santa, as read from the santa's row.
pub open spec fn giftee_of(rows: Seq<UserRecord>, santa: u64) -> Result<u64, TableError> {
    match lookup(rows, santa) {
        Some(r) => match r.giftee_id {
            Some(g) => Ok(g),
            None => Err(TableError::NullGiftee),
        },
        None => Err(TableError::NoRow),
    }
}

/// The letter of a santa's giftee: found when the santa's row names a
/// giftee whose row exists.
pub open spec fn giftee_letter(rows: Seq<UserRecord>, santa: u64) -> Option<Option<Seq<char>>> {
    match lookup(rows, santa) {
        Some(r) => match r.giftee_id {
            Some(g) => match lookup(rows, g) {
                Some(gr) => Some(gr.letter),
                None => None,
            },
            None => None,
        },
        None => None,
    }
}

/// Whether a user has a giftee, as read from their row.
pub open spec fn matched(rows: Seq<UserRecord>, id: u64) -> Result<bool, TableError> {
    match lookup(rows, id) {
        Some(r) => Ok(r.giftee_id is Some),
        None => Err(TableError::NoRow),
    }
}

/// Whether a user is banned; a user without a row is not.
pub open spec fn banned(rows: Seq<UserRecord>, id: u64) -> bool {
    match lookup(rows, id) {
        Some(r) => r.is_banned,
        None => false,
    }
}

/// Which rows an update rewrites.
#[derive(Clone, Copy)]
enum Selector {
    ById(u64),
    ByGiftee(u64),
    Every,
}

spec fn selects(sel: Selector, r: UserRecord) -> bool {
    match sel {
        Selector::ById(id) => r.discord_id == id,
        Selector::ByGiftee(id) => r.giftee_id == Some(id),
        Selector::Every => true,
    }
}

/// How an update rewrites a row.
enum RowChange {
    Leave,
    Rejoin,
    Ban,
    BanAndUnassign,
    Letter(String),
    Submission(String),
    Giftee(Option<u64>),
    ClearAssignment,
}

spec fn changed(r: UserRecord, c: RowChange) -> UserRecord {
    match c {
        RowChange::Leave => UserRecord { has_joined: false, ..r },
        RowChange::Rejoin => UserRecord { has_joined: true, ..r },
        RowChange::Ban => UserRecord { has_joined: false, is_banned: true, ..r },
        RowChange::BanAndUnassign => UserRecord {
            has_joined: false,
            is_banned: true,
            giftee_id: None,
            ..r
        },
        RowChange::Letter(t) => UserRecord { letter: Some(t@), ..r },
        RowChange::Submission(t) => UserRecord { submission: Some(t@), ..r },
        RowChange::Giftee(g) => UserRecord { giftee_id: g, ..r },
        RowChange::ClearAssignment => UserRecord { giftee_id: None, submission: None, ..r },
    }
}

fn apply_change(row: UserInfo, c: &RowChange) -> (r: UserInfo)
    ensures
        r@ == changed(row@, *c),
{
    match c {
        RowChange::Leave => UserInfo { has_joined: false, ..row },
        RowChange::Rejoin => UserInfo { has_joined: true, ..row },
        RowChange::Ban => UserInfo { has_joined: false, is_banned: true, ..row },
        RowChange::BanAndUnassign => UserInfo {
            has_joined: false,
            is_banned: true,
            giftee_id: None,
            ..row
        },
        RowChange::Letter(t) => UserInfo { letter: Some(t.clone()), ..row },
        RowChange::Submission(t) => UserInfo { submission: Some(t.clone()), ..row },
        RowChange::Giftee(g) => UserInfo { giftee_id: *g, ..row },
        RowChange::ClearAssignment => UserInfo { giftee_id: None, submission: None, ..row },
    }
}

fn row_selected(row: &UserInfo, sel: Selector) -> (b: bool)
    ensures
        b == selects(sel, row@),
{
    match sel {
        Selector::ById(id) => row.discord_id == id,
        Selector::ByGiftee(id) => row.giftee_id == Some(id),
        Selector::Every => true,
    }
}

/// With distinct ids, at most the one row with an id is selected by it.
proof fn lemma_count_by_id(rows: Seq<UserRecord>, id: u64)
    requires
        unique_ids(rows),
    ensures
        count_where(rows, |r: UserRecord| r.discord_id == id) == if has_user(rows, id) {
            1nat
        } else {
            0nat
        },
    decreases rows.len(),
{
    if rows.len() > 0 {
        let front = rows.drop_last();
        assert(unique_ids(front));
        lemma_count_by_id(front, id);
        if rows.last().discord_id == id {
            assert(rows[rows.len() - 1].discord_id == id);
            assert(!has_user(front, id)) by {
                if has_user(front, id) {
                    let i: int = choose|i: int| 0 <= i < front.len() && #[trigger] front[i].discord_id == id;
                    assert(rows[i].discord_id == id);
                }
            }
        } else {
            if has_user(rows, id) {
                let i: int = choose|i: int| 0 <= i < rows.len() && #[trigger] rows[i].discord_id == id;
                assert(front[i].discord_id == id);
            }
            if has_user(front, id) {
                let i: int = choose|i: int| 0 <= i < front.len() && #[trigger] front[i].discord_id == id;
                assert(rows[i].discord_id == id);
            }
        }
    }
}

/// With distinct ids, the row found at an index is the one a lookup gives.
pub(crate) proof fn lemma_lookup_at(rows: Seq<UserRecord>, i: int)
    requires
        unique_ids(rows),
        0 <= i < rows.len(),
    ensures
        has_user(rows, rows[i].discord_id),
        lookup(rows, rows[i].discord_id) == Some(rows[i]),
{
    let id: u64 = rows[i].discord_id;
    assert(rows[i].discord_id == id);
    let j: int = choose|j: int| 0 <= j < rows.len() && #[trigger] rows[j].discord_id == id;
    assert(rows[j].discord_id == id);
}

/// The mathematical content of a sequence of rows.
pub open spec fn records(rows: Seq<UserInfo>) -> Seq<UserRecord> {
    rows.map_values(|u: UserInfo| u@)
}

/// A participant takes part in the matching: joined and not banned.
pub open spec fn takes_part(r: UserRecord) -> bool {
    r.has_joined && !r.is_banned
}

/// The user with an id has a row and takes part in the matching.
pub open spec fn user_takes_part(rows: Seq<UserRecord>, id: u64) -> bool {
    match lookup(rows, id) {
        Some(r) => takes_part(r),
        None => false,
    }
}

/// The ids of the participants who take part in the matching, in table
/// order.
pub open spec fn participant_ids(rows: Seq<UserRecord>) -> Seq<u64> {
    rows.filter_map(|r: UserRecord| if takes_part(r) { Some(r.discord_id) } else { None })
}

/// The rows after the first `k` steps of matching in a circle: step `i`
/// gives `order[i]` the next id in `order` as giftee, the last one the
/// first.
pub open spec fn circle_steps(rows: Seq<UserRecord>, order: Seq<u64>, k: int) -> Seq<UserRecord>
    decreases k,
{
    if k <= 0 || order.len() == 0 {
        rows
    } else {
        update_where(
            circle_steps(rows, order, k - 1),
            with_id(order[k - 1]),
            set_giftee(Some(order[k % (order.len() as int)])),
        )
    }
}

/// The rows after every participant in `order` is matched in a circle.
pub open spec fn matched_in_circle(rows: Seq<UserRecord>, order: Seq<u64>) -> Seq<UserRecord> {
    circle_steps(rows, order, order.len() as int)
}

/// The row a lookup finds carries the id looked up.
pub(crate) proof fn lemma_lookup_id(rows: Seq<UserRecord>, id: u64)
    ensures
        lookup(rows, id) matches Some(r) ==> r.discord_id == id,
        lookup(rows, id) is Some <==> has_user(rows, id),
{
}

/// The ids met when following giftees from `cur` until the walk returns to
/// `start`, reaches a user without a giftee or a giftee without a row, or
/// has taken `fuel` steps.
pub open spec fn order_from(rows: Seq<UserRecord>, cur: u64, start: u64, fuel: nat) -> Seq<u64>
    decreases fuel,
{
    if fuel == 0 {
        Seq::empty()
    } else {
        seq![cur] + match giftee_of(rows, cur) {
            Ok(g) => if g == start || !has_user(rows, g) {
                Seq::<u64>::empty()
            } else {
                order_from(rows, g, start, (fuel - 1) as nat)
            },
            Err(_) => Seq::<u64>::empty(),
        }
    }
}

/// The index of the first row, in table order, that has a giftee.
pub open spec fn first_matched_index(rows: Seq<UserRecord>) -> int {
    choose|i: int|
        0 <= i < rows.len() && rows[i].giftee_id is Some && forall|j: int|
            0 <= j < i ==> #[trigger] rows[j].giftee_id is None
}

/// The matching order: the ids met when following giftees from the first
/// row that has one, at most one step per row; empty when nobody has a
/// giftee.
pub open spec fn matching_order_ids(rows: Seq<UserRecord>) -> Seq<u64> {
    if exists|i: int| 0 <= i < rows.len() && #[trigger] rows[i].giftee_id is Some {
        let s: u64 = rows[first_matched_index(rows)].discord_id;
        order_from(rows, s, s, rows.len())
    } else {
        Seq::empty()
    }
}

/// The name stored for a user.
pub open spec fn name_of(rows: Seq<UserRecord>, id: u64) -> Seq<char> {
    match lookup(rows, id) {
        Some(r) => r.username,
        None => Seq::empty(),
    }
}

/// The participants of an event, in the order in which they were added.
pub struct UserTable {
    rows: Vec<UserInfo>,
}

impl View for UserTable {
    type V = Seq<UserRecord>;

    closed spec fn view(&self) -> Seq<UserRecord> {
        records(self.rows@)
    }
}

impl UserTable {
    /// The table is well formed: no two rows share an id.
    pub open spec fn wf(&self) -> bool {
        unique_ids(self@)
    }

    /// An empty table.
    pub fn new() -> (t: UserTable)
        ensures
            t.wf(),
            t@ == Seq::<UserRecord>::empty(),
    {
        let t = UserTable { rows: Vec::new() };
        assert(t@ =~= Seq::<UserRecord>::empty());
        t
    }

    /// The number of rows.
    pub fn len(&self) -> (n: usize)
        ensures
            n == self@.len(),
    {
        self.rows.len()
    }

    /// The index of the row with an id, if there is one.
    fn find(&self, id: u64) -> (r: Option<usize>)
        ensures
            match r {
                Some(i) => i < self@.len() && self@[i as int].discord_id == id,
                None => !has_user(self@, id),
            },
    {
        let mut i: usize = 0;
        while i < self.rows.len()
            invariant
                i <= self.rows.len(),
                self@.len() == self.rows.len(),
                forall|j: int| 0 <= j < i ==> self@[j].discord_id != id,
            decreases self.rows.len() - i,
        {
            if self.rows[i].discord_id == id {
                return Some(i);
            }
            i = i + 1;
        }
        proof {
            if has_user(self@, id) {
                let j: int = choose|j: int| 0 <= j < self@.len() && #[trigger] self@[j].discord_id == id;
                assert(self@[j].discord_id == id);
            }
        }
        None
    }

    /// Rewrites the rows that `sel` selects and says how many there were.
    fn update(&mut self, sel: Selector, c: RowChange) -> (n: usize)
        requires
            old(self).wf(),
        ensures
            final(self).wf(),
            final(self)@ == update_where(
                old(self)@,
                |r: UserRecord| selects(sel, r),
                |r: UserRecord| changed(r, c),
            ),
            n == count_where(old(self)@, |r: UserRecord| selects(sel, r)),
    {
        let ghost s0 = self@;
        let mut n: usize = 0;
        let mut i: usize = 0;
        while i < self.rows.len()
            invariant
                i <= self.rows.len(),
                self.rows.len() == s0.len(),
                self@.len() == s0.len(),
                forall|j: int|
                    0 <= j < i ==> #[trigger] self@[j] == (if selects(sel, s0[j]) {
                        changed(s0[j], c)
                    } else {
                        s0[j]
                    }),
                forall|j: int| i <= j < s0.len() ==> #[trigger] self@[j] == s0[j],
                n <= i,
                n == count_where(s0.take(i as int), |r: UserRecord| selects(sel, r)),
            decreases self.rows.len() - i,
        {
            assert(s0.take(i as int + 1).drop_last() =~= s0.take(i as int));
            assert(self@[i as int] == s0[i as int]);
            assert(self.rows@[i as int]@ == self@[i as int]);
            let ghost before = self@;
            if row_selected(&self.rows[i], sel) {
                let ghost prev = self.rows@;
                let row = self.rows.remove(i);
                let new_row = apply_change(row, &c);
                self.rows.insert(i, new_row);
                proof {
                    assert(self.rows@ =~= prev.update(i as int, new_row));
                    assert(self@[i as int] == new_row@);
                    assert forall|j: int| 0 <= j < s0.len() && j != i implies #[trigger] self@[j]
                        == before[j] by {
                        assert(self.rows@[j] == prev[j]);
                        assert(before[j] == prev[j]@);
                    }
                }
                n = n + 1;
            }
            i = i + 1;
        }
        proof {
            assert(s0.take(s0.len() as int) =~= s0);
            let target = update_where(
                s0,
                |r: UserRecord| selects(sel, r),
                |r: UserRecord| changed(r, c),
            );
            assert(self@ =~= target);
            assert forall|a: int, b: int|
                0 <= a < self@.len() && 0 <= b < self@.len() && a != b implies #[trigger] self@[a].discord_id
                != #[trigger] self@[b].discord_id by {
                assert(s0[a].discord_id != s0[b].discord_id);
            }
        }
        n
    }

    /// The row of the user with an id, if there is one.
    pub fn get_userinfo_by_id(&self, user_id: u64) -> (r: Option<UserInfo>)
        requires
            self.wf(),
        ensures
            match r {
                Some(u) => lookup(self@, user_id) == Some(u@),
                None => lookup(self@, user_id) is None,
            },
    {
        match self.find(user_id) {
            Some(i) => {
                proof {
                    let j: int = choose|j: int| 0 <= j < self@.len() && #[trigger] self@[j].discord_id == user_id;
                    assert(self@[i as int].discord_id == user_id);
                    assert(j == i);
                }
                Some(self.rows[i].duplicate())
            },
            None => None,
        }
    }

    /// The index of a user's row and that row as a lookup gives it.
    fn find_row(&self, id: u64) -> (r: Option<usize>)
        requires
            self.wf(),
        ensures
            match r {
                Some(i) => i < self@.len() && self@[i as int].discord_id == id && lookup(self@, id)
                    == Some(self@[i as int]),
                None => lookup(self@, id) is None,
            },
    {
        let r = self.find(id);
        proof {
            if let Some(i) = r {
                lemma_lookup_at(self@, i as int);
            }
        }
        r
    }

    /// Marks a user as having left the event.
    pub fn leave(&mut self, user_id: u64)
        requires
            old(self).wf(),
        ensures
            final(self).wf(),
            final(self)@ == update_where(old(self)@, with_id(user_id), set_joined(false)),
    {
        let ghost s0 = self@;
        self.update(Selector::ById(user_id), RowChange::Leave);
        assert(self@ =~= update_where(s0, with_id(user_id), set_joined(false)));
    }

    /// Marks a user as having joined again.
    pub fn rejoin_user(&mut self, user_id: u64)
        requires
            old(self).wf(),
        ensures
            final(self).wf(),
            final(self)@ == update_where(old(self)@, with_id(user_id), set_joined(true)),
    {
        let ghost s0 = self@;
        self.update(Selector::ById(user_id), RowChange::Rejoin);
        assert(self@ =~= update_where(s0, with_id(user_id), set_joined(true)));
    }

    /// Bans a user, who also stops being joined.
    pub fn ban_user(&mut self, user_id: u64)
        requires
            old(self).wf(),
        ensures
            final(self).wf(),
            final(self)@ == update_where(old(self)@, with_id(user_id), set_banned()),
    {
        let ghost s0 = self@;
        self.update(Selector::ById(user_id), RowChange::Ban);
        assert(self@ =~= update_where(s0, with_id(user_id), set_banned()));
    }

    /// Lifting a ban fails: its statement lacks the `SET` keyword, so it is
    /// refused before it runs and the table is left as it was.
    pub fn unban_user(&mut self, user_id: u64) -> (r: Result<(), TableError>)
        requires
            old(self).wf(),
        ensures
            final(self).wf(),
            final(self)@ == old(self)@,
            r == Err::<(), TableError>(TableError::MalformedStatement),
    {
        Err(TableError::MalformedStatement)
    }

    /// Stores a user's letter; returns how many rows were written, which is
    /// 1 when the user has a row and 0 otherwise.
    pub fn set_letter(&mut self, user_id: u64, letter_content: String) -> (n: usize)
        requires
            old(self).wf(),
        ensures
            final(self).wf(),
            final(self)@ == update_where(old(self)@, with_id(user_id), set_letter_text(letter_content@)),
            n == count_where(old(self)@, with_id(user_id)),
            n == if has_user(old(self)@, user_id) {
                1int
            } else {
                0int
            },
    {
        let ghost s0 = self@;
        let ghost text = letter_content@;
        let n: usize = self.update(Selector::ById(user_id), RowChange::Letter(letter_content));
        proof {
            assert(self@ =~= update_where(s0, with_id(user_id), set_letter_text(text)));
            assert(count_where(s0, |r: UserRecord| selects(Selector::ById(user_id), r))
                == count_where(s0, with_id(user_id))) by {
                assert((|r: UserRecord| selects(Selector::ById(user_id), r)) =~= with_id(user_id));
            }
            lemma_count_by_id(s0, user_id);
            assert(with_id(user_id) =~= (|r: UserRecord| r.discord_id == user_id));
        }
        n
    }

    /// Stores the gift a santa submits.
    pub fn set_submission(&mut self, santa_id: u64, submission_content: String)
        requires
            old(self).wf(),
        ensures
            final(self).wf(),
            final(self)@ == update_where(
                old(self)@,
                with_id(santa_id),
                set_submission_text(submission_content@),
            ),
    {
        let ghost s0 = self@;
        let ghost text = submission_content@;
        self.update(Selector::ById(santa_id), RowChange::Submission(submission_content));
        assert(self@ =~= update_where(s0, with_id(santa_id), set_submission_text(text)));
    }

    /// The giftee of a santa: fails when the santa has no row, or no giftee.
    pub fn get_giftee(&self, santa_id: u64) -> (r: Result<u64, TableError>)
        requires
            self.wf(),
        ensures
            r == giftee_of(self@, santa_id),
    {
        match self.find_row(santa_id) {
            Some(i) => match self.rows[i].giftee_id {
                Some(g) => Ok(g),
                None => Err(TableError::NullGiftee),
            },
            None => Err(TableError::NoRow),
        }
    }

    /// The letter written by a santa's giftee (which may be unwritten):
    /// fails when the santa has no row or no giftee, or the giftee has no row.
    pub fn get_giftee_letter(&self, santa_id: u64) -> (r: Result<Option<String>, TableError>)
        requires
            self.wf(),
        ensures
            match r {
                Ok(l) => giftee_letter(self@, santa_id) == Some(text_of(l)),
                Err(e) => e == TableError::NoRow && giftee_letter(self@, santa_id) is None,
            },
    {
        match self.find_row(santa_id) {
            Some(i) => match self.rows[i].giftee_id {
                Some(g) => match self.find_row(g) {
                    Some(k) => Ok(copy_text(&self.rows[k].letter)),
                    None => Err(TableError::NoRow),
                },
                None => Err(TableError::NoRow),
            },
            None => Err(TableError::NoRow),
        }
    }

    /// The santa of a giftee: the first row, in table order, whose giftee
    /// it is; fails when there is none.
    pub fn get_santa(&self, giftee_id: u64) -> (r: Result<u64, TableError>)
        requires
            self.wf(),
        ensures
            match r {
                Ok(s) => exists|i: int|
                    0 <= i < self@.len() && #[trigger] self@[i].giftee_id == Some(giftee_id)
                        && self@[i].discord_id == s && forall|j: int|
                        0 <= j < i ==> self@[j].giftee_id != Some(giftee_id),
                Err(e) => e == TableError::NoRow && forall|i: int|
                    0 <= i < self@.len() ==> self@[i].giftee_id != Some(giftee_id),
            },
    {
        let mut i: usize = 0;
        while i < self.rows.len()
            invariant
                i <= self.rows.len(),
                self@.len() == self.rows.len(),
                forall|j: int| 0 <= j < i ==> self@[j].giftee_id != Some(giftee_id),
            decreases self.rows.len() - i,
        {
            if self.rows[i].giftee_id == Some(giftee_id) {
                assert(self@[i as int].giftee_id == Some(giftee_id));
                return Ok(self.rows[i].discord_id);
            }
            i = i + 1;
        }
        Err(TableError::NoRow)
    }

    /// Whether a user has a giftee; fails when the user has no row.
    pub fn check_if_matched(&self, user_id: u64) -> (r: Result<bool, TableError>)
        requires
            self.wf(),
        ensures
            r == matched(self@, user_id),
    {
        match self.find_row(user_id) {
            Some(i) => Ok(self.rows[i].giftee_id.is_some()),
            None => Err(TableError::NoRow),
        }
    }

    /// Whether a user is banned; a user without a row is not.
    pub fn is_user_banned(&self, user_id: u64) -> (r: bool)
        requires
            self.wf(),
        ensures
            r == banned(self@, user_id),
    {
        match self.find_row(user_id) {
            Some(i) => self.rows[i].is_banned,
            None => false,
        }
    }

    /// Matches two users both ways: the second gets the first as giftee,
    /// then the first gets the second.
    pub fn set_match(&mut self, user_id1: u64, user_id2: u64)
        requires
            old(self).wf(),
        ensures
            final(self).wf(),
            final(self)@ == match_pair(old(self)@, user_id1, user_id2),
    {
        let ghost s0 = self@;
        self.update(Selector::ById(user_id2), RowChange::Giftee(Some(user_id1)));
        let ghost s1 = self@;
        assert(s1 =~= update_where(s0, with_id(user_id2), set_giftee(Some(user_id1))));
        self.update(Selector::ById(user_id1), RowChange::Giftee(Some(user_id2)));
        assert(self@ =~= update_where(s1, with_id(user_id1), set_giftee(Some(user_id2))));
    }

    /// Undoes a user's matches: the user loses their giftee, and whoever had
    /// the user as giftee loses theirs.
    pub fn remove_match(&mut self, user_id: u64)
        requires
            old(self).wf(),
        ensures
            final(self).wf(),
            final(self)@ == without_match(old(self)@, user_id),
    {
        let ghost s0 = self@;
        self.update(Selector::ById(user_id), RowChange::Giftee(None));
        let ghost s1 = self@;
        assert(s1 =~= update_where(s0, with_id(user_id), set_giftee(None)));
        self.update(Selector::ByGiftee(user_id), RowChange::Giftee(None));
        assert(self@ =~= update_where(s1, santas_of(user_id), set_giftee(None)));
    }

    /// Clears every giftee and every submission.
    pub fn reset_giftees_and_submissions(&mut self)
        requires
            old(self).wf(),
        ensures
            final(self).wf(),
            final(self)@ == update_where(old(self)@, every_row(), clear_assignment()),
    {
        let ghost s0 = self@;
        self.update(Selector::Every, RowChange::ClearAssignment);
        assert(self@ =~= update_where(s0, every_row(), clear_assignment()));
    }

    /// Bans a user and hands the user's giftee on: whoever had the user as
    /// giftee now has the user's giftee, and the user is banned, no longer
    /// joined and without giftee. Fails, changing nothing, when the user has
    /// no row or no giftee.
    pub fn ban_and_reassign_user(&mut self, user_id: u64) -> (r: Result<(), TableError>)
        requires
            old(self).wf(),
        ensures
            final(self).wf(),
            match giftee_of(old(self)@, user_id) {
                Ok(g) => r is Ok && final(self)@ == update_where(
                    update_where(old(self)@, santas_of(user_id), set_giftee(Some(g))),
                    with_id(user_id),
                    set_banned_unassigned(),
                ),
                Err(e) => r == Err::<(), TableError>(e) && final(self)@ == old(self)@,
            },
    {
        let g: u64 = match self.get_giftee(user_id) {
            Ok(g) => g,
            Err(e) => {
                return Err(e);
            },
        };
        let ghost s0 = self@;
        self.update(Selector::ByGiftee(user_id), RowChange::Giftee(Some(g)));
        let ghost s1 = self@;
        assert(s1 =~= update_where(s0, santas_of(user_id), set_giftee(Some(g))));
        self.update(Selector::ById(user_id), RowChange::BanAndUnassign);
        assert(self@ =~= update_where(s1, with_id(user_id), set_banned_unassigned()));
        Ok(())
    }

    /// Every row, in table order.
    pub fn get_all_users(&self) -> (r: Vec<UserInfo>)
        ensures
            records(r@) == self@,
    {
        let mut out: Vec<UserInfo> = Vec::new();
        let mut i: usize = 0;
        while i < self.rows.len()
            invariant
                i <= self.rows.len(),
                self@.len() == self.rows.len(),
                out@.len() == i,
                forall|j: int| 0 <= j < i ==> #[trigger] out@[j]@ == self@[j],
            decreases self.rows.len() - i,
        {
            out.push(self.rows[i].duplicate());
            i = i + 1;
        }
        assert(records(out@) =~= self@);
        out
    }

    /// A table holding the given rows, in their order; fails when two rows
    /// share an id.
    pub fn from_rows(rows: Vec<UserInfo>) -> (r: Result<UserTable, TableError>)
        ensures
            match r {
                Ok(t) => t.wf() && t@ == records(rows@),
                Err(e) => e == TableError::DuplicateUser && !unique_ids(records(rows@)),
            },
    {
        let ghost all = records(rows@);
        let n: usize = rows.len();
        let mut t = UserTable::new();
        let mut rest = rows;
        let mut k: usize = 0;
        while rest.len() > 0
            invariant
                t.wf(),
                k + rest@.len() == all.len(),
                all.len() == n,
                all == records(rows@),
                t@ =~= all.take(k as int),
                forall|j: int| 0 <= j < rest@.len() ==> #[trigger] rest@[j]@ == all[k + j],
            decreases rest.len(),
        {
            let row = rest.remove(0);
            assert(row@ == all[k as int]);
            if t.find(row.discord_id).is_some() {
                proof {
                    let j: int = choose|j: int| 0 <= j < t@.len() && #[trigger] t@[j].discord_id == row.discord_id;
                    assert(all[j].discord_id == all[k as int].discord_id);
                    assert(j < k);
                    assert(!unique_ids(all));
                }
                return Err(TableError::DuplicateUser);
            }
            let ghost s0 = t@;
            t.rows.push(row);
            proof {
                assert(t@ =~= s0.push(row@));
                assert forall|a: int, b: int|
                    0 <= a < t@.len() && 0 <= b < t@.len() && a != b implies #[trigger] t@[a].discord_id
                    != #[trigger] t@[b].discord_id by {
                    if a < s0.len() && b < s0.len() {
                        assert(s0[a].discord_id != s0[b].discord_id);
                    } else if a < s0.len() {
                        assert(s0[a].discord_id == t@[a].discord_id);
                    } else {
                        assert(s0[b].discord_id == t@[b].discord_id);
                    }
                }
                assert(t@ =~= all.take(k as int + 1));
                assert forall|j: int| 0 <= j < rest@.len() implies #[trigger] rest@[j]@ == all[k + 1 + j] by {
                }
            }
            k = k + 1;
        }
        assert(all.take(k as int) =~= all);
        Ok(t)
    }

    /// The ids of those who take part in the matching, in table order.
    pub fn participants(&self) -> (r: Vec<u64>)
        ensures
            r@ == participant_ids(self@),
    {
        let mut out: Vec<u64> = Vec::new();
        let mut i: usize = 0;
        while i < self.rows.len()
            invariant
                i <= self.rows.len(),
                self@.len() == self.rows.len(),
                out@ == participant_ids(self@.take(i as int)),
            decreases self.rows.len() - i,
        {
            proof {
                self@.lemma_filter_map_take_succ(
                    |r: UserRecord| if takes_part(r) { Some(r.discord_id) } else { None },
                    i as int,
                );
            }
            if self.rows[i].has_joined && !self.rows[i].is_banned {
                out.push(self.rows[i].discord_id);
            }
            proof {
                assert(out@ =~= participant_ids(self@.take(i as int + 1)));
            }
            i = i + 1;
        }
        assert(self@.take(self@.len() as int) =~= self@);
        out
    }

    /// Matches the users in `order` in a circle: each in turn gets the next
    /// one as giftee, and the last gets the first.
    pub fn assign_in_circle(&mut self, order: &Vec<u64>)
        requires
            old(self).wf(),
        ensures
            final(self).wf(),
            final(self)@ == matched_in_circle(old(self)@, order@),
    {
        let n: usize = order.len();
        let ghost s0 = self@;
        let mut k: usize = 0;
        while k < n
            invariant
                n == order.len(),
                k <= n,
                self.wf(),
                self@ == circle_steps(s0, order@, k as int),
            decreases n - k,
        {
            let next: u64 = if k + 1 == n {
                order[0]
            } else {
                order[k + 1]
            };
            let ghost prev = self@;
            self.update(Selector::ById(order[k]), RowChange::Giftee(Some(next)));
            proof {
                if k + 1 == n {
                    vstd::arithmetic::div_mod::lemma_mod_self_0(n as int);
                } else {
                    vstd::arithmetic::div_mod::lemma_small_mod((k + 1) as nat, n as nat);
                }
                assert((k + 1) as int % (n as int) == if k + 1 == n {
                    0int
                } else {
                    k + 1
                });
                assert(self@ =~= update_where(prev, with_id(order@[k as int]), set_giftee(Some(next))));
            }
            k = k + 1;
        }
    }

    /// The matching order as (id, name) pairs (see `matching_order_ids`);
    /// every id in it has a row.
    pub fn get_matching_order(&self) -> (r: Vec<(u64, String)>)
        requires
            self.wf(),
        ensures
            r@.len() == matching_order_ids(self@).len(),
            forall|k: int|
                0 <= k < r@.len() ==> #[trigger] r@[k].0 == matching_order_ids(self@)[k]
                    && has_user(self@, r@[k].0) && r@[k].1@ == name_of(self@, r@[k].0),
    {
        let mut out: Vec<(u64, String)> = Vec::new();
        let n: usize = self.rows.len();
        let mut first: usize = 0;
        while first < n && self.rows[first].giftee_id.is_none()
            invariant
                first <= n,
                n == self.rows.len(),
                self@.len() == n,
                forall|j: int| 0 <= j < first ==> #[trigger] self@[j].giftee_id is None,
            decreases n - first,
        {
            first = first + 1;
        }
        if first == n {
            proof {
                assert(!exists|i: int| 0 <= i < self@.len() && #[trigger] self@[i].giftee_id is Some);
                assert(matching_order_ids(self@) =~= Seq::<u64>::empty());
            }
            return out;
        }
        let start: u64 = self.rows[first].discord_id;
        let ghost total = order_from(self@, start, start, n as nat);
        proof {
            assert(self@[first as int].giftee_id is Some);
            let c: int = first_matched_index(self@);
            assert(0 <= c < self@.len() && self@[c].giftee_id is Some);
            if c < first {
                assert(self@[c].giftee_id is None);
            }
            if c > first {
                assert(self@[first as int].giftee_id is None);
            }
            assert(c == first);
            assert(matching_order_ids(self@) == total);
            lemma_lookup_at(self@, first as int);
        }
        let mut cur: u64 = start;
        let mut fuel: usize = n;
        let mut done = false;
        while fuel > 0 && !done
            invariant
                self.wf(),
                self@.len() == n,
                fuel <= n,
                has_user(self@, cur),
                total == order_from(self@, start, start, n as nat),
                done ==> out@.map_values(|p: (u64, String)| p.0) == total,
                !done ==> out@.map_values(|p: (u64, String)| p.0) + order_from(
                    self@,
                    cur,
                    start,
                    fuel as nat,
                ) == total,
                forall|k: int|
                    0 <= k < out@.len() ==> has_user(self@, #[trigger] out@[k].0) && out@[k].1@
                        == name_of(self@, out@[k].0),
            decreases fuel + if done {
                0int
            } else {
                1int
            },
        {
            let ghost before = out@.map_values(|p: (u64, String)| p.0);
            let i: usize = match self.find_row(cur) {
                Some(i) => i,
                None => {
                    proof {
                        lemma_lookup_id(self@, cur);
                    }
                    return out;
                },
            };
            out.push((cur, self.rows[i].username.clone()));
            proof {
                assert(out@.map_values(|p: (u64, String)| p.0) =~= before.push(cur));
                assert(giftee_of(self@, cur) == match self@[i as int].giftee_id {
                    Some(g) => Ok::<u64, TableError>(g),
                    None => Err::<u64, TableError>(TableError::NullGiftee),
                });
            }
            match self.rows[i].giftee_id {
                Some(g) => {
                    if g != start && self.find_row(g).is_some() {
                        proof {
                            lemma_lookup_id(self@, g);
                            assert(order_from(self@, cur, start, fuel as nat) =~= seq![cur]
                                + order_from(self@, g, start, (fuel - 1) as nat));
                        }
                        cur = g;
                        fuel = fuel - 1;
                    } else {
                        proof {
                            lemma_lookup_id(self@, g);
                            assert(order_from(self@, cur, start, fuel as nat) =~= seq![cur]);
                        }
                        done = true;
                    }
                },
                None => {
                    proof {
                        assert(order_from(self@, cur, start, fuel as nat) =~= seq![cur]);
                    }
                    done = true;
                },
            }
        }
        proof {
            if !done {
                assert(order_from(self@, cur, start, 0) =~= Seq::<u64>::empty());
            }
            assert(out@.map_values(|p: (u64, String)| p.0) =~= total);
            assert forall|k: int| 0 <= k < out@.len() implies #[trigger] out@[k].0
                == matching_order_ids(self@)[k] by {
                assert(out@.map_values(|p: (u64, String)| p.0)[k] == out@[k].0);
            }
        }
        out
    }

    /// Adds a participant who joins now: fails, changing nothing, when a row
    /// with that id exists already.
    pub fn create_user(&mut self, username: String, user_id: u64) -> (r: Result<(), TableError>)
        requires
            old(self).wf(),
        ensures
            final(self).wf(),
            has_user(old(self)@, user_id) ==> r == Err::<(), TableError>(TableError::DuplicateUser)
                && final(self)@ == old(self)@,
            !has_user(old(self)@, user_id) ==> r is Ok && final(self)@ == old(self)@.push(
                fresh_record(user_id, username@),
            ),
    {
        if self.find(user_id).is_some() {
            return Err(TableError::DuplicateUser);
        }
        let row = UserInfo {
            discord_id: user_id,
            username: username,
            letter: None,
            submission: None,
            giftee_id: None,
            is_banned: false,
            has_joined: true,
        };
        let ghost s0 = self@;
        self.rows.push(row);
        proof {
            assert(self@ =~= s0.push(fresh_record(user_id, username@)));
            assert forall|a: int, b: int|
                0 <= a < self@.len() && 0 <= b < self@.len() && a != b implies #[trigger] self@[a].discord_id
                != #[trigger] self@[b].discord_id by {
                if a < s0.len() && b < s0.len() {
                    assert(s0[a].discord_id != s0[b].discord_id);
                } else if a < s0.len() {
                    assert(s0[a].discord_id == self@[a].discord_id);
                } else {
                    assert(s0[b].discord_id == self@[b].discord_id);
                }
            }
        }
        Ok(())
    }
}

} // verus!
