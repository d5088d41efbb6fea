//! The reaction table: for each pair of a user and a video at most one row,
//! which says whether the user likes or dislikes the video.
//!
//! A request names the state it wants (`Some(true)`, `Some(false)` or `None`);
//! [`reaction_command`] turns it into the one statement that brings the table
//! there, and [`LikeStore`] is the table itself.

use crate::models::Like;
use vstd::prelude::*;

verus! {

/// The three states of a user towards a video.
#[derive(Clone, Copy, Debug, PartialEq, Eq, Structural)]
pub enum Reaction {
    /// No row.
    Neutral,
    /// A row with `is_liking` set.
    Liked,
    /// A row with `is_liking` cleared.
    Disliked,
}

/// The one statement that a reaction request amounts to.
#[derive(Clone, Copy, Debug, PartialEq, Eq, Structural)]
pub enum LikeCommand {
    /// Insert the row, or overwrite the value of the row with the same key.
    Upsert(Like),
    /// Delete the row with this key if there is one.
    Delete { user_id: i32, video_id: i32 },
}

/// The table as a mathematical value: from (user, video) to `is_liking`.
pub type LikeTable = Map<(int, int), bool>;

/// The key of a row.
pub open spec fn key_of(row: Like) -> (int, int) {
    (row.user_id as int, row.video_id as int)
}

/// The statement for a request: an upsert where a value is given, a delete
/// where it is not.
pub open spec fn command_for(user_id: i32, video_id: i32, likes: Option<bool>) -> LikeCommand {
    match likes {
        Some(is_liking) => LikeCommand::Upsert(Like { user_id, video_id, is_liking }),
        None => LikeCommand::Delete { user_id, video_id },
    }
}

/// What a statement does to the table.
pub open spec fn apply(table: LikeTable, command: LikeCommand) -> LikeTable {
    match command {
        LikeCommand::Upsert(row) => table.insert(key_of(row), row.is_liking),
        LikeCommand::Delete { user_id, video_id } => table.remove((user_id as int, video_id as int)),
    }
}

/// The pair that a statement names.
pub open spec fn target_of(command: LikeCommand) -> (int, int) {
    match command {
        LikeCommand::Upsert(row) => key_of(row),
        LikeCommand::Delete { user_id, video_id } => (user_id as int, video_id as int),
    }
}

/// The table after a sequence of statements has run, first to last. Each
/// statement is atomic, so whatever requests run at the same time, the table
/// ends as after some such sequence.
pub open spec fn apply_all(table: LikeTable, commands: Seq<LikeCommand>) -> LikeTable
    decreases commands.len(),
{
    if commands.len() == 0 {
        table
    } else {
        apply(apply_all(table, commands.drop_last()), commands.last())
    }
}

/// The last statement of a sequence that names the pair, if any does.
pub open spec fn last_on(commands: Seq<LikeCommand>, key: (int, int)) -> Option<LikeCommand>
    decreases commands.len(),
{
    if commands.len() == 0 {
        None
    } else if target_of(commands.last()) == key {
        Some(commands.last())
    } else {
        last_on(commands.drop_last(), key)
    }
}

/// The state of a user towards a video in a table.
pub open spec fn reaction_in(table: LikeTable, user_id: int, video_id: int) -> Reaction {
    if !table.dom().contains((user_id, video_id)) {
        Reaction::Neutral
    } else if table[(user_id, video_id)] {
        Reaction::Liked
    } else {
        Reaction::Disliked
    }
}

/// No two rows have the same key.
pub open spec fn unique_keys(rows: Seq<Like>) -> bool {
    forall|i: int, j: int| 0 <= i < j < rows.len() ==> key_of(#[trigger] rows[i]) != key_of(#[trigger] rows[j])
}

/// Some row has this key.
pub open spec fn has_key(rows: Seq<Like>, key: (int, int)) -> bool {
    exists|i: int| 0 <= i < rows.len() && key_of(#[trigger] rows[i]) == key
}

/// The place of a row with this key.
pub open spec fn index_of_key(rows: Seq<Like>, key: (int, int)) -> int {
    choose|i: int| 0 <= i < rows.len() && key_of(#[trigger] rows[i]) == key
}

/// The table that a list of rows stands for.
pub open spec fn table_of(rows: Seq<Like>) -> LikeTable {
    Map::new(|key: (int, int)| has_key(rows, key), |key: (int, int)| rows[index_of_key(rows, key)].is_liking)
}

/// How many rows have this key.
pub open spec fn count_rows(rows: Seq<Like>, key: (int, int)) -> nat
    decreases rows.len(),
{
    if rows.len() == 0 {
        0
    } else {
        count_rows(rows.drop_last(), key) + if key_of(rows.last()) == key {
            1nat
        } else {
            0nat
        }
    }
}

/// The statement that brings the table to the requested state. A value asks
/// for an upsert keyed by the pair, which cannot leave two rows however many
/// requests race; no value asks for a delete, which does nothing where there
/// is no row. Whether the video exists is not looked at.
pub fn reaction_command(user_id: i32, video_id: i32, likes: Option<bool>) -> (command: LikeCommand)
    ensures
        command == command_for(user_id, video_id, likes),
{
    match likes {
        Some(is_liking) => LikeCommand::Upsert(Like { user_id, video_id, is_liking }),
        None => LikeCommand::Delete { user_id, video_id },
    }
}

proof fn lemma_row_in_table(rows: Seq<Like>, i: int)
    requires
        unique_keys(rows),
        0 <= i < rows.len(),
    ensures
        has_key(rows, key_of(rows[i])),
        index_of_key(rows, key_of(rows[i])) == i,
        table_of(rows).dom().contains(key_of(rows[i])),
        table_of(rows)[key_of(rows[i])] == rows[i].is_liking,
{
}

proof fn lemma_push(rows: Seq<Like>, row: Like)
    requires
        unique_keys(rows),
        !has_key(rows, key_of(row)),
    ensures
        unique_keys(rows.push(row)),
        table_of(rows.push(row)) == table_of(rows).insert(key_of(row), row.is_liking),
{
    let after = rows.push(row);
    let expected = table_of(rows).insert(key_of(row), row.is_liking);
    assert forall|key: (int, int)| #[trigger] table_of(after).dom().contains(key) <==> expected.dom().contains(
        key,
    ) by {
        if has_key(rows, key) {
            assert(key_of(after[index_of_key(rows, key)]) == key);
        }
        if key == key_of(row) {
            assert(key_of(after[rows.len() as int]) == key);
        }
    }
    assert forall|key: (int, int)| #[trigger] table_of(after).dom().contains(key) implies table_of(after)[key]
        == expected[key] by {
        let i = index_of_key(after, key);
        lemma_row_in_table(after, i);
        if i < rows.len() {
            lemma_row_in_table(rows, i);
        }
    }
}

proof fn lemma_overwrite(rows: Seq<Like>, i: int, row: Like)
    requires
        unique_keys(rows),
        0 <= i < rows.len(),
        key_of(rows[i]) == key_of(row),
    ensures
        unique_keys(rows.update(i, row)),
        table_of(rows.update(i, row)) == table_of(rows).insert(key_of(row), row.is_liking),
{
    let after = rows.update(i, row);
    let expected = table_of(rows).insert(key_of(row), row.is_liking);
    assert forall|key: (int, int)| #[trigger] table_of(after).dom().contains(key) <==> expected.dom().contains(
        key,
    ) by {
        if has_key(rows, key) {
            assert(key_of(after[index_of_key(rows, key)]) == key);
        }
    }
    assert forall|key: (int, int)| #[trigger] table_of(after).dom().contains(key) implies table_of(after)[key]
        == expected[key] by {
        let j = index_of_key(after, key);
        lemma_row_in_table(after, j);
        if j != i {
            lemma_row_in_table(rows, j);
            lemma_row_in_table(rows, i);
        }
    }
}

proof fn lemma_remove(rows: Seq<Like>, i: int)
    requires
        unique_keys(rows),
        0 <= i < rows.len(),
    ensures
        unique_keys(rows.remove(i)),
        table_of(rows.remove(i)) == table_of(rows).remove(key_of(rows[i])),
{
    let after = rows.remove(i);
    let gone = key_of(rows[i]);
    let expected = table_of(rows).remove(gone);
    assert forall|key: (int, int)| #[trigger] table_of(after).dom().contains(key) <==> expected.dom().contains(
        key,
    ) by {
        if has_key(rows, key) && key != gone {
            let j0 = index_of_key(rows, key);
            let j = if j0 < i { j0 } else { j0 - 1 };
            assert(after[j] == rows[j0]);
        }
    }
    assert forall|key: (int, int)| #[trigger] table_of(after).dom().contains(key) implies table_of(after)[key]
        == expected[key] by {
        let j = index_of_key(after, key);
        lemma_row_in_table(after, j);
        lemma_row_in_table(rows, if j < i { j } else { j + 1 });
    }
}

proof fn lemma_count_prefix(rows: Seq<Like>, i: int, key: (int, int))
    requires
        0 <= i < rows.len(),
    ensures
        count_rows(rows.take(i + 1), key) == count_rows(rows.take(i), key) + if key_of(rows[i]) == key {
            1nat
        } else {
            0nat
        },
{
    assert(rows.take(i + 1).drop_last() == rows.take(i));
}

/// In a table without duplicate keys a pair has one row or none, and it has
/// one exactly where the table holds the pair.
pub proof fn lemma_at_most_one_row(rows: Seq<Like>, key: (int, int))
    requires
        unique_keys(rows),
    ensures
        count_rows(rows, key) == if table_of(rows).dom().contains(key) {
            1nat
        } else {
            0nat
        },
    decreases rows.len(),
{
    if rows.len() > 0 {
        let front = rows.drop_last();
        lemma_at_most_one_row(front, key);
        if key_of(rows.last()) != key && has_key(rows, key) {
            let i = index_of_key(rows, key);
            assert(front[i] == rows[i]);
        }
    }
}

/// Running a statement a second time changes nothing. In particular, clearing
/// a reaction twice leaves no row, and neither time is an error.
pub proof fn lemma_command_is_idempotent(table: LikeTable, command: LikeCommand)
    ensures
        apply(apply(table, command), command) == apply(table, command),
        command matches LikeCommand::Delete { user_id, video_id } ==> reaction_in(
            apply(table, command),
            user_id as int,
            video_id as int,
        ) == Reaction::Neutral,
{
}

/// After any sequence of statements, the state of a pair is what the last
/// statement on that pair asked for, and the state before the sequence where
/// no statement named the pair.
pub proof fn lemma_last_statement_decides(table: LikeTable, commands: Seq<LikeCommand>, user_id: int, video_id: int)
    ensures
        reaction_in(apply_all(table, commands), user_id, video_id) == match last_on(
            commands,
            (user_id, video_id),
        ) {
            None => reaction_in(table, user_id, video_id),
            Some(LikeCommand::Upsert(row)) => if row.is_liking {
                Reaction::Liked
            } else {
                Reaction::Disliked
            },
            Some(LikeCommand::Delete { .. }) => Reaction::Neutral,
        },
    decreases commands.len(),
{
    if commands.len() > 0 {
        lemma_last_statement_decides(table, commands.drop_last(), user_id, video_id);
    }
}

/// Likes that race leave one row: where every statement of a sequence that
/// names the pair is the same upsert, and there is at least one, the pair
/// ends with that value, in the one row that the table has for it, in
/// whatever order the statements ran and whatever ran between them.
pub proof fn lemma_equal_upserts_leave_one_row(
    rows: Seq<Like>,
    after: Seq<Like>,
    commands: Seq<LikeCommand>,
    row: Like,
)
    requires
        unique_keys(rows),
        unique_keys(after),
        table_of(after) == apply_all(table_of(rows), commands),
        exists|i: int| 0 <= i < commands.len() && target_of(#[trigger] commands[i]) == key_of(row),
        forall|i: int|
            0 <= i < commands.len() && target_of(#[trigger] commands[i]) == key_of(row) ==> commands[i]
                == LikeCommand::Upsert(row),
    ensures
        table_of(after).dom().contains(key_of(row)),
        table_of(after)[key_of(row)] == row.is_liking,
        count_rows(after, key_of(row)) == 1,
{
    lemma_last_is_one_of(commands, key_of(row));
    lemma_last_statement_decides(table_of(rows), commands, row.user_id as int, row.video_id as int);
    lemma_at_most_one_row(after, key_of(row));
}

proof fn lemma_last_is_one_of(commands: Seq<LikeCommand>, key: (int, int))
    ensures
        match last_on(commands, key) {
            Some(command) => exists|i: int|
                0 <= i < commands.len() && #[trigger] commands[i] == command && target_of(command) == key,
            None => forall|i: int| 0 <= i < commands.len() ==> target_of(#[trigger] commands[i]) != key,
        },
    decreases commands.len(),
{
    if commands.len() > 0 {
        let front = commands.drop_last();
        lemma_last_is_one_of(front, key);
        if target_of(commands.last()) == key {
            assert(commands[commands.len() - 1] == commands.last());
        } else {
            match last_on(front, key) {
                Some(command) => {
                    let i = choose|i: int|
                        0 <= i < front.len() && #[trigger] front[i] == command && target_of(command) == key;
                    assert(commands[i] == command);
                },
                None => {
                    assert forall|i: int| 0 <= i < commands.len() implies target_of(#[trigger] commands[i])
                        != key by {
                        if i < front.len() {
                            assert(front[i] == commands[i]);
                        }
                    }
                },
            }
        }
    }
}

/// A statement touches the pair it names and no other.
pub proof fn lemma_other_pairs_untouched(table: LikeTable, command: LikeCommand, user_id: int, video_id: int)
    requires
        match command {
            LikeCommand::Upsert(row) => key_of(row) != (user_id, video_id),
            LikeCommand::Delete { user_id: u, video_id: v } => (u as int, v as int) != (user_id, video_id),
        },
    ensures
        reaction_in(apply(table, command), user_id, video_id) == reaction_in(table, user_id, video_id),
{
}

/// The reaction table, held in memory.
#[derive(Clone, Debug)]
pub struct LikeStore {
    rows: Vec<Like>,
}

impl LikeStore {
    /// The rows, in the order in which their pairs first appeared.
    pub closed spec fn rows(&self) -> Seq<Like> {
        self.rows@
    }

    /// The central invariant: at most one row for each pair.
    pub open spec fn wf(&self) -> bool {
        unique_keys(self.rows())
    }

    /// An empty table.
    pub fn new() -> (store: LikeStore)
        ensures
            store.wf(),
            store.rows() == Seq::<Like>::empty(),
            store@ == LikeTable::empty(),
    {
        LikeStore { rows: Vec::new() }
    }

    fn position(&self, user_id: i32, video_id: i32) -> (found: Option<usize>)
        ensures
            match found {
                Some(i) => i < self.rows().len() && key_of(self.rows()[i as int]) == (
                    user_id as int,
                    video_id as int,
                ),
                None => !has_key(self.rows(), (user_id as int, video_id as int)),
            },
    {
        let mut i: usize = 0;
        while i < self.rows.len()
            invariant
                i <= self.rows.len(),
                forall|j: int| 0 <= j < i ==> key_of(#[trigger] self.rows@[j]) != (user_id as int, video_id as int),
            decreases self.rows.len() - i,
        {
            if self.rows[i].user_id == user_id && self.rows[i].video_id == video_id {
                return Some(i);
            }
            i += 1;
        }
        None
    }

    /// Runs one statement against the table.
    pub fn execute(&mut self, command: LikeCommand)
        requires
            old(self).wf(),
        ensures
            final(self).wf(),
            final(self)@ == apply(old(self)@, command),
    {
        match command {
            LikeCommand::Upsert(row) => {
                match self.position(row.user_id, row.video_id) {
                    Some(i) => {
                        proof {
                            lemma_overwrite(self.rows@, i as int, row);
                        }
                        self.rows.set(i, row);
                    },
                    None => {
                        proof {
                            lemma_push(self.rows@, row);
                        }
                        self.rows.push(row);
                    },
                }
            },
            LikeCommand::Delete { user_id, video_id } => {
                match self.position(user_id, video_id) {
                    Some(i) => {
                        proof {
                            lemma_remove(self.rows@, i as int);
                        }
                        self.rows.remove(i);
                    },
                    None => {},
                }
            },
        }
    }

    /// Runs a sequence of statements, first to last.
    pub fn execute_all(&mut self, commands: &Vec<LikeCommand>)
        requires
            old(self).wf(),
        ensures
            final(self).wf(),
            final(self)@ == apply_all(old(self)@, commands@),
    {
        let mut i: usize = 0;
        while i < commands.len()
            invariant
                i <= commands.len(),
                self.wf(),
                self@ == apply_all(old(self)@, commands@.take(i as int)),
            decreases commands.len() - i,
        {
            proof {
                assert(commands@.take(i + 1).drop_last() == commands@.take(i as int));
            }
            self.execute(commands[i]);
            i += 1;
        }
        proof {
            assert(commands@.take(i as int) == commands@);
        }
    }

    /// Sets the reaction of a user to a video. With a value, the pair's row is
    /// inserted or overwritten; without one, it is deleted if it is there.
    /// Every other pair keeps its state, and no pair ever has two rows.
    pub fn set_reaction(&mut self, user_id: i32, video_id: i32, likes: Option<bool>)
        requires
            old(self).wf(),
        ensures
            final(self).wf(),
            final(self)@ == apply(old(self)@, command_for(user_id, video_id, likes)),
    {
        let command = reaction_command(user_id, video_id, likes);
        self.execute(command);
    }

    /// The state of a user towards a video.
    pub fn reaction(&self, user_id: i32, video_id: i32) -> (state: Reaction)
        requires
            self.wf(),
        ensures
            state == reaction_in(self@, user_id as int, video_id as int),
    {
        match self.position(user_id, video_id) {
            Some(i) => {
                proof {
                    lemma_row_in_table(self.rows@, i as int);
                }
                if self.rows[i].is_liking {
                    Reaction::Liked
                } else {
                    Reaction::Disliked
                }
            },
            None => Reaction::Neutral,
        }
    }

    /// How many rows the pair has: what an inspection of the storage finds.
    pub fn row_count(&self, user_id: i32, video_id: i32) -> (n: usize)
        ensures
            n == count_rows(self.rows(), (user_id as int, video_id as int)),
            self.wf() ==> n == if self@.dom().contains((user_id as int, video_id as int)) {
                1nat
            } else {
                0nat
            },
    {
        let ghost key = (user_id as int, video_id as int);
        let mut n: usize = 0;
        let mut i: usize = 0;
        while i < self.rows.len()
            invariant
                i <= self.rows.len(),
                n <= i,
                n == count_rows(self.rows@.take(i as int), key),
                key == (user_id as int, video_id as int),
            decreases self.rows.len() - i,
        {
            proof {
                lemma_count_prefix(self.rows@, i as int, key);
            }
            if self.rows[i].user_id == user_id && self.rows[i].video_id == video_id {
                n += 1;
            }
            i += 1;
        }
        proof {
            assert(self.rows@.take(i as int) == self.rows@);
            if self.wf() {
                lemma_at_most_one_row(self.rows@, key);
            }
        }
        n
    }

    /// The number of rows in the table.
    pub fn len(&self) -> (n: usize)
        ensures
            n == self.rows().len(),
    {
        self.rows.len()
    }

    /// A copy of the rows.
    pub fn to_vec(&self) -> (rows: Vec<Like>)
        ensures
            rows@ == self.rows(),
    {
        let mut rows: Vec<Like> = Vec::new();
        let mut i: usize = 0;
        while i < self.rows.len()
            invariant
                i <= self.rows.len(),
                rows@ == self.rows@.take(i as int),
            decreases self.rows.len() - i,
        {
            rows.push(self.rows[i]);
            i += 1;
        }
        rows
    }
}

impl View for LikeStore {
    type V = LikeTable;

    open spec fn view(&self) -> LikeTable {
        table_of(self.rows())
    }
}

} // verus!
