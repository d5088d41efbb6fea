//! The user table: ids are assigned in rising order, and no two users share a
//! username.

use crate::errors::{ApiError, ErrorKind};
use crate::models::{user_view_of, user_views, User, UserView};
use vstd::prelude::*;

verus! {

/// Some row has this username.
pub open spec fn is_taken(rows: Seq<UserView>, username: Seq<char>) -> bool {
    exists|i: int| 0 <= i < rows.len() && (#[trigger] rows[i]).username == username
}

/// The user with this username, if there is one.
pub open spec fn user_named(rows: Seq<UserView>, username: Seq<char>) -> Option<UserView> {
    if is_taken(rows, username) {
        Some(rows[choose|i: int| 0 <= i < rows.len() && (#[trigger] rows[i]).username == username])
    } else {
        None
    }
}

/// Some row has this id.
pub open spec fn has_id(rows: Seq<UserView>, id: int) -> bool {
    exists|i: int| 0 <= i < rows.len() && (#[trigger] rows[i]).id == id
}

/// The user with this id, if there is one.
pub open spec fn user_with_id(rows: Seq<UserView>, id: int) -> Option<UserView> {
    if has_id(rows, id) {
        Some(rows[choose|i: int| 0 <= i < rows.len() && (#[trigger] rows[i]).id == id])
    } else {
        None
    }
}

/// What holds of the rows of a user table whose next free id is `next_id`:
/// ids are positive, rise with the rows and stay below `next_id`; usernames are
/// non-empty and distinct.
pub open spec fn valid_users(rows: Seq<UserView>, next_id: int) -> bool {
    &&& 1 <= next_id <= i32::MAX
    &&& forall|i: int| 0 <= i < rows.len() ==> 1 <= (#[trigger] rows[i]).id < next_id
    &&& forall|i: int, j: int|
        0 <= i < j < rows.len() ==> (#[trigger] rows[i]).id < (#[trigger] rows[j]).id
    &&& forall|i: int, j: int|
        0 <= i < j < rows.len() ==> (#[trigger] rows[i]).username != (#[trigger] rows[j]).username
    &&& forall|i: int| 0 <= i < rows.len() ==> (#[trigger] rows[i]).username.len() > 0
}

/// The outcome of an insert, and the rows and next id it leaves.
pub enum InsertOutcome {
    /// The username is empty.
    Empty,
    /// The username is taken.
    Taken,
    /// No id is left to assign.
    Exhausted,
    /// The row is appended.
    Stored,
}

/// Which outcome an insert has.
pub open spec fn insert_outcome(rows: Seq<UserView>, next_id: int, username: Seq<char>) -> InsertOutcome {
    if username.len() == 0 {
        InsertOutcome::Empty
    } else if is_taken(rows, username) {
        InsertOutcome::Taken
    } else if next_id >= i32::MAX {
        InsertOutcome::Exhausted
    } else {
        InsertOutcome::Stored
    }
}

/// In a valid table the row found under a username is the row that has it.
pub proof fn lemma_user_named(rows: Seq<UserView>, next_id: int, i: int)
    requires
        valid_users(rows, next_id),
        0 <= i < rows.len(),
    ensures
        user_named(rows, rows[i].username) == Some(rows[i]),
        user_with_id(rows, rows[i].id) == Some(rows[i]),
{
}

/// The user table, held in memory.
#[derive(Clone, Debug)]
pub struct UserStore {
    rows: Vec<User>,
    next_id: i32,
}

impl UserStore {
    /// The rows, in the order of their insertion.
    pub closed spec fn rows(&self) -> Seq<UserView> {
        user_views(self.rows@)
    }

    /// The id that the next insert assigns.
    pub closed spec fn next_id(&self) -> int {
        self.next_id as int
    }

    /// The table's invariant.
    pub open spec fn wf(&self) -> bool {
        valid_users(self.rows(), self.next_id())
    }

    /// An empty table, whose first id is 1.
    pub fn new() -> (store: UserStore)
        ensures
            store.wf(),
            store.rows() == Seq::<UserView>::empty(),
            store.next_id() == 1,
    {
        UserStore { rows: Vec::new(), next_id: 1 }
    }

    fn position_named(&self, username: &str) -> (found: Option<usize>)
        ensures
            match found {
                Some(i) => i < self.rows().len() && self.rows()[i as int].username == username@,
                None => !is_taken(self.rows(), username@),
            },
    {
        let wanted: String = username.to_owned();
        let mut i: usize = 0;
        while i < self.rows.len()
            invariant
                i <= self.rows.len(),
                wanted@ == username@,
                forall|j: int| 0 <= j < i ==> (#[trigger] self.rows()[j]).username != username@,
            decreases self.rows.len() - i,
        {
            if self.rows[i].username == wanted {
                return Some(i);
            }
            i += 1;
        }
        None
    }

    fn position_of_id(&self, id: i32) -> (found: Option<usize>)
        ensures
            match found {
                Some(i) => i < self.rows().len() && self.rows()[i as int].id == id,
                None => !has_id(self.rows(), id as int),
            },
    {
        let mut i: usize = 0;
        while i < self.rows.len()
            invariant
                i <= self.rows.len(),
                forall|j: int| 0 <= j < i ==> (#[trigger] self.rows()[j]).id != id,
            decreases self.rows.len() - i,
        {
            if self.rows[i].id == id {
                return Some(i);
            }
            i += 1;
        }
        None
    }

    /// Whether a user has this username.
    pub fn contains_username(&self, username: &str) -> (taken: bool)
        ensures
            taken == is_taken(self.rows(), username@),
    {
        self.position_named(username).is_some()
    }

    /// Whether every id has been assigned.
    pub fn is_full(&self) -> (full: bool)
        ensures
            full == (self.next_id() >= i32::MAX),
    {
        self.next_id == i32::MAX
    }

    /// Stores a new user under the next id. An empty username is refused as
    /// `InvalidInput`, a taken one as `Conflict`; where no id is left the
    /// insert fails as `InternalError`. A refused insert changes nothing.
    pub fn insert(&mut self, username: String, password_hash: String) -> (res: Result<User, ApiError>)
        requires
            old(self).wf(),
        ensures
            final(self).wf(),
            match insert_outcome(old(self).rows(), old(self).next_id(), username@) {
                InsertOutcome::Stored => {
                    &&& res matches Ok(user)
                    &&& user@ == (UserView {
                        id: old(self).next_id(),
                        username: username@,
                        password: password_hash@,
                    })
                    &&& final(self).rows() == old(self).rows().push(user@)
                    &&& final(self).next_id() == old(self).next_id() + 1
                },
                outcome => {
                    &&& res matches Err(e)
                    &&& e.kind == match outcome {
                        InsertOutcome::Empty => ErrorKind::InvalidInput,
                        InsertOutcome::Taken => ErrorKind::Conflict,
                        _ => ErrorKind::InternalError,
                    }
                    &&& final(self).rows() == old(self).rows()
                    &&& final(self).next_id() == old(self).next_id()
                },
            },
    {
        if username.as_str().unicode_len() == 0 {
            return Err(ApiError::new(ErrorKind::InvalidInput, "Username must not be empty"));
        }
        if self.position_named(username.as_str()).is_some() {
            return Err(ApiError::new(ErrorKind::Conflict, "Username already exists"));
        }
        if self.next_id == i32::MAX {
            return Err(ApiError::new(ErrorKind::InternalError, "No user id is left"));
        }
        let user = User { id: self.next_id, username, password: password_hash };
        let copy = user.duplicate();
        let ghost before = self.rows();
        self.next_id = self.next_id + 1;
        self.rows.push(user);
        proof {
            assert(self.rows() =~= before.push(copy@));
            assert forall|i: int, j: int| 0 <= i < j < self.rows().len() implies (
            #[trigger] self.rows()[i]).username != (#[trigger] self.rows()[j]).username by {}
        }
        Ok(copy)
    }

    /// The user with this username.
    pub fn find_by_username(&self, username: &str) -> (found: Option<User>)
        requires
            self.wf(),
        ensures
            user_view_of(found) == user_named(self.rows(), username@),
    {
        match self.position_named(username) {
            Some(i) => {
                proof {
                    lemma_user_named(self.rows(), self.next_id(), i as int);
                }
                Some(self.rows[i].duplicate())
            },
            None => None,
        }
    }

    /// The user with this id.
    pub fn find_by_id(&self, id: i32) -> (found: Option<User>)
        requires
            self.wf(),
        ensures
            user_view_of(found) == user_with_id(self.rows(), id as int),
    {
        match self.position_of_id(id) {
            Some(i) => {
                proof {
                    lemma_user_named(self.rows(), self.next_id(), i as int);
                }
                Some(self.rows[i].duplicate())
            },
            None => None,
        }
    }

    /// The number of users.
    pub fn len(&self) -> (n: usize)
        ensures
            n == self.rows().len(),
    {
        self.rows.len()
    }
}

} // verus!
