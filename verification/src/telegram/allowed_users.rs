//! The users whom the configuration allows. Commands change the set in memory
//! and the list in the configuration file alike.

use vstd::prelude::*;

use crate::ids::{contains_id, insert_all, insert_id, is_ordered, remove_id};
use crate::json::{
    JsonView, Rewrite, has_set_member, json_in, json_numbers, json_written, members_in,
    rewrite_numbers,
};
use crate::media::workspace::random_number;
use crate::number::{padded_hex, write_hex};
use crate::paths::{with_extension, with_extension_in};

verus! {

/// The member of the configuration that lists the users.
pub const ALLOWED_USERS_KEY: &'static str = "allowed_users";

#[derive(Clone, Copy, Debug, PartialEq, Eq, Structural)]
pub enum AddOutcome {
    Added,
    AlreadyAllowed,
}

#[derive(Clone, Copy, Debug, PartialEq, Eq, Structural)]
pub enum RemoveOutcome {
    Removed,
    NotAllowed,
}

/// A set of users that also lives in the `allowed_users` array of the
/// configuration file.
pub struct AllowedUsers {
    users: Vec<i64>,
    config_path: String,
}

/// What a request with an ID that is no user's is answered.
pub const INVALID_USER_TEXT: &'static str = "user ID must be positive";

impl AllowedUsers {
    #[verifier::type_invariant]
    spec fn is_sound(self) -> bool {
        is_ordered(self.users@)
    }

    /// Who is allowed.
    pub closed spec fn allows(self, user_id: i64) -> bool {
        self.users@.contains(user_id)
    }

    /// Where the configuration lies.
    pub closed spec fn place(self) -> Seq<char> {
        self.config_path@
    }

    pub fn new(users: &[i64], config_path: &str) -> (result: AllowedUsers)
        ensures
            result.place() == config_path@,
            forall|id: i64| #[trigger] result.allows(id) <==> users@.contains(id),
    {
        let mut ids: Vec<i64> = Vec::new();
        insert_all(&mut ids, users);
        let result = AllowedUsers { users: ids, config_path: config_path.to_owned() };
        assert forall|id: i64| #[trigger] result.allows(id) <==> users@.contains(id) by {
            assert(result.users@.contains(id) <==> users@.contains(id));
        }
        result
    }

    pub fn contains(&self, user_id: i64) -> (result: bool)
        ensures
            result == self.allows(user_id),
    {
        contains_id(&self.users, user_id)
    }

    /// Everyone who is allowed, in order.
    pub fn list(&self) -> (result: Vec<i64>)
        ensures
            is_ordered(result@),
            forall|id: i64| #[trigger] result@.contains(id) <==> self.allows(id),
    {
        proof {
            use_type_invariant(self);
        }
        let mut ids: Vec<i64> = Vec::new();
        insert_all(&mut ids, &self.users);
        assert forall|id: i64| #[trigger] ids@.contains(id) <==> self.allows(id) by {
            assert(ids@.contains(id) <==> self.users@.contains(id));
        }
        ids
    }

    /// Allows a user. What was added has to be written to the configuration;
    /// where that fails, [`AllowedUsers::undo_add`] takes it back.
    pub fn add(&mut self, user_id: i64) -> (result: Result<AddOutcome, String>)
        ensures
            final(self).place() == old(self).place(),
            match result {
                Err(message) => user_id <= 0 && message@ == INVALID_USER_TEXT@ && *final(self)
                    == *old(self),
                Ok(AddOutcome::AlreadyAllowed) => user_id > 0 && old(self).allows(user_id)
                    && *final(self) == *old(self),
                Ok(AddOutcome::Added) => user_id > 0 && !old(self).allows(user_id) && forall|
                    id: i64,
                | #[trigger]
                    final(self).allows(id) <==> old(self).allows(id) || id == user_id,
            },
    {
        if user_id <= 0 {
            return Err(INVALID_USER_TEXT.to_owned());
        }
        if contains_id(&self.users, user_id) {
            return Ok(AddOutcome::AlreadyAllowed);
        }
        self.put(user_id);
        Ok(AddOutcome::Added)
    }

    /// Disallows a user. What was removed has to be written to the
    /// configuration; where that fails, [`AllowedUsers::undo_remove`] takes it
    /// back.
    pub fn remove(&mut self, user_id: i64) -> (result: Result<RemoveOutcome, String>)
        ensures
            final(self).place() == old(self).place(),
            match result {
                Err(message) => user_id <= 0 && message@ == INVALID_USER_TEXT@ && *final(self)
                    == *old(self),
                Ok(RemoveOutcome::NotAllowed) => user_id > 0 && !old(self).allows(user_id)
                    && *final(self) == *old(self),
                Ok(RemoveOutcome::Removed) => user_id > 0 && old(self).allows(user_id) && forall|
                    id: i64,
                | #[trigger]
                    final(self).allows(id) <==> old(self).allows(id) && id != user_id,
            },
    {
        if user_id <= 0 {
            return Err(INVALID_USER_TEXT.to_owned());
        }
        if !contains_id(&self.users, user_id) {
            return Ok(RemoveOutcome::NotAllowed);
        }
        self.take(user_id);
        Ok(RemoveOutcome::Removed)
    }

    /// Takes back that a user was added.
    pub fn undo_add(&mut self, user_id: i64)
        ensures
            final(self).place() == old(self).place(),
            forall|id: i64| #[trigger]
                final(self).allows(id) <==> old(self).allows(id) && id != user_id,
    {
        self.take(user_id);
    }

    /// Takes back that a user was removed.
    pub fn undo_remove(&mut self, user_id: i64)
        ensures
            final(self).place() == old(self).place(),
            forall|id: i64| #[trigger]
                final(self).allows(id) <==> old(self).allows(id) || id == user_id,
    {
        self.put(user_id);
    }

    fn put(&mut self, user_id: i64)
        ensures
            final(self).place() == old(self).place(),
            forall|id: i64| #[trigger]
                final(self).allows(id) <==> old(self).allows(id) || id == user_id,
    {
        proof {
            use_type_invariant(&*self);
        }
        let ghost before = self.users@;
        let mut users: Vec<i64> = Vec::new();
        std::mem::swap(&mut users, &mut self.users);
        insert_id(&mut users, user_id);
        self.users = users;
        assert forall|id: i64| #[trigger] self.allows(id) <==> before.contains(id) || id
            == user_id by {
            assert(self.users@.contains(id) <==> before.contains(id) || id == user_id);
        }
    }

    fn take(&mut self, user_id: i64)
        ensures
            final(self).place() == old(self).place(),
            forall|id: i64| #[trigger]
                final(self).allows(id) <==> old(self).allows(id) && id != user_id,
    {
        proof {
            use_type_invariant(&*self);
        }
        let ghost before = self.users@;
        let mut users: Vec<i64> = Vec::new();
        std::mem::swap(&mut users, &mut self.users);
        remove_id(&mut users, user_id);
        self.users = users;
        assert forall|id: i64| #[trigger] self.allows(id) <==> before.contains(id) && id
            != user_id by {
            assert(self.users@.contains(id) <==> before.contains(id) && id != user_id);
        }
    }

    /// The text to put in the place of the configuration file: what the file
    /// holds, but for the list of users.
    pub fn persist(&self, content: &Result<String, String>) -> (result: Result<String, String>)
        ensures
            exists|ids: Seq<i64>| #[trigger]
                self.listed_as(ids) && persisted(
                    self.place(),
                    ids,
                    match *content {
                        Ok(text) => Ok(text@),
                        Err(error) => Err(error@),
                    },
                    match result {
                        Ok(text) => Ok(text@),
                        Err(message) => Err(message@),
                    },
                ),
    {
        let ids = self.list();
        assert(self.listed_as(ids@));
        match content {
            Err(error) => Err(
                "could not read ".to_owned().concat(self.config_path.as_str()).concat(": ").concat(
                    error.as_str(),
                ),
            ),
            Ok(text) => match rewrite_numbers(text.as_str(), ALLOWED_USERS_KEY, &ids) {
                Rewrite::Text(written) => Ok(written.concat("\n")),
                Rewrite::Invalid(message) => Err(
                    "invalid ".to_owned().concat(self.config_path.as_str()).concat(": ").concat(
                        message.as_str(),
                    ),
                ),
                Rewrite::NotAnObject => Err(
                    self.config_path.as_str().to_owned().concat(" must contain a JSON object"),
                ),
                Rewrite::Unwritable(message) => Err(message),
            },
        }
    }

    /// Whether `ids` is everyone who is allowed, in order.
    pub open spec fn listed_as(self, ids: Seq<i64>) -> bool {
        &&& is_ordered(ids)
        &&& forall|id: i64| #[trigger] ids.contains(id) <==> self.allows(id)
    }

    /// The file in which the configuration is written first, before it takes the
    /// place of the old one.
    pub fn temporary_path(&self, number: u64) -> (result: String)
        ensures
            result@ == temporary_place(self.place(), number),
    {
        with_extension(
            self.config_path.as_str(),
            "tmp-".to_owned().concat(write_hex(number, 16).as_str()).as_str(),
        )
    }

    /// As [`AllowedUsers::temporary_path`], with a random number.
    pub fn random_temporary_path(&self) -> (result: String)
        ensures
            exists|number: u64| result@ == #[trigger] temporary_place(self.place(), number),
    {
        let number: u64 = random_number();
        self.temporary_path(number)
    }
}

/// The name of the temporary file of that number.
pub open spec fn temporary_place(path: Seq<char>, number: u64) -> Seq<char> {
    with_extension_in(path, "tmp-"@ + padded_hex(number as nat, 16))
}

/// What the configuration file is rewritten to, given what it holds or why it
/// could not be read.
pub open spec fn persisted(
    path: Seq<char>,
    ids: Seq<i64>,
    content: Result<Seq<char>, Seq<char>>,
    result: Result<Seq<char>, Seq<char>>,
) -> bool {
    match content {
        Err(error) => result == Err::<Seq<char>, Seq<char>>(
            "could not read "@ + path + ": "@ + error,
        ),
        Ok(text) => match json_in(text) {
            Err(error) => result == Err::<Seq<char>, Seq<char>>("invalid "@ + path + ": "@ + error),
            Ok(value) => if members_in(value) is None {
                result == Err::<Seq<char>, Seq<char>>(path + " must contain a JSON object"@)
            } else {
                exists|after: JsonView| #[trigger]
                    has_set_member(value, after, ALLOWED_USERS_KEY@, json_numbers(ids)) && result
                        == (match json_written(after) {
                        Ok(written) => Ok::<Seq<char>, Seq<char>>(written + "\n"@),
                        Err(error) => Err::<Seq<char>, Seq<char>>(error),
                    })
            },
        },
    }
}

/// A change that could not be written is taken back: whoever was allowed before
/// is allowed again, and nobody else.
pub proof fn law_failed_changes_are_undone(
    before: AllowedUsers,
    changed: AllowedUsers,
    undone: AllowedUsers,
    user_id: i64,
    added: bool,
)
    requires
        added ==> !before.allows(user_id) && (forall|id: i64| #[trigger]
            changed.allows(id) <==> before.allows(id) || id == user_id) && (forall|id: i64|
         #[trigger]
            undone.allows(id) <==> changed.allows(id) && id != user_id),
        !added ==> before.allows(user_id) && (forall|id: i64| #[trigger]
            changed.allows(id) <==> before.allows(id) && id != user_id) && (forall|id: i64|
         #[trigger]
            undone.allows(id) <==> changed.allows(id) || id == user_id),
    ensures
        forall|id: i64| #[trigger] undone.allows(id) <==> before.allows(id),
{
    assert forall|id: i64| #[trigger] undone.allows(id) <==> before.allows(id) by {
        assert(changed.allows(id) || !changed.allows(id));
    }
}

/// Rewriting the list of users leaves every other member of the configuration
/// as it was.
pub proof fn law_other_members_stay(
    value: JsonView,
    after: JsonView,
    ids: Seq<i64>,
    other: Seq<char>,
)
    requires
        has_set_member(value, after, ALLOWED_USERS_KEY@, json_numbers(ids)),
        other != ALLOWED_USERS_KEY@,
    ensures
        crate::json::member_in(members_in(after)->0, other) == crate::json::member_in(
            members_in(value)->0,
            other,
        ),
        crate::json::member_in(members_in(after)->0, ALLOWED_USERS_KEY@) == Some(json_numbers(ids)),
{
}

} // verus!
