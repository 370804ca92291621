//! Templates: validated bundles of user input, ready to become catalog
//! records.
//!
//! A template is built from raw strings by the validation layer and then
//! carries the decisions that accompany a catalog write: whether a name or
//! song is free, how a lookup failure maps to a service error, and how a
//! login attempt is judged. The catalog itself is an external collaborator;
//! its answers enter these decisions as plain lookup outcomes.

use crate::result::{AuthError, Error, ServerError};
use crate::validation::{
    valid_name, valid_password, valid_username, valid_youtube_url, youtube_id, Name, Password,
    Username, ValidationError, YouTubeUrl,
};
use vstd::prelude::*;

verus! {

/// Relies on bcrypt::hash with the crate's default cost: a successful
/// result is the 60-character encoded hash string.
#[verifier::external_body]
fn bcrypt_hash_default(password: &str) -> (r: Result<String, ()>)
    ensures
        r matches Ok(h) ==> h@.len() == 60,
{
    match bcrypt::hash(password, bcrypt::DEFAULT_COST) {
        Ok(h) => Ok(h),
        Err(_) => Err(()),
    }
}

/// Relies on bcrypt::verify: checks a password against a stored encoded
/// hash, failing on a malformed hash.
#[verifier::external_body]
fn bcrypt_verify(password: &str, hash: &str) -> (r: Result<bool, ()>) {
    match bcrypt::verify(password, hash) {
        Ok(b) => Ok(b),
        Err(_) => Err(()),
    }
}

/// A validated new-user bundle.
pub struct UserTemplate {
    name: Username,
    password: Password,
}

impl UserTemplate {
    /// The validated username text.
    pub closed spec fn spec_name(&self) -> Seq<char> {
        self.name@
    }

    /// The validated password text.
    pub closed spec fn spec_password(&self) -> Seq<char> {
        self.password@
    }

    /// Accepts exactly a valid username together with a valid password.
    pub fn new(name: &str, password: &str) -> (r: Result<Self, ValidationError>)
        ensures
            match r {
                Ok(t) => valid_username(name@) && valid_password(password@) && t.spec_name()
                    == name@ && t.spec_password() == password@,
                Err(e) => (!valid_username(name@) && e is InvalidUserName) || (valid_username(
                    name@,
                ) && !valid_password(password@) && e is InvalidPassword),
            },
    {
        let name = match Username::new(name) {
            Ok(n) => n,
            Err(e) => {
                return Err(e);
            },
        };
        let password = match Password::new(password) {
            Ok(p) => p,
            Err(e) => {
                return Err(e);
            },
        };
        Ok(UserTemplate { name, password })
    }

    /// The validated username.
    pub fn name(&self) -> (r: &Username)
        ensures
            r@ == self.spec_name(),
    {
        &self.name
    }

    /// The stored password's hash, or `HashFailed` when hashing fails.
    pub fn get_hash(&self) -> (r: Result<String, ServerError>)
        ensures
            match r {
                Ok(h) => h@.len() == 60,
                Err(e) => e is HashFailed,
            },
    {
        match bcrypt_hash_default(self.password.value().as_str()) {
            Ok(h) => Ok(h),
            Err(_) => Err(ServerError::HashFailed),
        }
    }

    /// Decide from a catalog lookup outcome whether this template's name
    /// is still free: a found name is a conflict, an absent one is free,
    /// and any other lookup failure is a database error.
    pub fn name_free(&self, lookup: Result<(), Error>) -> (r: Result<(), ServerError>)
        ensures
            match lookup {
                Ok(()) => r matches Err(e) && e is AlreadyExists,
                Err(Error::NotFound) => r is Ok,
                Err(_) => r matches Err(e) && e is Database,
            },
    {
        match lookup {
            Ok(()) => Err(ServerError::AlreadyExists),
            Err(err) => match err {
                Error::NotFound => Ok(()),
                _ => Err(ServerError::Database("Failed to check if user exists".to_owned())),
            },
        }
    }

    /// Decide from a catalog lookup outcome whether this template's name
    /// exists: an absent name is `NotFound`, and any other lookup failure
    /// is a database error.
    pub fn name_exists(&self, lookup: Result<(), Error>) -> (r: Result<(), ServerError>)
        ensures
            match lookup {
                Ok(()) => r is Ok,
                Err(Error::NotFound) => r matches Err(e) && e is NotFound,
                Err(_) => r matches Err(e) && e is Database,
            },
    {
        match lookup {
            Ok(()) => Ok(()),
            Err(err) => match err {
                Error::NotFound => Err(ServerError::NotFound),
                _ => Err(ServerError::Database("Failed to check if user exists".to_owned())),
            },
        }
    }

    /// Judge a login against the stored credential record: a malformed
    /// stored hash rejects the password, while a well-formed one accepts
    /// the login without consulting the comparison's verdict.
    pub fn verify_password(&self, user_id: i32, stored_hash: &str) -> (r: Result<i32, AuthError>)
        ensures
            match r {
                Ok(id) => id == user_id,
                Err(e) => e is InvalidPassword,
            },
    {
        match bcrypt_verify(self.password.value().as_str(), stored_hash) {
            Ok(_) => Ok(user_id),
            Err(_) => Err(AuthError::InvalidPassword),
        }
    }
}

/// A validated new-song bundle.
pub struct SongTemplate {
    pub name: Name,
    pub author: Option<Name>,
    pub added_by: i32,
    pub youtube_url: YouTubeUrl,
}

impl SongTemplate {
    /// Accepts exactly a valid song name, an optional valid author name,
    /// and a valid video reference, in that checking order.
    pub fn new(name: &str, author: Option<&str>, user: i32, url: &str) -> (r: Result<
        Self,
        ValidationError,
    >)
        ensures
            match r {
                Ok(t) => {
                    &&& valid_name(name@)
                    &&& t.name@ == name@
                    &&& match author {
                        Some(a) => valid_name(a@) && (t.author matches Some(ta) && ta@ == a@),
                        None => t.author is None,
                    }
                    &&& valid_youtube_url(url@)
                    &&& t.youtube_url@ == "https://youtu.be/"@ + youtube_id(url@)
                    &&& t.added_by == user
                },
                Err(e) => {
                    ||| (!valid_name(name@) && e is InvalidName)
                    ||| (valid_name(name@) && (author matches Some(a) && !valid_name(a@))
                        && e is InvalidName)
                    ||| (valid_name(name@) && (match author {
                        Some(a) => valid_name(a@),
                        None => true,
                    }) && !valid_youtube_url(url@) && e is InvalidYouTubeUrl)
                },
            },
    {
        let name = match Name::new(name) {
            Ok(n) => n,
            Err(e) => {
                return Err(e);
            },
        };
        let author = match author {
            None => None,
            Some(val) => match Name::new(val) {
                Ok(a) => Some(a),
                Err(e) => {
                    return Err(e);
                },
            },
        };
        let youtube_url = match YouTubeUrl::new(url) {
            Ok(u) => u,
            Err(e) => {
                return Err(e);
            },
        };
        Ok(SongTemplate { name, author, added_by: user, youtube_url })
    }

    /// Decide from a catalog lookup outcome whether this template's video
    /// reference is still free: a found song is a conflict, an absent one
    /// is free, and any other lookup failure is a database error.
    pub fn song_free(&self, lookup: Result<(), Error>) -> (r: Result<(), ServerError>)
        ensures
            match lookup {
                Ok(()) => r matches Err(e) && e is AlreadyExists,
                Err(Error::NotFound) => r is Ok,
                Err(_) => r matches Err(e) && e is Database,
            },
    {
        match lookup {
            Ok(()) => Err(ServerError::AlreadyExists),
            Err(err) => match err {
                Error::NotFound => Ok(()),
                _ => Err(ServerError::Database("Failed to check if song exists".to_owned())),
            },
        }
    }
}

/// A validated new-playlist bundle.
pub struct PlaylistTemplate {
    pub name: Name,
    pub owner: i32,
}

impl PlaylistTemplate {
    /// Accepts exactly a valid playlist name.
    pub fn new(name: &str, owner: i32) -> (r: Result<Self, ValidationError>)
        ensures
            match r {
                Ok(t) => valid_name(name@) && t.name@ == name@ && t.owner == owner,
                Err(e) => !valid_name(name@) && e is InvalidName,
            },
    {
        let name = match Name::new(name) {
            Ok(n) => n,
            Err(e) => {
                return Err(e);
            },
        };
        Ok(PlaylistTemplate { name, owner })
    }
}

} // verus!
