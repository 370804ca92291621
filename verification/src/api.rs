//! Boundary-facing types: the response kinds handlers answer with, and the
//! request bodies that become validated templates.

use crate::result::{AuthError, ServerError};
use crate::template::{PlaylistTemplate, SongTemplate, UserTemplate};
use crate::validation::{
    valid_name, valid_password, valid_username, valid_youtube_url, ValidationError,
};
use vstd::prelude::*;

verus! {

/// A response kind with its informational message; the boundary layer maps
/// each kind to a status code.
#[derive(Debug)]
pub enum ApiResponse {
    BadRequest(String),
    NotFound(String),
    InternalServerError(String),
    Conflict(String),
    Unauthorized(String),
}

/// The body of an error reply: the status code and its message.
#[derive(Debug)]
pub struct ErrorResponse {
    pub status: u16,
    pub message: String,
}

impl ApiResponse {
    /// The status code the boundary layer answers with for each kind:
    /// client faults are 400, absences 404, conflicts 409, rejected
    /// credentials 401, and everything else 500.
    pub fn status_code(&self) -> (code: u16)
        ensures
            match self {
                ApiResponse::BadRequest(_) => code == 400,
                ApiResponse::NotFound(_) => code == 404,
                ApiResponse::InternalServerError(_) => code == 500,
                ApiResponse::Conflict(_) => code == 409,
                ApiResponse::Unauthorized(_) => code == 401,
            },
    {
        match self {
            ApiResponse::BadRequest(_) => 400,
            ApiResponse::NotFound(_) => 404,
            ApiResponse::InternalServerError(_) => 500,
            ApiResponse::Conflict(_) => 409,
            ApiResponse::Unauthorized(_) => 401,
        }
    }

    /// The response for each service error kind: conflicts and absences
    /// keep their nature, creation failures are the client's fault, and
    /// the rest are internal.
    pub fn of_server_error(error: ServerError) -> (r: ApiResponse)
        ensures
            match error {
                ServerError::Database(msg) => r matches ApiResponse::InternalServerError(m) && m
                    == msg,
                ServerError::CouldNotCreate(msg) => r matches ApiResponse::BadRequest(m) && m
                    == msg,
                ServerError::HashFailed => r matches ApiResponse::InternalServerError(m) && m@
                    == "Hash operation failed"@,
                ServerError::AlreadyExists => r matches ApiResponse::Conflict(m) && m@
                    == "Resource already exists"@,
                ServerError::NotFound => r matches ApiResponse::NotFound(m) && m@
                    == "Resource not found"@,
                ServerError::ExecutionFailed => r matches ApiResponse::InternalServerError(m) && m@
                    == "Execution failed"@,
                ServerError::FileNotFound => r matches ApiResponse::NotFound(m) && m@
                    == "File not found"@,
            },
    {
        match error {
            ServerError::Database(msg) => ApiResponse::InternalServerError(msg),
            ServerError::CouldNotCreate(msg) => ApiResponse::BadRequest(msg),
            ServerError::HashFailed => ApiResponse::InternalServerError(
                "Hash operation failed".to_owned(),
            ),
            ServerError::AlreadyExists => ApiResponse::Conflict("Resource already exists".to_owned()),
            ServerError::NotFound => ApiResponse::NotFound("Resource not found".to_owned()),
            ServerError::ExecutionFailed => ApiResponse::InternalServerError(
                "Execution failed".to_owned(),
            ),
            ServerError::FileNotFound => ApiResponse::NotFound("File not found".to_owned()),
        }
    }

    /// The response for each login failure kind.
    pub fn of_auth_error(error: AuthError) -> (r: ApiResponse)
        ensures
            match error {
                AuthError::InvalidPassword => r matches ApiResponse::BadRequest(m) && m@
                    == "Invalid password"@,
                AuthError::UserNotFound => r matches ApiResponse::NotFound(m) && m@
                    == "User not found"@,
                AuthError::HashFailed => r matches ApiResponse::InternalServerError(m) && m@
                    == "Hash operation failed"@,
                AuthError::Database(msg) => r matches ApiResponse::InternalServerError(m) && m
                    == msg,
            },
    {
        match error {
            AuthError::InvalidPassword => ApiResponse::BadRequest("Invalid password".to_owned()),
            AuthError::UserNotFound => ApiResponse::NotFound("User not found".to_owned()),
            AuthError::HashFailed => ApiResponse::InternalServerError(
                "Hash operation failed".to_owned(),
            ),
            AuthError::Database(msg) => ApiResponse::InternalServerError(msg),
        }
    }

    /// The response for a rejected input: always the client's fault, with
    /// the rejection's message behind a naming prefix.
    pub fn of_validation_error(error: ValidationError) -> (r: ApiResponse)
        ensures
            match error {
                ValidationError::InvalidUserName(msg) => r matches ApiResponse::BadRequest(m) && m@
                    == "Invalid username: "@ + msg@,
                ValidationError::InvalidPassword(msg) => r matches ApiResponse::BadRequest(m) && m@
                    == "Invalid password: "@ + msg@,
                ValidationError::InvalidEmail(msg) => r matches ApiResponse::BadRequest(m) && m@
                    == "Invalid email: "@ + msg@,
                ValidationError::InvalidFilePath(msg) => r matches ApiResponse::BadRequest(m) && m@
                    == "Invalid file path: "@ + msg@,
                ValidationError::InvalidYouTubeUrl(msg) => r matches ApiResponse::BadRequest(m)
                    && m@ == "Invalid YouTube URL: "@ + msg@,
                ValidationError::InvalidName(msg) => r matches ApiResponse::BadRequest(m) && m@
                    == "Invalid name: "@ + msg@,
            },
    {
        match error {
            ValidationError::InvalidUserName(msg) => {
                let mut m: String = "Invalid username: ".to_owned();
                m.append(msg.as_str());
                ApiResponse::BadRequest(m)
            },
            ValidationError::InvalidPassword(msg) => {
                let mut m: String = "Invalid password: ".to_owned();
                m.append(msg.as_str());
                ApiResponse::BadRequest(m)
            },
            ValidationError::InvalidEmail(msg) => {
                let mut m: String = "Invalid email: ".to_owned();
                m.append(msg.as_str());
                ApiResponse::BadRequest(m)
            },
            ValidationError::InvalidFilePath(msg) => {
                let mut m: String = "Invalid file path: ".to_owned();
                m.append(msg.as_str());
                ApiResponse::BadRequest(m)
            },
            ValidationError::InvalidYouTubeUrl(msg) => {
                let mut m: String = "Invalid YouTube URL: ".to_owned();
                m.append(msg.as_str());
                ApiResponse::BadRequest(m)
            },
            ValidationError::InvalidName(msg) => {
                let mut m: String = "Invalid name: ".to_owned();
                m.append(msg.as_str());
                ApiResponse::BadRequest(m)
            },
        }
    }
}

/// A new-user request body.
#[derive(Debug)]
pub struct NewUser {
    pub name: String,
    pub password: String,
}

impl NewUser {
    /// The validated template for this request, or the rejection as a
    /// client-fault response.
    pub fn to_template(&self) -> (r: Result<UserTemplate, ApiResponse>)
        ensures
            match r {
                Ok(t) => valid_username(self.name@) && valid_password(self.password@)
                    && t.spec_name() == self.name@ && t.spec_password() == self.password@,
                Err(e) => (!valid_username(self.name@) || !valid_password(self.password@))
                    && e is BadRequest,
            },
    {
        match UserTemplate::new(self.name.as_str(), self.password.as_str()) {
            Ok(t) => Ok(t),
            Err(e) => Err(ApiResponse::of_validation_error(e)),
        }
    }
}

/// A new-song request body.
#[derive(Debug)]
pub struct NewSong {
    pub name: String,
    pub author: Option<String>,
    pub youtube_url: String,
}

impl NewSong {
    /// The validated template for this request with the adding user
    /// recorded, or the rejection as a client-fault response.
    pub fn to_template(&self, added_by: i32) -> (r: Result<SongTemplate, ApiResponse>)
        ensures
            match r {
                Ok(t) => {
                    &&& valid_name(self.name@)
                    &&& t.name@ == self.name@
                    &&& match self.author {
                        Some(a) => valid_name(a@) && (t.author matches Some(ta) && ta@ == a@),
                        None => t.author is None,
                    }
                    &&& valid_youtube_url(self.youtube_url@)
                    &&& t.added_by == added_by
                },
                Err(e) => (!valid_name(self.name@) || (self.author matches Some(a) && !valid_name(
                    a@,
                )) || !valid_youtube_url(self.youtube_url@)) && e is BadRequest,
            },
    {
        let author: Option<&str> = match &self.author {
            Some(a) => Some(a.as_str()),
            None => None,
        };
        match SongTemplate::new(self.name.as_str(), author, added_by, self.youtube_url.as_str()) {
            Ok(t) => Ok(t),
            Err(e) => Err(ApiResponse::of_validation_error(e)),
        }
    }
}

/// A new-playlist request body.
#[derive(Debug)]
pub struct NewPlaylist {
    pub name: String,
}

impl NewPlaylist {
    /// The validated template for this request with its owner recorded,
    /// or the rejection as a client-fault response.
    pub fn to_template(&self, owner: i32) -> (r: Result<PlaylistTemplate, ApiResponse>)
        ensures
            match r {
                Ok(t) => valid_name(self.name@) && t.name@ == self.name@ && t.owner == owner,
                Err(e) => !valid_name(self.name@) && e is BadRequest,
            },
    {
        match PlaylistTemplate::new(self.name.as_str(), owner) {
            Ok(t) => Ok(t),
            Err(e) => Err(ApiResponse::of_validation_error(e)),
        }
    }
}

} // verus!
