use harmony::api::{ApiResponse, NewPlaylist, NewSong, NewUser};
use harmony::result::{AuthError, Error, ServerError};
use harmony::template::{PlaylistTemplate, SongTemplate, UserTemplate};

#[test]
fn server_errors_map_to_response_kinds() {
    let r = ApiResponse::of_server_error(ServerError::Database("boom".to_string()));
    assert!(matches!(r, ApiResponse::InternalServerError(m) if m == "boom"));
    let r = ApiResponse::of_server_error(ServerError::CouldNotCreate("why".to_string()));
    assert!(matches!(r, ApiResponse::BadRequest(m) if m == "why"));
    let r = ApiResponse::of_server_error(ServerError::HashFailed);
    assert!(matches!(r, ApiResponse::InternalServerError(_)));
    let r = ApiResponse::of_server_error(ServerError::AlreadyExists);
    assert!(matches!(r, ApiResponse::Conflict(_)));
    let r = ApiResponse::of_server_error(ServerError::NotFound);
    assert!(matches!(r, ApiResponse::NotFound(_)));
    let r = ApiResponse::of_server_error(ServerError::ExecutionFailed);
    assert!(matches!(r, ApiResponse::InternalServerError(_)));
    // A missing backing file answers as an absence, not a server fault.
    let r = ApiResponse::of_server_error(ServerError::FileNotFound);
    assert!(matches!(r, ApiResponse::NotFound(m) if m == "File not found"));
}

#[test]
fn validation_errors_become_bad_requests() {
    let rejected = NewUser { name: "u!".to_string(), password: "Valid123!".to_string() };
    let r = rejected.to_template();
    assert!(matches!(r, Err(ApiResponse::BadRequest(m)) if m.starts_with("Invalid username: ")));

    let rejected = NewUser { name: "user123".to_string(), password: "short".to_string() };
    let r = rejected.to_template();
    assert!(matches!(r, Err(ApiResponse::BadRequest(m)) if m.starts_with("Invalid password: ")));
}

#[test]
fn new_user_to_template_keeps_fields() {
    let body = NewUser { name: "user123".to_string(), password: "P@ssw0rd".to_string() };
    let t = body.to_template().unwrap();
    assert_eq!(t.name().value(), "user123");
}

#[test]
fn new_song_to_template_canonicalizes_url() {
    let body = NewSong {
        name: "My Song".to_string(),
        author: Some("The Band".to_string()),
        youtube_url: "www.youtube.com/watch?v=dQw4w9WgXcQ".to_string(),
    };
    let t = body.to_template(7).unwrap();
    assert_eq!(t.name.value(), "My Song");
    assert_eq!(t.author.as_ref().unwrap().value(), "The Band");
    assert_eq!(t.added_by, 7);
    assert_eq!(t.youtube_url.value(), "https://youtu.be/dQw4w9WgXcQ");
}

#[test]
fn new_playlist_to_template_records_owner() {
    let body = NewPlaylist { name: "Road Trip".to_string() };
    let t = body.to_template(3).unwrap();
    assert_eq!(t.name.value(), "Road Trip");
    assert_eq!(t.owner, 3);

    let bad = NewPlaylist { name: " x".to_string() };
    assert!(matches!(bad.to_template(3), Err(ApiResponse::BadRequest(_))));
}

#[test]
fn song_template_rejects_bad_author() {
    let t = SongTemplate::new("My Song", Some(" bad"), 1, "youtu.be/dQw4w9WgXcQ");
    assert!(t.is_err());
}

#[test]
fn name_free_decision() {
    let t = UserTemplate::new("user123", "P@ssw0rd").unwrap();
    assert!(matches!(t.name_free(Ok(())), Err(ServerError::AlreadyExists)));
    assert!(t.name_free(Err(Error::NotFound)).is_ok());
    let db = t.name_free(Err(Error::Database("down".to_string())));
    assert!(matches!(db, Err(ServerError::Database(_))));
}

#[test]
fn name_exists_decision() {
    let t = UserTemplate::new("user123", "P@ssw0rd").unwrap();
    assert!(t.name_exists(Ok(())).is_ok());
    assert!(matches!(t.name_exists(Err(Error::NotFound)), Err(ServerError::NotFound)));
    let db = t.name_exists(Err(Error::AlreadyExists));
    assert!(matches!(db, Err(ServerError::Database(_))));
}

#[test]
fn song_free_decision() {
    let t = SongTemplate::new("My Song", None, 1, "youtu.be/dQw4w9WgXcQ").unwrap();
    assert!(matches!(t.song_free(Ok(())), Err(ServerError::AlreadyExists)));
    assert!(t.song_free(Err(Error::NotFound)).is_ok());
    assert!(matches!(
        t.song_free(Err(Error::Database("down".to_string()))),
        Err(ServerError::Database(_))
    ));
}

#[test]
fn password_hash_is_encoded_and_verifiable() {
    let t = UserTemplate::new("user123", "P@ssw0rd").unwrap();
    let hash = t.get_hash().unwrap();
    // The encoded hash is 60 characters and is not the password itself.
    assert_eq!(hash.len(), 60);
    assert_ne!(hash, "P@ssw0rd");
    // A well-formed stored hash passes the login judgment.
    assert_eq!(t.verify_password(42, &hash).unwrap(), 42);
}

#[test]
fn malformed_stored_hash_rejects_login() {
    let t = UserTemplate::new("user123", "P@ssw0rd").unwrap();
    let r = t.verify_password(42, "not-a-bcrypt-hash");
    assert!(matches!(r, Err(harmony::result::AuthError::InvalidPassword)));
}

#[test]
fn playlist_template_new_validates_name() {
    assert!(PlaylistTemplate::new("ok name", 1).is_ok());
    assert!(PlaylistTemplate::new("x", 1).is_err());
}

#[test]
fn auth_errors_map_to_response_kinds() {
    let r = ApiResponse::of_auth_error(AuthError::InvalidPassword);
    assert!(matches!(r, ApiResponse::BadRequest(m) if m == "Invalid password"));
    let r = ApiResponse::of_auth_error(AuthError::UserNotFound);
    assert!(matches!(r, ApiResponse::NotFound(m) if m == "User not found"));
    let r = ApiResponse::of_auth_error(AuthError::HashFailed);
    assert!(matches!(r, ApiResponse::InternalServerError(_)));
    let r = ApiResponse::of_auth_error(AuthError::Database("down".to_string()));
    assert!(matches!(r, ApiResponse::InternalServerError(m) if m == "down"));
}

#[test]
fn response_kinds_carry_their_status_codes() {
    assert_eq!(ApiResponse::BadRequest(String::new()).status_code(), 400);
    assert_eq!(ApiResponse::NotFound(String::new()).status_code(), 404);
    assert_eq!(ApiResponse::InternalServerError(String::new()).status_code(), 500);
    assert_eq!(ApiResponse::Conflict(String::new()).status_code(), 409);
    assert_eq!(ApiResponse::Unauthorized(String::new()).status_code(), 401);
}
