use harmony::validation::{Email, FilePath, Name, Password, Username, YouTubeUrl};

#[test]
fn test_valid_emails() {
    let email = Email::new("test@example.com").unwrap();
    assert_eq!(email.value(), "test@example.com");

    let email = Email::new("user.name@domain.co").unwrap();
    assert_eq!(email.value(), "user.name@domain.co");

    let email = Email::new("user_name@domain.com").unwrap();
    assert_eq!(email.value(), "user_name@domain.com");

    let email = Email::new("user-name@sub.domain.com").unwrap();
    assert_eq!(email.value(), "user-name@sub.domain.com");

    let email = Email::new("user123@domain.org").unwrap();
    assert_eq!(email.value(), "user123@domain.org");
}

#[test]
fn test_invalid_emails() {
    let email = Email::new("plainaddress");
    assert!(email.is_err());

    let email = Email::new("user@domain@domain.com");
    assert!(email.is_err());

    let email = Email::new("user@domain");
    assert!(email.is_err());

    let email = Email::new("user@.com");
    assert!(email.is_err());

    let email = Email::new("@domain.com");
    assert!(email.is_err());

    let email = Email::new("user@ domain.com");
    assert!(email.is_err());

    let email = Email::new("user@domain.c ");
    assert!(email.is_err());
}

#[test]
fn test_valid_names() {
    let name = Name::new("John Doe").unwrap();
    assert_eq!(name.value(), "John Doe");

    let name = Name::new("Alice123").unwrap();
    assert_eq!(name.value(), "Alice123");

    let name = Name::new("Bob_25").unwrap();
    assert_eq!(name.value(), "Bob_25");

    let name = Name::new("Name With Spaces").unwrap();
    assert_eq!(name.value(), "Name With Spaces");

    let name = Name::new("A12").unwrap();
    assert_eq!(name.value(), "A12");

    let name = Name::new("User_1").unwrap();
    assert_eq!(name.value(), "User_1");
}

#[test]
fn test_invalid_names() {
    let name = Name::new(" JSmith");
    assert!(name.is_err());

    let name = Name::new("JSmith ");
    assert!(name.is_err());

    let name = Name::new(" JSmith ");
    assert!(name.is_err());

    let name = Name::new("JSmith123456789012345"); // More than 16 characters
    assert!(name.is_err());

    let name = Name::new("J$mith");
    assert!(name.is_err());

    let name = Name::new("John\nDoe");
    assert!(name.is_err());

    let name = Name::new("John\tDoe");
    assert!(name.is_err());

    let name = Name::new("  ");
    assert!(name.is_err());

    let name = Name::new("JM");
    assert!(name.is_err());
}

#[test]
fn test_valid_passwords() {
    let password = Password::new("P@ssw0rd").unwrap();
    assert_eq!(password.value(), "P@ssw0rd");

    let password = Password::new("Valid123!").unwrap();
    assert_eq!(password.value(), "Valid123!");

    let password = Password::new("C0mpl3x#Password").unwrap();
    assert_eq!(password.value(), "C0mpl3x#Password");
}

#[test]
fn test_invalid_passwords() {
    let password = Password::new("short");
    assert!(password.is_err());

    let password = Password::new("nocomplexity");
    assert!(password.is_err());

    let password = Password::new("12345678");
    assert!(password.is_err());

    let password = Password::new("Password ");
    assert!(password.is_err());

    let password = Password::new("Password\t");
    assert!(password.is_err());

    let password = Password::new("Password\n");
    assert!(password.is_err());

    let password = Password::new("Password\n123");
    assert!(password.is_err());

    let password = Password::new("      ");
    assert!(password.is_err());

    let password = Password::new(" Passw!rd\n123 ");
    assert!(password.is_err());
}

#[test]
fn test_valid_usernames() {
    let username = Username::new("user123").unwrap();
    assert_eq!(username.value(), "user123");

    let username = Username::new("user_name").unwrap();
    assert_eq!(username.value(), "user_name");

    let username = Username::new("User1234").unwrap();
    assert_eq!(username.value(), "User1234");

    let username = Username::new("u1_").unwrap();
    assert_eq!(username.value(), "u1_");

    let username: Username = Username::new("valid_user123").unwrap();
    assert_eq!(username.value(), "valid_user123");
}

#[test]
fn test_invalid_usernames() {
    let username = Username::new("us");
    assert!(username.is_err());

    let username = Username::new("user@name");
    assert!(username.is_err());

    let username = Username::new("user-name");
    assert!(username.is_err());

    let username = Username::new("user name");
    assert!(username.is_err());

    let username = Username::new("user!name");
    assert!(username.is_err());

    let username = Username::new("longusername12345");
    assert!(username.is_err());

    let username = Username::new("");
    assert!(username.is_err());

    let username = Username::new(" invalid_user123");
    assert!(username.is_err());
}

#[test]
fn test_valid_youtube_url() {
    let url = "https://www.youtube.com/watch?v=dQw4w9WgXcQ";
    let yt_url = YouTubeUrl::new(url).unwrap();
    assert_eq!(yt_url.value(), "https://youtu.be/dQw4w9WgXcQ");

    let url = "http://youtu.be/dQw4w9WgXcQ";
    let yt_url = YouTubeUrl::new(url).unwrap();
    assert_eq!(yt_url.value(), "https://youtu.be/dQw4w9WgXcQ");
}

#[test]
fn test_invalid_youtube_url() {
    let url = "https://www.youtube.com/watch?v=dQw4w9WgXcQ&feature=related";
    let yt_url = YouTubeUrl::new(url);
    assert!(yt_url.is_err());

    let url = "https://www.notyoutube.com/watch?v=dQw4w9WgXcQ";
    let yt_url = YouTubeUrl::new(url);
    assert!(yt_url.is_err());

    let url = "https://www.youtube.com/";
    let yt_url = YouTubeUrl::new(url);
    assert!(yt_url.is_err());

    let url = "https://youtu.be/";
    let yt_url = YouTubeUrl::new(url);
    assert!(yt_url.is_err());
}

#[test]
fn test_valid_youtube_url_no_protocol() {
    let url = "www.youtube.com/watch?v=dQw4w9WgXcQ";
    let yt_url = YouTubeUrl::new(url).unwrap();
    assert_eq!(yt_url.value(), "https://youtu.be/dQw4w9WgXcQ");

    let url = "youtu.be/dQw4w9WgXcQ";
    let yt_url = YouTubeUrl::new(url).unwrap();
    assert_eq!(yt_url.value(), "https://youtu.be/dQw4w9WgXcQ");
}

#[test]
fn file_path_accepts_plain_paths() {
    let p = FilePath::new("songs/abc-123.dfpwm").unwrap();
    assert_eq!(p.value(), "songs/abc-123.dfpwm");
    let p = FilePath::new("media\\file_1.mp3").unwrap();
    assert_eq!(p.value(), "media\\file_1.mp3");
}

#[test]
fn file_path_rejects_other_characters() {
    assert!(FilePath::new("").is_err());
    assert!(FilePath::new("songs/a b.mp3").is_err());
    assert!(FilePath::new("songs/a?.mp3").is_err());
}
