use harmony::pipeline::{
    download_args, pull_song, raw_song_path, song_file_path, transcode_args, PullAction,
    PullConfig,
};
use harmony::result::ServerError;

fn config() -> PullConfig {
    PullConfig {
        download_dir: "downloads".to_string(),
        song_dir: "songs".to_string(),
        max_filesize: "10M".to_string(),
    }
}

#[test]
fn paths_are_built_exactly() {
    assert_eq!(raw_song_path("downloads", "abc123"), "downloads/abc123.mp3");
    assert_eq!(song_file_path("songs", "abc123"), "songs/abc123.dfpwm");
}

#[test]
fn download_argument_list_is_exact() {
    let args = download_args("https://youtu.be/x", "downloads/id.mp3", "10M");
    assert_eq!(
        args,
        vec![
            "-x",
            "--audio-format",
            "mp3",
            "--max-filesize",
            "10M",
            "-o",
            "downloads/id.mp3",
            "https://youtu.be/x",
        ]
    );
}

#[test]
fn transcode_argument_list_is_exact() {
    let args = transcode_args("downloads/id.mp3", "songs/id.dfpwm");
    assert_eq!(
        args,
        vec!["-i", "downloads/id.mp3", "-ac", "1", "-ar", "48k", "-c:a", "dfpwm", "songs/id.dfpwm"]
    );
}

#[test]
fn successful_pull_yields_fresh_identifier() {
    let mut run = pull_song("https://youtu.be/x", &config());

    // Download step.
    let action = run.next_action().unwrap();
    let file_id = match action {
        PullAction::RunTool { tool, args } => {
            assert_eq!(tool, "yt-dlp");
            assert_eq!(args.len(), 8);
            assert_eq!(args[4], "10M");
            assert_eq!(args[7], "https://youtu.be/x");
            let dest = args[6].clone();
            assert!(dest.starts_with("downloads/"));
            assert!(dest.ends_with(".mp3"));
            dest["downloads/".len()..dest.len() - ".mp3".len()].to_string()
        },
        other => panic!("expected a tool invocation, got {:?}", other),
    };
    run.advance(Ok(()));

    // Transcode step reads the raw file and writes the artifact.
    match run.next_action().unwrap() {
        PullAction::RunTool { tool, args } => {
            assert_eq!(tool, "ffmpeg");
            assert_eq!(args[1], format!("downloads/{}.mp3", file_id));
            assert_eq!(args[8], format!("songs/{}.dfpwm", file_id));
        },
        other => panic!("expected a tool invocation, got {:?}", other),
    }
    run.advance(Ok(()));

    // Cleanup removes the raw intermediate file.
    match run.next_action().unwrap() {
        PullAction::RemoveFile { path } => {
            assert_eq!(path, format!("downloads/{}.mp3", file_id));
        },
        other => panic!("expected a file removal, got {:?}", other),
    }
    run.advance(Ok(()));

    assert!(run.finished());
    let id = run.into_result().unwrap();
    assert_eq!(id, file_id);
    assert_eq!(id.chars().count(), 21);
}

#[test]
fn scenario_transcode_failure() {
    let mut run = pull_song("https://youtu.be/x", &config());
    run.advance(Ok(())); // download succeeds
    run.advance(Err(ServerError::ExecutionFailed)); // transcode fails

    // The raw file's removal is still attempted after the failure...
    assert!(!run.finished());
    assert!(matches!(run.next_action(), Some(PullAction::RemoveFile { .. })));
    run.advance(Ok(()));

    // ...but the pull reports the transcode failure and hands out no
    // identifier.
    assert!(run.finished());
    let outcome = run.into_result();
    assert!(matches!(outcome, Err(ServerError::ExecutionFailed)));
}

#[test]
fn download_failure_aborts_at_once() {
    let mut run = pull_song("https://youtu.be/x", &config());
    run.advance(Err(ServerError::ExecutionFailed));
    assert!(run.finished());
    assert!(run.next_action().is_none());
    assert!(matches!(run.into_result(), Err(ServerError::ExecutionFailed)));
}

#[test]
fn cleanup_failure_is_reported() {
    let mut run = pull_song("https://youtu.be/x", &config());
    run.advance(Ok(()));
    run.advance(Ok(()));
    run.advance(Err(ServerError::FileNotFound)); // raw file already gone
    assert!(run.finished());
    assert!(matches!(run.into_result(), Err(ServerError::FileNotFound)));
}

#[test]
fn cleanup_outcome_after_failed_transcode_is_ignored() {
    let mut run = pull_song("https://youtu.be/x", &config());
    run.advance(Ok(()));
    run.advance(Err(ServerError::ExecutionFailed));
    run.advance(Err(ServerError::FileNotFound)); // cleanup also fails
    // The transcode failure, not the cleanup one, is the outcome.
    assert!(matches!(run.into_result(), Err(ServerError::ExecutionFailed)));
}
