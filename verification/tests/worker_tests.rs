use rockola::worker::{
    audio_output_template, dir_download_result, first_mp3, newest_mp4, video_output_template, video_template_command_args,
    download_command_args, download_result, local_stream_url_of, metadata_command_args,
    read_video_metadata, DownloadOutput, DownloadRun, JobAction, JobStage, ProcessOutput,
};

fn ok_output(path_exists: bool) -> DownloadOutput {
    DownloadOutput { setup_error: None, launch_error: None, success: true, stderr: String::new(), file_exists: path_exists }
}

#[test]
fn metadata_from_json() {
    let (t, a) = read_video_metadata(br#"{"title":"Song","uploader":"Band","channel":"Chan"}"#).unwrap();
    assert_eq!((t.as_str(), a.as_str()), ("Song", "Band"));
    let (t, a) = read_video_metadata(br#"{"channel":"Chan"}"#).unwrap();
    assert_eq!((t.as_str(), a.as_str()), ("Unknown", "Chan"));
    let (_, a) = read_video_metadata(br#"{"title":"T","uploader":null,"channel":"Chan"}"#).unwrap();
    assert_eq!(a, "Unknown");
    let (t, a) = read_video_metadata(b"[1,2]").unwrap();
    assert_eq!((t.as_str(), a.as_str()), ("Unknown", "Unknown"));
    assert!(read_video_metadata(b"not json").is_err());
}

#[test]
fn command_arguments() {
    assert_eq!(metadata_command_args("u"), vec!["-j", "--no-warnings", "--no-download", "u"]);
    assert_eq!(
        download_command_args("audio", "/m/a.mp3", "u"),
        vec!["-x", "--audio-format", "mp3", "--audio-quality", "0", "-o", "/m/a.mp3", "--no-warnings", "u"]
    );
    assert_eq!(
        download_command_args("video", "/m/a.mp4", "u"),
        vec![
            "-f",
            "bestvideo[ext=mp4]+bestaudio[ext=m4a]/best[ext=mp4]/best",
            "--merge-output-format",
            "mp4",
            "-o",
            "/m/a.mp4",
            "--no-warnings",
            "u"
        ]
    );
}

#[test]
fn download_outcomes() {
    assert_eq!(download_result("audio", "/p.mp3", ok_output(true)), Ok("/p.mp3".to_string()));
    assert_eq!(download_result("audio", "/p.mp3", ok_output(false)), Err("No se encontró archivo mp3 generado".to_string()));
    assert_eq!(download_result("video", "/p.mp4", ok_output(false)), Err("No se encontró archivo mp4 generado".to_string()));
    let mut o = ok_output(true);
    o.success = false;
    o.stderr = "boom".into();
    assert_eq!(download_result("video", "/p.mp4", o), Err("yt-dlp download error: boom".to_string()));
    let mut o = ok_output(true);
    o.launch_error = Some("No such file".into());
    assert_eq!(download_result("video", "/p.mp4", o), Err("yt-dlp: No such file".to_string()));
    let mut o = ok_output(true);
    o.setup_error = Some("denied".into());
    assert_eq!(download_result("video", "/p.mp4", o), Err("denied".to_string()));
}

#[test]
fn stream_urls() {
    assert_eq!(local_stream_url_of("abc"), "/api/media/stream?id=abc&source=local");
}

#[test]
fn a_job_runs_to_completion() {
    let (mut run, a) = DownloadRun::start("job1".into(), "dQw4w9WgXcQ".into(), "video".into(), "/nonexistent-media".into());
    assert!(matches!(a, JobAction::UpdateStatus { ref status, progress_percent: Some(0), .. } if status == "downloading"));
    assert_eq!(run.url, "https://www.youtube.com/watch?v=dQw4w9WgXcQ");
    let a = run.on_store(Ok(()));
    match a {
        JobAction::FetchMetadata { args } => assert_eq!(args.last().unwrap(), "https://www.youtube.com/watch?v=dQw4w9WgXcQ"),
        _ => panic!("expected metadata"),
    }
    let a = run.on_metadata(ProcessOutput {
        launch_error: None,
        success: true,
        stdout: br#"{"title":"My: Song","uploader":"The Band"}"#.to_vec(),
        stderr: String::new(),
    });
    match a {
        JobAction::CreateDir { path } => assert_eq!(path, "/nonexistent-media/video/The Band"),
        _ => panic!("expected dir"),
    }
    let a = run.on_dir_created(Ok(()));
    let out = match a {
        JobAction::Download { output_path, args } => {
            assert_eq!(output_path, "/nonexistent-media/video/The Band/My- Song.mp4");
            assert_eq!(args[5], output_path);
            output_path
        }
        _ => panic!("expected download"),
    };
    assert_eq!(run.stage, JobStage::Downloading);
    let a = run.on_download(ok_output(true));
    let lib_id = match a {
        JobAction::InsertLibrary { entry } => {
            assert_eq!(entry.file_path, "video/The Band/My- Song.mp4");
            assert_eq!(entry.title, "My: Song");
            assert_eq!(entry.artist, Some("The Band".to_string()));
            assert_eq!(entry.source, "youtube");
            assert_eq!(entry.external_id, Some("dQw4w9WgXcQ".to_string()));
            entry.id
        }
        _ => panic!("expected insert"),
    };
    assert!(out.ends_with(".mp4"));
    match run.on_store(Ok(())) {
        JobAction::UpdateStatus { status, progress_percent, file_path, error } => {
            assert_eq!(status, "done");
            assert_eq!(progress_percent, Some(100));
            assert_eq!(file_path, Some("video/The Band/My- Song.mp4".to_string()));
            assert_eq!(error, None);
        }
        _ => panic!("expected done"),
    }
    match run.on_store(Ok(())) {
        JobAction::UpdateQueueStream { stream_url } => assert_eq!(stream_url, format!("/api/media/stream?id={}&source=local", lib_id)),
        _ => panic!("expected queue update"),
    }
    assert!(matches!(run.on_store(Ok(())), JobAction::Finish { result: Ok(()) }));
    assert_eq!(run.stage, JobStage::Finished);
}

#[test]
fn a_failed_download_is_recorded() {
    let (mut run, _) = DownloadRun::start("j".into(), "id".into(), "audio".into(), "/nonexistent-media".into());
    run.on_store(Ok(()));
    run.on_metadata(ProcessOutput { launch_error: None, success: true, stdout: br#"{"title":"T"}"#.to_vec(), stderr: String::new() });
    match run.on_dir_created(Ok(())) {
        JobAction::Download { output_path, .. } => assert_eq!(output_path, "/nonexistent-media/audio/Unknown/T.mp3"),
        _ => panic!(),
    }
    let mut o = ok_output(false);
    o.success = false;
    o.stderr = "403".into();
    match run.on_download(o) {
        JobAction::UpdateStatus { status, error, .. } => {
            assert_eq!(status, "failed");
            assert_eq!(error, Some("yt-dlp download error: 403".to_string()));
        }
        _ => panic!(),
    }
    match run.on_store(Err("db gone".into())) {
        JobAction::Finish { result } => assert_eq!(result, Err("yt-dlp download error: 403".to_string())),
        _ => panic!(),
    }
}

#[test]
fn early_failures_end_the_job() {
    let (mut run, _) = DownloadRun::start("j".into(), "id".into(), "audio".into(), "/m".into());
    assert!(matches!(run.on_store(Err("locked".into())), JobAction::Finish { result: Err(ref e) } if e == "locked"));
    let (mut run, _) = DownloadRun::start("j".into(), "id".into(), "audio".into(), "/m".into());
    run.on_store(Ok(()));
    let a = run.on_metadata(ProcessOutput { launch_error: None, success: false, stdout: vec![], stderr: "ERROR: private".into() });
    assert!(matches!(a, JobAction::Finish { result: Err(ref e) } if e == "ERROR: private"));
    let (mut run, _) = DownloadRun::start("j".into(), "id".into(), "audio".into(), "/m".into());
    run.on_store(Ok(()));
    let a = run.on_metadata(ProcessOutput { launch_error: Some("not found".into()), success: false, stdout: vec![], stderr: String::new() });
    assert!(matches!(a, JobAction::Finish { result: Err(ref e) } if e == "not found"));
}

#[test]
fn directory_download_helpers() {
    assert_eq!(audio_output_template("/out", "AC/DC: Live\\1"), "/out/AC-DC- Live-1.%(ext)s");
    assert_eq!(video_output_template("/out/"), "/out/%(uploader)s - %(title)s.%(ext)s");
    let args = video_template_command_args("/t", "u");
    assert_eq!(args[6], "--restrict-filenames");
    assert_eq!(args.len(), 9);
    let paths = vec!["/o/a.txt".to_string(), "/o/b.mp3".to_string(), "/o/c.mp3".to_string()];
    assert_eq!(first_mp3(&paths), Some("/o/b.mp3".to_string()));
    assert_eq!(first_mp3(&vec!["/o/x.MP3".to_string()]), None);
    let entries = vec![
        ("/o/a.mp4".to_string(), Some(5u128)),
        ("/o/b.mp4".to_string(), None),
        ("/o/c.mp4".to_string(), Some(9u128)),
        ("/o/d.mp4".to_string(), Some(9u128)),
        ("/o/e.mkv".to_string(), Some(99u128)),
    ];
    assert_eq!(newest_mp4(&entries), Some("/o/c.mp4".to_string()));
    assert_eq!(newest_mp4(&vec![]), None);
    assert_eq!(dir_download_result(None, true, "", None, "mp3"), Err("No se encontró archivo mp3 generado".to_string()));
    assert_eq!(dir_download_result(None, true, "", Some("/o/b.mp3".into()), "mp3"), Ok("/o/b.mp3".to_string()));
    assert_eq!(dir_download_result(Some("gone"), false, "", None, "mp4"), Err("yt-dlp: gone".to_string()));
    assert_eq!(dir_download_result(None, false, "x", None, "mp4"), Err("yt-dlp download error: x".to_string()));
}
