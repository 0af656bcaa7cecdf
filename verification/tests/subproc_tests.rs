use vidfetch::subproc::{build_download_args, classify_exit, DownloadError};

#[test]
fn exit_zero_is_success() {
    assert!(classify_exit(Some(0)).is_ok());
}

#[test]
fn nonzero_exit_is_subprocess_failure() {
    assert_eq!(
        classify_exit(Some(1)).unwrap_err(),
        DownloadError::SubprocessFailed { code: Some(1) }
    );
    assert_eq!(
        classify_exit(Some(101)).unwrap_err(),
        DownloadError::SubprocessFailed { code: Some(101) }
    );
}

#[test]
fn signal_termination_is_subprocess_failure() {
    assert_eq!(classify_exit(None).unwrap_err(), DownloadError::SubprocessFailed { code: None });
}

#[test]
fn download_args_follow_the_subprocess_contract() {
    let args = build_download_args("out/dir", "tools/ffmpeg.exe", "https://example.com/v");
    assert_eq!(args.len(), 23);
    assert_eq!(args[0], "-f");
    assert_eq!(args[1], "bestvideo[height=720]+bestaudio/best[height=720]");
    assert_eq!(args[2], "-c");
    assert_eq!(args[3], "--merge-output-format");
    assert_eq!(args[4], "mp4");
    assert_eq!(args[5], "-o");
    assert_eq!(args[6], "out/dir/%(title)s.%(ext)s");
    assert_eq!(args[7], "--ffmpeg-location");
    assert_eq!(args[8], "tools/ffmpeg.exe");
    assert_eq!(args[9], "--user-agent");
    assert_eq!(
        args[10],
        "Mozilla/5.0 (Windows NT 10.0; Win64; x64; rv:91.0) Gecko/20100101 Firefox/91.0"
    );
    assert_eq!(args[11], "--newline");
    for i in [12usize, 14, 16, 18, 20] {
        assert_eq!(args[i], "--add-header");
    }
    assert_eq!(
        args[13],
        "Accept: text/html,application/xhtml+xml,application/xml;q=0.9,image/avif,image/webp,*/*;q=0.8"
    );
    assert_eq!(args[15], "Accept-Language: en-US,en;q=0.5");
    assert_eq!(args[17], "Accept-Encoding: gzip, deflate, br");
    assert_eq!(args[19], "Connection: keep-alive");
    assert_eq!(args[21], "Upgrade-Insecure-Requests: 1");
    assert_eq!(args[22], "https://example.com/v");
}
