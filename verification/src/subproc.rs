//! The downloader subprocess contract: the exact argument vector one
//! attempt passes to the downloader, and what its exit status means.

use vstd::prelude::*;

verus! {

/// How one download attempt fails.
#[derive(Clone, Copy, Debug, PartialEq, Eq)]
pub enum DownloadError {
    /// The downloader binary could not be spawned.
    SpawnFailed,
    /// The downloader ran and exited unsuccessfully; `code` is its
    /// exit code, or nothing when it was terminated by a signal.
    SubprocessFailed { code: Option<i32> },
}

/// Map a child's exit code to the attempt's outcome: only exit code
/// zero is success; any other outcome surfaces as `SubprocessFailed`,
/// never silently swallowed.
pub fn classify_exit(code: Option<i32>) -> (r: Result<(), DownloadError>)
    ensures
        r is Ok <==> code == Some(0i32),
        r is Err ==> r == Err::<(), DownloadError>(DownloadError::SubprocessFailed { code }),
{
    match code {
        Some(c) => if c == 0 {
            Ok(())
        } else {
            Err(DownloadError::SubprocessFailed { code: Some(c) })
        },
        None => Err(DownloadError::SubprocessFailed { code: None }),
    }
}

/// Build the downloader's argument vector for one URL: a 720p format
/// selector with audio fallback, the resume flag, a forced MP4
/// container, the output template under `output_dir`, the muxer
/// location, spoofed browser identification, line-buffered progress
/// output, and the browser-shaped request headers, in that order.
pub fn build_download_args(output_dir: &str, ffmpeg_path: &str, url: &str) -> (r: Vec<String>)
    ensures
        r@.len() == 23,
        r@[0]@ == "-f"@,
        r@[1]@ == "bestvideo[height=720]+bestaudio/best[height=720]"@,
        r@[2]@ == "-c"@,
        r@[3]@ == "--merge-output-format"@,
        r@[4]@ == "mp4"@,
        r@[5]@ == "-o"@,
        r@[6]@ == output_dir@ + "/%(title)s.%(ext)s"@,
        r@[7]@ == "--ffmpeg-location"@,
        r@[8]@ == ffmpeg_path@,
        r@[9]@ == "--user-agent"@,
        r@[10]@ == "Mozilla/5.0 (Windows NT 10.0; Win64; x64; rv:91.0) Gecko/20100101 Firefox/91.0"@,
        r@[11]@ == "--newline"@,
        r@[12]@ == "--add-header"@,
        r@[13]@
            == "Accept: text/html,application/xhtml+xml,application/xml;q=0.9,image/avif,image/webp,*/*;q=0.8"@,
        r@[14]@ == "--add-header"@,
        r@[15]@ == "Accept-Language: en-US,en;q=0.5"@,
        r@[16]@ == "--add-header"@,
        r@[17]@ == "Accept-Encoding: gzip, deflate, br"@,
        r@[18]@ == "--add-header"@,
        r@[19]@ == "Connection: keep-alive"@,
        r@[20]@ == "--add-header"@,
        r@[21]@ == "Upgrade-Insecure-Requests: 1"@,
        r@[22]@ == url@,
{
    let mut v: Vec<String> = Vec::new();
    v.push(String::from_str("-f"));
    v.push(String::from_str("bestvideo[height=720]+bestaudio/best[height=720]"));
    v.push(String::from_str("-c"));
    v.push(String::from_str("--merge-output-format"));
    v.push(String::from_str("mp4"));
    v.push(String::from_str("-o"));
    v.push(String::from_str(output_dir).concat("/%(title)s.%(ext)s"));
    v.push(String::from_str("--ffmpeg-location"));
    v.push(String::from_str(ffmpeg_path));
    v.push(String::from_str("--user-agent"));
    v.push(
        String::from_str(
            "Mozilla/5.0 (Windows NT 10.0; Win64; x64; rv:91.0) Gecko/20100101 Firefox/91.0",
        ),
    );
    v.push(String::from_str("--newline"));
    v.push(String::from_str("--add-header"));
    v.push(
        String::from_str(
            "Accept: text/html,application/xhtml+xml,application/xml;q=0.9,image/avif,image/webp,*/*;q=0.8",
        ),
    );
    v.push(String::from_str("--add-header"));
    v.push(String::from_str("Accept-Language: en-US,en;q=0.5"));
    v.push(String::from_str("--add-header"));
    v.push(String::from_str("Accept-Encoding: gzip, deflate, br"));
    v.push(String::from_str("--add-header"));
    v.push(String::from_str("Connection: keep-alive"));
    v.push(String::from_str("--add-header"));
    v.push(String::from_str("Upgrade-Insecure-Requests: 1"));
    v.push(String::from_str(url));
    v
}

} // verus!
