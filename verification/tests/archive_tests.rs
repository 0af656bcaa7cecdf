use std::io::{Cursor, Write};

use vidfetch::archive::{extract_binary, ArchiveError};
use zip::write::SimpleFileOptions;
use zip::ZipWriter;

fn build_archive(entries: &[(&str, &[u8])]) -> Vec<u8> {
    let mut writer = ZipWriter::new(Cursor::new(Vec::new()));
    for (name, data) in entries {
        writer.start_file(*name, SimpleFileOptions::default()).unwrap();
        writer.write_all(data).unwrap();
    }
    writer.finish().unwrap().into_inner()
}

#[test]
fn extracts_entry_by_case_insensitive_suffix() {
    let bytes = build_archive(&[
        ("docs/readme.txt", b"hello"),
        ("ffmpeg-build/bin/FFmpeg.EXE", b"MZ fake binary bytes"),
        ("bin/other.dll", b"junk"),
    ]);
    let data = extract_binary(bytes, "ffmpeg.exe").unwrap();
    assert_eq!(data, b"MZ fake binary bytes");
}

#[test]
fn missing_entry_reports_entry_missing() {
    let bytes = build_archive(&[("docs/readme.txt", b"hello")]);
    assert_eq!(extract_binary(bytes, "ffmpeg.exe").unwrap_err(), ArchiveError::EntryMissing);
}

#[test]
fn unreadable_bytes_report_unreadable() {
    let bytes = vec![0u8; 64];
    assert_eq!(extract_binary(bytes, "ffmpeg.exe").unwrap_err(), ArchiveError::Unreadable);
}

#[test]
fn first_matching_entry_wins() {
    let bytes = build_archive(&[
        ("a/ffmpeg.exe", b"first"),
        ("b/ffmpeg.exe", b"second"),
    ]);
    let data = extract_binary(bytes, "ffmpeg.exe").unwrap();
    assert_eq!(data, b"first");
}
