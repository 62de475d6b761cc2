use std::io::{Cursor, Write};

use tool_sync::archive::{
    classify, exe_file_name, exe_paths, first_present, join_path, select_candidate, Archive,
    ArchiveType, Platform, UnpackError,
};
use tool_sync::install::{
    install_path, is_busy_kind, next_copy_action, CopyAction, CopyOutcome, CopyStage,
};

fn s(x: &str) -> String {
    String::from(x)
}

fn tar_gz_with(paths: &[&str]) -> Vec<u8> {
    let enc = flate2::write::GzEncoder::new(Vec::new(), flate2::Compression::default());
    let mut builder = tar::Builder::new(enc);
    for path in paths {
        let data = b"#!/bin/sh\necho hi\n";
        let mut header = tar::Header::new_gnu();
        header.set_size(data.len() as u64);
        header.set_mode(0o755);
        header.set_cksum();
        builder.append_data(&mut header, path, &data[..]).unwrap();
    }
    builder.into_inner().unwrap().finish().unwrap()
}

fn zip_with(paths: &[&str]) -> Vec<u8> {
    let mut writer = zip::ZipWriter::new(Cursor::new(Vec::new()));
    for path in paths {
        writer
            .start_file(*path, zip::write::FileOptions::default())
            .unwrap();
        writer.write_all(b"binary").unwrap();
    }
    writer.finish().unwrap().into_inner()
}

fn unpack_in_fresh_dir(asset: &str, bytes: &[u8]) -> (tempfile::TempDir, Result<String, UnpackError>) {
    let dir = tempfile::tempdir().unwrap();
    let tmp = dir.path().to_str().unwrap().to_string();
    let archive = Archive::from("downloaded", &tmp, "rg", asset, "v1.0", Platform::Posix).unwrap();
    let r = archive.unpack(&bytes.to_vec());
    (dir, r)
}

#[test]
fn classify_bare_and_exe() {
    assert_eq!(classify("ripgrep"), Some(ArchiveType::Exe(s("ripgrep"))));
    assert_eq!(classify("rg.exe"), Some(ArchiveType::Exe(s("rg.exe"))));
}

#[test]
fn classify_known_extensions() {
    assert_eq!(classify("tool.AppImage"), Some(ArchiveType::AppImage(s("tool.AppImage"))));
    assert_eq!(classify("rg-1.0.tgz"), Some(ArchiveType::TarGz(s("rg-1.0"))));
    assert_eq!(classify("rg-1.0.zip"), Some(ArchiveType::Zip(s("rg-1.0"))));
    assert_eq!(
        classify("ripgrep-14.1.0-x86_64-unknown-linux-musl.tar.gz"),
        Some(ArchiveType::TarGz(s("ripgrep-14.1.0-x86_64-unknown-linux-musl")))
    );
}

#[test]
fn classify_long_extension_is_bare() {
    assert_eq!(
        classify("tool.zipzipzipzip"),
        Some(ArchiveType::Exe(s("tool.zipzipzipzip")))
    );
    assert_eq!(
        classify("tool-1.0.x86_64_linux"),
        Some(ArchiveType::Exe(s("tool-1.0.x86_64_linux")))
    );
}

#[test]
fn classify_unsupported() {
    assert_eq!(classify("tool.deb"), None);
    assert_eq!(classify("tool.gz"), None);
    assert!(Archive::from("a", "t", "rg", "tool.rpm", "v1", Platform::Posix).is_none());
}

#[test]
fn windows_exe_name() {
    assert_eq!(exe_file_name("rg", Platform::Windows), s("rg.exe"));
    assert_eq!(exe_file_name("rg", Platform::Posix), s("rg"));
    assert_eq!(install_path("/store", "rg", Platform::Windows), s("/store/rg.exe"));
}

#[test]
fn candidate_order() {
    let paths = exe_paths("rg", Platform::Posix, "rg-1.0.zip", "v1.0");
    let expected: Vec<String> = [
        "rg-1.0.zip",
        "rg-1.0.zip",
        "rg-1.0.zip",
        "rg-1.0",
        "rg",
        "rg-1.0.zip/rg",
        "tmp/rg-1.0.zip/rg",
        "rg/rg",
        "bin/rg",
        "rg-1.0.zip/bin/rg",
        "rg-v1.0/rg",
        "rg-1.0/rg",
    ]
    .iter()
    .map(|x| s(x))
    .collect();
    assert_eq!(paths, expected);
}

#[test]
fn suffix_and_v_are_stripped_once() {
    let paths = exe_paths("rg", Platform::Posix, "a.tgz.tgz", "vv2");
    assert_eq!(paths[2], s("a.tgz"));
    assert_eq!(paths[11], s("rg-v2/rg"));
}

#[test]
fn windows_versioned_folders_use_the_bare_name() {
    let paths = exe_paths("rg", Platform::Windows, "rg-1.0", "v1");
    assert_eq!(paths[4], s("rg.exe"));
    assert_eq!(paths[10], s("rg-v1/rg.exe"));
    assert_eq!(paths[11], s("rg-1/rg.exe"));
}

#[test]
fn zip_entry_with_stray_aes_data_is_an_error() {
    // One stored, unencrypted entry whose central record carries an AES
    // extra field (header 0x9901).
    let name = b"rg";
    let data = b"binary";
    let mut crc = flate2::Crc::new();
    crc.update(data);
    let crc = crc.sum();
    let extra = [0x01u8, 0x99, 7, 0, 2, 0, 0x41, 0x45, 3, 0, 0];
    let mut bytes: Vec<u8> = Vec::new();
    bytes.extend_from_slice(&0x04034b50u32.to_le_bytes());
    bytes.extend_from_slice(&[20, 0, 0, 0, 0, 0, 0, 0, 0x21, 0]);
    bytes.extend_from_slice(&crc.to_le_bytes());
    bytes.extend_from_slice(&(data.len() as u32).to_le_bytes());
    bytes.extend_from_slice(&(data.len() as u32).to_le_bytes());
    bytes.extend_from_slice(&(name.len() as u16).to_le_bytes());
    bytes.extend_from_slice(&0u16.to_le_bytes());
    bytes.extend_from_slice(name);
    bytes.extend_from_slice(data);
    let central_start = bytes.len() as u32;
    bytes.extend_from_slice(&0x02014b50u32.to_le_bytes());
    bytes.extend_from_slice(&[20, 3, 20, 0, 0, 0, 0, 0, 0, 0, 0x21, 0]);
    bytes.extend_from_slice(&crc.to_le_bytes());
    bytes.extend_from_slice(&(data.len() as u32).to_le_bytes());
    bytes.extend_from_slice(&(data.len() as u32).to_le_bytes());
    bytes.extend_from_slice(&(name.len() as u16).to_le_bytes());
    bytes.extend_from_slice(&(extra.len() as u16).to_le_bytes());
    bytes.extend_from_slice(&[0, 0, 0, 0, 0, 0, 0, 0, 0, 0]);
    bytes.extend_from_slice(&0u32.to_le_bytes());
    bytes.extend_from_slice(name);
    bytes.extend_from_slice(&extra);
    let central_size = bytes.len() as u32 - central_start;
    bytes.extend_from_slice(&0x06054b50u32.to_le_bytes());
    bytes.extend_from_slice(&[0, 0, 0, 0, 1, 0, 1, 0]);
    bytes.extend_from_slice(&central_size.to_le_bytes());
    bytes.extend_from_slice(&central_start.to_le_bytes());
    bytes.extend_from_slice(&0u16.to_le_bytes());
    let (_dir, r) = unpack_in_fresh_dir("rg.zip", &bytes);
    assert!(matches!(r, Err(UnpackError::ZipError(_))));
}

#[test]
fn extraction_error_is_passed_on() {
    let a = Archive::from("dl", "/tmp/x", "rg", "rg.zip", "v1", Platform::Posix).unwrap();
    match a.locate_unpacked(Err(UnpackError::ExeNotFound(s("earlier")))) {
        Err(UnpackError::ExeNotFound(m)) => assert_eq!(m, s("earlier")),
        _ => panic!("the extraction error must come back"),
    }
}

#[test]
fn first_present_candidate_wins() {
    assert_eq!(first_present(&vec![false, false, false, false, true, false, false, false, true]), Some(4));
    assert_eq!(first_present(&vec![false, false]), None);
    let paths = vec![s("a"), s("b"), s("c")];
    match select_candidate("arch", &paths, &vec![false, true, true]) {
        Ok(p) => assert_eq!(p, s("b")),
        Err(_) => panic!("expected a candidate"),
    }
    match select_candidate("arch", &paths, &vec![false, false, false]) {
        Err(e) => assert_eq!(e.message(), s("Can't find executable in archive: arch")),
        Ok(_) => panic!("expected no candidate"),
    }
}

#[test]
fn flat_binary_beats_bin_directory() {
    let bytes = tar_gz_with(&["rg", "bin/rg"]);
    let (dir, r) = unpack_in_fresh_dir("rg-1.0-linux.tar.gz", &bytes);
    let tmp = dir.path().to_str().unwrap().to_string();
    match r {
        Ok(p) => assert_eq!(p, join_path(&tmp, "rg")),
        Err(e) => panic!("{}", e.message()),
    }
}

#[test]
fn every_candidate_location_is_found() {
    let locations = [
        "rg-1.0-linux",
        "rg",
        "rg-1.0-linux/rg",
        "tmp/rg-1.0-linux/rg",
        "rg/rg",
        "bin/rg",
        "rg-1.0-linux/bin/rg",
        "rg-v1.0/rg",
        "rg-1.0/rg",
    ];
    for location in locations {
        let bytes = tar_gz_with(&[location]);
        let (dir, r) = unpack_in_fresh_dir("rg-1.0-linux.tar.gz", &bytes);
        let tmp = dir.path().to_str().unwrap().to_string();
        match r {
            Ok(p) => assert_eq!(p, join_path(&tmp, location)),
            Err(e) => panic!("{}: {}", location, e.message()),
        }
    }
}

#[test]
fn zip_archive_is_unpacked() {
    let bytes = zip_with(&["rg-1.0/rg"]);
    let (dir, r) = unpack_in_fresh_dir("rg-1.0.zip", &bytes);
    let tmp = dir.path().to_str().unwrap().to_string();
    match r {
        Ok(p) => assert_eq!(p, join_path(&tmp, "rg-1.0/rg")),
        Err(e) => panic!("{}", e.message()),
    }
}

#[test]
fn no_candidate_is_not_found_and_dir_is_removed() {
    let bytes = tar_gz_with(&["docs/README"]);
    let (dir, r) = unpack_in_fresh_dir("rg-1.0-linux.tar.gz", &bytes);
    let kept = dir.path().to_path_buf();
    match r {
        Err(UnpackError::ExeNotFound(a)) => assert_eq!(a, s("downloaded")),
        _ => panic!("expected ExeNotFound"),
    }
    drop(dir);
    assert!(!kept.exists());
}

#[test]
fn broken_archives_fail_to_unpack() {
    let (_dir, r) = unpack_in_fresh_dir("rg.tar.gz", b"not gzip");
    match r {
        Err(e @ UnpackError::IOError(_)) => assert!(!e.message().is_empty()),
        _ => panic!("expected an I/O error"),
    }
    let (_dir, r) = unpack_in_fresh_dir("rg.zip", b"not zip");
    match r {
        Err(e @ UnpackError::ZipError(_)) => assert!(!e.message().is_empty()),
        _ => panic!("expected a zip error"),
    }
}

#[test]
fn bare_assets_are_not_unpacked() {
    let a = Archive::from("dl", "/tmp/x", "rg", "rg.exe", "v1", Platform::Posix).unwrap();
    match a.unpack(&Vec::new()) {
        Ok(p) => assert_eq!(p, s("/tmp/x/rg.exe")),
        Err(_) => panic!("bare executable"),
    }
    let a = Archive::from("dl", "/tmp/x", "tool", "tool.AppImage", "v1", Platform::Posix).unwrap();
    match a.unpack(&Vec::new()) {
        Ok(p) => assert_eq!(p, s("/tmp/x/tool.AppImage")),
        Err(_) => panic!("AppImage"),
    }
}

#[test]
fn busy_copy_is_retried_once() {
    assert!(is_busy_kind("executable file busy"));
    assert!(!is_busy_kind("permission denied"));
    assert_eq!(next_copy_action(CopyStage::First, CopyOutcome::Busy), CopyAction::RemoveAndRetry);
    assert_eq!(next_copy_action(CopyStage::Retry, CopyOutcome::Busy), CopyAction::Fail);
    assert_eq!(next_copy_action(CopyStage::Retry, CopyOutcome::Copied), CopyAction::SetPermissions);
    assert_eq!(next_copy_action(CopyStage::First, CopyOutcome::Failed), CopyAction::Fail);
    assert_eq!(next_copy_action(CopyStage::First, CopyOutcome::Copied), CopyAction::SetPermissions);
}
