use std::collections::HashSet;
use std::io::{Cursor, Write};

use bedrock_launcher::archive::{Archive, ArchiveError};
use bedrock_launcher::entry_path::sanitize_entry_name;
use bedrock_launcher::extract::{
    signature_file_name, ExtractError, ExtractionOutcome, ExtractionSession, FsAction,
};

/// An in-memory host: the set of files present below the destination, and
/// which steps fail.
struct Host {
    files: HashSet<Vec<String>>,
    contents: Vec<(Vec<String>, Vec<u8>)>,
    signature_present: bool,
    fail_parents_for: Option<usize>,
    fail_write_for: Option<usize>,
    destination_ok: bool,
}

impl Host {
    fn new() -> Host {
        Host {
            files: HashSet::new(),
            contents: Vec::new(),
            signature_present: false,
            fail_parents_for: None,
            fail_write_for: None,
            destination_ok: true,
        }
    }
}

fn bundle(entries: &[(&str, &[u8])]) -> Vec<u8> {
    let mut writer = zip::ZipWriter::new(Cursor::new(Vec::new()));
    for (name, data) in entries {
        writer.start_file(*name, zip::write::FileOptions::default()).unwrap();
        writer.write_all(data).unwrap();
    }
    writer.finish().unwrap().into_inner()
}

/// Drives a session to its end against the host; returns the final action and
/// every action issued on the way.
fn drive(archive: &mut Archive, force: bool, sig: bool, host: &mut Host) -> (FsAction, Vec<FsAction>) {
    let names = archive.entry_names().unwrap();
    let mut session = ExtractionSession::new(names, force, sig);
    let mut issued = Vec::new();
    let mut action = session.pending();
    loop {
        issued.push(action);
        let reply = match action {
            FsAction::EnsureDestination => host.destination_ok,
            FsAction::Probe(i) => host.files.contains(&session.target(i).unwrap().components),
            FsAction::RemoveExisting(i) => host.files.remove(&session.target(i).unwrap().components),
            FsAction::CreateParents(i) => host.fail_parents_for != Some(i),
            FsAction::Write(i) => {
                if host.fail_write_for == Some(i) {
                    false
                } else {
                    match archive.entry_contents(i) {
                        Ok(data) => {
                            let path = session.target(i).unwrap().components;
                            host.files.insert(path.clone());
                            host.contents.retain(|(p, _)| p != &path);
                            host.contents.push((path, data));
                            true
                        }
                        Err(_) => false,
                    }
                }
            }
            FsAction::RemoveSignature => {
                host.signature_present = false;
                true
            }
            FsAction::Completed(_) | FsAction::Failed(_) => return (action, issued),
        };
        action = session.step(reply);
    }
}

fn path(parts: &[&str]) -> Vec<String> {
    parts.iter().map(|p| p.to_string()).collect()
}

#[test]
fn end_to_end_three_files_one_colliding() {
    let bytes = bundle(&[("a.txt", b"alpha"), ("dir/b.txt", b"beta"), ("c.txt", b"gamma")]);
    let mut archive = Archive::open(bytes).unwrap();
    assert_eq!(archive.len(), 3);
    let mut host = Host::new();
    host.files.insert(path(&["c.txt"]));
    let (last, issued) = drive(&mut archive, false, false, &mut host);
    assert_eq!(
        last,
        FsAction::Completed(ExtractionOutcome { entries_written: 2, entries_skipped: 1, entries_unplaced: 0 })
    );
    assert!(!issued.contains(&FsAction::Write(2)));
    assert!(!issued.contains(&FsAction::RemoveExisting(2)));
    assert!(host.contents.contains(&(path(&["dir", "b.txt"]), b"beta".to_vec())));
}

#[test]
fn rerun_without_force_skips_everything() {
    let bytes = bundle(&[("a.txt", b"alpha"), ("dir/b.txt", b"beta"), ("c.txt", b"gamma")]);
    let mut archive = Archive::open(bytes).unwrap();
    let mut host = Host::new();
    let (first, _) = drive(&mut archive, false, false, &mut host);
    assert_eq!(
        first,
        FsAction::Completed(ExtractionOutcome { entries_written: 3, entries_skipped: 0, entries_unplaced: 0 })
    );
    let before = host.contents.clone();
    let (second, issued) = drive(&mut archive, false, false, &mut host);
    assert_eq!(
        second,
        FsAction::Completed(ExtractionOutcome { entries_written: 0, entries_skipped: 3, entries_unplaced: 0 })
    );
    assert!(issued.iter().all(|a| !matches!(a, FsAction::Write(_) | FsAction::RemoveExisting(_))));
    assert_eq!(host.contents, before);
}

#[test]
fn forced_run_writes_every_entry() {
    let bytes = bundle(&[("a.txt", b"new-a"), ("b.txt", b"new-b"), ("sub/c.txt", b"new-c")]);
    let mut archive = Archive::open(bytes).unwrap();
    let mut host = Host::new();
    host.files.insert(path(&["a.txt"]));
    host.contents.push((path(&["a.txt"]), b"old".to_vec()));
    let (last, issued) = drive(&mut archive, true, false, &mut host);
    assert_eq!(
        last,
        FsAction::Completed(ExtractionOutcome { entries_written: 3, entries_skipped: 0, entries_unplaced: 0 })
    );
    assert!(issued.contains(&FsAction::RemoveExisting(0)));
    assert!(host.contents.contains(&(path(&["a.txt"]), b"new-a".to_vec())));
}

#[test]
fn traversal_entry_is_rejected_before_it_is_written() {
    let bytes = bundle(&[("ok.txt", b"fine"), ("../../evil.txt", b"evil"), ("late.txt", b"late")]);
    let mut archive = Archive::open(bytes).unwrap();
    let mut host = Host::new();
    let (last, issued) = drive(&mut archive, false, false, &mut host);
    assert_eq!(last, FsAction::Failed(ExtractError::InvalidEntryPath));
    assert!(!issued.contains(&FsAction::Probe(1)));
    assert!(!issued.contains(&FsAction::Write(1)));
    assert!(!issued.contains(&FsAction::Write(2)));
    assert_eq!(host.files.len(), 1);
}

#[test]
fn directory_failure_skips_only_that_entry() {
    let bytes = bundle(&[("a/x.txt", b"x"), ("b/y.txt", b"y"), ("z.txt", b"z")]);
    let mut archive = Archive::open(bytes).unwrap();
    let mut host = Host::new();
    host.fail_parents_for = Some(1);
    let (last, _) = drive(&mut archive, false, false, &mut host);
    assert_eq!(
        last,
        FsAction::Completed(ExtractionOutcome { entries_written: 2, entries_skipped: 0, entries_unplaced: 1 })
    );
}

#[test]
fn copy_failure_aborts_with_io() {
    let bytes = bundle(&[("a.txt", b"a"), ("b.txt", b"b"), ("c.txt", b"c")]);
    let mut archive = Archive::open(bytes).unwrap();
    let mut host = Host::new();
    host.fail_write_for = Some(1);
    let (last, issued) = drive(&mut archive, false, false, &mut host);
    assert_eq!(last, FsAction::Failed(ExtractError::Io));
    assert!(!issued.contains(&FsAction::Probe(2)));
    assert!(host.files.contains(&path(&["a.txt"])));
}

#[test]
fn destination_failure_aborts_with_io() {
    let bytes = bundle(&[("a.txt", b"a")]);
    let mut archive = Archive::open(bytes).unwrap();
    let mut host = Host::new();
    host.destination_ok = false;
    let (last, issued) = drive(&mut archive, false, false, &mut host);
    assert_eq!(last, FsAction::Failed(ExtractError::Io));
    assert_eq!(issued, vec![FsAction::EnsureDestination, FsAction::Failed(ExtractError::Io)]);
}

#[test]
fn signature_is_removed_when_asked() {
    let bytes = bundle(&[("AppxSignature.p7x", b"sig"), ("a.txt", b"a")]);
    let mut archive = Archive::open(bytes).unwrap();
    let mut host = Host::new();
    let (last, issued) = drive(&mut archive, false, true, &mut host);
    assert_eq!(
        last,
        FsAction::Completed(ExtractionOutcome { entries_written: 2, entries_skipped: 0, entries_unplaced: 0 })
    );
    assert_eq!(issued[issued.len() - 2], FsAction::RemoveSignature);
    assert_eq!(signature_file_name(), "AppxSignature.p7x");
}

#[test]
fn signature_removal_failure_is_io() {
    let mut session = ExtractionSession::new(vec![], false, true);
    assert_eq!(session.pending(), FsAction::EnsureDestination);
    assert_eq!(session.step(true), FsAction::RemoveSignature);
    assert_eq!(session.step(false), FsAction::Failed(ExtractError::Io));
    assert_eq!(session.step(true), FsAction::Failed(ExtractError::Io));
}

#[test]
fn empty_bundle_completes_with_nothing() {
    let mut session = ExtractionSession::new(vec![], false, false);
    assert_eq!(
        session.step(true),
        FsAction::Completed(ExtractionOutcome { entries_written: 0, entries_skipped: 0, entries_unplaced: 0 })
    );
}

#[test]
fn directory_entry_is_created_not_written() {
    let mut session = ExtractionSession::new(vec!["assets/".to_string()], true, false);
    assert_eq!(session.step(true), FsAction::Probe(0));
    assert!(session.target(0).unwrap().is_dir);
    assert_eq!(session.step(false), FsAction::CreateParents(0));
    assert_eq!(
        session.step(true),
        FsAction::Completed(ExtractionOutcome { entries_written: 1, entries_skipped: 0, entries_unplaced: 0 })
    );
}

#[test]
fn existing_directory_entry_is_skipped_even_when_forced() {
    let mut session = ExtractionSession::new(vec!["assets/".to_string()], true, false);
    assert_eq!(session.step(true), FsAction::Probe(0));
    assert_eq!(
        session.step(true),
        FsAction::Completed(ExtractionOutcome { entries_written: 0, entries_skipped: 1, entries_unplaced: 0 })
    );
}

#[test]
fn removal_failure_is_io() {
    let mut session = ExtractionSession::new(vec!["a.txt".to_string()], true, false);
    assert_eq!(session.step(true), FsAction::Probe(0));
    assert_eq!(session.step(true), FsAction::RemoveExisting(0));
    assert_eq!(session.step(false), FsAction::Failed(ExtractError::Io));
}

#[test]
fn garbage_is_not_an_archive() {
    assert!(matches!(Archive::open(b"not a zip".to_vec()), Err(ArchiveError::Open)));
}

#[test]
fn archive_reads_names_and_contents() {
    let bytes = bundle(&[("one.txt", b"1"), ("two/three.bin", &[0u8, 1, 2])]);
    let mut archive = Archive::open(bytes).unwrap();
    assert_eq!(archive.entry_names().unwrap(), vec!["one.txt".to_string(), "two/three.bin".to_string()]);
    assert_eq!(archive.entry_contents(1).unwrap(), vec![0u8, 1, 2]);
    assert!(matches!(archive.entry_contents(5), Err(ArchiveError::Entry)));
}

#[test]
fn sanitize_rejects_escapes() {
    assert!(sanitize_entry_name("../../evil.txt").is_none());
    assert!(sanitize_entry_name("..\\evil.txt").is_none());
    assert!(sanitize_entry_name("a/../../b").is_none());
    assert!(sanitize_entry_name("dir/C:evil").is_none());
    assert!(sanitize_entry_name("file.txt:stream").is_none());
}

#[test]
fn sanitize_strips_drive_prefix() {
    let p = sanitize_entry_name("C:/Windows/x.dll").unwrap();
    assert_eq!(p.components, path(&["Windows", "x.dll"]));
    assert!(!p.is_dir);
    let q = sanitize_entry_name("d:\\data\\y.bin").unwrap();
    assert_eq!(q.components, path(&["data", "y.bin"]));
}

#[test]
fn sanitize_destination_itself_is_a_directory() {
    for name in [".", "", "a/..", "./", "C:/"] {
        let p = sanitize_entry_name(name).unwrap();
        assert!(p.components.is_empty(), "{}", name);
        assert!(p.is_dir, "{}", name);
    }
}

#[test]
fn entry_naming_destination_is_skipped_not_fatal() {
    let mut session = ExtractionSession::new(vec!["./".to_string(), "a.txt".to_string()], true, false);
    assert_eq!(session.step(true), FsAction::Probe(0));
    assert_eq!(session.step(true), FsAction::Probe(1));
    assert_eq!(session.step(false), FsAction::CreateParents(1));
    assert_eq!(session.step(true), FsAction::Write(1));
    assert_eq!(
        session.step(true),
        FsAction::Completed(ExtractionOutcome { entries_written: 1, entries_skipped: 1, entries_unplaced: 0 })
    );
}

#[test]
fn unreadable_entry_contents_fail() {
    let mut writer = zip::ZipWriter::new(Cursor::new(Vec::new()));
    let stored = zip::write::FileOptions::default().compression_method(zip::CompressionMethod::Stored);
    writer.start_file("a.txt", stored).unwrap();
    writer.write_all(b"some contents to corrupt").unwrap();
    let mut bytes = writer.finish().unwrap().into_inner();
    let at = bytes.windows(4).position(|w| w == b"some").unwrap();
    bytes[at] ^= 0xff;
    let mut archive = Archive::open(bytes).unwrap();
    assert_eq!(archive.entry_names().unwrap(), vec!["a.txt".to_string()]);
    assert!(matches!(archive.entry_contents(0), Err(ArchiveError::Entry)));
}

#[test]
fn sanitize_resolves_inside() {
    let p = sanitize_entry_name("/abs/./x.txt").unwrap();
    assert_eq!(p.components, path(&["abs", "x.txt"]));
    assert!(!p.is_dir);
    let q = sanitize_entry_name("a\\..\\b\\c.txt").unwrap();
    assert_eq!(q.components, path(&["b", "c.txt"]));
    let d = sanitize_entry_name("data/").unwrap();
    assert_eq!(d.components, path(&["data"]));
    assert!(d.is_dir);
}

#[test]
fn entry_with_aes_field_but_no_encryption_is_an_error_not_a_panic() {
    let mut writer = zip::ZipWriter::new(Cursor::new(Vec::new()));
    let stored = zip::write::FileOptions::default().compression_method(zip::CompressionMethod::Stored);
    writer.start_file_with_extra_data("a.txt", stored).unwrap();
    writer.write_all(&0xcafeu16.to_le_bytes()).unwrap();
    writer.write_all(&7u16.to_le_bytes()).unwrap();
    writer.write_all(&1u16.to_le_bytes()).unwrap();
    writer.write_all(&0x4541u16.to_le_bytes()).unwrap();
    writer.write_all(&[1u8]).unwrap();
    writer.write_all(&0u16.to_le_bytes()).unwrap();
    writer.end_extra_data().unwrap();
    writer.write_all(b"plain").unwrap();
    let mut bytes = writer.finish().unwrap().into_inner();
    // The writer only accepts unreserved header ids; relabel the field as the
    // AES one in both the local and the central header.
    let mut relabelled = 0;
    for at in 0..bytes.len() - 3 {
        if bytes[at..at + 4] == [0xfe, 0xca, 7, 0] {
            bytes[at] = 0x01;
            bytes[at + 1] = 0x99;
            relabelled += 1;
        }
    }
    assert_eq!(relabelled, 2);
    let mut archive = Archive::open(bytes).unwrap();
    assert_eq!(archive.entry_names().unwrap(), vec!["a.txt".to_string()]);
    assert!(matches!(archive.entry_contents(0), Err(ArchiveError::Entry)));
}
