use server_wrapper::cache::CacheStore;
use server_wrapper::cache::Entry;
use server_wrapper::cache::File;
use server_wrapper::cache::Token;
use server_wrapper::cache::UpdateResult;
use server_wrapper::destination::collect_prepared;
use server_wrapper::destination::changed_keys;
use server_wrapper::destination::PreparedDestination;
use server_wrapper::loader::complete_fetch;
use server_wrapper::loader::plan_source;
use server_wrapper::loader::Candidate;
use server_wrapper::loader::LoadPlan;
use server_wrapper::transform::Transform;
use server_wrapper::transform::TransformOp;
use server_wrapper::Error;
use std::io::Write;

fn file(name: &str, bytes: &[u8]) -> File {
    File { name: name.to_string(), bytes: bytes.to_vec() }
}

fn committed_entry(key: &str, hash: &str, f: File) -> Entry {
    let entry = Entry::new(key.to_string());
    match entry.try_update(Token::Sha512(hash.to_string())) {
        UpdateResult::Mismatch(updater) => updater.update(f).0,
        UpdateResult::Match(..) => panic!("a fresh slot must mismatch"),
    }
}

#[test]
fn fresh_slot_mismatches() {
    let entry = Entry::new("mod-a".to_string());
    match entry.try_update(Token::Sha512("h1".to_string())) {
        UpdateResult::Mismatch(_) => {}
        UpdateResult::Match(..) => panic!("no artifact stored yet"),
    }
}

#[test]
fn cache_idempotence_same_fingerprint_matches_twice() {
    let entry = committed_entry("mod-a", "h1", file("a.jar", b"abc"));
    let (entry, first) = match entry.try_update(Token::Sha512("h1".to_string())) {
        UpdateResult::Match(e, r) => (e, r),
        UpdateResult::Mismatch(_) => panic!("same fingerprint must match"),
    };
    assert!(!first.changed());
    let (_, second) = match entry.try_update(Token::Sha512("h1".to_string())) {
        UpdateResult::Match(e, r) => (e, r),
        UpdateResult::Mismatch(_) => panic!("a match leaves the slot unchanged"),
    };
    assert!(!second.changed());
    assert_eq!(second.file().bytes, b"abc".to_vec());
}

#[test]
fn staleness_monotonicity_after_update() {
    let entry = committed_entry("mod-a", "h1", file("a.jar", b"abc"));
    let entry = match entry.try_update(Token::Sha512("h1".to_string())) {
        UpdateResult::Match(e, _) => e,
        UpdateResult::Mismatch(_) => panic!("same fingerprint must match"),
    };
    match entry.try_update(Token::Sha512("h2".to_string())) {
        UpdateResult::Mismatch(updater) => {
            let _ = updater.reject();
        }
        UpdateResult::Match(..) => panic!("a different hash must mismatch"),
    }
}

#[test]
fn algorithm_mismatch_forces_refetch() {
    let entry = committed_entry("mod-a", "h1", file("a.jar", b"abc"));
    match entry.try_update(Token::Sha256("h1".to_string())) {
        UpdateResult::Mismatch(_) => {}
        UpdateResult::Match(..) => panic!("fingerprints of different algorithms never compare"),
    }
}

#[test]
fn fallback_returns_prior_artifact() {
    let entry = committed_entry("mod-a", "h1", file("a.jar", b"abc"));
    match plan_source(entry, None) {
        LoadPlan::Ready(_, reference) => {
            assert!(!reference.changed());
            assert_eq!(reference.file().bytes, b"abc".to_vec());
            assert_eq!(reference.file().name, "a.jar".to_string());
        }
        _ => panic!("a cached artifact is the fallback when nothing resolves"),
    }
}

#[test]
fn fallback_without_artifact_is_missing() {
    let entry = Entry::new("mod-a".to_string());
    match plan_source(entry, None) {
        LoadPlan::Missing(_) => {}
        _ => panic!("no candidate and no cached artifact means missing-artifact"),
    }
}

#[test]
fn matching_candidate_skips_download() {
    let entry = committed_entry("mod-a", "h1", file("a.jar", b"abc"));
    let candidate = Candidate {
        token: Token::Sha512("h1".to_string()),
        url: "https://example.invalid/a.jar".to_string(),
        name: "a.jar".to_string(),
    };
    match plan_source(entry, Some(candidate)) {
        LoadPlan::Ready(_, reference) => {
            assert!(!reference.changed());
            assert_eq!(reference.file().bytes, b"abc".to_vec());
        }
        _ => panic!("a matching fingerprint reuses the cached artifact"),
    }
}

#[test]
fn mismatching_candidate_requires_fetch() {
    let entry = committed_entry("mod-a", "h1", file("a.jar", b"abc"));
    let candidate = Candidate {
        token: Token::Sha512("h2".to_string()),
        url: "https://example.invalid/b.jar".to_string(),
        name: "b.jar".to_string(),
    };
    let (updater, url, name) = match plan_source(entry, Some(candidate)) {
        LoadPlan::Fetch(u, url, name) => (u, url, name),
        _ => panic!("a new fingerprint owes a download"),
    };
    assert_eq!(url, "https://example.invalid/b.jar".to_string());
    assert_eq!(name, "b.jar".to_string());
    let transform = Transform::empty();
    let (entry, result) = complete_fetch(updater, &file("b.jar", b"def"), &transform);
    let reference = result.expect("an empty pipeline hands the download through");
    assert!(reference.changed());
    assert_eq!(reference.file().bytes, b"def".to_vec());
    match entry.try_update(Token::Sha512("h2".to_string())) {
        UpdateResult::Match(..) => {}
        UpdateResult::Mismatch(_) => panic!("the commit records the new fingerprint"),
    }
}

#[test]
fn transform_rejection_preserves_cache() {
    let entry = committed_entry("mod-a", "h1", file("a.jar", b"abc"));
    let candidate = Candidate {
        token: Token::Sha512("h2".to_string()),
        url: "https://example.invalid/b.jar".to_string(),
        name: "b.jar".to_string(),
    };
    let updater = match plan_source(entry, Some(candidate)) {
        LoadPlan::Fetch(u, _, _) => u,
        _ => panic!("a new fingerprint owes a download"),
    };
    // The fetched bytes are no archive with such an entry: the pipeline
    // yields nothing and the slot keeps its prior fingerprint and artifact.
    let transform = Transform {
        ops: vec![TransformOp::ExtractArchiveEntry { entry_name: "inner.jar".to_string() }],
    };
    let (entry, result) = complete_fetch(updater, &file("b.jar", &make_zip("other.txt", b"x")), &transform);
    assert!(matches!(result, Err(Error::MissingArtifact)));
    match entry.try_update(Token::Sha512("h1".to_string())) {
        UpdateResult::Match(_, reference) => {
            assert_eq!(reference.file().bytes, b"abc".to_vec());
        }
        UpdateResult::Mismatch(_) => panic!("the failed attempt must leave the slot intact"),
    }
}

fn make_zip(entry_name: &str, content: &[u8]) -> Vec<u8> {
    let mut writer = zip::ZipWriter::new(std::io::Cursor::new(Vec::new()));
    writer
        .start_file(entry_name, zip::write::SimpleFileOptions::default())
        .expect("start zip entry");
    writer.write_all(content).expect("write zip entry");
    writer.finish().expect("finish zip").into_inner()
}

#[test]
fn archive_entry_is_extracted() {
    let archive = make_zip("inner.jar", b"payload");
    let transform = Transform {
        ops: vec![TransformOp::ExtractArchiveEntry { entry_name: "inner.jar".to_string() }],
    };
    let out = transform
        .apply(&file("mod.zip", &archive))
        .expect("a well-formed archive does not fail")
        .expect("the entry exists");
    assert_eq!(out.name, "inner.jar".to_string());
    assert_eq!(out.bytes, b"payload".to_vec());
    assert_ne!(out.bytes, archive);
}

#[test]
fn missing_archive_entry_yields_nothing() {
    let archive = make_zip("inner.jar", b"payload");
    let transform = Transform {
        ops: vec![TransformOp::ExtractArchiveEntry { entry_name: "absent.jar".to_string() }],
    };
    let out = transform.apply(&file("mod.zip", &archive)).expect("lookup itself succeeds");
    assert!(out.is_none());
}

#[test]
fn rename_keeps_bytes() {
    let transform = Transform { ops: vec![TransformOp::Rename { name: "final.jar".to_string() }] };
    let out = transform
        .apply(&file("download.tmp", b"abc"))
        .expect("rename cannot fail")
        .expect("rename always yields a file");
    assert_eq!(out.name, "final.jar".to_string());
    assert_eq!(out.bytes, b"abc".to_vec());
}

#[test]
fn empty_pipeline_hands_file_through() {
    let transform = Transform::empty();
    let out = transform.apply(&file("a.jar", b"abc")).unwrap().unwrap();
    assert_eq!(out.name, "a.jar".to_string());
    assert_eq!(out.bytes, b"abc".to_vec());
}

#[test]
fn partial_failure_isolation() {
    let entry_a = committed_entry("mod-a", "h1", file("a.jar", b"aaa"));
    let reference_a = entry_a.get_existing().expect("artifact was committed");
    let outcomes = vec![
        ("mod-a".to_string(), Ok(reference_a)),
        ("mod-b".to_string(), Err(Error::Reqwest)),
    ];
    let prepared = collect_prepared("serverdir".to_string(), &outcomes);
    assert_eq!(prepared.cache_files.len(), 1);
    assert_eq!(prepared.cache_files[0].0, "mod-a".to_string());
    let contents = prepared.apply_plan();
    assert_eq!(contents.len(), 1);
    assert_eq!(contents[0].name, "a.jar".to_string());
    assert_eq!(contents[0].bytes, b"aaa".to_vec());
}

#[test]
fn rebuild_completeness_reports_no_changes() {
    // First cycle: both sources download.
    let mut first_contents: Vec<(String, Vec<u8>)> = Vec::new();
    let mut entries: Vec<Entry> = Vec::new();
    for (key, hash, name, bytes) in [
        ("mod-a", "h1", "a.jar", b"aaa".as_slice()),
        ("mod-b", "h2", "b.jar", b"bbb".as_slice()),
    ] {
        let entry = Entry::new(key.to_string());
        let updater = match entry.try_update(Token::Sha512(hash.to_string())) {
            UpdateResult::Mismatch(u) => u,
            UpdateResult::Match(..) => panic!("fresh slots mismatch"),
        };
        let (entry, reference) = updater.update(file(name, bytes));
        assert!(reference.changed());
        first_contents.push((reference.file().name.clone(), reference.file().bytes.clone()));
        entries.push(entry);
    }
    // Second cycle: identical fingerprints resolve, nothing is fetched.
    let mut outcomes = Vec::new();
    for (entry, (key, hash)) in entries.into_iter().zip([("mod-a", "h1"), ("mod-b", "h2")]) {
        let candidate = Candidate {
            token: Token::Sha512(hash.to_string()),
            url: "https://example.invalid".to_string(),
            name: "ignored".to_string(),
        };
        match plan_source(entry, Some(candidate)) {
            LoadPlan::Ready(_, reference) => outcomes.push((key.to_string(), Ok(reference))),
            _ => panic!("unchanged sources must match"),
        }
    }
    let prepared = collect_prepared("serverdir".to_string(), &outcomes);
    assert_eq!(prepared.cache_files.len(), 2);
    // And the rebuilt contents are byte-identical to the first cycle's.
    let contents = prepared.apply_plan();
    let got: Vec<(String, Vec<u8>)> =
        contents.into_iter().map(|f| (f.name, f.bytes)).collect();
    assert_eq!(got, first_contents);
    let changed = changed_keys(&vec![prepared]);
    assert!(changed.is_empty());
}

#[test]
fn changed_keys_aggregates_across_destinations() {
    let entry_a = committed_entry("mod-a", "h1", file("a.jar", b"aaa"));
    let reference_a = entry_a.get_existing().expect("artifact was committed");

    let entry_b = Entry::new("mod-b".to_string());
    let updater = match entry_b.try_update(Token::Sha512("h2".to_string())) {
        UpdateResult::Mismatch(u) => u,
        UpdateResult::Match(..) => panic!("fresh slots mismatch"),
    };
    let (_, reference_b) = updater.update(file("b.jar", b"bbb"));

    let first = collect_prepared(
        "dir-one".to_string(),
        &vec![("mod-a".to_string(), Ok(reference_a))],
    );
    let second = collect_prepared(
        "dir-two".to_string(),
        &vec![("mod-b".to_string(), Ok(reference_b))],
    );
    let changed = changed_keys(&vec![first, second]);
    assert_eq!(changed, vec!["mod-b".to_string()]);
}

#[test]
fn apply_plan_lists_files_in_order() {
    let entry_a = committed_entry("mod-a", "h1", file("a.jar", b"aaa"));
    let entry_b = committed_entry("mod-b", "h2", file("b.jar", b"bbb"));
    let outcomes = vec![
        ("mod-a".to_string(), Ok(entry_a.get_existing().unwrap())),
        ("mod-b".to_string(), Ok(entry_b.get_existing().unwrap())),
    ];
    let prepared = collect_prepared("serverdir".to_string(), &outcomes);
    assert_eq!(prepared.root, "serverdir".to_string());
    let contents = prepared.apply_plan();
    assert_eq!(contents.len(), 2);
    assert_eq!(contents[0].name, "a.jar".to_string());
    assert_eq!(contents[1].name, "b.jar".to_string());
}

#[test]
fn cache_store_keeps_one_slot_per_key() {
    let mut store = CacheStore::new();
    let entry = store.take_entry(&"mod-a".to_string());
    let updater = match entry.try_update(Token::Sha512("h1".to_string())) {
        UpdateResult::Mismatch(u) => u,
        UpdateResult::Match(..) => panic!("fresh slots mismatch"),
    };
    let (entry, _) = updater.update(file("a.jar", b"aaa"));
    store.put_entry(entry);

    let entry = store.take_entry(&"mod-a".to_string());
    match entry.try_update(Token::Sha512("h1".to_string())) {
        UpdateResult::Match(entry, reference) => {
            assert_eq!(reference.file().bytes, b"aaa".to_vec());
            store.put_entry(entry);
        }
        UpdateResult::Mismatch(_) => panic!("the committed slot was stored"),
    }
    let entries = store.into_entries();
    assert_eq!(entries.len(), 1);
    assert_eq!(*entries[0].key(), "mod-a".to_string());
}

#[test]
fn prepared_destination_is_plain_data() {
    let prepared = PreparedDestination { root: "dir".to_string(), cache_files: Vec::new() };
    assert!(prepared.apply_plan().is_empty());
    assert!(changed_keys(&vec![prepared]).is_empty());
}

#[test]
fn invalid_archive_is_a_zip_error() {
    let transform = Transform {
        ops: vec![TransformOp::ExtractArchiveEntry { entry_name: "inner.jar".to_string() }],
    };
    match transform.apply(&file("mod.zip", b"this is no archive")) {
        Err(Error::Zip(_)) => {}
        _ => panic!("an unreadable archive must fail with the zip error"),
    }
}

#[test]
fn restored_entry_reports_its_state() {
    let entry = Entry::restore(
        "mod-a".to_string(),
        Token::Sha512("h1".to_string()),
        file("a.jar", b"aaa"),
    );
    assert!(matches!(entry.recorded_token(), Some(Token::Sha512(h)) if h == "h1"));
    assert!(matches!(entry.stored_file(), Some(f) if f.name == "a.jar"));
    let reference = entry.get_existing().expect("the restored slot holds an artifact");
    assert!(!reference.changed());
    assert_eq!(reference.file().bytes, b"aaa".to_vec());
}
