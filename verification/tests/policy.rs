use server_wrapper::cache::Token;
use server_wrapper::config::default_min_restart_interval;
use server_wrapper::config::default_restart;
use server_wrapper::config::Config;
use server_wrapper::config::Status;
use server_wrapper::config::Tokens;
use server_wrapper::config::Trigger;
use server_wrapper::destination::Destination;
use server_wrapper::destination::Destinations;
use server_wrapper::destination::SourceSet;
use server_wrapper::destination::SourceSpec;
use server_wrapper::github::parse_reference;
use server_wrapper::modrinth::find_primary;
use server_wrapper::modrinth::resolve_version;
use server_wrapper::modrinth::versions_url;
use server_wrapper::modrinth::FileHashes;
use server_wrapper::modrinth::ProjectFile;
use server_wrapper::modrinth::ProjectVersion;
use server_wrapper::supervisor::restart_decision;
use server_wrapper::supervisor::restart_delay;
use server_wrapper::supervisor::RestartDecision;
use server_wrapper::supervisor::DEFAULT_MIN_RESTART_INTERVAL_SECONDS;
use server_wrapper::transform::Transform;
use server_wrapper::Context;
use server_wrapper::Error;

#[test]
fn backoff_sleeps_for_the_remainder() {
    assert_eq!(restart_delay(1, 240), Some(239));
    match restart_decision(true, 1, 240) {
        RestartDecision::WaitThenRestart(delay) => assert_eq!(delay, 239),
        _ => panic!("a one-second run must wait"),
    }
}

#[test]
fn long_run_restarts_immediately() {
    assert_eq!(restart_delay(300, 240), None);
    assert!(matches!(restart_decision(true, 300, 240), RestartDecision::RestartNow));
}

#[test]
fn exact_interval_restarts_immediately() {
    assert_eq!(restart_delay(240, 240), None);
}

#[test]
fn disabled_restart_stops() {
    assert!(matches!(restart_decision(false, 1, 240), RestartDecision::Stop));
}

#[test]
fn default_interval_is_four_minutes() {
    assert_eq!(DEFAULT_MIN_RESTART_INTERVAL_SECONDS, 240);
    assert_eq!(default_min_restart_interval(), 240);
    assert!(default_restart());
}

#[test]
fn default_config_values() {
    let config = Config::default();
    assert_eq!(config.run, Some(vec!["java -jar fabric-server-launch.jar".to_string()]));
    assert!(config.status.webhook.is_none());
    assert!(config.tokens.github.is_none());
    assert_eq!(config.triggers.len(), 1);
    assert_eq!(config.triggers[0].0, "startup".to_string());
    assert!(matches!(config.triggers[0].1, Trigger::Startup));
    assert_eq!(config.min_restart_interval_seconds, 240);
    assert!(config.restart);
}

#[test]
fn context_clone_keeps_values() {
    let ctx = Context {
        github: Some("gh-token".to_string()),
        status: None,
    };
    let copy = ctx.clone();
    assert_eq!(copy.github, ctx.github);
    assert_eq!(copy.status, ctx.status);
}

#[test]
fn config_types_compose() {
    let destinations = Destinations {
        destinations: vec![(
            "server".to_string(),
            Destination {
                path: "serverdir".to_string(),
                sources: vec![(
                    "mods".to_string(),
                    SourceSet {
                        transform: Transform::empty(),
                        sources: vec![(
                            "mod-a".to_string(),
                            SourceSpec::Modrinth {
                                project_id: "abcd1234".to_string(),
                                game_version: Some("1.19.2".to_string()),
                                loader: Some("fabric".to_string()),
                            },
                        )],
                    },
                )],
            },
        )],
    };
    assert_eq!(destinations.destinations.len(), 1);
    let config = Config {
        run: None,
        status: Status { webhook: Some("https://example.invalid/hook".to_string()) },
        tokens: Tokens { github: None },
        triggers: Vec::new(),
        min_restart_interval_seconds: 60,
        restart: false,
    };
    assert_eq!(config.min_restart_interval_seconds, 60);
}

#[test]
fn github_reference_parses() {
    let (owner, repo) = parse_reference("owner/repo").expect("well-formed reference");
    assert_eq!(owner, "owner".to_string());
    assert_eq!(repo, "repo".to_string());
}

#[test]
fn github_reference_rejects_bad_shapes() {
    for bad in ["ownerrepo", "a/b/c", "/repo", "owner/", "/"] {
        match parse_reference(bad) {
            Err(Error::MalformedGitHubReference(s)) => assert_eq!(s, bad.to_string()),
            _ => panic!("'{}' is no owner/repo reference", bad),
        }
    }
}

fn pfile(primary: bool, sha512: Option<&str>, url: &str, name: &str) -> ProjectFile {
    ProjectFile {
        url: url.to_string(),
        filename: name.to_string(),
        primary,
        hashes: FileHashes { sha512: sha512.map(|s| s.to_string()) },
    }
}

#[test]
fn primary_file_is_first_flagged() {
    let files = vec![
        pfile(false, Some("x"), "u1", "f1"),
        pfile(true, Some("y"), "u2", "f2"),
        pfile(true, Some("z"), "u3", "f3"),
    ];
    let f = find_primary(&files).expect("a primary file exists");
    assert_eq!(f.filename, "f2".to_string());
}

#[test]
fn newest_version_without_hash_is_skipped_with_warning() {
    // Publish timestamps t1 < t2 < t3; only t3's primary file lacks a hash.
    let versions = vec![
        ProjectVersion { date_published: 100, files: vec![pfile(true, Some("hash1"), "u1", "f1")] },
        ProjectVersion { date_published: 200, files: vec![pfile(true, Some("hash2"), "u2", "f2")] },
        ProjectVersion { date_published: 300, files: vec![pfile(true, None, "u3", "f3")] },
    ];
    let (candidate, warnings) = resolve_version(&versions);
    let candidate = candidate.expect("an older version still has a hash");
    match candidate.token {
        Token::Sha512(h) => assert_eq!(h, "hash2".to_string()),
        _ => panic!("modrinth reports sha512 fingerprints"),
    }
    assert_eq!(candidate.url, "u2".to_string());
    assert_eq!(candidate.name, "f2".to_string());
    assert_eq!(warnings, vec![2]);
}

#[test]
fn no_usable_version_is_no_candidate() {
    let versions = vec![
        ProjectVersion { date_published: 100, files: vec![pfile(true, None, "u1", "f1")] },
        ProjectVersion { date_published: 200, files: vec![pfile(false, Some("x"), "u2", "f2")] },
    ];
    let (candidate, warnings) = resolve_version(&versions);
    assert!(candidate.is_none());
    assert_eq!(warnings, vec![0]);
}

#[test]
fn versions_without_primary_file_are_silently_skipped() {
    let versions = vec![
        ProjectVersion { date_published: 100, files: vec![pfile(true, Some("hash1"), "u1", "f1")] },
        ProjectVersion { date_published: 200, files: vec![pfile(false, Some("x"), "u2", "f2")] },
    ];
    let (candidate, warnings) = resolve_version(&versions);
    let candidate = candidate.expect("the older version is usable");
    assert_eq!(candidate.url, "u1".to_string());
    assert!(warnings.is_empty());
}

#[test]
fn empty_version_list_is_no_candidate() {
    let (candidate, warnings) = resolve_version(&Vec::new());
    assert!(candidate.is_none());
    assert!(warnings.is_empty());
}

#[test]
fn versions_url_carries_the_constraints() {
    assert_eq!(
        versions_url("abcd1234", &None, &None),
        "https://api.modrinth.com/v2/project/abcd1234/version".to_string()
    );
    assert_eq!(
        versions_url("abcd1234", &Some("1.19.2".to_string()), &None),
        "https://api.modrinth.com/v2/project/abcd1234/version?game_versions=[\"1.19.2\"]"
            .to_string()
    );
    assert_eq!(
        versions_url("abcd1234", &Some("1.19.2".to_string()), &Some("fabric".to_string())),
        "https://api.modrinth.com/v2/project/abcd1234/version?game_versions=[\"1.19.2\"]&loaders=[\"fabric\"]"
            .to_string()
    );
    assert_eq!(
        versions_url("abcd1234", &None, &Some("fabric".to_string())),
        "https://api.modrinth.com/v2/project/abcd1234/version?loaders=[\"fabric\"]".to_string()
    );
}
