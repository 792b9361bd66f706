use studio_project_manager::rescan::{
    change_summary, rescan_after_hash, rescan_finished, rescan_parse_failed, rescan_start, ProjectSummary,
    RescanStep,
};
use studio_project_manager::types::{AbletonVersion, KeySignature, Scale, TimeSignature, Tonic};

fn summary(name: &str) -> ProjectSummary {
    ProjectSummary {
        name: name.to_string(),
        time_signature: TimeSignature { numerator: 4, denominator: 4 },
        key_signature: None,
        ableton_version: AbletonVersion { major: 11, minor: 3, patch: 2, beta: false },
        plugin_count: 3,
        sample_count: 10,
    }
}

#[test]
fn missing_file_ends_the_rescan() {
    match rescan_start(false, true) {
        RescanStep::Finished(r) => {
            assert!(!r.success && !r.was_updated);
            assert_eq!(r.scan_summary, "Project file no longer exists");
            assert_eq!(r.error_message.as_deref(), Some("Project file not found"));
        }
        other => panic!("unexpected {:?}", other),
    }
    assert!(matches!(rescan_start(true, true), RescanStep::ParseFile));
    assert!(matches!(rescan_start(true, false), RescanStep::ComputeHash));
}

#[test]
fn hash_decides_whether_to_parse() {
    match rescan_after_hash("abc", Ok("abc")) {
        RescanStep::Finished(r) => {
            assert!(r.success && !r.was_updated);
            assert_eq!(r.scan_summary, "Project file unchanged, no update needed");
            assert_eq!(r.error_message, None);
        }
        other => panic!("unexpected {:?}", other),
    }
    assert!(matches!(rescan_after_hash("abc", Ok("abd")), RescanStep::ParseFile));
    match rescan_after_hash("abc", Err("denied")) {
        RescanStep::Finished(r) => {
            assert!(!r.success);
            assert_eq!(r.scan_summary, "Failed to calculate file hash");
            assert_eq!(r.error_message.as_deref(), Some("Hash calculation error: denied"));
        }
        other => panic!("unexpected {:?}", other),
    }
    let r = rescan_parse_failed("bad gzip");
    assert_eq!(r.error_message.as_deref(), Some("Parse error: bad gzip"));
}

#[test]
fn changes_between_versions() {
    let old = summary("Song");
    let mut new = summary("Song v2");
    new.time_signature = TimeSignature { numerator: 3, denominator: 4 };
    new.key_signature = Some(KeySignature { tonic: Tonic::CSharp, scale: Scale::Minor });
    new.ableton_version = AbletonVersion { major: 12, minor: 0, patch: 1, beta: false };
    new.plugin_count = 5;
    let changes = change_summary(&old, &new, Some("Tempo: 120 -> 128".to_string()));
    assert_eq!(
        changes,
        vec![
            "Name: 'Song' -> 'Song v2'".to_string(),
            "Tempo: 120 -> 128".to_string(),
            "Time signature: 4/4 -> 3/4".to_string(),
            "Key signature: None -> CSharp Minor".to_string(),
            "Ableton version: 11.3.2 -> 12.0.1".to_string(),
            "Plugins: 3 -> 5".to_string(),
        ]
    );
    let r = rescan_finished(&changes);
    assert!(r.success && r.was_updated);
    assert!(r.scan_summary.starts_with("Project updated: Name: 'Song' -> 'Song v2', Tempo: 120 -> 128"));
}

#[test]
fn no_change_no_update() {
    let p = summary("Same");
    let changes = change_summary(&p, &summary("Same"), None);
    assert!(changes.is_empty());
    let r = rescan_finished(&changes);
    assert!(r.success && !r.was_updated);
    assert_eq!(r.scan_summary, "Project rescan completed, no changes detected");
}
