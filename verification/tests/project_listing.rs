use studio_project_manager::project_query::{projects_without_audio, ProjectFilters, QueryParam, StatisticsFilters};

fn no_filters() -> ProjectFilters {
    ProjectFilters {
        limit: None,
        offset: None,
        sort_by: None,
        sort_desc: None,
        min_tempo: false,
        max_tempo: false,
        key_signature_tonic: None,
        key_signature_scale: None,
        time_signature_numerator: None,
        time_signature_denominator: None,
        ableton_version_major: None,
        ableton_version_minor: None,
        ableton_version_patch: None,
        created_after: None,
        created_before: None,
        modified_after: None,
        modified_before: None,
        has_audio_file: None,
    }
}

#[test]
fn listing_without_filters() {
    let q = no_filters().build_query();
    assert_eq!(q.count_sql, "SELECT COUNT(*) FROM projects WHERE is_active = true");
    assert_eq!(q.select_sql, "SELECT * FROM projects WHERE is_active = true ORDER BY name ASC LIMIT ? OFFSET ?");
    assert!(q.params.is_empty());
    assert!(matches!(q.page_params.as_slice(), [QueryParam::Int(1000), QueryParam::Int(0)]));
}

#[test]
fn listing_with_filters() {
    let mut f = no_filters();
    f.min_tempo = true;
    f.key_signature_tonic = Some("C".to_string());
    f.ableton_version_major = Some(11);
    f.modified_before = Some(1_700_000_000);
    f.has_audio_file = Some(false);
    f.sort_by = Some("tempo".to_string());
    f.sort_desc = Some(true);
    f.limit = Some(20);
    f.offset = Some(40);
    let q = f.build_query();
    assert_eq!(
        q.count_sql,
        "SELECT COUNT(*) FROM projects WHERE is_active = true AND tempo >= ? AND key_signature_tonic = ? AND ableton_version_major = ? AND modified_at <= ? AND audio_file_id IS NULL"
    );
    assert!(q.select_sql.ends_with(" ORDER BY tempo DESC LIMIT ? OFFSET ?"));
    match q.params.as_slice() {
        [QueryParam::MinTempo, QueryParam::Text(t), QueryParam::Int(11), QueryParam::Time(1_700_000_000)] => assert_eq!(t, "C"),
        other => panic!("unexpected {:?}", other),
    }
    assert!(matches!(q.page_params.as_slice(), [QueryParam::Int(20), QueryParam::Int(40)]));
}

#[test]
fn unknown_sort_column_sorts_by_name() {
    let mut f = no_filters();
    f.sort_by = Some("rank; DROP TABLE projects".to_string());
    assert!(f.build_query().select_sql.contains("ORDER BY name ASC"));
}

#[test]
fn every_placeholder_has_a_parameter() {
    let mut f = no_filters();
    f.max_tempo = true;
    f.key_signature_scale = Some("Minor".to_string());
    f.time_signature_numerator = Some(3);
    f.time_signature_denominator = Some(4);
    f.ableton_version_patch = Some(2);
    f.created_after = Some(10);
    f.created_before = Some(20);
    f.modified_after = Some(30);
    f.has_audio_file = Some(true);
    let q = f.build_query();
    assert_eq!(q.count_sql.matches('?').count(), q.params.len());
    assert_eq!(q.select_sql.matches('?').count(), q.params.len() + q.page_params.len());
}

#[test]
fn statistics_statements() {
    let f = StatisticsFilters {
        min_tempo: true,
        max_tempo: false,
        key_signature_tonic: None,
        key_signature_scale: Some("Major".to_string()),
        time_signature_numerator: None,
        time_signature_denominator: None,
        ableton_version_major: Some(12),
        ableton_version_minor: None,
        ableton_version_patch: None,
        created_after: None,
        created_before: Some(99),
        has_audio_file: None,
    };
    let q = f.build_statistics_query();
    assert_eq!(
        q.where_sql,
        "WHERE is_active = true AND tempo >= ? AND key_signature_scale = ? AND ableton_version_major = ? AND created_at <= ?"
    );
    assert_eq!(q.count_sql, format!("SELECT COUNT(*) FROM projects {}", q.where_sql));
    assert_eq!(q.with_audio_sql, format!("SELECT COUNT(*) FROM projects {} AND audio_file_id IS NOT NULL", q.where_sql));
    match q.params.as_slice() {
        [QueryParam::MinTempo, QueryParam::Text(s), QueryParam::Int(12), QueryParam::Time(99)] => assert_eq!(s, "Major"),
        other => panic!("unexpected {:?}", other),
    }
    assert_eq!(q.count_sql.matches('?').count(), q.params.len());
    assert_eq!(q.with_audio_sql.matches('?').count(), q.params.len());
    assert_eq!(projects_without_audio(10, 4), 6);
    assert_eq!(projects_without_audio(0, 0), 0);
}
