use std::io::Write;
use studio_project_manager::errors::FileError;
use studio_project_manager::files::{decompress_gzip_data, file_hash, most_recent_db_file, DbFileCandidate};
use studio_project_manager::output::{OutputFormat, OutputFormatter};
use studio_project_manager::stats::MediaFileStats;
use studio_project_manager::types::{Id, KeySignature, Scale, Tonic};

#[test]
fn crc32_hash_text() {
    assert_eq!(file_hash(b"123456789"), "cbf43926");
    assert_eq!(file_hash(b""), "00000000");
}

#[test]
fn gzip_round_trip() {
    let mut enc = flate2::write::GzEncoder::new(Vec::new(), flate2::Compression::default());
    enc.write_all(b"<Ableton />").unwrap();
    let gz = enc.finish().unwrap();
    assert_eq!(decompress_gzip_data(&gz, "set.als").unwrap(), b"<Ableton />".to_vec());
    match decompress_gzip_data(b"not gzip", "set.als") {
        Err(FileError::GzipDecompressionError(p)) => assert_eq!(p, "set.als"),
        other => panic!("unexpected {:?}", other),
    }
}

fn candidate(path: &str, ext: Option<&str>, modified: Option<i128>) -> DbFileCandidate {
    DbFileCandidate { path: path.to_string(), extension: ext.map(|e| e.to_string()), modified }
}

#[test]
fn newest_database_file() {
    let cs = vec![
        candidate("a.db", Some("db"), Some(10)),
        candidate("b.txt", Some("txt"), Some(99)),
        candidate("c.db", Some("db"), Some(30)),
        candidate("d.db", Some("db"), None),
        candidate("e.db", Some("db"), Some(30)),
        candidate("f", None, Some(50)),
    ];
    assert_eq!(most_recent_db_file(&cs), Some(4));
    assert_eq!(most_recent_db_file(&vec![candidate("x.txt", Some("txt"), Some(1))]), None);
}

#[test]
fn media_totals() {
    let s = MediaFileStats {
        cover_art_count: 2,
        cover_art_total_size_bytes: 1000,
        audio_file_count: 3,
        audio_file_total_size_bytes: 5000,
    };
    assert_eq!(s.total_files(), 5);
    assert_eq!(s.total_size_bytes(), 6000);
}

#[test]
fn simple_types() {
    assert_eq!(Id::default(), Id(0));
    let k = KeySignature::default();
    assert_eq!(k.tonic, Tonic::Empty);
    assert_eq!(k.scale, Scale::Empty);
    let f = OutputFormatter::new(OutputFormat::Json, true);
    assert_eq!(f.format, OutputFormat::Json);
    assert!(f.no_color);
}
