use momento_core::metadata::{
    apply_exif_fields, apply_probe_data, empty_exif_fields, exif_fields_from_output,
    finish_image_metadata, finish_video_metadata, format_exposure, geocode_fields_from_response,
    image_mime_from_extension, merge_geocode, parse_exif_datetime, parse_iso6709_location,
    parse_probe_datetime, should_reverse_geocode, video_mime_from_extension,
};
use momento_core::paths::{storage_file_name, storage_partition, storage_relative_path};
use momento_core::password::{hash_password, verify_and_migrate, verify_password};
use momento_core::store::{
    extension_lower, merge_missing_fields, MediaKind, MediaStore, NewMediaData,
};
use momento_core::jobs::import::{
    cancel_import, clear_import_cancel_request, finalize_import_cancelled,
    is_import_cancel_requested, start_import_job, ImportJob, ImportStatus,
};
use momento_core::cluster::{get_clusters, BoundingBox, MapClustersRequest};
use momento_core::surface::import_status_response;
use momento_core::tags::TagStore;
use momento_core::watch::{
    claim_for_processing, collect_stable_webdav_files, failed_relative_path,
    failed_sidecar_contents, failed_sidecar_name, is_stable_candidate,
    processing_relative_path, resolve_processing, thumbnail_relative_path, webdav_dir_action,
    DirAction, WatchCandidate, WatchFileState,
};

fn bundle(date: Option<&str>, lat: Option<i64>, lon: Option<i64>) -> NewMediaData {
    NewMediaData {
        filename: "a.jpg".to_string(),
        original_filename: "a.jpg".to_string(),
        file_path: "2024-01/a.jpg".to_string(),
        thumbnail_path: None,
        media_type: MediaKind::Image,
        mime_type: None,
        width: None,
        height: None,
        file_size: None,
        duration_ms: None,
        date_taken: date.map(|d| d.to_string()),
        gps_latitude_e6: lat,
        gps_longitude_e6: lon,
        gps_altitude_e6: None,
        camera_make: None,
        camera_model: None,
        lens_make: None,
        lens_model: None,
        iso: None,
        exposure_time: None,
        f_number_e6: None,
        focal_length_e6: None,
        focal_length_35mm_e6: None,
        location_city: None,
        location_state: None,
        location_country: None,
        video_codec: None,
        keywords: None,
        created_at: "2024-01-15T10:30:00".to_string(),
    }
}

#[test]
fn test_parse_exif_datetime_formats() {
    assert_eq!(
        parse_exif_datetime("2024:01:15 10:30:05").as_deref(),
        Some("2024-01-15T10:30:05")
    );
    assert_eq!(
        parse_exif_datetime("  2024-01-15 10:30:05 ").as_deref(),
        Some("2024-01-15T10:30:05")
    );
    assert_eq!(parse_exif_datetime("2024:13:15 10:30:05"), None);
    assert_eq!(parse_exif_datetime("2024:02:31 10:30:05"), None);
    assert_eq!(
        parse_exif_datetime("2024:02:29 10:30:05").as_deref(),
        Some("2024-02-29T10:30:05")
    );
    assert_eq!(parse_exif_datetime("2023:02:29 10:30:05"), None);
    assert_eq!(parse_exif_datetime("2024:01:15"), None);
    assert_eq!(parse_exif_datetime("garbage"), None);
}

#[test]
fn test_format_exposure_reciprocal() {
    assert_eq!(format_exposure("0.005".to_string()).as_deref(), Some("1/200"));
    assert_eq!(format_exposure("0.004".to_string()).as_deref(), Some("1/250"));
    assert_eq!(format_exposure("2".to_string()).as_deref(), Some("2"));
    assert_eq!(format_exposure("not a number".to_string()), None);
}

#[test]
fn test_parse_iso6709_location_pairs() {
    assert_eq!(
        parse_iso6709_location("+40.7128-074.0060+011.000/"),
        Some((40_712_800, -74_006_000))
    );
    assert_eq!(
        parse_iso6709_location("-33.8688+151.2093/"),
        Some((-33_868_800, 151_209_300))
    );
    assert_eq!(parse_iso6709_location("nonsense"), None);
}

#[test]
fn test_parse_probe_datetime_prefix() {
    assert_eq!(
        parse_probe_datetime("2024-01-15T10:30:05.000000Z").as_deref(),
        Some("2024-01-15T10:30:05")
    );
    assert_eq!(
        parse_probe_datetime("2024-01-15 10:30:05").as_deref(),
        Some("2024-01-15T10:30:05")
    );
    assert_eq!(
        parse_probe_datetime("2024-01-15T10:30:05+00:00").as_deref(),
        Some("2024-01-15T10:30:05")
    );
    // A non-zero offset would need calendar conversion to stay truthful, so
    // it is rejected and the caller falls back to the modification time.
    assert_eq!(parse_probe_datetime("2024-01-15T10:30:05+05:30"), None);
    assert_eq!(parse_probe_datetime("2024-02-31T10:30:05Z"), None);
    assert_eq!(parse_probe_datetime("15/01/2024"), None);
}

#[test]
fn test_mime_tables() {
    assert_eq!(image_mime_from_extension("png"), "image/png");
    assert_eq!(image_mime_from_extension("xyz"), "application/octet-stream");
    assert_eq!(video_mime_from_extension("mov"), "video/quicktime");
    assert_eq!(video_mime_from_extension("xyz"), "video/mp4");
    assert_eq!(extension_lower("IMG_001.JPG").as_deref(), Some("jpg"));
    assert_eq!(extension_lower("noext"), None);
}

#[test]
fn test_exif_fields_from_tool_output() {
    let json = "[{\"ImageWidth\": 4032, \"ImageHeight\": 3024, \
        \"DateTimeOriginal\": \"2024:01:15 10:30:05\", \
        \"GPSLatitude\": 40.7128, \"GPSLongitude\": -74.006, \
        \"Make\": \"Acme\", \"HostComputer\": \"Phone 9\", \
        \"ISO\": 100, \"ExposureTime\": 0.005, \
        \"Keywords\": [\"beach\", \"sunset\"], \"MIMEType\": \"image/jpeg\"}]";
    let f = exif_fields_from_output(json);
    assert_eq!(f.width, Some(4032));
    assert_eq!(f.height, Some(3024));
    assert_eq!(f.date_taken.as_deref(), Some("2024-01-15T10:30:05"));
    assert_eq!(f.gps_latitude_e6, Some(40_712_800));
    assert_eq!(f.gps_longitude_e6, Some(-74_006_000));
    assert_eq!(f.camera_make.as_deref(), Some("Acme"));
    assert_eq!(f.camera_model.as_deref(), Some("Phone 9"));
    assert_eq!(f.iso, Some(100));
    assert_eq!(f.exposure_time.as_deref(), Some("1/200"));
    assert_eq!(f.keywords.as_deref(), Some("beach,sunset"));
    assert_eq!(f.mime_type.as_deref(), Some("image/jpeg"));
    let none = exif_fields_from_output("not json");
    assert_eq!(none.width, None);
    // A fractional dimension truncates, as the original's integer cast did.
    let frac = exif_fields_from_output("[{\"ImageWidth\": 1234.9}]");
    assert_eq!(frac.width, Some(1234));
    assert_eq!(exif_fields_from_output("[]").height, None);
}

#[test]
fn test_apply_and_finish_image_metadata() {
    let mut f = empty_exif_fields();
    f.width = Some(800);
    let m = apply_exif_fields(bundle(None, None, None), f);
    assert_eq!(m.width, Some(800));
    let out = finish_image_metadata(m, Some("2024-02-02T00:00:00".to_string()),
        "2024-03-03T00:00:00".to_string(), "jpg");
    assert_eq!(out.date_taken.as_deref(), Some("2024-02-02T00:00:00"));
    assert_eq!(out.mime_type.as_deref(), Some("image/jpeg"));
    let out2 = finish_image_metadata(bundle(None, None, None), None,
        "2024-03-03T00:00:00".to_string(), "png");
    assert_eq!(out2.date_taken.as_deref(), Some("2024-03-03T00:00:00"));
    assert_eq!(out2.mime_type.as_deref(), Some("image/png"));
}

#[test]
fn test_probe_and_finish_video_metadata() {
    let json = "{\"streams\": [{\"codec_type\": \"audio\", \"codec_name\": \"aac\"}, \
        {\"codec_type\": \"video\", \"codec_name\": \"h264\", \"width\": 1920, \
        \"height\": 1080}], \
        \"format\": {\"duration\": \"12.345\", \"tags\": {\
        \"creation_time\": \"2024-01-15T10:30:05.000000Z\", \
        \"location\": \"+40.7128-074.0060/\"}}}";
    let m = apply_probe_data(bundle(None, None, None), json);
    assert_eq!(m.width, Some(1920));
    assert_eq!(m.height, Some(1080));
    assert_eq!(m.video_codec.as_deref(), Some("h264"));
    assert_eq!(m.duration_ms, Some(12_345));
    assert_eq!(m.date_taken.as_deref(), Some("2024-01-15T10:30:05"));
    assert_eq!(m.gps_latitude_e6, Some(40_712_800));
    let out = finish_video_metadata(m, None, "2024-03-03T00:00:00".to_string(), "mov");
    assert_eq!(out.mime_type.as_deref(), Some("video/quicktime"));
    assert_eq!(out.duration_ms, Some(12_345));
    let empty = finish_video_metadata(bundle(None, None, None), None,
        "2024-03-03T00:00:00".to_string(), "mkv");
    assert_eq!(empty.duration_ms, Some(0));
    assert_eq!(empty.date_taken.as_deref(), Some("2024-03-03T00:00:00"));
}

#[test]
fn test_geocode_merge_over_none_only() {
    let mut m = bundle(None, None, None);
    m.location_city = Some("Kept".to_string());
    let out = merge_geocode(m, Some("New City".to_string()), Some("New State".to_string()),
        None);
    assert_eq!(out.location_city.as_deref(), Some("Kept"));
    assert_eq!(out.location_state.as_deref(), Some("New State"));
    assert_eq!(out.location_country, None);
}

#[test]
fn test_geocode_gate_and_response_parsing() {
    let mut m = bundle(None, Some(1), Some(2));
    assert!(should_reverse_geocode(true, &m));
    m.location_state = Some("S".to_string());
    m.location_country = Some("C".to_string());
    assert!(!should_reverse_geocode(true, &m));
    let (city, state, country) = geocode_fields_from_response(
        "{\"address\": {\"town\": \"Springfield\", \"region\": \"West\", \
         \"country\": \"Freedonia\"}}");
    assert_eq!(city.as_deref(), Some("Springfield"));
    assert_eq!(state.as_deref(), Some("West"));
    assert_eq!(country.as_deref(), Some("Freedonia"));
    assert_eq!(geocode_fields_from_response("{}"), (None, None, None));
}

#[test]
fn test_merge_missing_fields_policy() {
    let mut store = MediaStore::new();
    let mut data = bundle(Some("2024-01-15T10:30:00"), Some(1_000_000), Some(2_000_000));
    data.width = Some(100);
    let id = store.ingest_media(7, "digest_m", data);
    let rec = &store.records[0];
    assert_eq!(rec.id, id);
    let mut fresh = bundle(Some("2030-01-01T00:00:00"), Some(3_000_000), Some(4_000_000));
    fresh.width = Some(999);
    fresh.height = Some(50);
    let merged = merge_missing_fields(rec, &fresh);
    // Existing values win, missing ones are filled, GPS prefers the fresh fix.
    assert_eq!(merged.width, Some(100));
    assert_eq!(merged.height, Some(50));
    assert_eq!(merged.date_taken.as_deref(), Some("2024-01-15T10:30:00"));
    assert_eq!(merged.gps_latitude_e6, Some(3_000_000));
    assert_eq!(merged.gps_longitude_e6, Some(4_000_000));
}

#[test]
fn test_update_record_metadata_resyncs_index() {
    let mut store = MediaStore::new();
    let id = store.ingest_media(7, "digest_u",
        bundle(Some("2024-01-15T10:30:00"), Some(40_712_800), Some(-74_006_000)));
    assert_eq!(store.rtree.query(40_000_000, 41_000_000, -75_000_000, -73_000_000).len(), 1);
    // Regeneration moves the point: the index follows.
    let moved = bundle(Some("2024-01-15T10:30:00"), Some(51_507_400), Some(-127_800));
    assert!(store.update_record_metadata(id, moved));
    assert_eq!(store.rtree.query(40_000_000, 41_000_000, -75_000_000, -73_000_000).len(), 0);
    assert_eq!(store.rtree.query(51_000_000, 52_000_000, -1_000_000, 1_000_000).len(), 1);
    assert!(store.records[0].geohash.as_deref().unwrap().starts_with("gcpv"));
    // Losing the GPS drops the entry.
    assert!(store.update_record_metadata(id, bundle(None, None, None)));
    assert_eq!(store.rtree.len(), 0);
    assert!(store.records[0].geohash.is_none());
    // A missing id changes nothing.
    assert!(!store.update_record_metadata(id + 50, bundle(None, None, None)));
}

#[test]
fn test_webdav_dir_action_rules() {
    assert_eq!(webdav_dir_action("alice", true, Some(1)), DirAction::Queue);
    assert_eq!(webdav_dir_action("alice", false, Some(1)), DirAction::Skip);
    assert_eq!(webdav_dir_action(".hidden", true, Some(1)), DirAction::Skip);
    assert_eq!(webdav_dir_action("ghost", true, None), DirAction::Skip);
}

#[test]
fn test_stable_file_selection() {
    assert!(is_stable_candidate("photo.jpg", 120, 60));
    assert!(!is_stable_candidate("photo.jpg", 30, 60));
    assert!(!is_stable_candidate(".photo.jpg", 120, 60));
    assert!(!is_stable_candidate("notes.txt", 120, 60));
    let files = vec![
        WatchCandidate { name: "a.jpg".to_string(), age_seconds: 120 },
        WatchCandidate { name: "b.jpg".to_string(), age_seconds: 10 },
        WatchCandidate { name: ".c.jpg".to_string(), age_seconds: 120 },
        WatchCandidate { name: "d.mp4".to_string(), age_seconds: 60 },
    ];
    assert_eq!(collect_stable_webdav_files(&files, 60), vec![0, 3]);
}

#[test]
fn test_watch_file_state_machine() {
    let s = claim_for_processing(WatchFileState::Incoming);
    assert_eq!(s, WatchFileState::Processing);
    assert_eq!(claim_for_processing(WatchFileState::Failed), WatchFileState::Failed);
    assert_eq!(resolve_processing(s, true), WatchFileState::Done);
    assert_eq!(resolve_processing(s, false), WatchFileState::Failed);
    assert_eq!(resolve_processing(WatchFileState::Incoming, true), WatchFileState::Incoming);
}

#[test]
fn test_watch_path_derivations() {
    assert_eq!(processing_relative_path("a.jpg"), ".processing/a.jpg");
    assert_eq!(failed_relative_path("a.jpg"), ".failed/a.jpg");
    assert_eq!(failed_sidecar_name("a.jpg"), "a.jpg.error.txt");
    assert_eq!(
        failed_sidecar_contents("2024-01-15T10:30:00", "incoming/a.jpg"),
        "Import failed at: 2024-01-15T10:30:00\nOriginal path: incoming/a.jpg"
    );
    assert_eq!(thumbnail_relative_path("2024-01", "IMG_1"), "2024-01/IMG_1.jpg");
}

#[test]
fn test_storage_name_derivations() {
    assert_eq!(storage_partition("2024-01-15T10:30:05"), "2024-01");
    let name = storage_file_name("2024-01-15T10:30:05", "jpg");
    assert_eq!(name.len(), 32);
    assert!(name.starts_with("20240115_103005_"));
    assert!(name.ends_with(".jpg"));
    let other = storage_file_name("2024-01-15T10:30:05", "jpg");
    assert_ne!(name, other);
    assert_eq!(storage_relative_path("2024-01", "x.jpg"), "2024-01/x.jpg");
}

#[test]
fn test_password_verify_and_migrate() {
    let h = hash_password("open sesame").expect("hashing should succeed");
    assert!(h.starts_with("$argon2"));
    assert!(verify_password("open sesame", &h));
    assert!(!verify_password("wrong", &h));
    assert!(!verify_password("anything", "not a hash"));
    let legacy = bcrypt::hash("open sesame", 4).expect("bcrypt hash");
    assert!(verify_password("open sesame", &legacy));
    let (ok, migrated) = verify_and_migrate("open sesame", &legacy);
    assert!(ok);
    let new_hash = migrated.expect("migration should produce a hash");
    assert!(new_hash.starts_with("$argon2"));
    assert!(verify_password("open sesame", &new_hash));
    let (ok2, migrated2) = verify_and_migrate("wrong", &legacy);
    assert!(!ok2);
    assert!(migrated2.is_none());
    let (ok3, migrated3) = verify_and_migrate("open sesame", &h);
    assert!(ok3);
    assert!(migrated3.is_none());
}

#[test]
fn test_import_cancel_flow() {
    let mut job = ImportJob::default();
    assert!(!cancel_import(&mut job));
    start_import_job(&mut job, "2024-01-01T00:00:00");
    assert!(cancel_import(&mut job));
    assert!(is_import_cancel_requested(&job));
    finalize_import_cancelled(&mut job, "2024-01-01T00:05:00");
    assert_eq!(job.status, ImportStatus::Cancelled);
    clear_import_cancel_request(&mut job);
    assert!(!is_import_cancel_requested(&job));
}

#[test]
fn test_cluster_representative_tie_breaks_by_id() {
    let mut store = MediaStore::new();
    let _first = store.ingest_media(7, "digest_t1",
        bundle(Some("2024-06-15T10:00:00"), Some(40_712_800), Some(-74_006_000)));
    let second = store.ingest_media(7, "digest_t2",
        bundle(Some("2024-06-15T10:00:00"), Some(40_712_900), Some(-74_006_100)));
    let req = MapClustersRequest {
        bounds: BoundingBox {
            north_e6: 50_000_000, south_e6: 30_000_000,
            east_e6: -60_000_000, west_e6: -80_000_000,
        },
        zoom: 5,
    };
    let resp = get_clusters(&store, 7, &req);
    assert_eq!(resp.clusters.len(), 1);
    assert_eq!(resp.clusters[0].count, 2);
    assert_eq!(resp.clusters[0].representative_id, second);
}

#[test]
fn test_merge_keyword_tags_tables() {
    let mut tags = TagStore::new();
    assert_eq!(tags.merge_keyword_tags(1, None), 0);
    assert_eq!(tags.merge_keyword_tags(1, Some("beach, sunset , ,family")), 3);
    assert_eq!(tags.tags.len(), 3);
    assert_eq!(tags.links.len(), 3);
    // Repeats create nothing new but still count the keywords merged.
    assert_eq!(tags.merge_keyword_tags(1, Some("beach,sunset")), 2);
    assert_eq!(tags.tags.len(), 3);
    assert_eq!(tags.links.len(), 3);
    // A second record shares tags through new links.
    assert_eq!(tags.merge_keyword_tags(2, Some("beach")), 1);
    assert_eq!(tags.tags.len(), 3);
    assert_eq!(tags.links.len(), 4);
}

#[test]
fn test_import_status_snapshot() {
    let mut job = ImportJob::default();
    start_import_job(&mut job, "2024-01-01T00:00:00");
    let snap = import_status_response(&job);
    assert_eq!(snap.status, "running");
    assert_eq!(snap.started_at.as_deref(), Some("2024-01-01T00:00:00"));
    assert_eq!(snap.completed_at, None);
}
