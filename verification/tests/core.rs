use momento_core::geo::{calculate_geohash, zoom_to_geohash_precision};
use momento_core::hashing::{hash_bytes, hex_encode, ContentHasher};
use momento_core::jobs::import::{
    finalize_job_success, is_import_running, push_job_error, start_import_job,
    update_job_progress, update_job_totals, ImportJob, ImportStatus,
};
use momento_core::jobs::regen::{
    cancel_regeneration, clear_cancel_request, is_cancel_requested, is_regeneration_running,
    start_job, RegenerationJob, RegenerationStatus,
};
use momento_core::cluster::{get_clusters, BoundingBox, MapClustersRequest};
use momento_core::spatial::SpatialIndex;
use momento_core::store::{get_media_type, MediaKind, MediaStore, NewMediaData};
use momento_core::text::{parse_scaled, split_trim_nonempty, str_lex_lt, str_starts_with, trim};
use momento_core::scheduler::DispatchState;

fn e6(v: f64) -> i64 {
    (v * 1_000_000.0).round() as i64
}

fn media_data(filename: &str, lat: Option<f64>, lon: Option<f64>, date: &str) -> NewMediaData {
    NewMediaData {
        filename: filename.to_string(),
        original_filename: filename.to_string(),
        file_path: format!("2024-01/{}", filename),
        thumbnail_path: None,
        media_type: MediaKind::Image,
        mime_type: Some("image/jpeg".to_string()),
        width: Some(1920),
        height: Some(1080),
        file_size: Some(1024000),
        duration_ms: None,
        date_taken: Some(date.to_string()),
        gps_latitude_e6: lat.map(e6),
        gps_longitude_e6: lon.map(e6),
        gps_altitude_e6: None,
        camera_make: None,
        camera_model: None,
        lens_make: None,
        lens_model: None,
        iso: None,
        exposure_time: None,
        f_number_e6: None,
        focal_length_e6: None,
        focal_length_35mm_e6: None,
        location_city: None,
        location_state: None,
        location_country: None,
        video_codec: None,
        keywords: None,
        created_at: "2024-01-15T10:30:00".to_string(),
    }
}

fn request(bounds: (f64, f64, f64, f64), zoom: u8) -> MapClustersRequest {
    MapClustersRequest {
        bounds: BoundingBox {
            north_e6: e6(bounds.0),
            south_e6: e6(bounds.1),
            east_e6: e6(bounds.2),
            west_e6: e6(bounds.3),
        },
        zoom,
    }
}

#[test]
fn test_zoom_to_geohash_precision() {
    assert_eq!(zoom_to_geohash_precision(0), 1);
    assert_eq!(zoom_to_geohash_precision(3), 1);
    assert_eq!(zoom_to_geohash_precision(4), 2);
    assert_eq!(zoom_to_geohash_precision(6), 2);
    assert_eq!(zoom_to_geohash_precision(7), 3);
    assert_eq!(zoom_to_geohash_precision(9), 3);
    assert_eq!(zoom_to_geohash_precision(10), 4);
    assert_eq!(zoom_to_geohash_precision(12), 4);
    assert_eq!(zoom_to_geohash_precision(13), 5);
    assert_eq!(zoom_to_geohash_precision(15), 5);
    assert_eq!(zoom_to_geohash_precision(16), 6);
    assert_eq!(zoom_to_geohash_precision(18), 6);
    assert_eq!(zoom_to_geohash_precision(19), 7);
    assert_eq!(zoom_to_geohash_precision(25), 7);
}

#[test]
fn test_calculate_geohash_new_york() {
    let geohash = calculate_geohash(e6(40.7128), e6(-74.0060));
    assert!(geohash.is_some());
    let hash = geohash.unwrap();
    assert_eq!(hash.len(), 7);
    assert!(hash.starts_with("dr5r"));
}

#[test]
fn test_calculate_geohash_london() {
    let geohash = calculate_geohash(e6(51.5074), e6(-0.1278));
    assert!(geohash.is_some());
    let hash = geohash.unwrap();
    assert_eq!(hash.len(), 7);
    assert!(hash.starts_with("gcpv"));
}

#[test]
fn test_calculate_geohash_tokyo() {
    let geohash = calculate_geohash(e6(35.6762), e6(139.6503));
    assert!(geohash.is_some());
    let hash = geohash.unwrap();
    assert_eq!(hash.len(), 7);
    assert!(hash.starts_with("xn7"));
}

#[test]
fn test_calculate_geohash_out_of_range() {
    assert!(calculate_geohash(e6(91.0), 0).is_none());
    assert!(calculate_geohash(0, e6(181.0)).is_none());
}

#[test]
fn test_rtree_insert_and_query() {
    let mut idx = SpatialIndex::new();
    idx.insert(1, e6(40.7128), e6(-74.0060));
    let hits = idx.query(e6(40.0), e6(41.0), e6(-75.0), e6(-73.0));
    assert_eq!(hits.len(), 1);
}

#[test]
fn test_rtree_query_excludes_outside_bbox() {
    let mut idx = SpatialIndex::new();
    idx.insert(1, e6(40.7128), e6(-74.0060));
    let hits = idx.query(e6(51.0), e6(52.0), e6(-1.0), e6(1.0));
    assert_eq!(hits.len(), 0);
}

#[test]
fn test_rtree_delete() {
    let mut idx = SpatialIndex::new();
    idx.insert(1, e6(40.7128), e6(-74.0060));
    assert_eq!(idx.len(), 1);
    idx.remove(1);
    assert_eq!(idx.len(), 0);
    let hits = idx.query(e6(-90.0), e6(90.0), e6(-180.0), e6(180.0));
    assert!(!hits.contains(&1));
}

#[test]
fn test_rtree_multiple_entries() {
    let mut idx = SpatialIndex::new();
    idx.insert(1, e6(40.7128), e6(-74.0060));
    idx.insert(2, e6(51.5074), e6(-0.1278));
    idx.insert(3, e6(35.6762), e6(139.6503));
    let all = idx.query(e6(-90.0), e6(90.0), e6(-180.0), e6(180.0));
    assert_eq!(all.len(), 3);
    let nyc = idx.query(e6(40.0), e6(41.0), e6(-75.0), e6(-73.0));
    assert_eq!(nyc.len(), 1);
}

#[test]
fn test_rtree_query_returns_correct_media_ids_in_bbox() {
    let mut idx = SpatialIndex::new();
    idx.insert(1, e6(40.7128), e6(-74.0060));
    idx.insert(2, e6(40.7580), e6(-73.9855));
    idx.insert(3, e6(51.5074), e6(-0.1278));
    let nyc_media = idx.query(e6(40.0), e6(41.0), e6(-75.0), e6(-73.0));
    assert_eq!(nyc_media.len(), 2);
    assert!(nyc_media.contains(&1));
    assert!(nyc_media.contains(&2));
    assert!(!nyc_media.contains(&3));
}

#[test]
fn test_map_clusters_empty_database() {
    let store = MediaStore::new();
    let req = request((50.0, 40.0, -70.0, -80.0), 10);
    let response = get_clusters(&store, 1, &req);
    assert!(response.clusters.is_empty());
    assert_eq!(response.total_count, 0);
}

#[test]
fn test_map_clusters_single_media() {
    let mut store = MediaStore::new();
    let user_id = 1;
    let media_id = store.ingest_media(user_id, "hash_1",
        media_data("photo.jpg", Some(40.7128), Some(-74.0060), "2024-01-15T10:30:00"));
    let req = request((50.0, 30.0, -60.0, -80.0), 10);
    let response = get_clusters(&store, user_id, &req);
    assert_eq!(response.clusters.len(), 1);
    assert_eq!(response.clusters[0].count, 1);
    assert_eq!(response.clusters[0].representative_id, media_id);
    assert_eq!(response.total_count, 1);
}

#[test]
fn test_map_clusters_media_outside_bounds_excluded() {
    let mut store = MediaStore::new();
    let user_id = 1;
    store.ingest_media(user_id, "hash_1",
        media_data("photo.jpg", Some(40.7128), Some(-74.0060), "2024-01-15T10:30:00"));
    let req = request((60.0, 50.0, -70.0, -80.0), 10);
    let response = get_clusters(&store, user_id, &req);
    assert!(response.clusters.is_empty());
    assert_eq!(response.total_count, 0);
}

#[test]
fn test_map_clusters_access_control() {
    let mut store = MediaStore::new();
    let user_a = 1;
    let user_b = 2;
    let media_a = store.ingest_media(user_a, "hash_a",
        media_data("photo_a.jpg", Some(40.7128), Some(-74.0060), "2024-01-15T10:30:00"));
    let media_b = store.ingest_media(user_b, "hash_b",
        media_data("photo_b.jpg", Some(40.7500), Some(-73.9500), "2024-01-15T10:30:00"));
    let req = request((50.0, 30.0, -60.0, -80.0), 10);
    let response_a = get_clusters(&store, user_a, &req);
    assert_eq!(response_a.total_count, 1);
    assert_eq!(response_a.clusters[0].representative_id, media_a);
    let response_b = get_clusters(&store, user_b, &req);
    assert_eq!(response_b.total_count, 1);
    assert_eq!(response_b.clusters[0].representative_id, media_b);
}

#[test]
fn test_map_clusters_zoom_affects_granularity() {
    let mut store = MediaStore::new();
    let user_id = 1;
    store.ingest_media(user_id, "hash_1",
        media_data("photo1.jpg", Some(40.7128), Some(-74.0060), "2024-01-15T10:30:00"));
    store.ingest_media(user_id, "hash_2",
        media_data("photo2.jpg", Some(40.7130), Some(-74.0062), "2024-01-15T10:30:00"));
    let response_low = get_clusters(&store, user_id, &request((50.0, 30.0, -60.0, -80.0), 5));
    let response_high = get_clusters(&store, user_id, &request((50.0, 30.0, -60.0, -80.0), 18));
    assert!(response_low.clusters.len() <= response_high.clusters.len());
    assert_eq!(response_low.total_count, 2);
    assert_eq!(response_high.total_count, 2);
}

#[test]
fn test_map_clusters_representative_is_most_recent() {
    let mut store = MediaStore::new();
    let user_id = 1;
    let _older = store.ingest_media(user_id, "hash_old",
        media_data("old.jpg", Some(40.7128), Some(-74.0060), "2023-01-01T10:00:00"));
    let newer = store.ingest_media(user_id, "hash_new",
        media_data("new.jpg", Some(40.7129), Some(-74.0061), "2024-06-15T10:00:00"));
    let response = get_clusters(&store, user_id, &request((50.0, 30.0, -60.0, -80.0), 5));
    assert_eq!(response.clusters.len(), 1);
    assert_eq!(response.clusters[0].count, 2);
    assert_eq!(response.clusters[0].representative_id, newer);
}

#[test]
fn test_dedup_same_bytes_same_user() {
    let mut store = MediaStore::new();
    let first = store.ingest_media(7, "digest_x",
        media_data("a.jpg", None, None, "2024-01-01T00:00:00"));
    let second = store.ingest_media(7, "digest_x",
        media_data("a.jpg", None, None, "2024-01-01T00:00:00"));
    assert_eq!(first, second);
    assert_eq!(store.records.len(), 1);
    assert_eq!(store.grants.len(), 1);
    assert!(store.grants[0].deleted_at.is_none());
}

#[test]
fn test_trash_then_reupload_restores() {
    let mut store = MediaStore::new();
    let id = store.ingest_media(7, "digest_y",
        media_data("b.jpg", None, None, "2024-01-01T00:00:00"));
    store.soft_delete_access(id, 7, "2024-02-01T00:00:00");
    assert!(store.grants[0].deleted_at.is_some());
    let again = store.ingest_media(7, "digest_y",
        media_data("b.jpg", None, None, "2024-01-01T00:00:00"));
    assert_eq!(again, id);
    assert_eq!(store.records.len(), 1);
    assert_eq!(store.grants.len(), 1);
    assert!(store.grants[0].deleted_at.is_none());
}

#[test]
fn test_dedup_other_user_gets_grant() {
    let mut store = MediaStore::new();
    let id = store.ingest_media(1, "digest_z",
        media_data("c.jpg", None, None, "2024-01-01T00:00:00"));
    let same = store.ingest_media(2, "digest_z",
        media_data("c.jpg", None, None, "2024-01-01T00:00:00"));
    assert_eq!(id, same);
    assert_eq!(store.records.len(), 1);
    assert_eq!(store.grants.len(), 2);
}

#[test]
fn test_import_job_start_is_single_flight() {
    let mut job = ImportJob::default();
    start_import_job(&mut job, "2024-01-01T00:00:00");
    assert!(is_import_running(&job));
    update_job_totals(&mut job, 5);
    update_job_progress(&mut job, true, None);
    let started = job.started_at.clone();
    start_import_job(&mut job, "2024-06-01T00:00:00");
    assert_eq!(job.total_files, 5);
    assert_eq!(job.processed_files, 1);
    assert_eq!(job.successful_imports, 1);
    assert_eq!(job.started_at, started);
    finalize_job_success(&mut job, "2024-01-01T01:00:00");
    assert_eq!(job.status, ImportStatus::Completed);
    assert!(!is_import_running(&job));
}

#[test]
fn test_error_log_is_bounded_with_sentinel() {
    let mut errors: Vec<String> = Vec::new();
    for i in 0..150 {
        push_job_error(&mut errors, &format!("failure {}", i));
    }
    assert_eq!(errors.len(), 101);
    assert_eq!(errors[100], "(additional errors truncated)");
    assert_eq!(errors[99], "failure 99");
}

#[test]
fn test_regeneration_cancel_is_cooperative() {
    let mut job = RegenerationJob::default();
    assert!(!cancel_regeneration(&mut job));
    start_job(&mut job, "2024-01-01T00:00:00");
    assert!(is_regeneration_running(&job));
    assert!(cancel_regeneration(&mut job));
    assert!(is_cancel_requested(&job));
    clear_cancel_request(&mut job);
    assert!(!is_cancel_requested(&job));
    assert_eq!(job.status, RegenerationStatus::Running);
}

#[test]
fn test_hash_bytes_known_digest() {
    assert_eq!(
        hash_bytes(b""),
        "e3b0c44298fc1c149afbf4c8996fb92427ae41e4649b934ca495991b7852b855"
    );
    assert_eq!(
        hash_bytes(b"abc"),
        "ba7816bf8f01cfea414140de5dae2223b00361a396177a9cb410ff61f20015ad"
    );
}

#[test]
fn test_streaming_hash_matches_one_shot() {
    let mut h = ContentHasher::new();
    h.update(b"hello ");
    h.update(b"world");
    assert_eq!(h.finish_hex(), hash_bytes(b"hello world"));
}

#[test]
fn test_hex_encode_bytes() {
    assert_eq!(hex_encode(&vec![0x00, 0xff, 0x0a]), "00ff0a");
}

#[test]
fn test_get_media_type_by_extension() {
    assert_eq!(get_media_type("photo.JPG"), Some(MediaKind::Image));
    assert_eq!(get_media_type("clip.mov"), Some(MediaKind::Video));
    assert_eq!(get_media_type("notes.txt"), None);
    assert_eq!(get_media_type("noextension"), None);
}

#[test]
fn test_parse_scaled_decimals() {
    assert_eq!(parse_scaled("40.7128", 6), Some(40_712_800));
    assert_eq!(parse_scaled("-74.0060", 6), Some(-74_006_000));
    assert_eq!(parse_scaled("+12", 6), Some(12_000_000));
    assert_eq!(parse_scaled("3.25", 3), Some(3250));
    assert_eq!(parse_scaled("", 6), None);
    assert_eq!(parse_scaled("1.2e3", 6), None);
}

#[test]
fn test_split_trim_nonempty_keywords() {
    let parts = split_trim_nonempty("beach, sunset , ,family");
    assert_eq!(parts, vec!["beach", "sunset", "family"]);
    assert!(split_trim_nonempty("  ,  ").is_empty());
}

#[test]
fn test_string_helpers() {
    assert_eq!(trim("  hi there\n"), "hi there");
    assert!(str_starts_with("dr5regw", "dr5r"));
    assert!(!str_starts_with("dr", "dr5r"));
    assert!(str_lex_lt("2023-01-01", "2024-06-15"));
    assert!(!str_lex_lt("2024-06-15", "2023-01-01"));
}

#[test]
fn test_bounded_concurrency_never_exceeds_limit() {
    let limit = 3usize;
    let total = 10usize;
    let mut s = DispatchState::new(limit, total);
    let mut max_in_flight = 0usize;
    let mut started = Vec::new();
    while !s.is_finished() {
        match s.try_dispatch() {
            Some(item) => {
                started.push(item);
                if s.in_flight > max_in_flight {
                    max_in_flight = s.in_flight;
                }
            }
            None => {
                s.task_completed();
            }
        }
        assert!(s.in_flight <= limit);
    }
    assert_eq!(max_in_flight, limit);
    assert_eq!(started.len(), total);
    assert_eq!(s.done, total);
}

#[test]
fn test_dispatch_cancel_stops_new_work() {
    let mut s = DispatchState::new(2, 5);
    assert!(s.try_dispatch().is_some());
    assert!(s.try_dispatch().is_some());
    s.cancel();
    assert!(s.try_dispatch().is_none());
    s.task_completed();
    s.task_completed();
    assert!(s.is_finished());
    assert_eq!(s.done, 2);
}
