use vstd::prelude::*;
use crate::geo::calculate_geohash;
use crate::spatial::SpatialIndex;
use crate::text::str_eq;

verus! {

/// The two media kinds the pipeline accepts.
#[derive(Clone, Copy, Debug, PartialEq, Eq, Structural)]
pub enum MediaKind {
    Image,
    Video,
}

impl MediaKind {
    pub fn label(&self) -> (r: String)
        ensures
            self is Image ==> r@ == "image"@,
            self is Video ==> r@ == "video"@,
    {
        match self {
            MediaKind::Image => "image".to_owned(),
            MediaKind::Video => "video".to_owned(),
        }
    }
}

/// One row per distinct content digest, never per uploaded file. Former
/// floating-point columns are held as scaled integers: coordinates in
/// microdegrees (`_e6`), durations in milliseconds, optics values in
/// millionths.
#[derive(Debug)]
pub struct MediaRecord {
    pub id: i64,
    pub filename: String,
    pub original_filename: String,
    pub file_path: String,
    pub thumbnail_path: Option<String>,
    pub media_type: MediaKind,
    pub mime_type: Option<String>,
    pub width: Option<i64>,
    pub height: Option<i64>,
    pub file_size: Option<i64>,
    pub duration_ms: Option<i64>,
    pub date_taken: Option<String>,
    pub gps_latitude_e6: Option<i64>,
    pub gps_longitude_e6: Option<i64>,
    pub gps_altitude_e6: Option<i64>,
    pub camera_make: Option<String>,
    pub camera_model: Option<String>,
    pub lens_make: Option<String>,
    pub lens_model: Option<String>,
    pub iso: Option<i64>,
    pub exposure_time: Option<String>,
    pub f_number_e6: Option<i64>,
    pub focal_length_e6: Option<i64>,
    pub focal_length_35mm_e6: Option<i64>,
    pub location_city: Option<String>,
    pub location_state: Option<String>,
    pub location_country: Option<String>,
    pub video_codec: Option<String>,
    pub keywords: Option<String>,
    pub content_hash: Option<String>,
    pub geohash: Option<String>,
    pub created_at: String,
}

/// The many-to-many join between users and records: an access level and a
/// soft-delete marker. A record reached only through soft-deleted grants sits
/// in the trash; dedup on upload grants access instead of duplicating bytes.
#[derive(Debug)]
pub struct AccessGrant {
    pub media_id: i64,
    pub user_id: i64,
    pub access_level: i64,
    pub deleted_at: Option<String>,
}

/// The access level a grant gets when dedup attaches an upload to an
/// existing record.
pub const DEDUP_ACCESS_LEVEL: i64 = 2;

pub open spec fn rec_has_digest(rec: MediaRecord, d: Seq<char>) -> bool {
    rec.content_hash is Some && rec.content_hash->0@ == d
}

pub open spec fn digest_present(records: Seq<MediaRecord>, d: Seq<char>) -> bool {
    exists|i: int| 0 <= i < records.len() && rec_has_digest(records[i], d)
}

pub open spec fn record_ids_unique(records: Seq<MediaRecord>) -> bool {
    forall|i: int, j: int| 0 <= i < j < records.len() ==> records[i].id != records[j].id
}

pub open spec fn digests_unique(records: Seq<MediaRecord>) -> bool {
    forall|i: int, j: int| 0 <= i < j < records.len() && records[i].content_hash is Some
        && records[j].content_hash is Some
        ==> records[i].content_hash->0@ != records[j].content_hash->0@
}

pub open spec fn grant_matches(g: AccessGrant, media_id: i64, user_id: i64) -> bool {
    g.media_id == media_id && g.user_id == user_id
}

pub open spec fn grants_unique(grants: Seq<AccessGrant>) -> bool {
    forall|i: int, j: int| 0 <= i < j < grants.len()
        ==> !(grants[i].media_id == grants[j].media_id
            && grants[i].user_id == grants[j].user_id)
}

pub open spec fn grant_present(grants: Seq<AccessGrant>, media_id: i64, user_id: i64) -> bool {
    exists|i: int| 0 <= i < grants.len() && grant_matches(grants[i], media_id, user_id)
}

/// A live (not soft-deleted) grant.
pub open spec fn live_grant_present(grants: Seq<AccessGrant>, media_id: i64, user_id: i64) -> bool {
    exists|i: int| 0 <= i < grants.len() && grant_matches(grants[i], media_id, user_id)
        && grants[i].deleted_at is None
}

/// The spatial index mirrors the record table exactly: every geotagged
/// record has its point indexed under its id, a record without GPS has no
/// entry, and no entry exists without its record.
pub open spec fn rtree_consistent(
    records: Seq<MediaRecord>, entries: Seq<crate::spatial::SpatialEntry>,
) -> bool {
    &&& forall|i: int| 0 <= i < records.len() ==> {
        let rec = #[trigger] records[i];
        &&& (rec.gps_latitude_e6 is Some && rec.gps_longitude_e6 is Some
            ==> crate::spatial::has_point(entries, rec.id as int,
                rec.gps_latitude_e6->0 as int, rec.gps_longitude_e6->0 as int))
        &&& (!(rec.gps_latitude_e6 is Some && rec.gps_longitude_e6 is Some)
            ==> !crate::spatial::contains_id(entries, rec.id as int))
    }
    &&& forall|id2: int| #[trigger] crate::spatial::contains_id(entries, id2)
        ==> exists|i: int| 0 <= i < records.len() && records[i].id == id2
}

/// The storage backend as the pipeline sees it: the record table, the grant
/// table, and the bounding-box index, with the invariants the schema enforces
/// (unique ids, unique digests, one grant per user and record, an index entry
/// exactly for each geotagged record).
#[derive(Debug)]
pub struct MediaStore {
    pub records: Vec<MediaRecord>,
    pub grants: Vec<AccessGrant>,
    pub rtree: SpatialIndex,
    pub next_id: i64,
}

impl MediaStore {
    pub open spec fn wf(&self) -> bool {
        &&& record_ids_unique(self.records@)
        &&& digests_unique(self.records@)
        &&& grants_unique(self.grants@)
        &&& self.rtree.wf()
        &&& 1 <= self.next_id
        &&& forall|i: int| 0 <= i < self.records@.len()
            ==> 0 < #[trigger] self.records@[i].id < self.next_id
        &&& forall|i: int| 0 <= i < self.grants@.len()
            ==> record_id_present(self.records@, #[trigger] self.grants@[i].media_id)
        &&& rtree_consistent(self.records@, self.rtree@)
    }

    pub fn new() -> (s: MediaStore)
        ensures
            s.wf(),
            s.records@.len() == 0,
            s.grants@.len() == 0,
            s.rtree@.len() == 0,
            s.next_id == 1,
    {
        MediaStore {
            records: Vec::new(),
            grants: Vec::new(),
            rtree: SpatialIndex::new(),
            next_id: 1,
        }
    }

    /// Dedup lookup: the id of the record owning this content digest, if any.
    pub fn find_by_content_hash(&self, content_hash: &str) -> (r: Option<i64>)
        ensures
            match r {
                Some(id) => exists|i: int| 0 <= i < self.records@.len()
                    && rec_has_digest(self.records@[i], content_hash@)
                    && self.records@[i].id == id,
                None => !digest_present(self.records@, content_hash@),
            },
    {
        let mut i: usize = 0;
        while i < self.records.len()
            invariant
                i <= self.records@.len(),
                forall|j: int| 0 <= j < i ==> !rec_has_digest(self.records@[j], content_hash@),
            decreases self.records@.len() - i,
        {
            if let Some(h) = &self.records[i].content_hash {
                if str_eq(h.as_str(), content_hash) {
                    return Some(self.records[i].id);
                }
            }
            i = i + 1;
        }
        None
    }

    fn find_grant(&self, media_id: i64, user_id: i64) -> (r: Option<usize>)
        ensures
            match r {
                Some(i) => i < self.grants@.len()
                    && grant_matches(self.grants@[i as int], media_id, user_id),
                None => !grant_present(self.grants@, media_id, user_id),
            },
    {
        let mut i: usize = 0;
        while i < self.grants.len()
            invariant
                i <= self.grants@.len(),
                forall|j: int| 0 <= j < i
                    ==> !grant_matches(self.grants@[j], media_id, user_id),
            decreases self.grants@.len() - i,
        {
            if self.grants[i].media_id == media_id && self.grants[i].user_id == user_id {
                return Some(i);
            }
            i = i + 1;
        }
        None
    }

    /// The access level recorded for a user on a record, soft-deleted or not.
    pub fn check_media_access(&self, media_id: i64, user_id: i64) -> (r: Option<i64>)
        ensures
            r is Some <==> grant_present(self.grants@, media_id, user_id),
            r is Some ==> exists|i: int| 0 <= i < self.grants@.len()
                && grant_matches(#[trigger] self.grants@[i], media_id, user_id)
                && self.grants@[i].access_level == r->0,
    {
        match self.find_grant(media_id, user_id) {
            Some(i) => Some(self.grants[i].access_level),
            None => None,
        }
    }

    /// Clear the soft-delete marker on a user's grant: restore from trash.
    /// A no-op when the user holds no grant on the record.
    pub fn restore_media_access(&mut self, media_id: i64, user_id: i64)
        requires
            old(self).wf(),
        ensures
            final(self).wf(),
            final(self).records == old(self).records,
            final(self).rtree == old(self).rtree,
            final(self).next_id == old(self).next_id,
            restore_post(old(self).grants@, final(self).grants@, media_id, user_id),
    {
        match self.find_grant(media_id, user_id) {
            Some(i) => {
                let g = AccessGrant {
                    media_id: self.grants[i].media_id,
                    user_id: self.grants[i].user_id,
                    access_level: self.grants[i].access_level,
                    deleted_at: None,
                };
                self.grants.set(i, g);
                proof {
                    let pre = old(self).grants@;
                    let post = self.grants@;
                    assert(post == pre.update(i as int, AccessGrant {
                        deleted_at: None, ..pre[i as int]
                    }));
                    assert forall|p: int, q: int| 0 <= p < q < post.len()
                        implies !(post[p].media_id == post[q].media_id
                            && post[p].user_id == post[q].user_id) by {
                        assert(post[p].media_id == pre[p].media_id
                            && post[p].user_id == pre[p].user_id);
                        assert(post[q].media_id == pre[q].media_id
                            && post[q].user_id == pre[q].user_id);
                    };
                }
            }
            None => {}
        }
    }

    /// Add a grant unless the pair already exists (insert-or-ignore).
    pub fn insert_media_access(&mut self, media_id: i64, user_id: i64, access_level: i64)
        requires
            old(self).wf(),
            record_id_present(old(self).records@, media_id),
        ensures
            final(self).wf(),
            final(self).records == old(self).records,
            final(self).rtree == old(self).rtree,
            final(self).next_id == old(self).next_id,
            insert_grant_post(old(self).grants@, final(self).grants@, media_id,
                user_id, access_level),
    {
        match self.find_grant(media_id, user_id) {
            Some(_) => {}
            None => {
                self.grants.push(AccessGrant {
                    media_id,
                    user_id,
                    access_level,
                    deleted_at: None,
                });
                proof {
                    let pre = old(self).grants@;
                    let post = self.grants@;
                    assert forall|p: int, q: int| 0 <= p < q < post.len()
                        implies !(post[p].media_id == post[q].media_id
                            && post[p].user_id == post[q].user_id) by {
                        if q == post.len() - 1 {
                            assert(!grant_matches(pre[p], media_id, user_id));
                        }
                    };
                }
            }
        }
    }

    /// Mark a user's grant on a record as deleted (move to trash). A no-op
    /// when the user holds no grant on the record.
    pub fn soft_delete_access(&mut self, media_id: i64, user_id: i64, now: &str)
        requires
            old(self).wf(),
        ensures
            final(self).wf(),
            final(self).records == old(self).records,
            final(self).rtree == old(self).rtree,
            final(self).next_id == old(self).next_id,
            soft_delete_post(old(self).grants@, final(self).grants@, media_id, user_id),
    {
        match self.find_grant(media_id, user_id) {
            Some(i) => {
                let g = AccessGrant {
                    media_id: self.grants[i].media_id,
                    user_id: self.grants[i].user_id,
                    access_level: self.grants[i].access_level,
                    deleted_at: Some(now.to_owned()),
                };
                self.grants.set(i, g);
                proof {
                    let pre = old(self).grants@;
                    let post = self.grants@;
                    assert forall|p: int, q: int| 0 <= p < q < post.len()
                        implies !(post[p].media_id == post[q].media_id
                            && post[p].user_id == post[q].user_id) by {
                        assert(post[p].media_id == pre[p].media_id
                            && post[p].user_id == pre[p].user_id);
                        assert(post[q].media_id == pre[q].media_id
                            && post[q].user_id == pre[q].user_id);
                    };
                }
            }
            None => {}
        }
    }
}

/// Everything the processing pipeline hands to the store for a record it is
/// about to create: derived file names and paths, the metadata bundle, and
/// the creation timestamp. The content digest and geohash are not here; the
/// store derives those itself.
#[derive(Debug)]
pub struct NewMediaData {
    pub filename: String,
    pub original_filename: String,
    pub file_path: String,
    pub thumbnail_path: Option<String>,
    pub media_type: MediaKind,
    pub mime_type: Option<String>,
    pub width: Option<i64>,
    pub height: Option<i64>,
    pub file_size: Option<i64>,
    pub duration_ms: Option<i64>,
    pub date_taken: Option<String>,
    pub gps_latitude_e6: Option<i64>,
    pub gps_longitude_e6: Option<i64>,
    pub gps_altitude_e6: Option<i64>,
    pub camera_make: Option<String>,
    pub camera_model: Option<String>,
    pub lens_make: Option<String>,
    pub lens_model: Option<String>,
    pub iso: Option<i64>,
    pub exposure_time: Option<String>,
    pub f_number_e6: Option<i64>,
    pub focal_length_e6: Option<i64>,
    pub focal_length_35mm_e6: Option<i64>,
    pub location_city: Option<String>,
    pub location_state: Option<String>,
    pub location_country: Option<String>,
    pub video_codec: Option<String>,
    pub keywords: Option<String>,
    pub created_at: String,
}

pub open spec fn record_id_present(records: Seq<MediaRecord>, id: i64) -> bool {
    exists|i: int| 0 <= i < records.len() && records[i].id == id
}

/// The fields of a freshly created record, next to the bundle it came from.
pub open spec fn rec_matches_data(rec: MediaRecord, data: NewMediaData) -> bool {
    &&& rec.filename == data.filename
    &&& rec.original_filename == data.original_filename
    &&& rec.file_path == data.file_path
    &&& rec.thumbnail_path == data.thumbnail_path
    &&& rec.media_type == data.media_type
    &&& rec.mime_type == data.mime_type
    &&& rec.width == data.width
    &&& rec.height == data.height
    &&& rec.file_size == data.file_size
    &&& rec.duration_ms == data.duration_ms
    &&& rec.date_taken == data.date_taken
    &&& rec.gps_latitude_e6 == data.gps_latitude_e6
    &&& rec.gps_longitude_e6 == data.gps_longitude_e6
    &&& rec.gps_altitude_e6 == data.gps_altitude_e6
    &&& rec.camera_make == data.camera_make
    &&& rec.camera_model == data.camera_model
    &&& rec.lens_make == data.lens_make
    &&& rec.lens_model == data.lens_model
    &&& rec.iso == data.iso
    &&& rec.exposure_time == data.exposure_time
    &&& rec.f_number_e6 == data.f_number_e6
    &&& rec.focal_length_e6 == data.focal_length_e6
    &&& rec.focal_length_35mm_e6 == data.focal_length_35mm_e6
    &&& rec.location_city == data.location_city
    &&& rec.location_state == data.location_state
    &&& rec.location_country == data.location_country
    &&& rec.video_codec == data.video_codec
    &&& rec.keywords == data.keywords
    &&& rec.created_at == data.created_at
}

/// The stored geohash of a record: present exactly when both coordinates are
/// present and in range, and then the fixed-precision hash of the point.
pub open spec fn rec_geohash_derived(rec: MediaRecord) -> bool {
    &&& rec.geohash is Some <==> (rec.gps_latitude_e6 is Some && rec.gps_longitude_e6 is Some
        && crate::geo::valid_lat_e6(rec.gps_latitude_e6->0 as int)
        && crate::geo::valid_lon_e6(rec.gps_longitude_e6->0 as int))
    &&& rec.geohash is Some ==> rec.geohash->0@ == crate::geo::spec_geohash(
        rec.gps_latitude_e6->0 as int, rec.gps_longitude_e6->0 as int, 7)
}

/// The dedup/access decision of one ingestion attempt, as a relation between
/// the store tables before and after. A hit on an existing digest never
/// creates a record: it restores or creates the one grant for the requesting
/// user. A miss appends one record under a fresh id plus one live grant.
pub open spec fn ingest_post(
    pre_r: Seq<MediaRecord>, pre_g: Seq<AccessGrant>,
    post_r: Seq<MediaRecord>, post_g: Seq<AccessGrant>,
    user_id: i64, d: Seq<char>, r: i64,
) -> bool {
    if digest_present(pre_r, d) {
        &&& post_r == pre_r
        &&& exists|i: int| 0 <= i < pre_r.len() && rec_has_digest(pre_r[i], d)
            && pre_r[i].id == r
        &&& if grant_present(pre_g, r, user_id) {
            restore_post(pre_g, post_g, r, user_id)
        } else {
            insert_grant_post(pre_g, post_g, r, user_id, DEDUP_ACCESS_LEVEL)
        }
    } else {
        &&& post_r.len() == pre_r.len() + 1
        &&& post_r.take(pre_r.len() as int) == pre_r
        &&& rec_has_digest(post_r.last(), d)
        &&& post_r.last().id == r
        &&& !record_id_present(pre_r, r)
        &&& post_g == pre_g.push(AccessGrant {
            media_id: r,
            user_id,
            access_level: DEDUP_ACCESS_LEVEL,
            deleted_at: None,
        })
    }
}

impl MediaStore {
    /// The storage half of processing one file, run after the content digest
    /// is known and any expensive work is done: dedup by digest, grant or
    /// restore access, or else append the new record, its grant, and its
    /// spatial index entry. Returns the id the upload resolved to.
    pub fn ingest_media(&mut self, user_id: i64, content_hash: &str, data: NewMediaData)
        -> (r: i64)
        requires
            old(self).wf(),
            old(self).next_id < i64::MAX,
        ensures
            final(self).wf(),
            ingest_post(old(self).records@, old(self).grants@,
                final(self).records@, final(self).grants@, user_id, content_hash@, r),
            live_grant_present(final(self).grants@, r, user_id),
            digest_present(final(self).records@, content_hash@),
            digest_present(old(self).records@, content_hash@)
                ==> final(self).rtree == old(self).rtree
                    && final(self).next_id == old(self).next_id,
            !digest_present(old(self).records@, content_hash@) ==> {
                &&& r == old(self).next_id
                &&& final(self).next_id == old(self).next_id + 1
                &&& rec_matches_data(final(self).records@.last(), data)
                &&& rec_geohash_derived(final(self).records@.last())
                &&& final(self).rtree.wf()
                &&& (data.gps_latitude_e6 is Some && data.gps_longitude_e6 is Some
                    ==> crate::spatial::has_point(final(self).rtree@, r as int,
                        data.gps_latitude_e6->0 as int, data.gps_longitude_e6->0 as int))
                &&& (!(data.gps_latitude_e6 is Some && data.gps_longitude_e6 is Some)
                    ==> final(self).rtree == old(self).rtree)
            },
    {
        match self.find_by_content_hash(content_hash) {
            Some(media_id) => {
                if self.check_media_access(media_id, user_id).is_some() {
                    self.restore_media_access(media_id, user_id);
                    proof {
                        let pre = old(self).grants@;
                        let post = self.grants@;
                        let i = choose|i: int| 0 <= i < pre.len()
                            && grant_matches(pre[i], media_id, user_id)
                            && post == pre.update(i, AccessGrant { deleted_at: None, ..pre[i] });
                        assert(post[i].deleted_at is None);
                        assert(live_grant_present(post, media_id, user_id));
                    }
                } else {
                    self.insert_media_access(media_id, user_id, DEDUP_ACCESS_LEVEL);
                    proof {
                        let post = self.grants@;
                        assert(post[post.len() - 1].deleted_at is None);
                        assert(live_grant_present(post, media_id, user_id));
                    }
                }
                media_id
            }
            None => {
                let id = self.next_id;
                self.next_id = self.next_id + 1;
                let geohash = match (data.gps_latitude_e6, data.gps_longitude_e6) {
                    (Some(la), Some(lo)) => calculate_geohash(la, lo),
                    _ => None,
                };
                let has_gps = data.gps_latitude_e6.is_some() && data.gps_longitude_e6.is_some();
                let gps_lat = data.gps_latitude_e6;
                let gps_lon = data.gps_longitude_e6;
                let rec = MediaRecord {
                    id,
                    filename: data.filename,
                    original_filename: data.original_filename,
                    file_path: data.file_path,
                    thumbnail_path: data.thumbnail_path,
                    media_type: data.media_type,
                    mime_type: data.mime_type,
                    width: data.width,
                    height: data.height,
                    file_size: data.file_size,
                    duration_ms: data.duration_ms,
                    date_taken: data.date_taken,
                    gps_latitude_e6: data.gps_latitude_e6,
                    gps_longitude_e6: data.gps_longitude_e6,
                    gps_altitude_e6: data.gps_altitude_e6,
                    camera_make: data.camera_make,
                    camera_model: data.camera_model,
                    lens_make: data.lens_make,
                    lens_model: data.lens_model,
                    iso: data.iso,
                    exposure_time: data.exposure_time,
                    f_number_e6: data.f_number_e6,
                    focal_length_e6: data.focal_length_e6,
                    focal_length_35mm_e6: data.focal_length_35mm_e6,
                    location_city: data.location_city,
                    location_state: data.location_state,
                    location_country: data.location_country,
                    video_codec: data.video_codec,
                    keywords: data.keywords,
                    content_hash: Some(content_hash.to_owned()),
                    geohash,
                    created_at: data.created_at,
                };
                self.records.push(rec);
                proof {
                    let pre = old(self).records@;
                    let post = self.records@;
                    assert(post.take(pre.len() as int) =~= pre);
                    assert forall|p: int, q: int| 0 <= p < q < post.len()
                        implies post[p].id != post[q].id by {
                        if q == post.len() - 1 {
                            assert(pre[p].id < old(self).next_id);
                        }
                    };
                    assert forall|p: int, q: int| 0 <= p < q < post.len()
                        && post[p].content_hash is Some && post[q].content_hash is Some
                        implies post[p].content_hash->0@ != post[q].content_hash->0@ by {
                        if q == post.len() - 1 {
                            assert(!rec_has_digest(pre[p], content_hash@));
                        }
                    };
                }
                proof {
                    assert(self.records@[self.records@.len() - 1].id == id);
                    assert(record_id_present(self.records@, id));
                }
                let ghost rtree_pre = self.rtree@;
                if has_gps {
                    let la = match gps_lat { Some(v) => v, None => 0 };
                    let lo = match gps_lon { Some(v) => v, None => 0 };
                    self.rtree.insert(id, la, lo);
                }
                proof {
                    let pre = old(self).records@;
                    let post = self.records@;
                    let rt = self.rtree@;
                    assert forall|i: int| 0 <= i < post.len() implies {
                        let rec = #[trigger] post[i];
                        &&& (rec.gps_latitude_e6 is Some && rec.gps_longitude_e6 is Some
                            ==> crate::spatial::has_point(rt, rec.id as int,
                                rec.gps_latitude_e6->0 as int,
                                rec.gps_longitude_e6->0 as int))
                        &&& (!(rec.gps_latitude_e6 is Some
                                && rec.gps_longitude_e6 is Some)
                            ==> !crate::spatial::contains_id(rt, rec.id as int))
                    } by {
                        if i < post.len() - 1 {
                            assert(post[i] == pre[i]);
                            assert(pre[i].id < old(self).next_id);
                        } else {
                            if !has_gps {
                                if crate::spatial::contains_id(rt, id as int) {
                                    let k = choose|k: int| 0 <= k < pre.len()
                                        && pre[k].id == id as int;
                                    assert(pre[k].id < old(self).next_id);
                                }
                            }
                        }
                    };
                    assert forall|id2: int| #[trigger] crate::spatial::contains_id(rt, id2)
                        implies exists|i: int| 0 <= i < post.len()
                            && post[i].id == id2 by {
                        if id2 == id as int {
                            assert(post[post.len() - 1].id == id2);
                        } else {
                            assert(crate::spatial::contains_id(rtree_pre, id2));
                            let k = choose|k: int| 0 <= k < pre.len() && pre[k].id == id2;
                            assert(post[k].id == id2);
                        }
                    };
                    assert(rtree_consistent(post, rt));
                }
                self.insert_media_access(id, user_id, DEDUP_ACCESS_LEVEL);
                proof {
                    let post = self.grants@;
                    assert(post[post.len() - 1].deleted_at is None);
                    assert(live_grant_present(post, id, user_id));
                }
                id
            }
        }
    }
}

/// Clone an optional text field.
fn clone_opt(o: &Option<String>) -> (r: Option<String>)
    ensures
        r == *o,
{
    match o {
        Some(s) => Some(s.clone()),
        None => None,
    }
}

/// The regeneration sweep's merge: a freshly extracted bundle laid under an
/// existing record. Fields the record already carries are kept (the sweep
/// fills what is missing); the GPS fields alone prefer the fresh extraction,
/// so a corrected geotag propagates. Identity, paths, and timestamps come
/// from the existing record.
pub fn merge_missing_fields(existing: &MediaRecord, fresh: &NewMediaData)
    -> (out: NewMediaData)
    ensures
        out.width == (if existing.width is Some { existing.width } else { fresh.width }),
        out.height == (if existing.height is Some { existing.height } else { fresh.height }),
        out.date_taken == (if existing.date_taken is Some { existing.date_taken }
            else { fresh.date_taken }),
        out.gps_latitude_e6 == (if fresh.gps_latitude_e6 is Some { fresh.gps_latitude_e6 }
            else { existing.gps_latitude_e6 }),
        out.gps_longitude_e6 == (if fresh.gps_longitude_e6 is Some {
            fresh.gps_longitude_e6 } else { existing.gps_longitude_e6 }),
        out.gps_altitude_e6 == (if fresh.gps_altitude_e6 is Some { fresh.gps_altitude_e6 }
            else { existing.gps_altitude_e6 }),
        out.camera_make == (if existing.camera_make is Some { existing.camera_make }
            else { fresh.camera_make }),
        out.camera_model == (if existing.camera_model is Some { existing.camera_model }
            else { fresh.camera_model }),
        out.lens_make == (if existing.lens_make is Some { existing.lens_make }
            else { fresh.lens_make }),
        out.lens_model == (if existing.lens_model is Some { existing.lens_model }
            else { fresh.lens_model }),
        out.iso == (if existing.iso is Some { existing.iso } else { fresh.iso }),
        out.exposure_time == (if existing.exposure_time is Some { existing.exposure_time }
            else { fresh.exposure_time }),
        out.f_number_e6 == (if existing.f_number_e6 is Some { existing.f_number_e6 }
            else { fresh.f_number_e6 }),
        out.focal_length_e6 == (if existing.focal_length_e6 is Some {
            existing.focal_length_e6 } else { fresh.focal_length_e6 }),
        out.focal_length_35mm_e6 == (if existing.focal_length_35mm_e6 is Some {
            existing.focal_length_35mm_e6 } else { fresh.focal_length_35mm_e6 }),
        out.location_city == (if existing.location_city is Some { existing.location_city }
            else { fresh.location_city }),
        out.location_state == (if existing.location_state is Some {
            existing.location_state } else { fresh.location_state }),
        out.location_country == (if existing.location_country is Some {
            existing.location_country } else { fresh.location_country }),
        out.video_codec == (if existing.video_codec is Some { existing.video_codec }
            else { fresh.video_codec }),
        out.keywords == (if existing.keywords is Some { existing.keywords }
            else { fresh.keywords }),
        out.duration_ms == (if existing.duration_ms is Some { existing.duration_ms }
            else { fresh.duration_ms }),
        out.mime_type == (if existing.mime_type is Some { existing.mime_type }
            else { fresh.mime_type }),
        out.filename == existing.filename,
        out.original_filename == existing.original_filename,
        out.file_path == existing.file_path,
        out.thumbnail_path == existing.thumbnail_path,
        out.media_type == existing.media_type,
        out.file_size == existing.file_size,
        out.created_at == existing.created_at,
{
    NewMediaData {
        filename: existing.filename.clone(),
        original_filename: existing.original_filename.clone(),
        file_path: existing.file_path.clone(),
        thumbnail_path: clone_opt(&existing.thumbnail_path),
        media_type: existing.media_type,
        mime_type: if existing.mime_type.is_some() { clone_opt(&existing.mime_type) }
            else { clone_opt(&fresh.mime_type) },
        width: if existing.width.is_some() { existing.width } else { fresh.width },
        height: if existing.height.is_some() { existing.height } else { fresh.height },
        file_size: existing.file_size,
        duration_ms: if existing.duration_ms.is_some() { existing.duration_ms }
            else { fresh.duration_ms },
        date_taken: if existing.date_taken.is_some() { clone_opt(&existing.date_taken) }
            else { clone_opt(&fresh.date_taken) },
        gps_latitude_e6: if fresh.gps_latitude_e6.is_some() { fresh.gps_latitude_e6 }
            else { existing.gps_latitude_e6 },
        gps_longitude_e6: if fresh.gps_longitude_e6.is_some() { fresh.gps_longitude_e6 }
            else { existing.gps_longitude_e6 },
        gps_altitude_e6: if fresh.gps_altitude_e6.is_some() { fresh.gps_altitude_e6 }
            else { existing.gps_altitude_e6 },
        camera_make: if existing.camera_make.is_some() { clone_opt(&existing.camera_make) }
            else { clone_opt(&fresh.camera_make) },
        camera_model: if existing.camera_model.is_some() {
            clone_opt(&existing.camera_model) } else { clone_opt(&fresh.camera_model) },
        lens_make: if existing.lens_make.is_some() { clone_opt(&existing.lens_make) }
            else { clone_opt(&fresh.lens_make) },
        lens_model: if existing.lens_model.is_some() { clone_opt(&existing.lens_model) }
            else { clone_opt(&fresh.lens_model) },
        iso: if existing.iso.is_some() { existing.iso } else { fresh.iso },
        exposure_time: if existing.exposure_time.is_some() {
            clone_opt(&existing.exposure_time) } else { clone_opt(&fresh.exposure_time) },
        f_number_e6: if existing.f_number_e6.is_some() { existing.f_number_e6 }
            else { fresh.f_number_e6 },
        focal_length_e6: if existing.focal_length_e6.is_some() {
            existing.focal_length_e6 } else { fresh.focal_length_e6 },
        focal_length_35mm_e6: if existing.focal_length_35mm_e6.is_some() {
            existing.focal_length_35mm_e6 } else { fresh.focal_length_35mm_e6 },
        location_city: if existing.location_city.is_some() {
            clone_opt(&existing.location_city) } else { clone_opt(&fresh.location_city) },
        location_state: if existing.location_state.is_some() {
            clone_opt(&existing.location_state) } else { clone_opt(&fresh.location_state) },
        location_country: if existing.location_country.is_some() {
            clone_opt(&existing.location_country) }
            else { clone_opt(&fresh.location_country) },
        video_codec: if existing.video_codec.is_some() { clone_opt(&existing.video_codec) }
            else { clone_opt(&fresh.video_codec) },
        keywords: if existing.keywords.is_some() { clone_opt(&existing.keywords) }
            else { clone_opt(&fresh.keywords) },
        created_at: existing.created_at.clone(),
    }
}

/// A record after the regeneration sweep wrote a merged bundle over it: the
/// metadata columns take the bundle, identity and storage columns stay.
pub open spec fn rec_after_update(old_rec: MediaRecord, data: NewMediaData,
    new_rec: MediaRecord) -> bool {
    &&& new_rec.id == old_rec.id
    &&& new_rec.filename == old_rec.filename
    &&& new_rec.original_filename == old_rec.original_filename
    &&& new_rec.file_path == old_rec.file_path
    &&& new_rec.thumbnail_path == old_rec.thumbnail_path
    &&& new_rec.media_type == old_rec.media_type
    &&& new_rec.mime_type == old_rec.mime_type
    &&& new_rec.file_size == old_rec.file_size
    &&& new_rec.content_hash == old_rec.content_hash
    &&& new_rec.created_at == old_rec.created_at
    &&& new_rec.width == data.width
    &&& new_rec.height == data.height
    &&& new_rec.duration_ms == data.duration_ms
    &&& new_rec.date_taken == data.date_taken
    &&& new_rec.gps_latitude_e6 == data.gps_latitude_e6
    &&& new_rec.gps_longitude_e6 == data.gps_longitude_e6
    &&& new_rec.gps_altitude_e6 == data.gps_altitude_e6
    &&& new_rec.camera_make == data.camera_make
    &&& new_rec.camera_model == data.camera_model
    &&& new_rec.lens_make == data.lens_make
    &&& new_rec.lens_model == data.lens_model
    &&& new_rec.iso == data.iso
    &&& new_rec.exposure_time == data.exposure_time
    &&& new_rec.f_number_e6 == data.f_number_e6
    &&& new_rec.focal_length_e6 == data.focal_length_e6
    &&& new_rec.focal_length_35mm_e6 == data.focal_length_35mm_e6
    &&& new_rec.location_city == data.location_city
    &&& new_rec.location_state == data.location_state
    &&& new_rec.location_country == data.location_country
    &&& new_rec.video_codec == data.video_codec
    &&& new_rec.keywords == data.keywords
    &&& rec_geohash_derived(new_rec)
}

/// Dedup idempotence: ingesting the same content digest twice for the same
/// user resolves to the same record id both times, the second attempt creates
/// no record at all, and however often it is repeated the user ends up with
/// exactly one grant on that record, and it is live.
pub proof fn lemma_dedup_idempotence(
    r0: Seq<MediaRecord>, g0: Seq<AccessGrant>,
    r1: Seq<MediaRecord>, g1: Seq<AccessGrant>,
    r2: Seq<MediaRecord>, g2: Seq<AccessGrant>,
    user_id: i64, d: Seq<char>, ra: i64, rb: i64,
)
    requires
        digests_unique(r1),
        grants_unique(g1),
        ingest_post(r0, g0, r1, g1, user_id, d, ra),
        live_grant_present(g1, ra, user_id),
        digest_present(r1, d),
        ingest_post(r1, g1, r2, g2, user_id, d, rb),
    ensures
        rb == ra,
        r2 == r1,
        g2.len() == g1.len(),
        live_grant_present(g2, ra, user_id),
        forall|i: int, j: int| 0 <= i < j < g2.len()
            ==> !(grant_matches(g2[i], ra, user_id) && grant_matches(g2[j], ra, user_id)),
{
    // The second attempt finds the digest, so it is a pure dedup hit.
    assert(r2 == r1);
    let jb = choose|j: int| 0 <= j < r1.len() && rec_has_digest(r1[j], d) && r1[j].id == rb;
    // The record carrying the digest after the first attempt has id `ra`.
    if digest_present(r0, d) {
        let ja = choose|j: int| 0 <= j < r0.len() && rec_has_digest(r0[j], d)
            && r0[j].id == ra;
        assert(r1[ja].id == ra && rec_has_digest(r1[ja], d));
        if ja != jb {
            assert(false);
        }
    } else {
        assert(rec_has_digest(r1.last(), d) && r1.last().id == ra);
        if jb != r1.len() - 1 {
            assert(false);
        }
    }
    // The user already held a live grant, so it is restored in place.
    assert(grant_present(g1, rb, user_id));
    let i = choose|i: int| 0 <= i < g1.len() && grant_matches(g1[i], rb, user_id)
        && g2 == g1.update(i, AccessGrant { deleted_at: None, ..g1[i] });
    assert(g2[i].deleted_at is None && grant_matches(g2[i], ra, user_id));
    assert(live_grant_present(g2, ra, user_id));
    assert forall|p: int, q: int| 0 <= p < q < g2.len()
        implies !(grant_matches(g2[p], ra, user_id) && grant_matches(g2[q], ra, user_id)) by {
        assert(g2[p].media_id == g1[p].media_id && g2[p].user_id == g1[p].user_id);
        assert(g2[q].media_id == g1[q].media_id && g2[q].user_id == g1[q].user_id);
    };
}

/// Trash then re-upload restores: after a user's grant on a record is
/// soft-deleted, ingesting bytes with the record's digest again for the same
/// user clears the deletion marker on the one existing grant, rather than
/// creating a duplicate grant or a duplicate record.
pub proof fn lemma_trash_then_reupload(
    r0: Seq<MediaRecord>, g0: Seq<AccessGrant>,
    g1: Seq<AccessGrant>,
    r2: Seq<MediaRecord>, g2: Seq<AccessGrant>,
    user_id: i64, d: Seq<char>, m: i64, rb: i64,
)
    requires
        digests_unique(r0),
        grants_unique(g0),
        exists|i: int| 0 <= i < r0.len() && rec_has_digest(r0[i], d) && r0[i].id == m,
        grant_present(g0, m, user_id),
        soft_delete_post(g0, g1, m, user_id),
        ingest_post(r0, g1, r2, g2, user_id, d, rb),
    ensures
        rb == m,
        r2 == r0,
        g2.len() == g0.len(),
        live_grant_present(g2, m, user_id),
{
    let i = choose|i: int| 0 <= i < g0.len() && grant_matches(g0[i], m, user_id)
        && g1[i].deleted_at is Some
        && g1 == g0.update(i, AccessGrant { deleted_at: g1[i].deleted_at, ..g0[i] });
    assert(grant_matches(g1[i], m, user_id));
    assert(grant_present(g1, m, user_id));
    // The digest is still present, so the ingest is a dedup hit on record m.
    let k = choose|k: int| 0 <= k < r0.len() && rec_has_digest(r0[k], d) && r0[k].id == m;
    assert(digest_present(r0, d));
    assert(r2 == r0);
    let kb = choose|kb: int| 0 <= kb < r0.len() && rec_has_digest(r0[kb], d) && r0[kb].id == rb;
    if k != kb {
        assert(false);
    }
    // The existing grant is restored in place.
    assert(grant_present(g1, rb, user_id));
    let j = choose|j: int| 0 <= j < g1.len() && grant_matches(g1[j], rb, user_id)
        && g2 == g1.update(j, AccessGrant { deleted_at: None, ..g1[j] });
    assert(g2[j].deleted_at is None && grant_matches(g2[j], m, user_id));
    assert(live_grant_present(g2, m, user_id));
}

/// What clearing a soft-delete marker does to the grant table: if the pair is
/// present its marker is cleared in place, otherwise nothing changes.
pub open spec fn restore_post(
    pre: Seq<AccessGrant>, post: Seq<AccessGrant>, media_id: i64, user_id: i64,
) -> bool {
    if grant_present(pre, media_id, user_id) {
        exists|i: int| 0 <= i < pre.len() && grant_matches(pre[i], media_id, user_id)
            && post == pre.update(i, AccessGrant { deleted_at: None, ..pre[i] })
    } else {
        post == pre
    }
}

/// What marking a grant deleted does to the grant table: if the pair is
/// present it gets a deletion timestamp in place, otherwise nothing changes.
pub open spec fn soft_delete_post(
    pre: Seq<AccessGrant>, post: Seq<AccessGrant>, media_id: i64, user_id: i64,
) -> bool {
    if grant_present(pre, media_id, user_id) {
        exists|i: int| 0 <= i < pre.len() && grant_matches(pre[i], media_id, user_id)
            && post[i].deleted_at is Some
            && post == pre.update(i, AccessGrant {
                deleted_at: post[i].deleted_at, ..pre[i]
            })
    } else {
        post == pre
    }
}

/// What insert-or-ignore does to the grant table.
pub open spec fn insert_grant_post(
    pre: Seq<AccessGrant>, post: Seq<AccessGrant>, media_id: i64, user_id: i64, level: i64,
) -> bool {
    if grant_present(pre, media_id, user_id) {
        post == pre
    } else {
        post == pre.push(AccessGrant {
            media_id,
            user_id,
            access_level: level,
            deleted_at: None,
        })
    }
}


pub open spec fn spec_lower_char(c: char) -> char {
    if 'A' <= c <= 'Z' { ((c as u8) + 32) as char } else { c }
}

/// The index of the last `.` in a path, or `-1` when it has none.
pub open spec fn spec_last_dot(s: Seq<char>) -> int
    decreases s.len(),
{
    if s.len() == 0 {
        -1
    } else if s.last() == '.' {
        s.len() - 1
    } else {
        spec_last_dot(s.drop_last())
    }
}

/// The lowercased extension of a path: what follows its last dot.
pub open spec fn spec_extension_lower(s: Seq<char>) -> Option<Seq<char>> {
    let d = spec_last_dot(s);
    if d < 0 {
        None
    } else {
        Some(s.skip(d + 1).map_values(|c: char| spec_lower_char(c)))
    }
}

/// Which kind of media a file name denotes, by its extension: the recognized
/// image and video extensions, anything else being unsupported.
pub open spec fn spec_media_kind_of(s: Seq<char>) -> Option<MediaKind> {
    match spec_extension_lower(s) {
        None => None,
        Some(e) => {
            if e == "jpg"@ || e == "jpeg"@ || e == "png"@ || e == "gif"@ || e == "bmp"@
                || e == "tiff"@ || e == "webp"@ || e == "heic"@ || e == "heif"@ {
                Some(MediaKind::Image)
            } else if e == "mp4"@ || e == "mov"@ || e == "avi"@ || e == "mkv"@
                || e == "webm"@ || e == "m4v"@ {
                Some(MediaKind::Video)
            } else {
                None
            }
        },
    }
}

proof fn lemma_last_dot_at(s: Seq<char>, d: int)
    requires
        0 <= d < s.len(),
        s[d] == '.',
        forall|j: int| d < j < s.len() ==> s[j] != '.',
    ensures
        spec_last_dot(s) == d,
    decreases s.len(),
{
    if d == s.len() - 1 {
    } else {
        assert(s.last() != '.');
        assert(s.drop_last()[d] == '.');
        lemma_last_dot_at(s.drop_last(), d);
    }
}

proof fn lemma_no_dot(s: Seq<char>)
    requires
        forall|j: int| 0 <= j < s.len() ==> s[j] != '.',
    ensures
        spec_last_dot(s) == -1,
    decreases s.len(),
{
    if s.len() > 0 {
        lemma_no_dot(s.drop_last());
    }
}

/// The lowercased extension of a file path: what follows its last dot.
pub fn extension_lower(file_path: &str) -> (r: Option<String>)
    ensures
        match r {
            Some(e) => spec_extension_lower(file_path@) == Some(e@),
            None => spec_extension_lower(file_path@) is None,
        },
{
    let n = file_path.unicode_len();
    let mut i: usize = n;
    while i > 0 && file_path.get_char(i - 1) != '.'
        invariant
            i <= n == file_path@.len(),
            forall|j: int| i <= j < n ==> file_path@[j] != '.',
        decreases i,
    {
        i = i - 1;
    }
    if i == 0 {
        proof {
            lemma_no_dot(file_path@);
        }
        return None;
    }
    let d = i - 1;
    proof {
        lemma_last_dot_at(file_path@, d as int);
    }
    let ghost target = file_path@.skip(d + 1).map_values(|c: char| spec_lower_char(c));
    let mut ext = String::new();
    let mut k: usize = d + 1;
    while k < n
        invariant
            d + 1 <= k <= n == file_path@.len(),
            target == file_path@.skip(d + 1).map_values(|c: char| spec_lower_char(c)),
            ext@.len() == k - d - 1,
            forall|j: int| 0 <= j < k - d - 1 ==> ext@[j] == target[j],
        decreases n - k,
    {
        let c = file_path.get_char(k);
        let lc = if c >= 'A' && c <= 'Z' { (((c as u8) + 32) as char) } else { c };
        assert(lc == spec_lower_char(file_path@[k as int]));
        crate::geo::push_char(&mut ext, lc);
        k = k + 1;
    }
    assert(ext@ =~= target);
    Some(ext)
}

/// The media kind of a file path, decided by its extension. Files without a
/// recognized image or video extension are not media and are skipped.
pub fn get_media_type(file_path: &str) -> (r: Option<MediaKind>)
    ensures
        r == spec_media_kind_of(file_path@),
{
    let ext = match extension_lower(file_path) {
        Some(e) => e,
        None => {
            return None;
        }
    };
    let e = ext.as_str();
    if str_eq(e, "jpg") || str_eq(e, "jpeg") || str_eq(e, "png") || str_eq(e, "gif")
        || str_eq(e, "bmp") || str_eq(e, "tiff") || str_eq(e, "webp") || str_eq(e, "heic")
        || str_eq(e, "heif") {
        Some(MediaKind::Image)
    } else if str_eq(e, "mp4") || str_eq(e, "mov") || str_eq(e, "avi") || str_eq(e, "mkv")
        || str_eq(e, "webm") || str_eq(e, "m4v") {
        Some(MediaKind::Video)
    } else {
        None
    }
}

/// A file qualifies for ingestion when its extension names a supported
/// image or video format.
pub fn is_supported_extension(file_path: &str) -> (r: bool)
    ensures
        r == (spec_media_kind_of(file_path@) is Some),
{
    get_media_type(file_path).is_some()
}

} // verus!

verus! {

impl MediaStore {
    fn find_record(&self, media_id: i64) -> (r: Option<usize>)
        ensures
            match r {
                Some(i) => i < self.records@.len() && self.records@[i as int].id == media_id,
                None => !record_id_present(self.records@, media_id),
            },
    {
        let mut i: usize = 0;
        while i < self.records.len()
            invariant
                i <= self.records@.len(),
                forall|j: int| 0 <= j < i ==> self.records@[j].id != media_id,
            decreases self.records@.len() - i,
        {
            if self.records[i].id == media_id {
                return Some(i);
            }
            i = i + 1;
        }
        None
    }

    /// Write a merged metadata bundle over an existing record, as the
    /// regeneration sweep does: the metadata columns take the bundle, the
    /// geohash is recomputed from the new coordinates, and the spatial index
    /// entry is dropped and re-made so it always mirrors the record's GPS.
    /// Returns false, changing nothing, when no record has the id.
    pub fn update_record_metadata(&mut self, media_id: i64, data: NewMediaData)
        -> (found: bool)
        requires
            old(self).wf(),
        ensures
            final(self).wf(),
            final(self).grants == old(self).grants,
            final(self).next_id == old(self).next_id,
            found == record_id_present(old(self).records@, media_id),
            !found ==> *final(self) == *old(self),
            found ==> {
                &&& final(self).records@.len() == old(self).records@.len()
                &&& exists|i: int| 0 <= i < old(self).records@.len()
                    && old(self).records@[i].id == media_id
                    && rec_after_update(old(self).records@[i], data,
                        #[trigger] final(self).records@[i])
                    && final(self).records@ == old(self).records@.update(i,
                        final(self).records@[i])
                &&& (data.gps_latitude_e6 is Some && data.gps_longitude_e6 is Some
                    ==> crate::spatial::has_point(final(self).rtree@, media_id as int,
                        data.gps_latitude_e6->0 as int, data.gps_longitude_e6->0 as int))
                &&& (!(data.gps_latitude_e6 is Some && data.gps_longitude_e6 is Some)
                    ==> !crate::spatial::contains_id(final(self).rtree@, media_id as int))
                &&& forall|id2: int| id2 != media_id
                    ==> (crate::spatial::contains_id(final(self).rtree@, id2)
                        <==> crate::spatial::contains_id(old(self).rtree@, id2))
            },
    {
        let idx = match self.find_record(media_id) {
            Some(i) => i,
            None => {
                return false;
            }
        };
        let old_rec = &self.records[idx];
        let geohash = match (data.gps_latitude_e6, data.gps_longitude_e6) {
            (Some(la), Some(lo)) => calculate_geohash(la, lo),
            _ => None,
        };
        let has_gps = data.gps_latitude_e6.is_some() && data.gps_longitude_e6.is_some();
        let gps_lat = data.gps_latitude_e6;
        let gps_lon = data.gps_longitude_e6;
        let new_rec = MediaRecord {
            id: old_rec.id,
            filename: old_rec.filename.clone(),
            original_filename: old_rec.original_filename.clone(),
            file_path: old_rec.file_path.clone(),
            thumbnail_path: clone_opt(&old_rec.thumbnail_path),
            media_type: old_rec.media_type,
            mime_type: clone_opt(&old_rec.mime_type),
            file_size: old_rec.file_size,
            content_hash: clone_opt(&old_rec.content_hash),
            created_at: old_rec.created_at.clone(),
            width: data.width,
            height: data.height,
            duration_ms: data.duration_ms,
            date_taken: data.date_taken,
            gps_latitude_e6: data.gps_latitude_e6,
            gps_longitude_e6: data.gps_longitude_e6,
            gps_altitude_e6: data.gps_altitude_e6,
            camera_make: data.camera_make,
            camera_model: data.camera_model,
            lens_make: data.lens_make,
            lens_model: data.lens_model,
            iso: data.iso,
            exposure_time: data.exposure_time,
            f_number_e6: data.f_number_e6,
            focal_length_e6: data.focal_length_e6,
            focal_length_35mm_e6: data.focal_length_35mm_e6,
            location_city: data.location_city,
            location_state: data.location_state,
            location_country: data.location_country,
            video_codec: data.video_codec,
            keywords: data.keywords,
            geohash,
        };
        self.records.set(idx, new_rec);
        proof {
            let pre = old(self).records@;
            let post = self.records@;
            assert(post == pre.update(idx as int, post[idx as int]));
            assert(rec_after_update(pre[idx as int], data, post[idx as int]));
            assert forall|p: int, q: int| 0 <= p < q < post.len()
                implies post[p].id != post[q].id by {
                assert(post[p].id == pre[p].id && post[q].id == pre[q].id);
            };
            assert forall|p: int, q: int| 0 <= p < q < post.len()
                && post[p].content_hash is Some && post[q].content_hash is Some
                implies post[p].content_hash->0@ != post[q].content_hash->0@ by {
                assert(post[p].content_hash == pre[p].content_hash);
                assert(post[q].content_hash == pre[q].content_hash);
            };
            assert forall|i: int| 0 <= i < self.grants@.len()
                implies record_id_present(post, #[trigger] self.grants@[i].media_id) by {
                let k = choose|k: int| 0 <= k < pre.len()
                    && pre[k].id == self.grants@[i].media_id;
                assert(post[k].id == pre[k].id);
            };
        }
        let ghost rtree_pre = self.rtree@;
        self.rtree.remove(media_id);
        let ghost rtree_mid = self.rtree@;
        if has_gps {
            let la = match gps_lat { Some(v) => v, None => 0 };
            let lo = match gps_lon { Some(v) => v, None => 0 };
            self.rtree.insert(media_id, la, lo);
        }
        proof {
            let pre = old(self).records@;
            let post = self.records@;
            let rt = self.rtree@;
            assert forall|i: int| 0 <= i < post.len() implies {
                let rec = #[trigger] post[i];
                &&& (rec.gps_latitude_e6 is Some && rec.gps_longitude_e6 is Some
                    ==> crate::spatial::has_point(rt, rec.id as int,
                        rec.gps_latitude_e6->0 as int, rec.gps_longitude_e6->0 as int))
                &&& (!(rec.gps_latitude_e6 is Some && rec.gps_longitude_e6 is Some)
                    ==> !crate::spatial::contains_id(rt, rec.id as int))
            } by {
                if i != idx {
                    assert(post[i] == pre[i]);
                    if i < idx {
                        assert(pre[i].id != pre[idx as int].id);
                    } else {
                        assert(pre[idx as int].id != pre[i].id);
                    }
                    assert(post[i].id != media_id);
                }
            };
            assert forall|id2: int| #[trigger] crate::spatial::contains_id(rt, id2)
                implies exists|i: int| 0 <= i < post.len() && post[i].id == id2 by {
                if id2 == media_id as int {
                    assert(post[idx as int].id == id2);
                } else {
                    assert(crate::spatial::contains_id(rtree_mid, id2));
                    assert(crate::spatial::contains_id(rtree_pre, id2));
                    let k = choose|k: int| 0 <= k < pre.len() && pre[k].id == id2;
                    assert(post[k].id == id2);
                }
            };
            assert(rtree_consistent(post, rt));
        }
        true
    }
}

} // verus!
