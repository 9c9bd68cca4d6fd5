use vstd::prelude::*;

verus! {

// The job-status and request/response shapes consumed by the HTTP layer,
// which is an external collaborator of this core. They carry plain values
// only; serialization lives with the collaborator.

#[derive(Debug, Clone)]
pub struct ImportStatusResponse {
    pub status: String,
    pub total_files: i64,
    pub processed_files: i64,
    pub successful_imports: i64,
    pub failed_imports: i64,
    pub started_at: Option<String>,
    pub completed_at: Option<String>,
    pub errors: Vec<String>,
}

#[derive(Debug, Clone)]
pub struct ImportTriggerResponse {
    pub message: String,
    pub status: String,
}

#[derive(Debug, Clone, Copy, PartialEq, Eq, Structural)]
pub struct RegenerateRequest {
    pub missing_only: bool,
}

#[derive(Debug, Clone)]
pub struct RegenerateResponse {
    pub message: String,
    pub status: String,
}

#[derive(Debug, Clone)]
pub struct RegenerationStatusResponse {
    pub status: String,
    pub total_media: i64,
    pub processed_media: i64,
    pub updated_metadata: i64,
    pub generated_thumbnails: i64,
    pub updated_tags: i64,
    pub started_at: Option<String>,
    pub completed_at: Option<String>,
    pub errors: Vec<String>,
}

#[derive(Debug, Clone)]
pub struct TokenResponse {
    pub access_token: String,
    pub refresh_token: String,
    pub token_type: String,
}

impl TokenResponse {
    pub fn new(access_token: String, refresh_token: String) -> (r: TokenResponse)
        ensures
            r.access_token == access_token,
            r.refresh_token == refresh_token,
            r.token_type@ == "bearer"@,
    {
        TokenResponse {
            access_token,
            refresh_token,
            token_type: "bearer".to_owned(),
        }
    }
}

#[derive(Debug, Clone)]
pub struct RefreshTokenRequest {
    pub refresh_token: String,
}

#[derive(Debug, Clone)]
pub struct LogoutRequest {
    pub refresh_token: String,
}

#[derive(Debug, Clone)]
pub struct ChangePasswordRequest {
    pub current_password: String,
    pub new_password: String,
}

#[derive(Debug, Clone)]
pub struct Claims {
    pub sub: String,
    pub username: String,
    pub role: String,
    pub exp: i64,
    pub token_type: String,
}

#[derive(Debug, Clone)]
pub struct CurrentUser {
    pub id: i64,
    pub username: String,
    pub email: String,
    pub role: String,
    pub must_change_password: bool,
}

#[derive(Debug, Clone)]
pub struct RequireAdmin {
    pub user: CurrentUser,
}

#[derive(Debug, Clone)]
pub struct WebDAVUser {
    pub id: i64,
    pub username: String,
}

#[derive(Debug, Clone)]
pub struct ServerConfig {
    pub host: String,
    pub port: u16,
    pub debug: bool,
}

#[derive(Debug, Clone)]
pub struct SecurityConfig {
    pub secret_key: String,
    pub algorithm: String,
    pub access_token_expire_minutes: i64,
    pub refresh_token_expire_days: i64,
}

#[derive(Debug, Clone)]
pub struct AdminConfig {
    pub username: String,
    pub password: String,
}

#[derive(Debug, Clone)]
pub struct WebDAVConfig {
    pub enabled: bool,
    pub hostname: String,
    pub username: String,
    pub password: String,
    pub remote_path: String,
}

#[derive(Debug, Clone, Copy, PartialEq, Eq, Structural)]
pub struct ThumbnailConfig {
    pub max_size: u32,
    pub tiny_size: u32,
    pub quality: u8,
    pub video_frame_quality: u8,
}

impl Default for ThumbnailConfig {
    fn default() -> (c: ThumbnailConfig)
        ensures
            c.max_size == 400 && c.tiny_size == 48 && c.quality == 85
                && c.video_frame_quality == 2,
    {
        ThumbnailConfig { max_size: 400, tiny_size: 48, quality: 85, video_frame_quality: 2 }
    }
}

#[derive(Debug, Clone, Copy, PartialEq, Eq, Structural)]
pub struct RegenerateConfig {
    pub num_cpus: usize,
}

/// What a local-import run needs to know: who owns the uploads, how
/// thumbnails are produced, whether sources are removed after success, and
/// the concurrency bound (zero means one permit per host core).
#[derive(Debug, Clone, Copy, PartialEq, Eq, Structural)]
pub struct ImportSettings {
    pub user_id: i64,
    pub thumbnails: ThumbnailConfig,
    pub delete_after_import: bool,
    pub concurrency: usize,
}

#[derive(Debug, Clone)]
pub struct AlbumResponse {
    pub id: i64,
    pub name: String,
    pub description: Option<String>,
    pub cover_media_id: Option<i64>,
    pub media_count: i64,
    pub created_at: String,
}

#[derive(Debug, Clone, Copy, PartialEq, Eq, Structural)]
pub struct AlbumGetRequest {
    pub album_id: i64,
}

#[derive(Debug, Clone)]
pub struct AlbumCreateRequest {
    pub name: String,
    pub description: Option<String>,
}

#[derive(Debug, Clone)]
pub struct AlbumUpdateRequest {
    pub album_id: i64,
    pub name: Option<String>,
    pub description: Option<String>,
}

#[derive(Debug, Clone, Copy, PartialEq, Eq, Structural)]
pub struct AlbumDeleteRequest {
    pub album_id: i64,
}

#[derive(Debug, Clone)]
pub struct AlbumAddMediaRequest {
    pub album_id: i64,
    pub media_ids: Vec<i64>,
}

#[derive(Debug, Clone)]
pub struct AlbumRemoveMediaRequest {
    pub album_id: i64,
    pub media_ids: Vec<i64>,
}

#[derive(Debug, Clone)]
pub struct AlbumReorderRequest {
    pub album_id: i64,
    pub media_ids: Vec<i64>,
}

#[derive(Debug, Clone)]
pub struct AlbumListResponse {
    pub albums: Vec<AlbumResponse>,
}

#[derive(Debug, Clone)]
pub struct MediaListRequest {
    pub cursor: Option<String>,
    pub limit: Option<i32>,
    pub group_by: Option<String>,
}

#[derive(Debug, Clone, Copy, PartialEq, Eq, Structural)]
pub struct MediaGetRequest {
    pub media_id: i64,
}

#[derive(Debug, Clone, Copy, PartialEq, Eq, Structural)]
pub struct MediaDeleteRequest {
    pub media_id: i64,
}

#[derive(Debug, Clone)]
pub struct DeleteMediaResponse {
    pub message: String,
}

#[derive(Debug, Clone)]
pub struct ThumbnailBatchRequest {
    pub media_ids: Vec<i64>,
}

#[derive(Debug, Clone)]
pub struct ThumbnailBatchResponse {
    pub thumbnails: Vec<(i64, Option<String>)>,
}

#[derive(Debug, Clone)]
pub struct PreviewBatchRequest {
    pub ids: Vec<i64>,
}

#[derive(Debug, Clone)]
pub struct PreviewBatchResponse {
    pub previews: Vec<(i64, Option<String>)>,
}

#[derive(Debug, Clone)]
pub struct TimelineListRequest {
    pub cursor: Option<String>,
    pub limit: i32,
    pub group_by: String,
}

#[derive(Debug, Clone)]
pub struct ShareLinkResponse {
    pub id: i64,
    pub token: String,
    pub media_id: Option<i64>,
    pub album_id: Option<i64>,
    pub has_password: bool,
    pub expires_at: Option<String>,
    pub view_count: i64,
    pub created_at: String,
}

#[derive(Debug, Clone)]
pub struct ShareCreateRequest {
    pub media_id: Option<i64>,
    pub album_id: Option<i64>,
    pub password: Option<String>,
    pub expires_in_days: Option<i32>,
}

#[derive(Debug, Clone, Copy, PartialEq, Eq, Structural)]
pub struct ShareDeleteRequest {
    pub share_id: i64,
}

#[derive(Debug, Clone)]
pub struct ShareListResponse {
    pub shares: Vec<ShareLinkResponse>,
}

#[derive(Debug, Clone)]
pub struct ShareVerifyRequest {
    pub token: String,
    pub password: Option<String>,
}

#[derive(Debug, Clone)]
pub struct TagResponse {
    pub id: i64,
    pub name: String,
    pub created_at: String,
}

#[derive(Debug, Clone)]
pub struct TagCreateRequest {
    pub name: String,
}

#[derive(Debug, Clone, Copy, PartialEq, Eq, Structural)]
pub struct TagDeleteRequest {
    pub tag_id: i64,
}

#[derive(Debug, Clone)]
pub struct TagAddToMediaRequest {
    pub tag_id: i64,
    pub media_ids: Vec<i64>,
}

#[derive(Debug, Clone)]
pub struct TagRemoveFromMediaRequest {
    pub tag_id: i64,
    pub media_ids: Vec<i64>,
}

#[derive(Debug, Clone)]
pub struct TagListResponse {
    pub tags: Vec<TagResponse>,
}

#[derive(Debug, Clone)]
pub struct TrashRestoreRequest {
    pub media_ids: Vec<i64>,
}

#[derive(Debug, Clone)]
pub struct TrashDeleteRequest {
    pub media_ids: Vec<i64>,
}

#[derive(Debug, Clone)]
pub struct TrashResponse {
    pub message: String,
    pub affected_count: i64,
}

#[derive(Debug, Clone)]
pub struct UserResponse {
    pub id: i64,
    pub username: String,
    pub email: String,
    pub role: String,
    pub must_change_password: bool,
    pub is_active: bool,
    pub created_at: String,
}

#[derive(Debug, Clone)]
pub struct UserCreateRequest {
    pub username: String,
    pub email: String,
    pub password: String,
    pub role: String,
}

#[derive(Debug, Clone)]
pub struct UserUpdateRequest {
    pub role: Option<String>,
    pub is_active: Option<bool>,
}

#[derive(Debug, Clone, Copy, PartialEq, Eq, Structural)]
pub struct UserDeleteRequest {
    pub user_id: i64,
}

#[derive(Debug, Clone)]
pub struct UserListResponse {
    pub users: Vec<UserResponse>,
}

/// A snapshot of the import job for the status surface.
pub fn import_status_response(job: &crate::jobs::import::ImportJob)
    -> (r: ImportStatusResponse)
    ensures
        job.status is Idle ==> r.status@ == "idle"@,
        job.status is Running ==> r.status@ == "running"@,
        job.status is Completed ==> r.status@ == "completed"@,
        job.status is Failed ==> r.status@ == "failed"@,
        job.status is Cancelled ==> r.status@ == "cancelled"@,
        r.total_files == job.total_files,
        r.processed_files == job.processed_files,
        r.successful_imports == job.successful_imports,
        r.failed_imports == job.failed_imports,
        r.started_at.deep_view() == job.started_at.deep_view(),
        r.completed_at.deep_view() == job.completed_at.deep_view(),
        r.errors.deep_view() == job.errors.deep_view(),
{
    let mut errors: Vec<String> = Vec::new();
    let mut i: usize = 0;
    while i < job.errors.len()
        invariant
            i <= job.errors@.len(),
            errors@.len() == i,
            forall|j: int| 0 <= j < i ==> errors@[j]@ == job.errors@[j]@,
        decreases job.errors@.len() - i,
    {
        errors.push(job.errors[i].clone());
        i = i + 1;
    }
    assert(errors.deep_view() =~= job.errors.deep_view());
    ImportStatusResponse {
        status: job.status.label(),
        total_files: job.total_files,
        processed_files: job.processed_files,
        successful_imports: job.successful_imports,
        failed_imports: job.failed_imports,
        started_at: match &job.started_at { Some(s) => Some(s.clone()), None => None },
        completed_at: match &job.completed_at { Some(s) => Some(s.clone()), None => None },
        errors,
    }
}

} // verus!
