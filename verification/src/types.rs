//! Records exchanged with the front end and the music service.
use vstd::prelude::*;

verus! {

/// How downloaded files are arranged in folders.
#[derive(Clone, Copy, Debug, PartialEq, Eq, Structural)]
pub enum OrganizeMode {
    Flat,
    Month,
    Week,
    MonthWeek,
}

impl Default for OrganizeMode {
    fn default() -> (m: OrganizeMode)
        ensures
            m == OrganizeMode::Flat,
    {
        OrganizeMode::Flat
    }
}

/// A clip of the user's library, as the service describes it.
pub struct Clip {
    pub id: String,
    pub title: Option<String>,
    pub created_at: Option<String>,
    pub audio_url: Option<String>,
    pub audio_url_wav: Option<String>,
    pub wav_url: Option<String>,
    pub wav_audio_url: Option<String>,
    pub master_wav_url: Option<String>,
    pub preview_wav_url: Option<String>,
}

pub fn copy_opt_text(s: &Option<String>) -> (r: Option<String>)
    ensures
        r == *s,
{
    match s {
        Some(t) => Some(t.clone()),
        None => None,
    }
}

impl Clip {
    /// An equal copy of the clip.
    pub fn duplicate(&self) -> (r: Clip)
        ensures
            r == *self,
    {
        Clip {
            id: self.id.clone(),
            title: copy_opt_text(&self.title),
            created_at: copy_opt_text(&self.created_at),
            audio_url: copy_opt_text(&self.audio_url),
            audio_url_wav: copy_opt_text(&self.audio_url_wav),
            wav_url: copy_opt_text(&self.wav_url),
            wav_audio_url: copy_opt_text(&self.wav_audio_url),
            master_wav_url: copy_opt_text(&self.master_wav_url),
            preview_wav_url: copy_opt_text(&self.preview_wav_url),
        }
    }
}

/// Counts of what a synchronisation did.
#[derive(Clone, Copy, Debug, PartialEq, Eq, Structural)]
pub struct SyncSummary {
    pub downloaded: u32,
    pub skipped: u32,
    pub filtered: u32,
    pub failed: u32,
    pub remote_count: u32,
    pub pending_count: u32,
}

impl Default for SyncSummary {
    fn default() -> (s: SyncSummary)
        ensures
            s == (SyncSummary {
                downloaded: 0,
                skipped: 0,
                filtered: 0,
                failed: 0,
                remote_count: 0,
                pending_count: 0,
            }),
    {
        SyncSummary {
            downloaded: 0,
            skipped: 0,
            filtered: 0,
            failed: 0,
            remote_count: 0,
            pending_count: 0,
        }
    }
}

/// What the front end asks a synchronisation to do.
pub struct SyncOptions {
    pub dir: Option<String>,
    pub delay: Option<u32>,
    pub dry_run: Option<bool>,
    pub max_pages: Option<u32>,
    pub organize: Option<OrganizeMode>,
    pub since: Option<String>,
}

/// One step of progress reported to the front end.
pub struct SyncProgressEvent {
    pub clip_id: String,
    pub title: String,
    pub status: String,
    pub message: Option<String>,
}

/// The saved settings.
pub struct AppSettings {
    pub output_dir: Option<String>,
    pub organize: Option<OrganizeMode>,
    pub delay: Option<u32>,
    pub max_pages: Option<u32>,
    pub since: Option<String>,
}

impl Default for AppSettings {
    fn default() -> (s: AppSettings)
        ensures
            s.output_dir is None,
            s.organize is None,
            s.delay is None,
            s.max_pages is None,
            s.since is None,
    {
        AppSettings { output_dir: None, organize: None, delay: None, max_pages: None, since: None }
    }
}

/// A clip of the remote library, with whether it is already downloaded.
pub struct LibraryClip {
    pub id: String,
    pub title: String,
    pub created_at: Option<String>,
    pub synced: bool,
}

/// The remote library listing.
pub struct LibraryListResult {
    pub clips: Vec<LibraryClip>,
    pub local_count: usize,
}

/// Whether the local token server answers, and where.
pub struct TokenServerStatus {
    pub running: bool,
    pub url: String,
    pub port: u16,
}

/// A clip that a synchronisation would download, and where it would go.
pub struct SyncPreviewItem {
    pub id: String,
    pub title: String,
    pub display_path: String,
}

/// The outcome of a dry run.
pub struct SyncPreviewResult {
    pub items: Vec<SyncPreviewItem>,
    pub summary: SyncSummary,
}

} // verus!
