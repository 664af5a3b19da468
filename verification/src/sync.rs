//! Synchronisation: which remote clips to download and where, the counts reported, and the
//! pause before asking the service for a WAV conversion. The downloads themselves, the progress
//! messages are handled by the caller, clip by clip, which reads the cancel flag before each.
use std::sync::atomic::{AtomicBool, Ordering};
use std::sync::Arc;
use vstd::prelude::*;
use crate::auth::AuthError;
use crate::date_filters::{clip_created, is_clip_created_after, pair_le, pair_of};
use crate::date_folders::{clip_output_parts, resolve_clip_output_dir};
use crate::local_index::{mark_clip_downloaded, sorted_index_ids};
use crate::text::{strictly_sorted};
use crate::settings::{default_max_pages, default_organize};
use crate::text::{chars_contain, chars_of, contains_text, string_of, trim, trim_chars, lowercase, to_lowercase};
use crate::text_set::{texts_of, TextSet};
use crate::time::Instant;
use crate::types::{AppSettings, Clip, LibraryClip, LibraryListResult, OrganizeMode, SyncOptions, SyncProgressEvent, SyncSummary};

verus! {

broadcast use vstd::string::group_string_axioms;

pub open spec fn untitled_text() -> Seq<char> {
    seq!['u', 'n', 't', 'i', 't', 'l', 'e', 'd']
}

/// A clip's display title: its title trimmed, or `untitled` when absent or blank.
pub open spec fn clip_title_of(clip: Clip) -> Seq<char> {
    match clip.title {
        Some(t) if trim(t@).len() > 0 => trim(t@),
        _ => untitled_text(),
    }
}

/// A clip's display title (see [`clip_title_of`]).
pub fn clip_title(clip: &Clip) -> (r: String)
    ensures
        r@ == clip_title_of(*clip),
{
    if let Some(t) = &clip.title {
        let trimmed = trim_chars(&chars_of(t.as_str()));
        if trimmed.len() > 0 {
            return string_of(&trimmed);
        }
    }
    let r = string_of(&['u', 'n', 't', 'i', 't', 'l', 'e', 'd']);
    assert(r@ =~= untitled_text());
    r
}

/// The clip is not excluded by the cut-off: there is none, or the clip was created at or after
/// it.
pub open spec fn within_cutoff(clip: Clip, cutoff: Option<Instant>) -> bool {
    match cutoff {
        None => true,
        Some(c) => clip_created(clip) matches Some(p) && pair_le(pair_of(c), p),
    }
}

/// The clips that the cut-off keeps, in order.
pub open spec fn kept_by_cutoff(clips: Seq<Clip>, cutoff: Option<Instant>) -> Seq<Clip>
    decreases clips.len(),
{
    if clips.len() == 0 {
        seq![]
    } else if within_cutoff(clips.last(), cutoff) {
        kept_by_cutoff(clips.drop_last(), cutoff).push(clips.last())
    } else {
        kept_by_cutoff(clips.drop_last(), cutoff)
    }
}

/// The listing entry for a clip.
pub open spec fn library_entry_of(item: LibraryClip, clip: Clip, local: Set<Seq<char>>) -> bool {
    &&& item.id == clip.id
    &&& item.title@ == clip_title_of(clip)
    &&& item.created_at == clip.created_at
    &&& item.synced == local.contains(lowercase(clip.id@))
}

/// A listing entry carries its clip's own id and creation text, the clip's display title, and
/// is marked synced exactly when the clip's lower-cased id is in the local index.
pub proof fn lemma_library_entry_fields(item: LibraryClip, clip: Clip, local: Set<Seq<char>>)
    requires
        library_entry_of(item, clip, local),
    ensures
        item.id == clip.id,
        item.created_at == clip.created_at,
        item.synced <==> local.contains(lowercase(clip.id@)),
        item.title@ == (match clip.title {
            Some(t) if trim(t@).len() > 0 => trim(t@),
            _ => seq!['u', 'n', 't', 'i', 't', 'l', 'e', 'd'],
        }),
{
}

/// The library listing: the clips the cut-off keeps, in order, each with its display title and
/// whether its id (lower-cased) is in the local index; and how many ids the index holds.
pub fn build_library_list(clips: Vec<Clip>, local_ids: &TextSet, cutoff: Option<&Instant>) -> (r: LibraryListResult)
    ensures
        r.local_count == local_ids.view().len(),
        ({
            let kept = kept_by_cutoff(clips@, match cutoff { Some(c) => Some(*c), None => None });
            &&& r.clips@.len() == kept.len()
            &&& forall|i: int| 0 <= i < kept.len() ==> library_entry_of(#[trigger] r.clips@[i], kept[i], local_ids.view())
            &&& forall|i: int| 0 <= i < kept.len() ==> #[trigger] r.clips@[i].created_at == kept[i].created_at
                && r.clips@[i].id == kept[i].id
        }),
{
    let ghost co = match cutoff { Some(c) => Some(*c), None => None };
    let mut items: Vec<LibraryClip> = Vec::new();
    let mut i: usize = 0;
    while i < clips.len()
        invariant
            i <= clips.len(),
            co == (match cutoff { Some(c) => Some(*c), None => None::<Instant> }),
            items@.len() == kept_by_cutoff(clips@.take(i as int), co).len(),
            forall|k: int| 0 <= k < items@.len() ==> library_entry_of(#[trigger] items@[k], kept_by_cutoff(clips@.take(i as int), co)[k], local_ids.view()),
        decreases clips.len() - i,
    {
        let clip = &clips[i];
        let ghost before = kept_by_cutoff(clips@.take(i as int), co);
        assert(clips@.take(i + 1).drop_last() =~= clips@.take(i as int));
        assert(clips@.take(i + 1).last() == *clip);
        let keep = match cutoff {
            None => true,
            Some(c) => is_clip_created_after(clip, c),
        };
        if keep {
            let lower = to_lowercase(clip.id.as_str());
            let item = LibraryClip {
                id: clip.id.clone(),
                title: clip_title(clip),
                created_at: crate::types::copy_opt_text(&clip.created_at),
                synced: local_ids.contains(&lower),
            };
            items.push(item);
            proof {
                let after = kept_by_cutoff(clips@.take(i + 1), co);
                assert(after == before.push(*clip));
                assert forall|k: int| 0 <= k < items@.len() implies library_entry_of(#[trigger] items@[k], after[k], local_ids.view()) by {
                    if k < before.len() {
                        assert(after[k] == before[k]);
                    }
                }
            }
        }
        i = i + 1;
    }
    assert(clips@.take(clips.len() as int) =~= clips@);
    LibraryListResult { clips: items, local_count: local_ids.len() }
}

/// The page limit, folder arrangement and "since" value a synchronisation uses: each from the
/// options when given, else from the settings (the page limit defaulting to 0 and the
/// arrangement to ISO weeks).
pub fn sync_choices(options: &SyncOptions, settings: &AppSettings) -> (r: (u32, OrganizeMode, Option<String>))
    ensures
        r.0 == (match options.max_pages {
            Some(m) => m,
            None => match settings.max_pages {
                Some(m) => m,
                None => 0,
            },
        }),
        r.1 == (match options.organize {
            Some(o) => o,
            None => match settings.organize {
                Some(o) => o,
                None => OrganizeMode::Week,
            },
        }),
        r.2 == (match options.since {
            Some(s) => Some(s),
            None => settings.since,
        }),
{
    let max_pages = match options.max_pages {
        Some(m) => m,
        None => default_max_pages(settings),
    };
    let organize = match options.organize {
        Some(o) => o,
        None => default_organize(settings),
    };
    let since = match &options.since {
        Some(s) => Some(s.clone()),
        None => crate::types::copy_opt_text(&settings.since),
    };
    (max_pages, organize, since)
}

/// How many of the clips are not in the local index (ids compared lower-cased).
pub open spec fn count_missing(clips: Seq<Clip>, local: Set<Seq<char>>) -> nat
    decreases clips.len(),
{
    if clips.len() == 0 {
        0
    } else {
        count_missing(clips.drop_last(), local) + if local.contains(lowercase(clips.last().id@)) {
            0nat
        } else {
            1nat
        }
    }
}

proof fn lemma_count_missing_bound(clips: Seq<Clip>, local: Set<Seq<char>>)
    ensures
        count_missing(clips, local) <= clips.len(),
    decreases clips.len(),
{
    if clips.len() > 0 {
        lemma_count_missing_bound(clips.drop_last(), local);
    }
}

/// The estimate of clips to download: the clips not in the local index, counted modulo 2^32.
pub fn pending_estimate(clips: &[Clip], local_ids: &TextSet) -> (n: u32)
    ensures
        n as int == count_missing(clips@, local_ids.view()) % 0x1_0000_0000,
{
    let mut count: usize = 0;
    let mut i: usize = 0;
    while i < clips.len()
        invariant
            i <= clips.len(),
            count == count_missing(clips@.take(i as int), local_ids.view()),
        decreases clips.len() - i,
    {
        assert(clips@.take(i + 1).drop_last() =~= clips@.take(i as int));
        proof {
            lemma_count_missing_bound(clips@.take(i as int), local_ids.view());
        }
        let lower = to_lowercase(clips[i].id.as_str());
        if !local_ids.contains(&lower) {
            count = count + 1;
        }
        i = i + 1;
    }
    assert(clips@.take(clips.len() as int) =~= clips@);
    let n = (count as u64 % 0x1_0000_0000) as u32;
    n
}

/// What becomes of a remote clip in a synchronisation.
#[derive(Clone, Copy, Debug, PartialEq, Eq, Structural)]
pub enum Disposition {
    /// Already downloaded.
    Skip,
    /// Created before the cut-off (or with no readable creation time while a cut-off is set).
    Filter,
    /// To be downloaded; a dry run only lists it.
    Preview,
    /// To be downloaded now.
    Download,
}

/// What becomes of a clip: skipped when its id (lower-cased) is in the local index, else
/// filtered when the cut-off excludes it, else listed (dry run) or downloaded.
pub open spec fn disposition(local: Set<Seq<char>>, cutoff: Option<Instant>, dry_run: bool, clip: Clip) -> Disposition {
    if local.contains(lowercase(clip.id@)) {
        Disposition::Skip
    } else if !within_cutoff(clip, cutoff) {
        Disposition::Filter
    } else if dry_run {
        Disposition::Preview
    } else {
        Disposition::Download
    }
}

/// The counts after one more clip of the given disposition.
pub open spec fn counted(s: SyncSummary, d: Disposition) -> SyncSummary {
    let t = SyncSummary { remote_count: (s.remote_count + 1) as u32, ..s };
    match d {
        Disposition::Skip => SyncSummary { skipped: (s.skipped + 1) as u32, ..t },
        Disposition::Filter => SyncSummary { filtered: (s.filtered + 1) as u32, ..t },
        _ => SyncSummary { pending_count: (s.pending_count + 1) as u32, ..t },
    }
}

/// A progress event with the given status text.
pub open spec fn event_is(e: SyncProgressEvent, clip_id: Seq<char>, title: Seq<char>, status: Seq<char>, message: Option<Seq<char>>) -> bool {
    &&& e.clip_id@ == clip_id
    &&& e.title@ == title
    &&& e.status@ == status
    &&& match e.message {
        Some(m) => message == Some(m@),
        None => message is None,
    }
}

/// The step to take for a clip.
pub enum ClipDecision {
    /// Report the event and go on.
    Report(SyncProgressEvent),
    /// The clip was listed by the dry run (see [`SyncRun::finish`]).
    Preview,
    /// Report the event, then download the clip under the display title into the target
    /// folder, and report the outcome with [`SyncRun::record_download`].
    Download { event: SyncProgressEvent, title: String, target_dir: Vec<String> },
}

/// A clip a dry run lists: its id, display title and target folder (as path parts).
pub struct PreviewEntry {
    pub id: String,
    pub title: String,
    pub target_dir: Vec<String>,
}

/// The entry lists the clip with the given id, display title and target folder.
pub open spec fn preview_entry_is(e: PreviewEntry, id: Seq<char>, title: Seq<char>, dir: Seq<Seq<char>>) -> bool {
    e.id@ == id && e.title@ == title && texts_of(e.target_dir@) == dir
}

/// The counters of a run, updated together.
#[derive(Clone, Copy)]
struct Tally {
    summary: SyncSummary,
    conversions_done: u32,
    previewed: u32,
    awaiting: bool,
}

/// How many of the decisions are `k`.
pub open spec fn count_of(ds: Seq<Disposition>, k: Disposition) -> nat
    decreases ds.len(),
{
    if ds.len() == 0 {
        0
    } else {
        count_of(ds.drop_last(), k) + if ds.last() == k { 1nat } else { 0nat }
    }
}

/// The counters of a run, the entries a dry run has listed, and, for each clip examined, what
/// was decided and the local index it was decided against.
struct Progress {
    tally: Tally,
    previews: Vec<PreviewEntry>,
    decided: Ghost<Seq<Disposition>>,
    index_at: Ghost<Seq<Set<Seq<char>>>>,
}

impl Progress {
    /// No clip seen yet.
    fn zero() -> (p: Progress)
        ensures
            p.tally.summary == (SyncSummary { downloaded: 0, skipped: 0, filtered: 0, failed: 0, remote_count: 0, pending_count: 0 }),
            p.tally.conversions_done == 0,
            p.tally.previewed == 0,
            !p.tally.awaiting,
            p.previews@.len() == 0,
            p.decided@.len() == 0,
            p.index_at@.len() == 0,
    {
        Progress {
            tally: Tally {
                summary: SyncSummary { downloaded: 0, skipped: 0, filtered: 0, failed: 0, remote_count: 0, pending_count: 0 },
                conversions_done: 0,
                previewed: 0,
                awaiting: false,
            },
            previews: Vec::new(),
            decided: Ghost(Seq::empty()),
            index_at: Ghost(Seq::empty()),
        }
    }
}

/// The state of a synchronisation run.
pub struct SyncRun {
    output_dir: String,
    organize: OrganizeMode,
    cutoff: Option<Instant>,
    dry_run: bool,
    pending_estimate: u32,
    total: usize,
    fetched: Ghost<Seq<Clip>>,
    start_local: Ghost<Set<Seq<char>>>,
    progress: Progress,
    local_ids: TextSet,
}

impl SyncRun {
    pub closed spec fn summary(self) -> SyncSummary {
        self.progress.tally.summary
    }

    pub closed spec fn local(self) -> Set<Seq<char>> {
        self.local_ids.view()
    }

    pub closed spec fn cutoff(self) -> Option<Instant> {
        self.cutoff
    }

    pub closed spec fn dry_run(self) -> bool {
        self.dry_run
    }

    pub closed spec fn output_dir(self) -> Seq<char> {
        self.output_dir@
    }

    pub closed spec fn organize(self) -> OrganizeMode {
        self.organize
    }

    /// Clips listed by a dry run so far.
    pub closed spec fn previewed(self) -> int {
        self.progress.tally.previewed as int
    }

    /// The entries listed by a dry run so far, in order.
    pub closed spec fn previews(self) -> Seq<PreviewEntry> {
        self.progress.previews@
    }

    /// How many remote clips the run was made for.
    pub closed spec fn total(self) -> int {
        self.total as int
    }

    /// The remote clips the run was made for, to be examined in this order.
    pub closed spec fn fetched(self) -> Seq<Clip> {
        self.fetched@
    }

    /// The local index the run started with.
    pub closed spec fn start_local(self) -> Set<Seq<char>> {
        self.start_local@
    }

    /// What was decided for each clip examined so far, in order.
    pub closed spec fn decided(self) -> Seq<Disposition> {
        self.progress.decided@
    }

    /// The local index each clip examined so far was decided against.
    pub closed spec fn index_at(self) -> Seq<Set<Seq<char>>> {
        self.progress.index_at@
    }

    /// WAV conversions waited for so far.
    pub closed spec fn conversions_done(self) -> int {
        self.progress.tally.conversions_done as int
    }

    pub closed spec fn pending_estimate(self) -> int {
        self.pending_estimate as int
    }

    /// A download was decided and its outcome not yet recorded.
    pub closed spec fn awaiting(self) -> bool {
        self.progress.tally.awaiting
    }

    /// The counts always add up: every remote clip seen is skipped, filtered or pending; every
    /// pending clip is listed, downloaded, failed or being downloaded.
    #[verifier::type_invariant]
    closed spec fn inv(self) -> bool {
        let t = self.progress.tally;
        let s = t.summary;
        &&& s.remote_count == s.skipped + s.filtered + s.pending_count
        &&& s.remote_count <= self.total
        &&& s.pending_count == s.downloaded + s.failed + t.previewed + if t.awaiting { 1int } else { 0int }
        &&& self.progress.previews@.len() == t.previewed
        &&& t.conversions_done <= s.downloaded
        &&& self.dry_run ==> s.downloaded == 0 && s.failed == 0 && !t.awaiting
        &&& !self.dry_run ==> t.previewed == 0
        &&& self.fetched@.len() == self.total
        &&& self.progress.decided@.len() == s.remote_count
        &&& self.progress.index_at@.len() == s.remote_count
        &&& s.skipped == count_of(self.progress.decided@, Disposition::Skip)
        &&& s.filtered == count_of(self.progress.decided@, Disposition::Filter)
        &&& t.previewed == count_of(self.progress.decided@, Disposition::Preview)
        &&& s.downloaded + s.failed + (if t.awaiting { 1int } else { 0int }) == count_of(self.progress.decided@, Disposition::Download)
        &&& forall|i: int| 0 <= i < s.remote_count ==> #[trigger] self.progress.decided@[i] == disposition(
            self.progress.index_at@[i],
            self.cutoff,
            self.dry_run,
            self.fetched@[i],
        )
        &&& forall|i: int| 0 <= i < s.remote_count ==> self.start_local@.subset_of(#[trigger] self.progress.index_at@[i])
            && self.progress.index_at@[i].subset_of(self.local_ids.view())
        &&& self.start_local@.subset_of(self.local_ids.view())
    }

    /// A run over the given remote clips (used for the pending estimate) and local index.
    pub fn new(output_dir: String, organize: OrganizeMode, cutoff: Option<Instant>, dry_run: bool, clips: &[Clip], local_ids: TextSet) -> (r: SyncRun)
        ensures
            r.summary() == (SyncSummary { downloaded: 0, skipped: 0, filtered: 0, failed: 0, remote_count: 0, pending_count: 0 }),
            r.local() == local_ids.view(),
            r.cutoff() == cutoff,
            r.dry_run() == dry_run,
            r.output_dir() == output_dir@,
            r.organize() == organize,
            r.previewed() == 0,
            r.previews() == Seq::<PreviewEntry>::empty(),
            r.total() == clips@.len(),
            r.fetched() == clips@,
            r.start_local() == local_ids.view(),
            r.decided() == Seq::<Disposition>::empty(),
            r.conversions_done() == 0,
            r.pending_estimate() == count_missing(clips@, local_ids.view()) % 0x1_0000_0000,
            !r.awaiting(),
    {
        let estimate = pending_estimate(clips, &local_ids);
        SyncRun {
            output_dir,
            organize,
            cutoff,
            dry_run,
            pending_estimate: estimate,
            total: clips.len(),
            fetched: Ghost(clips@),
            start_local: Ghost(local_ids.view()),
            progress: Progress::zero(),
            local_ids,
        }
    }

    /// The counts so far. They add up: every remote clip seen is skipped, filtered or pending,
    /// and every pending clip is listed (dry run), downloaded, failed, or being downloaded.
    pub fn current_summary(&self) -> (s: SyncSummary)
        ensures
            s == self.summary(),
            s.remote_count == s.skipped + s.filtered + s.pending_count,
            s.remote_count <= self.total(),
            s.pending_count == s.downloaded + s.failed + self.previewed() + if self.awaiting() { 1int } else { 0int },
            self.previews().len() == self.previewed(),
            self.conversions_done() <= s.downloaded,
            self.dry_run() ==> s.downloaded == 0 && s.failed == 0,
    {
        proof {
            use_type_invariant(self);
        }
        self.progress.tally.summary
    }

    /// Ends the run: the counts and the entries the dry run listed, in order. Over the whole run:
    /// the clips examined are the first fetched ones, in order, no more than were fetched; each
    /// was skipped exactly when its lower-cased id was in the local index it was examined
    /// against (the starting index and the ids recorded since), else filtered when the cut-off
    /// excludes it, else pending (see [`disposition`]); the counts are the numbers of those
    /// decisions and add up; a dry run lists exactly its pending clips and downloads nothing; a
    /// real run lists nothing, and once no download awaits its outcome every pending clip was
    /// downloaded or failed.
    pub fn finish(self) -> (r: (SyncSummary, Vec<PreviewEntry>))
        ensures
            r.0 == self.summary(),
            r.1@ == self.previews(),
            r.0.remote_count == r.0.skipped + r.0.filtered + r.0.pending_count,
            r.0.remote_count <= self.total(),
            self.dry_run() ==> r.1@.len() == r.0.pending_count && r.0.downloaded == 0 && r.0.failed == 0,
            !self.dry_run() ==> r.1@.len() == 0,
            !self.dry_run() && !self.awaiting() ==> r.0.pending_count == r.0.downloaded + r.0.failed,
            r.0.remote_count == self.decided().len(),
            self.index_at().len() == self.decided().len(),
            forall|i: int| 0 <= i < self.decided().len() ==> #[trigger] self.decided()[i] == disposition(
                self.index_at()[i],
                self.cutoff(),
                self.dry_run(),
                self.fetched()[i],
            ),
            forall|i: int| 0 <= i < self.decided().len() ==> self.start_local().subset_of(#[trigger] self.index_at()[i])
                && self.index_at()[i].subset_of(self.local()),
            r.0.skipped == count_of(self.decided(), Disposition::Skip),
            r.0.filtered == count_of(self.decided(), Disposition::Filter),
            r.0.pending_count == count_of(self.decided(), Disposition::Preview) + count_of(self.decided(), Disposition::Download),
            r.1@.len() == count_of(self.decided(), Disposition::Preview),
            !self.awaiting() ==> r.0.downloaded + r.0.failed == count_of(self.decided(), Disposition::Download),
    {
        proof {
            use_type_invariant(&self);
        }
        let SyncRun { progress, .. } = self;
        (progress.tally.summary, progress.previews)
    }

    /// WAV conversions waited for so far, and the pending estimate.
    pub fn delay_inputs(&self) -> (r: (u32, u32))
        ensures
            r.0 == self.conversions_done(),
            r.1 == self.pending_estimate(),
    {
        (self.progress.tally.conversions_done, self.pending_estimate)
    }

    /// The local index as it stands.
    pub fn local_ids(&self) -> (r: &TextSet)
        ensures
            r.view() == self.local(),
    {
        &self.local_ids
    }

    /// Decides what to do with the next remote clip (see [`disposition`]) and counts it.
    pub fn decide(&mut self, clip: &Clip) -> (d: ClipDecision)
        requires
            !old(self).awaiting(),
            old(self).summary().remote_count < u32::MAX,
            old(self).summary().remote_count < old(self).total(),
            *clip == old(self).fetched()[old(self).summary().remote_count as int],
        ensures
            ({
                let k = disposition(old(self).local(), old(self).cutoff(), old(self).dry_run(), *clip);
                let title = clip_title_of(*clip);
                let dir = clip_output_parts(old(self).output_dir(), match clip.created_at { Some(c) => Some(c@), None => None }, old(self).organize());
                &&& final(self).summary() == counted(old(self).summary(), k)
                &&& final(self).local() == old(self).local()
                &&& final(self).cutoff() == old(self).cutoff()
                &&& final(self).dry_run() == old(self).dry_run()
                &&& final(self).output_dir() == old(self).output_dir()
                &&& final(self).organize() == old(self).organize()
                &&& final(self).conversions_done() == old(self).conversions_done()
                &&& final(self).pending_estimate() == old(self).pending_estimate()
                &&& final(self).awaiting() == (k == Disposition::Download)
                &&& final(self).previewed() == old(self).previewed() + if k == Disposition::Preview { 1int } else { 0int }
                &&& final(self).total() == old(self).total()
                &&& final(self).fetched() == old(self).fetched()
                &&& final(self).start_local() == old(self).start_local()
                &&& final(self).decided() == old(self).decided().push(k)
                &&& final(self).index_at() == old(self).index_at().push(old(self).local())
                &&& (k != Disposition::Preview ==> final(self).previews() == old(self).previews())
                &&& (k == Disposition::Preview ==> final(self).previews().len() == old(self).previews().len() + 1
                    && final(self).previews().drop_last() == old(self).previews()
                    && preview_entry_is(final(self).previews().last(), clip.id@, title, dir))
                &&& match k {
                    Disposition::Skip => d matches ClipDecision::Report(e) && event_is(e, clip.id@, title, "skipped"@, None),
                    Disposition::Filter => d matches ClipDecision::Report(e) && event_is(e, clip.id@, title, "filtered"@, None),
                    Disposition::Preview => d is Preview,
                    Disposition::Download => d matches ClipDecision::Download { event, title: t, target_dir } && event_is(event, clip.id@, title, "downloading"@, None) && t@ == title && texts_of(target_dir@) == dir,
                }
            }),
    {
        proof {
            use_type_invariant(&*self);
        }
        let clip_id = to_lowercase(clip.id.as_str());
        let title = clip_title(clip);
        let created = match &clip.created_at {
            Some(c) => Some(c.as_str()),
            None => None,
        };
        let target_dir = resolve_clip_output_dir(self.output_dir.as_str(), created, &self.organize);
        let t = self.progress.tally;
        let s = t.summary;
        let ghost local_now = self.local_ids.view();
        let ghost k = disposition(local_now, self.cutoff, self.dry_run, *clip);
        let (counted, entry, decision) = if self.local_ids.contains(&clip_id) {
            (
                Tally { summary: SyncSummary { remote_count: s.remote_count + 1, skipped: s.skipped + 1, ..s }, ..t },
                None,
                ClipDecision::Report(progress_event(clip, title, "skipped", None)),
            )
        } else if match &self.cutoff {
            Some(cutoff) => !is_clip_created_after(clip, cutoff),
            None => false,
        } {
            (
                Tally { summary: SyncSummary { remote_count: s.remote_count + 1, filtered: s.filtered + 1, ..s }, ..t },
                None,
                ClipDecision::Report(progress_event(clip, title, "filtered", None)),
            )
        } else if self.dry_run {
            (
                Tally {
                    summary: SyncSummary { remote_count: s.remote_count + 1, pending_count: s.pending_count + 1, ..s },
                    previewed: t.previewed + 1,
                    ..t
                },
                Some(PreviewEntry { id: clip.id.clone(), title, target_dir }),
                ClipDecision::Preview,
            )
        } else {
            let event = progress_event(clip, title.clone(), "downloading", None);
            (
                Tally {
                    summary: SyncSummary { remote_count: s.remote_count + 1, pending_count: s.pending_count + 1, ..s },
                    awaiting: true,
                    ..t
                },
                None,
                ClipDecision::Download { event, title, target_dir },
            )
        };
        let mut progress = Progress::zero();
        std::mem::swap(&mut progress, &mut self.progress);
        let ghost old_decided = progress.decided@;
        let ghost old_index = progress.index_at@;
        if let Some(e) = entry {
            progress.previews.push(e);
        }
        progress.tally = counted;
        progress.decided = Ghost(old_decided.push(k));
        progress.index_at = Ghost(old_index.push(local_now));
        proof {
            assert(progress.decided@.drop_last() =~= old_decided);
        }
        self.progress = progress;
        decision
    }
}

impl SyncRun {
    /// Records a clip as downloaded (its id, lower-cased, joins the local index) and returns
    /// the index's ids in ascending order, as the index file lists them.
    pub fn mark_downloaded(&mut self, clip_id: &str) -> (ids: Vec<String>)
        ensures
            final(self).local() == old(self).local().insert(lowercase(clip_id@)),
            final(self).summary() == old(self).summary(),
            final(self).awaiting() == old(self).awaiting(),
            final(self).previewed() == old(self).previewed(),
            final(self).previews() == old(self).previews(),
            final(self).total() == old(self).total(),
            final(self).fetched() == old(self).fetched(),
            final(self).start_local() == old(self).start_local(),
            final(self).decided() == old(self).decided(),
            final(self).index_at() == old(self).index_at(),
            final(self).conversions_done() == old(self).conversions_done(),
            final(self).cutoff() == old(self).cutoff(),
            final(self).dry_run() == old(self).dry_run(),
            final(self).output_dir() == old(self).output_dir(),
            final(self).organize() == old(self).organize(),
            final(self).pending_estimate() == old(self).pending_estimate(),
            strictly_sorted(texts_of(ids@)),
            texts_of(ids@).to_set() == final(self).local(),
    {
        proof {
            use_type_invariant(&*self);
        }
        let mut local = TextSet::from_vec(self.local_ids.to_vec());
        mark_clip_downloaded(clip_id, &mut local);
        proof {
            assert(local.view() =~= self.local_ids.view().insert(lowercase(clip_id@)));
        }
        self.local_ids = local;
        sorted_index_ids(&self.local_ids)
    }

    /// Records the outcome of the download decided last. A success counts as downloaded (and as
    /// a conversion when one was waited for) and reports `done` with the saved file's path; a
    /// failure counts as failed and reports `failed` with the error, and the run must stop
    /// with that error when it mentions the session (`セッション`).
    pub fn record_download(&mut self, clip: &Clip, title: String, outcome: Result<(String, bool), AuthError>) -> (r: (SyncProgressEvent, Option<String>))
        requires
            old(self).awaiting(),
        ensures
            !final(self).awaiting(),
            final(self).local() == old(self).local(),
            final(self).cutoff() == old(self).cutoff(),
            final(self).dry_run() == old(self).dry_run(),
            final(self).output_dir() == old(self).output_dir(),
            final(self).organize() == old(self).organize(),
            final(self).previewed() == old(self).previewed(),
            final(self).previews() == old(self).previews(),
            final(self).total() == old(self).total(),
            final(self).fetched() == old(self).fetched(),
            final(self).start_local() == old(self).start_local(),
            final(self).decided() == old(self).decided(),
            final(self).index_at() == old(self).index_at(),
            final(self).pending_estimate() == old(self).pending_estimate(),
            match outcome {
                Ok((path, converted)) => {
                    &&& final(self).summary() == (SyncSummary { downloaded: (old(self).summary().downloaded + 1) as u32, ..old(self).summary() })
                    &&& final(self).conversions_done() == old(self).conversions_done() + if converted { 1int } else { 0int }
                    &&& event_is(r.0, clip.id@, title@, "done"@, Some(path@))
                    &&& r.1 is None
                },
                Err(AuthError::Message(m)) => {
                    &&& final(self).summary() == (SyncSummary { failed: (old(self).summary().failed + 1) as u32, ..old(self).summary() })
                    &&& final(self).conversions_done() == old(self).conversions_done()
                    &&& event_is(r.0, clip.id@, title@, "failed"@, Some(m@))
                    &&& (if contains_text(m@, "セッション"@) { r.1 == Some(m) } else { r.1 is None })
                },
            },
    {
        proof {
            use_type_invariant(&*self);
        }
        let t = self.progress.tally;
        let s = t.summary;
        match outcome {
            Ok((path, converted)) => {
                let conversions_done = if converted { t.conversions_done + 1 } else { t.conversions_done };
                self.progress.tally = Tally {
                    summary: SyncSummary { downloaded: s.downloaded + 1, ..s },
                    conversions_done,
                    awaiting: false,
                    ..t
                };
                (progress_event(clip, title, "done", Some(path)), None)
            },
            Err(AuthError::Message(m)) => {
                self.progress.tally = Tally {
                    summary: SyncSummary { failed: s.failed + 1, ..s },
                    awaiting: false,
                    ..t
                };
                let abort = if chars_contain(&chars_of(m.as_str()), &chars_of("セッション")) {
                    Some(m.clone())
                } else {
                    None
                };
                (progress_event(clip, title, "failed", Some(m)), abort)
            },
        }
    }
}

/// Seconds added for the size of the batch: none up to 15 pending clips, 3 up to 40, 6 up to
/// 80, 10 beyond.
pub open spec fn batch_extra(pending: int) -> int {
    if pending <= 15 {
        0
    } else if pending <= 40 {
        3
    } else if pending <= 80 {
        6
    } else {
        10
    }
}

/// Seconds added for progress: one per five conversions already waited for, at most 20.
pub open spec fn progress_extra(done: int) -> int {
    if done / 5 < 20 {
        done / 5
    } else {
        20
    }
}

/// The pause before a WAV conversion: from `5 + extra` to `15 + extra` seconds, picked by
/// `nanos` (the clock's nanoseconds) modulo 11.
pub open spec fn conversion_delay(nanos: int, done: int, pending: int) -> int {
    let extra = batch_extra(pending) + progress_extra(done);
    5 + extra + nanos % 11
}

/// The counts of a dry run over `clips`, each decided in turn against the same local index.
pub open spec fn dry_run_summary(local: Set<Seq<char>>, cutoff: Option<Instant>, clips: Seq<Clip>) -> SyncSummary
    decreases clips.len(),
{
    if clips.len() == 0 {
        SyncSummary { downloaded: 0, skipped: 0, filtered: 0, failed: 0, remote_count: 0, pending_count: 0 }
    } else {
        counted(dry_run_summary(local, cutoff, clips.drop_last()), disposition(local, cutoff, true, clips.last()))
    }
}

/// The clips a dry run lists, in order: those neither in the local index nor excluded by the
/// cut-off.
pub open spec fn dry_run_listed(local: Set<Seq<char>>, cutoff: Option<Instant>, clips: Seq<Clip>) -> Seq<Clip>
    decreases clips.len(),
{
    if clips.len() == 0 {
        seq![]
    } else if disposition(local, cutoff, true, clips.last()) == Disposition::Preview {
        dry_run_listed(local, cutoff, clips.drop_last()).push(clips.last())
    } else {
        dry_run_listed(local, cutoff, clips.drop_last())
    }
}

/// The entries list the clips, each with its id, display title and target folder.
pub open spec fn entries_list(entries: Seq<PreviewEntry>, clips: Seq<Clip>, output_dir: Seq<char>, organize: OrganizeMode) -> bool {
    &&& entries.len() == clips.len()
    &&& forall|i: int| 0 <= i < clips.len() ==> preview_entry_is(
        #[trigger] entries[i],
        clips[i].id@,
        clip_title_of(clips[i]),
        clip_output_parts(output_dir, match clips[i].created_at { Some(c) => Some(c@), None => None }, organize),
    )
}

proof fn lemma_dry_run_counts(local: Set<Seq<char>>, cutoff: Option<Instant>, clips: Seq<Clip>)
    requires
        clips.len() < u32::MAX,
    ensures
        ({
            let s = dry_run_summary(local, cutoff, clips);
            &&& s.remote_count == clips.len()
            &&& s.remote_count == s.skipped + s.filtered + s.pending_count
            &&& s.pending_count == dry_run_listed(local, cutoff, clips).len()
            &&& s.downloaded == 0 && s.failed == 0
        }),
    decreases clips.len(),
{
    if clips.len() > 0 {
        lemma_dry_run_counts(local, cutoff, clips.drop_last());
    }
}

/// A dry run over all the clips: each is decided in turn (see [`disposition`]) against the
/// same local index. Every clip is counted once; the clips whose lower-cased id is in the index
/// are skipped, the others that the cut-off excludes are filtered, and the rest are pending and
/// listed, in order, with their display title and target folder; nothing is downloaded.
pub fn dry_run_over(output_dir: String, organize: OrganizeMode, cutoff: Option<Instant>, clips: &[Clip], local_ids: TextSet) -> (r: (SyncSummary, Vec<PreviewEntry>))
    requires
        clips@.len() < u32::MAX,
    ensures
        r.0 == dry_run_summary(local_ids.view(), cutoff, clips@),
        entries_list(r.1@, dry_run_listed(local_ids.view(), cutoff, clips@), output_dir@, organize),
        r.0.remote_count == clips@.len(),
        r.0.remote_count == r.0.skipped + r.0.filtered + r.0.pending_count,
        r.1@.len() == r.0.pending_count,
        r.0.downloaded == 0 && r.0.failed == 0,
{
    let ghost local = local_ids.view();
    let ghost dir = output_dir@;
    let mut run = SyncRun::new(output_dir, organize, cutoff, true, clips, local_ids);
    let mut i: usize = 0;
    proof {
        assert(clips@.take(0) =~= Seq::<Clip>::empty());
        assert(run.summary() == dry_run_summary(local, cutoff, clips@.take(0)));
    }
    while i < clips.len()
        invariant
            i <= clips.len(),
            clips@.len() < u32::MAX,
            run.local() == local,
            run.cutoff() == cutoff,
            run.dry_run(),
            run.output_dir() == dir,
            run.organize() == organize,
            run.total() == clips@.len(),
            run.fetched() == clips@,
            !run.awaiting(),
            run.summary() == dry_run_summary(local, cutoff, clips@.take(i as int)),
            run.summary().remote_count == i,
            entries_list(run.previews(), dry_run_listed(local, cutoff, clips@.take(i as int)), dir, organize),
        decreases clips.len() - i,
    {
        let ghost before = run.previews();
        let ghost prefix = clips@.take(i as int);
        let ghost next = clips@.take(i + 1);
        assert(next.drop_last() =~= prefix);
        assert(next.last() == clips@[i as int]);
        proof {
            lemma_dry_run_counts(local, cutoff, prefix);
        }
        let _ = run.decide(&clips[i]);
        proof {
            let k = disposition(local, cutoff, true, clips@[i as int]);
            assert(k != Disposition::Download);
            let l0 = dry_run_listed(local, cutoff, prefix);
            let l1 = dry_run_listed(local, cutoff, next);
            if k == Disposition::Preview {
                assert(l1 == l0.push(clips@[i as int]));
                assert forall|j: int| 0 <= j < l1.len() implies preview_entry_is(
                    #[trigger] run.previews()[j],
                    l1[j].id@,
                    clip_title_of(l1[j]),
                    clip_output_parts(dir, match l1[j].created_at { Some(c) => Some(c@), None => None }, organize),
                ) by {
                    if j < l0.len() {
                        assert(run.previews()[j] == run.previews().drop_last()[j]);
                        assert(l1[j] == l0[j]);
                    }
                }
            } else {
                assert(l1 == l0);
            }
        }
        i = i + 1;
    }
    assert(clips@.take(clips@.len() as int) =~= clips@);
    proof {
        lemma_dry_run_counts(local, cutoff, clips@);
    }
    run.finish()
}

/// The pause, in seconds, before a WAV conversion, for the given clock reading (see
/// [`conversion_delay`]). It lies between 5 and 45 seconds.
pub fn conversion_delay_at(nanos: u64, conversions_done: u32, pending_estimate: u32) -> (secs: u64)
    ensures
        secs == conversion_delay(nanos as int, conversions_done as int, pending_estimate as int),
        5 <= secs <= 45,
        5 + batch_extra(pending_estimate as int) + progress_extra(conversions_done as int) <= secs <= 15 + batch_extra(pending_estimate as int) + progress_extra(conversions_done as int),
{
    let batch_extra: u64 = if pending_estimate <= 15 {
        0
    } else if pending_estimate <= 40 {
        3
    } else if pending_estimate <= 80 {
        6
    } else {
        10
    };
    let steps = (conversions_done as u64) / 5;
    let progress_extra: u64 = if steps < 20 { steps } else { 20 };
    let extra = batch_extra + progress_extra;
    let min = 5 + extra;
    let max = 10 + extra + 5;
    let span = max - min + 1;
    min + (nanos % span)
}

/// Nanoseconds since the UNIX epoch by the system clock, truncated to 64 bits (0 if the clock
/// is before the epoch). Nothing is claimed of the value.
#[verifier::external_body]
fn clock_nanos() -> (n: u64) {
    std::time::SystemTime::now()
        .duration_since(std::time::UNIX_EPOCH)
        .unwrap_or_default()
        .as_nanos() as u64
}

/// The pause, in seconds, before a WAV conversion, picked by the current clock reading; always
/// between `5 + extra` and `15 + extra` (see [`conversion_delay`]).
pub fn wav_conversion_delay_secs(conversions_done: u32, pending_estimate: u32) -> (secs: u64)
    ensures
        5 + batch_extra(pending_estimate as int) + progress_extra(conversions_done as int) <= secs <= 15 + batch_extra(pending_estimate as int) + progress_extra(conversions_done as int),
{
    let nanos = clock_nanos();
    conversion_delay_at(nanos, conversions_done, pending_estimate)
}

/// A clip recorded as downloaded (see [`SyncRun::mark_downloaded`]) is skipped by every later
/// decision that uses that index.
pub proof fn lemma_downloaded_then_skipped(local: Set<Seq<char>>, cutoff: Option<Instant>, dry_run: bool, clip: Clip)
    ensures
        disposition(local.insert(lowercase(clip.id@)), cutoff, dry_run, clip) == Disposition::Skip,
{
}

/// When a feed page lets paging stop for a cut-off, every clip on it is filtered by that
/// cut-off.
pub proof fn lemma_stopped_page_all_filtered(page: Seq<Clip>, cutoff: Instant)
    requires
        crate::feed::stops_by_date(Some(cutoff), page),
    ensures
        forall|i: int| 0 <= i < page.len() ==> !within_cutoff(#[trigger] page[i], Some(cutoff)),
{
    assert forall|i: int| 0 <= i < page.len() implies !within_cutoff(#[trigger] page[i], Some(cutoff)) by {
        assert(clip_created(page[i]) matches Some(p) ==> !pair_le(pair_of(cutoff), p));
    }
}

/// Asks a running sync to stop: sets the shared cancel flag that the sync loop reads before
/// each clip. The flag is shared and mutable behind a reference, so no contract can state its
/// value; the call is the only effect.
pub fn request_sync_cancel(cancel_flag: &Arc<AtomicBool>) {
    cancel_flag.store(true, Ordering::Relaxed);
}

fn progress_event(clip: &Clip, title: String, status: &str, message: Option<String>) -> (e: SyncProgressEvent)
    ensures
        e.clip_id == clip.id,
        e.title == title,
        e.status@ == status@,
        e.message == message,
{
    SyncProgressEvent { clip_id: clip.id.clone(), title, status: status.to_string(), message }
}

} // verus!
