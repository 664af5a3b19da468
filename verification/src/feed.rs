//! Paging through the user's library feed. The service offers three feed versions; for each, a
//! [`FeedPager`] says which page to ask for next and, given a page, what is collected and
//! whether to go on. Merging the versions' results is done by [`FeedMerge`].
use vstd::prelude::*;
use crate::auth::AuthError;
use crate::date_filters::{clip_created, pair_le, pair_of, should_stop_feed_paging};
use crate::json::{entry_views, lookup, Json};
use crate::text::{chars_of, decimal, decimal_chars, push_chars, string_of};
use crate::text_set::TextSet;
use crate::time::Instant;
use crate::types::Clip;

verus! {

broadcast use {
    vstd::string::group_string_axioms,
    Seq::lemma_push_map_commute,
    Seq::lemma_push_to_set_commute,
};

/// Clips asked for per page.
pub const FEED_PAGE_SIZE: u32 = 20;

/// A version of the library feed.
#[derive(Clone, Copy, Debug, PartialEq, Eq, Structural)]
pub enum FeedVersion {
    /// `GET /api/feed/?page=N`, pages counted from 1, until an empty page.
    V1,
    /// `GET /api/feed/v2/?page=N&page_size=20`, pages counted from 0, until a short page.
    V2,
    /// `POST /api/feed/v3` with a cursor, until the service reports no more.
    V3,
}

/// Options for fetching the feed.
pub struct FetchClipsOptions {
    /// Stop paging once a page holds only clips created before this time.
    pub created_after: Option<Instant>,
}

/// A request to send to the service.
pub struct FeedRequest {
    /// `POST` rather than `GET`.
    pub post: bool,
    /// The API path.
    pub path: String,
    /// The JSON body, if any.
    pub body: Option<Json>,
}

/// What to do next.
pub enum FeedStep {
    Request(FeedRequest),
    /// Paging is over.
    Done,
    /// The page counter would pass `u32::MAX`.
    Overflow,
}

pub open spec fn clip_ids(clips: Seq<Clip>) -> Seq<Seq<char>> {
    clips.map_values(|c: Clip| c.id@)
}

/// `acc` followed by the clips of `page` whose id is not yet collected, each id once, in order.
pub open spec fn absorb(acc: Seq<Clip>, page: Seq<Clip>) -> Seq<Clip>
    decreases page.len(),
{
    if page.len() == 0 {
        acc
    } else {
        let a = absorb(acc, page.drop_last());
        let c = page.last();
        if clip_ids(a).contains(c.id@) {
            a
        } else {
            a.push(c)
        }
    }
}

/// Collecting a page keeps what was collected, adds every id of the page, and never repeats an
/// id.
pub proof fn lemma_absorb(acc: Seq<Clip>, page: Seq<Clip>)
    requires
        clip_ids(acc).no_duplicates(),
    ensures
        clip_ids(absorb(acc, page)).no_duplicates(),
        absorb(acc, page).len() >= acc.len(),
        absorb(acc, page).subrange(0, acc.len() as int) == acc,
        forall|i: int| 0 <= i < page.len() ==> clip_ids(absorb(acc, page)).contains(#[trigger] page[i].id@),
        forall|k: int| 0 <= k < absorb(acc, page).len() ==> clip_ids(acc).contains(#[trigger] absorb(acc, page)[k].id@) || exists|i: int| 0 <= i < page.len() && page[i] == absorb(acc, page)[k],
    decreases page.len(),
{
    if page.len() == 0 {
        assert forall|k: int| 0 <= k < acc.len() implies clip_ids(acc).contains(#[trigger] acc[k].id@) by {
            assert(clip_ids(acc)[k] == acc[k].id@);
        }
        assert(acc.subrange(0, acc.len() as int) =~= acc);
    }
    if page.len() > 0 {
        let p = page.drop_last();
        lemma_absorb(acc, p);
        let a = absorb(acc, p);
        let c = page.last();
        let r = absorb(acc, page);
        assert forall|i: int| 0 <= i < page.len() implies clip_ids(r).contains(#[trigger] page[i].id@) by {
            if i < p.len() {
                assert(page[i] == p[i]);
                let j = choose|j: int| 0 <= j < clip_ids(a).len() && clip_ids(a)[j] == p[i].id@;
                if !clip_ids(a).contains(c.id@) {
                    assert(clip_ids(r)[j] == clip_ids(a)[j]);
                }
            } else {
                if !clip_ids(a).contains(c.id@) {
                    assert(clip_ids(r)[a.len() as int] == c.id@);
                }
            }
        }
        if !clip_ids(a).contains(c.id@) {
            assert(clip_ids(r) =~= clip_ids(a).push(c.id@));
            assert forall|i: int, j: int| 0 <= i < clip_ids(r).len() && 0 <= j < clip_ids(r).len() && i != j implies clip_ids(r)[i] != clip_ids(r)[j] by {
                if i == a.len() {
                    assert(clip_ids(a).contains(clip_ids(a)[j]));
                } else if j == a.len() {
                    assert(clip_ids(a).contains(clip_ids(a)[i]));
                }
            }
            assert(r.subrange(0, acc.len() as int) =~= a.subrange(0, acc.len() as int));
            assert forall|k: int| 0 <= k < r.len() implies clip_ids(acc).contains(#[trigger] r[k].id@) || exists|i: int| 0 <= i < page.len() && page[i] == r[k] by {
                if k < a.len() {
                    assert(r[k] == a[k]);
                    if !clip_ids(acc).contains(a[k].id@) {
                        let i = choose|i: int| 0 <= i < p.len() && p[i] == a[k];
                        assert(page[i] == p[i]);
                    }
                } else {
                    assert(page[page.len() - 1] == r[k]);
                }
            }
        } else {
            assert forall|k: int| 0 <= k < r.len() implies clip_ids(acc).contains(#[trigger] r[k].id@) || exists|i: int| 0 <= i < page.len() && page[i] == r[k] by {
                if !clip_ids(acc).contains(a[k].id@) {
                    let i = choose|i: int| 0 <= i < p.len() && p[i] == a[k];
                    assert(page[i] == p[i]);
                }
            }
        }
    }
}

/// Appends to `clips` the clips of `page` whose id is new, recording each new id in `seen`.
fn absorb_page(seen: &mut TextSet, clips: &mut Vec<Clip>, page: &[Clip])
    requires
        old(seen).view() == clip_ids(old(clips)@).to_set(),
        clip_ids(old(clips)@).no_duplicates(),
    ensures
        final(clips)@ == absorb(old(clips)@, page@),
        final(seen).view() == clip_ids(final(clips)@).to_set(),
        clip_ids(final(clips)@).no_duplicates(),
{
    let ghost start = clips@;
    let mut i: usize = 0;
    while i < page.len()
        invariant
            i <= page.len(),
            clips@ == absorb(start, page@.take(i as int)),
            seen.view() == clip_ids(clips@).to_set(),
            clip_ids(start).no_duplicates(),
        decreases page.len() - i,
    {
        proof {
            lemma_absorb(start, page@.take(i as int));
        }
        let c = &page[i];
        assert(page@.take(i + 1).drop_last() =~= page@.take(i as int));
        assert(page@.take(i + 1).last() == *c);
        let ghost before = clips@;
        if seen.insert(c.id.clone()) {
            clips.push(c.duplicate());
            assert(clip_ids(clips@) =~= clip_ids(before).push(c.id@));
        } else {
            assert(clip_ids(before).to_set().contains(c.id@));
        }
        i = i + 1;
    }
    assert(page@.take(page.len() as int) =~= page@);
    proof {
        lemma_absorb(start, page@);
    }
}

/// Clips collected from feed pages, each id at most once, in the order first seen.
pub struct ClipCollection {
    seen: TextSet,
    clips: Vec<Clip>,
}

impl ClipCollection {
    /// The collected clips, in order.
    pub closed spec fn clips(self) -> Seq<Clip> {
        self.clips@
    }

    #[verifier::type_invariant]
    closed spec fn inv(self) -> bool {
        &&& self.seen.view() == clip_ids(self.clips@).to_set()
        &&& clip_ids(self.clips@).no_duplicates()
    }

    /// An empty collection.
    pub fn new() -> (c: ClipCollection)
        ensures
            c.clips() == Seq::<Clip>::empty(),
    {
        let seen = TextSet::new();
        let clips: Vec<Clip> = Vec::new();
        assert(clip_ids(clips@) =~= Seq::<Seq<char>>::empty());
        assert(clip_ids(clips@).to_set() =~= Set::<Seq<char>>::empty());
        ClipCollection { seen, clips }
    }

    /// The number of clips collected.
    pub fn len(&self) -> (n: usize)
        ensures
            n == self.clips().len(),
    {
        self.clips.len()
    }

    /// Collects the clips of `page` whose id is new, in order.
    pub fn absorb(&mut self, page: &[Clip])
        ensures
            final(self).clips() == absorb(old(self).clips(), page@),
            clip_ids(final(self).clips()).no_duplicates(),
    {
        proof {
            use_type_invariant(&*self);
        }
        let mut other = ClipCollection::new();
        std::mem::swap(self, &mut other);
        proof {
            use_type_invariant(&other);
        }
        let ClipCollection { mut seen, mut clips } = other;
        absorb_page(&mut seen, &mut clips, page);
        *self = ClipCollection { seen, clips };
    }

    /// The collected clips.
    pub fn into_vec(self) -> (v: Vec<Clip>)
        ensures
            v@ == self.clips(),
            clip_ids(v@).no_duplicates(),
    {
        proof {
            use_type_invariant(&self);
        }
        self.clips
    }
}

/// The page a pager starts from.
pub open spec fn first_page(v: FeedVersion) -> int {
    if v == FeedVersion::V1 {
        1
    } else {
        0
    }
}

/// The page-count limit is reached: with a limit set, V1 and V3 stop past it, V2 at it.
pub open spec fn past_limit(v: FeedVersion, max_pages: int, page: int) -> bool {
    max_pages > 0 && (if v == FeedVersion::V2 {
        page >= max_pages
    } else {
        page > max_pages
    })
}

/// The page clips say paging can stop because they are all older than the cut-off.
pub open spec fn stops_by_date(cutoff: Option<Instant>, page: Seq<Clip>) -> bool {
    match cutoff {
        None => false,
        Some(c) => (exists|i: int| 0 <= i < page.len() && #[trigger] clip_created(page[i]) is Some)
            && forall|i: int|
            0 <= i < page.len() ==> (#[trigger] clip_created(page[i]) matches Some(p) ==> !pair_le(
                pair_of(c),
                p,
            )),
    }
}

/// After a page has been collected, whether the version's rule says to go on.
pub open spec fn goes_on(v: FeedVersion, page_len: int, has_more: Option<bool>, next_cursor: bool) -> bool {
    match v {
        FeedVersion::V1 => true,
        FeedVersion::V2 => page_len >= FEED_PAGE_SIZE,
        FeedVersion::V3 => has_more == Some(true) && next_cursor,
    }
}

/// `/api/feed/?page=N`.
pub open spec fn v1_path(page: nat) -> Seq<char> {
    "/api/feed/?page="@ + decimal(page)
}

/// `/api/feed/v2/?page=N&page_size=20`.
pub open spec fn v2_path(page: nat) -> Seq<char> {
    "/api/feed/v2/?page="@ + decimal(page) + "&page_size=20"@
}

pub open spec fn v3_path() -> Seq<char> {
    "/api/feed/v3"@
}

/// The V3 body: `{"cursor": <cursor>, "filters": {"trashed": "False"}, "limit": 20}`, without
/// `cursor` when there is none.
pub open spec fn is_v3_body(j: Json, cursor: Option<Seq<char>>) -> bool {
    j matches Json::Object(e) && {
        let off: int = if cursor is Some { 1 } else { 0 };
        &&& e@.len() == 2 + off
        &&& (cursor matches Some(c) ==> (e@[0].0@ == "cursor"@ && (e@[0].1 matches Json::Str(s) && s@ == c)))
        &&& e@[off].0@ == "filters"@
        &&& e@[off].1 matches Json::Object(f) && f@.len() == 1 && f@[0].0@ == "trashed"@ && (f@[0].1 matches Json::Str(t) && t@ == "False"@)
        &&& e@[off + 1].0@ == "limit"@
        &&& e@[off + 1].1 matches Json::Number(n) && n@ == "20"@
    }
}

/// What a V3 body asks the service for, read as JSON: its `filters` ask for clips whose
/// `trashed` flag is the string `"False"` (the live library, not the trash), its `limit` is 20,
/// and its `cursor` is the given one, if any.
pub proof fn lemma_v3_body_asks_live_clips(j: Json, cursor: Option<Seq<char>>)
    requires
        is_v3_body(j, cursor),
    ensures
        j matches Json::Object(e) && {
            &&& lookup(entry_views(e@), "filters"@) matches Some(Json::Object(f))
                && lookup(entry_views(f@), "trashed"@) matches Some(Json::Str(t)) && t@ == "False"@
            &&& lookup(entry_views(e@), "limit"@) matches Some(Json::Number(n)) && n@ == "20"@
            &&& match cursor {
                Some(c) => lookup(entry_views(e@), "cursor"@) matches Some(Json::Str(x)) && x@ == c,
                None => lookup(entry_views(e@), "cursor"@) is None,
            }
        },
{
    reveal_with_fuel(lookup, 5);
    reveal_strlit("filters");
    reveal_strlit("limit");
    reveal_strlit("cursor");
    reveal_strlit("trashed");
    if let Json::Object(e) = j {
        let ev = entry_views(e@);
        if let Some(c) = cursor {
            assert(ev.len() == 3);
            assert(ev[0].0 == "cursor"@);
            assert(ev[1].0 == "filters"@);
            assert(ev[2].0 == "limit"@);
            assert(ev.drop_first()[0] == ev[1]);
            assert(ev.drop_first().drop_first()[0] == ev[2]);
            assert(ev.drop_first().drop_first().drop_first().len() == 0);
            assert("filters"@ != "cursor"@);
            assert("limit"@ != "cursor"@);
            assert("limit"@ != "filters"@);
        } else {
            assert(ev.len() == 2);
            assert(ev[0].0 == "filters"@);
            assert(ev[1].0 == "limit"@);
            assert(ev.drop_first()[0] == ev[1]);
            assert(ev.drop_first().drop_first().len() == 0);
            assert("limit"@ != "filters"@);
            assert("cursor"@ != "filters"@);
            assert("cursor"@ != "limit"@);
        }
        if let Json::Object(f) = e@[if cursor is Some { 1int } else { 0int }].1 {
            let fv = entry_views(f@);
            assert(fv.len() == 1);
            assert(fv[0].0 == "trashed"@);
        }
    }
}

pub open spec fn opt_view(o: Option<String>) -> Option<Seq<char>> {
    match o {
        Some(s) => Some(s@),
        None => None,
    }
}

/// Paging state for one feed version.
pub struct FeedPager {
    version: FeedVersion,
    max_pages: u32,
    created_after: Option<Instant>,
    page: u32,
    cursor: Option<String>,
    collection: ClipCollection,
    finished: bool,
}

impl FeedPager {
    pub closed spec fn version(self) -> FeedVersion {
        self.version
    }

    pub closed spec fn max_pages(self) -> int {
        self.max_pages as int
    }

    pub closed spec fn cutoff(self) -> Option<Instant> {
        self.created_after
    }

    /// The page counter.
    pub closed spec fn page(self) -> int {
        self.page as int
    }

    /// The V3 cursor to send next.
    pub closed spec fn cursor(self) -> Option<Seq<char>> {
        opt_view(self.cursor)
    }

    /// The clips collected so far, in order.
    pub closed spec fn collected(self) -> Seq<Clip> {
        self.collection.clips()
    }

    pub closed spec fn finished(self) -> bool {
        self.finished
    }

    /// A pager for the given version, page limit (0 for none) and options.
    pub fn new(version: FeedVersion, max_pages: u32, options: &FetchClipsOptions) -> (p: FeedPager)
        ensures
            p.version() == version,
            p.max_pages() == max_pages,
            p.cutoff() == options.created_after,
            p.page() == first_page(version),
            p.cursor() is None,
            p.collected() == Seq::<Clip>::empty(),
            !p.finished(),
    {
        let page: u32 = if version == FeedVersion::V1 { 1 } else { 0 };
        let created_after = match &options.created_after {
            Some(t) => Some(*t),
            None => None,
        };
        let p = FeedPager {
            version,
            max_pages,
            created_after,
            page,
            cursor: None,
            collection: ClipCollection::new(),
            finished: false,
        };
        p
    }

    /// Whether paging is over.
    pub fn is_finished(&self) -> (b: bool)
        ensures
            b == self.finished(),
    {
        self.finished
    }

    /// The page counter.
    pub fn current_page(&self) -> (n: u32)
        ensures
            n == self.page(),
    {
        self.page
    }

    /// What to send next. V3 first advances its page counter; any version then stops once its
    /// page limit is reached (see [`past_limit`]).
    pub fn next_request(&mut self) -> (step: FeedStep)
        ensures
            final(self).version() == old(self).version(),
            final(self).max_pages() == old(self).max_pages(),
            final(self).cutoff() == old(self).cutoff(),
            final(self).cursor() == old(self).cursor(),
            final(self).collected() == old(self).collected(),
            old(self).finished() ==> step is Done && final(self).finished() && final(self).page() == old(self).page(),
            !old(self).finished() ==> {
                let v = old(self).version();
                let next = if v == FeedVersion::V3 { old(self).page() + 1 } else { old(self).page() };
                if v == FeedVersion::V3 && old(self).page() == u32::MAX {
                    step is Overflow && final(self).finished()
                } else if past_limit(v, old(self).max_pages(), next) {
                    step is Done && final(self).finished() && final(self).page() == next
                } else {
                    &&& !final(self).finished()
                    &&& final(self).page() == next
                    &&& step matches FeedStep::Request(req) && match v {
                        FeedVersion::V1 => !req.post && req.path@ == v1_path(next as nat) && req.body is None,
                        FeedVersion::V2 => !req.post && req.path@ == v2_path(next as nat) && req.body is None,
                        FeedVersion::V3 => req.post && req.path@ == v3_path() && (req.body matches Some(b) && is_v3_body(b, old(self).cursor())),
                    }
                }
            },
            old(self).version() == FeedVersion::V3 ==> (step matches FeedStep::Request(req) ==> (
                req.body matches Some(Json::Object(e)) && lookup(entry_views(e@), "filters"@) matches Some(
                    Json::Object(f),
                ) && lookup(entry_views(f@), "trashed"@) matches Some(Json::Str(t)) && t@ == "False"@
            )),
    {
        if self.finished {
            return FeedStep::Done;
        }
        if self.version == FeedVersion::V3 {
            if self.page == u32::MAX {
                self.finished = true;
                return FeedStep::Overflow;
            }
            self.page = self.page + 1;
        }
        let past = if self.version == FeedVersion::V2 {
            self.max_pages > 0 && self.page >= self.max_pages
        } else {
            self.max_pages > 0 && self.page > self.max_pages
        };
        if past {
            self.finished = true;
            return FeedStep::Done;
        }
        let req = match self.version {
            FeedVersion::V1 => {
                let mut p = chars_of("/api/feed/?page=");
                push_chars(&mut p, &decimal_chars(self.page as u64));
                assert(p@ =~= v1_path(self.page as nat));
                FeedRequest { post: false, path: string_of(&p), body: None }
            },
            FeedVersion::V2 => {
                let mut p = chars_of("/api/feed/v2/?page=");
                push_chars(&mut p, &decimal_chars(self.page as u64));
                push_chars(&mut p, &chars_of("&page_size=20"));
                assert(p@ =~= v2_path(self.page as nat));
                FeedRequest { post: false, path: string_of(&p), body: None }
            },
            FeedVersion::V3 => {
                let body = v3_body(&self.cursor);
                proof {
                    lemma_v3_body_asks_live_clips(body, opt_view(self.cursor));
                }
                FeedRequest { post: true, path: "/api/feed/v3".to_string(), body: Some(body) }
            },
        };
        FeedStep::Request(req)
    }

    /// Takes in a page of clips with the V3 paging fields (`has_more`, `next_cursor`; ignored by
    /// the other versions). An empty page ends paging; otherwise its new clips are collected,
    /// and paging ends when the page is all older than the cut-off or the version's rule says
    /// so (see [`goes_on`]); else V3 moves to the new cursor and V1, V2 to the next page.
    /// Returns `true` when the page counter would pass `u32::MAX`, which also ends paging.
    pub fn on_page(&mut self, page_clips: Vec<Clip>, has_more: Option<bool>, next_cursor: Option<String>) -> (overflow: bool)
        requires
            !old(self).finished(),
        ensures
            final(self).version() == old(self).version(),
            final(self).max_pages() == old(self).max_pages(),
            final(self).cutoff() == old(self).cutoff(),
            page_clips@.len() == 0 ==> final(self).finished() && !overflow && final(self).collected() == old(self).collected() && final(self).page() == old(self).page(),
            page_clips@.len() > 0 ==> {
                let v = old(self).version();
                let cont = !stops_by_date(old(self).cutoff(), page_clips@) && goes_on(v, page_clips@.len() as int, has_more, next_cursor is Some);
                &&& final(self).collected() == absorb(old(self).collected(), page_clips@)
                &&& clip_ids(final(self).collected()).no_duplicates()
                &&& (!cont ==> final(self).finished() && !overflow && final(self).page() == old(self).page())
                &&& (cont && v == FeedVersion::V3 ==> !final(self).finished() && !overflow && final(self).cursor() == opt_view(next_cursor) && final(self).page() == old(self).page())
                &&& (cont && v != FeedVersion::V3 && old(self).page() == u32::MAX ==> final(self).finished() && overflow)
                &&& (cont && v != FeedVersion::V3 && old(self).page() < u32::MAX ==> !final(self).finished() && !overflow && final(self).page() == old(self).page() + 1 && final(self).cursor() == old(self).cursor())
            },
    {
        if page_clips.len() == 0 {
            self.finished = true;
            return false;
        }
        self.collection.absorb(&page_clips);
        let stop = match &self.created_after {
            Some(cutoff) => should_stop_feed_paging(&page_clips, cutoff),
            None => false,
        };
        if stop {
            self.finished = true;
            return false;
        }
        match self.version {
            FeedVersion::V3 => {
                let more = match has_more {
                    Some(b) => b,
                    None => false,
                };
                if !more || next_cursor.is_none() {
                    self.finished = true;
                    return false;
                }
                self.cursor = next_cursor;
                false
            },
            _ => {
                if self.version == FeedVersion::V2 && page_clips.len() < 20 {
                    self.finished = true;
                    return false;
                }
                if self.page == u32::MAX {
                    self.finished = true;
                    return true;
                }
                self.page = self.page + 1;
                false
            },
        }
    }

    /// Why the request for the current page failed, with the response status.
    pub fn failure(&self, status_text: &str) -> (e: AuthError)
        ensures
            e matches AuthError::Message(m) && m@ == match self.version() {
                FeedVersion::V3 => "feed v3 failed: "@ + status_text@,
                FeedVersion::V2 => "feed v2 failed on page "@ + decimal(self.page() as nat) + ": "@ + status_text@,
                FeedVersion::V1 => "feed v1 failed on page "@ + decimal(self.page() as nat) + ": "@ + status_text@,
            },
    {
        let mut m = match self.version {
            FeedVersion::V3 => chars_of("feed v3 failed: "),
            FeedVersion::V2 => {
                let mut m = chars_of("feed v2 failed on page ");
                push_chars(&mut m, &decimal_chars(self.page as u64));
                push_chars(&mut m, &chars_of(": "));
                m
            },
            FeedVersion::V1 => {
                let mut m = chars_of("feed v1 failed on page ");
                push_chars(&mut m, &decimal_chars(self.page as u64));
                push_chars(&mut m, &chars_of(": "));
                m
            },
        };
        push_chars(&mut m, &chars_of(status_text));
        let r = AuthError::Message(string_of(&m));
        assert(r matches AuthError::Message(t) && t@ =~= match self.version() {
                FeedVersion::V3 => "feed v3 failed: "@ + status_text@,
                FeedVersion::V2 => "feed v2 failed on page "@ + decimal(self.page() as nat) + ": "@ + status_text@,
                FeedVersion::V1 => "feed v1 failed on page "@ + decimal(self.page() as nat) + ": "@ + status_text@,
            });
        r
    }

    /// The collected clips, each id once, in the order first seen.
    pub fn into_clips(self) -> (clips: Vec<Clip>)
        ensures
            clips@ == self.collected(),
            clip_ids(clips@).no_duplicates(),
    {
        self.collection.into_vec()
    }
}

/// The order in which the feed versions are fetched: V2, V3, then V1.
pub fn feed_strategies() -> (r: [FeedVersion; 3])
    ensures
        r@ == seq![FeedVersion::V2, FeedVersion::V3, FeedVersion::V1],
{
    let r = [FeedVersion::V2, FeedVersion::V3, FeedVersion::V1];
    assert(r@ =~= seq![FeedVersion::V2, FeedVersion::V3, FeedVersion::V1]);
    r
}

/// The clips of the successful results, merged in order, each id once.
pub open spec fn merged_clips(results: Seq<Result<Vec<Clip>, AuthError>>) -> Seq<Clip>
    decreases results.len(),
{
    if results.len() == 0 {
        seq![]
    } else {
        let m = merged_clips(results.drop_last());
        match results.last() {
            Ok(v) => absorb(m, v@),
            Err(_) => m,
        }
    }
}

/// The last failure among the results, if any.
pub open spec fn last_failure(results: Seq<Result<Vec<Clip>, AuthError>>) -> Option<AuthError>
    decreases results.len(),
{
    if results.len() == 0 {
        None
    } else {
        match results.last() {
            Err(e) => Some(e),
            Ok(_) => last_failure(results.drop_last()),
        }
    }
}

/// Merges what the feed versions returned, in order: the clips of the successful ones, each id
/// once, in the order first seen; when nothing was collected and some version failed, the last
/// failure.
pub fn merge_feed_results(results: Vec<Result<Vec<Clip>, AuthError>>) -> (r: Result<Vec<Clip>, AuthError>)
    ensures
        merged_clips(results@).len() == 0 && last_failure(results@) is Some ==> r == Err::<Vec<Clip>, AuthError>(last_failure(results@)->0),
        !(merged_clips(results@).len() == 0 && last_failure(results@) is Some) ==> (r matches Ok(v) && v@ == merged_clips(results@)),
        r matches Ok(v) ==> clip_ids(v@).no_duplicates(),
{
    let ghost all = results@;
    let mut merged = ClipCollection::new();
    let mut last_error: Option<AuthError> = None;
    let mut rest = results;
    let mut taken: usize = 0;
    let n = rest.len();
    assert(all.take(0) =~= Seq::<Result<Vec<Clip>, AuthError>>::empty());
    while rest.len() > 0
        invariant
            n == all.len(),
            taken + rest.len() == n,
            rest@ == all.subrange(taken as int, n as int),
            merged.clips() == merged_clips(all.take(taken as int)),
            last_error == last_failure(all.take(taken as int)),
        decreases rest.len(),
    {
        let result = rest.remove(0);
        assert(result == all[taken as int]);
        assert(all.take(taken + 1).drop_last() =~= all.take(taken as int));
        match result {
            Ok(clips) => {
                merged.absorb(&clips);
            },
            Err(e) => {
                last_error = Some(e);
            },
        }
        taken = taken + 1;
    }
    assert(all.take(n as int) =~= all);
    if merged.len() == 0 {
        if let Some(e) = last_error {
            return Err(e);
        }
    }
    Ok(merged.into_vec())
}

fn v3_body(cursor: &Option<String>) -> (j: Json)
    ensures
        is_v3_body(j, opt_view(*cursor)),
{
    let mut e: Vec<(String, Json)> = Vec::new();
    if let Some(c) = cursor {
        e.push(("cursor".to_string(), Json::Str(c.clone())));
    }
    let mut f: Vec<(String, Json)> = Vec::new();
    f.push(("trashed".to_string(), Json::Str("False".to_string())));
    e.push(("filters".to_string(), Json::Object(f)));
    e.push(("limit".to_string(), Json::Number("20".to_string())));
    Json::Object(e)
}

} // verus!
