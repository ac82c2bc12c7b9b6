//! The download queue and history: which state changes each command makes,
//! which commands each state refuses, and the newest-first ordering the
//! history is shown and trimmed in.
use vstd::prelude::*;
use crate::download::{spec_validate_request, validate_request};
use crate::error::{AppError, AppErrorKind};
use crate::models::{
    DownloadItem, DownloadRequest, DownloadStatus, Timestamp, PROGRESS_FULL_BITS,
    PROGRESS_ZERO_BITS, timestamp_ge, ts_ge,
};
use crate::security::{spec_validate_youtube_url, validate_youtube_url};
use crate::text::{chars_eq, str_chars};

verus! {

/// At most this many downloads are remembered.
pub const MAX_HISTORY: usize = 1000usize;

/// `s[i]` is the first item with this id.
pub open spec fn first_with_id(s: Seq<DownloadItem>, id: Seq<char>, i: int) -> bool {
    &&& 0 <= i < s.len()
    &&& s[i].id@ == id
    &&& forall|j: int| 0 <= j < i ==> (#[trigger] s[j]).id@ != id
}

pub open spec fn has_id(s: Seq<DownloadItem>, id: Seq<char>) -> bool {
    exists|i: int| 0 <= i < s.len() && (#[trigger] s[i]).id@ == id
}

/// The position of the first item with this id, where there is one.
pub open spec fn index_of(s: Seq<DownloadItem>, id: Seq<char>) -> int {
    choose|i: int| first_with_id(s, id, i)
}

pub proof fn lemma_first_unique(s: Seq<DownloadItem>, id: Seq<char>, i: int)
    requires
        first_with_id(s, id, i),
    ensures
        index_of(s, id) == i,
        has_id(s, id),
{
    let k = index_of(s, id);
    assert(first_with_id(s, id, k));
    if k < i {
        assert(s[k].id@ != id);
    }
    if i < k {
        assert(s[i].id@ != id);
    }
}

/// An item with its state replaced and its error set.
pub open spec fn with_status(
    it: DownloadItem,
    status: DownloadStatus,
    error: Option<String>,
) -> DownloadItem {
    DownloadItem { status, error, ..it }
}

pub open spec fn can_pause(st: DownloadStatus) -> bool {
    st == DownloadStatus::Downloading || st == DownloadStatus::Queued
}

pub open spec fn can_resume(st: DownloadStatus) -> bool {
    st == DownloadStatus::Paused || st == DownloadStatus::Interrupted
}

pub open spec fn can_cancel(st: DownloadStatus) -> bool {
    st != DownloadStatus::Completed && st != DownloadStatus::Cancelled
}

pub open spec fn can_retry(st: DownloadStatus) -> bool {
    st == DownloadStatus::Failed || st == DownloadStatus::Cancelled
}

/// Downloads that still hold a place in the queue.
pub open spec fn is_active(st: DownloadStatus) -> bool {
    st == DownloadStatus::Downloading || st == DownloadStatus::Queued || st
        == DownloadStatus::Paused
}

/// The effect of a state-changing command: the new item list, or the error.
pub open spec fn spec_change(
    s: Seq<DownloadItem>,
    id: Seq<char>,
    allowed: bool,
    target: DownloadStatus,
    refusal: Seq<char>,
) -> Result<Seq<DownloadItem>, (AppErrorKind, Seq<char>)> {
    if !has_id(s, id) {
        Err((AppErrorKind::NotFound, id))
    } else if !allowed {
        Err((AppErrorKind::InvalidInput, refusal))
    } else {
        let i = index_of(s, id);
        Ok(s.update(i, with_status(s[i], target, None)))
    }
}

pub open spec fn status_at(s: Seq<DownloadItem>, id: Seq<char>) -> DownloadStatus {
    s[index_of(s, id)].status
}

pub open spec fn spec_remove(s: Seq<DownloadItem>, id: Seq<char>) -> Result<Seq<DownloadItem>, (AppErrorKind, Seq<char>)> {
    if !has_id(s, id) {
        Err((AppErrorKind::NotFound, id))
    } else if is_active(status_at(s, id)) {
        Err((AppErrorKind::InvalidInput, "active downloads must be cancelled first"@))
    } else {
        Ok(s.remove(index_of(s, id)))
    }
}

/// Where a newest-first insertion puts `x`: after every item created at or
/// after it, so that items created at the same instant keep their order.
pub open spec fn insert_pos(t: Seq<DownloadItem>, x: DownloadItem) -> nat
    decreases t.len(),
{
    if t.len() > 0 && ts_ge(t[0].created_at, x.created_at) {
        1 + insert_pos(t.drop_first(), x)
    } else {
        0
    }
}

/// The items newest first: a stable sort by creation time, descending.
pub open spec fn newest_first(s: Seq<DownloadItem>) -> Seq<DownloadItem>
    decreases s.len(),
{
    if s.len() == 0 {
        s
    } else {
        let t = newest_first(s.drop_last());
        t.insert(insert_pos(t, s.last()) as int, s.last())
    }
}

/// The history after trimming: the newest [`MAX_HISTORY`] items once it grew past that.
pub open spec fn trimmed(s: Seq<DownloadItem>) -> Seq<DownloadItem> {
    if s.len() > MAX_HISTORY {
        newest_first(s).take(MAX_HISTORY as int)
    } else {
        s
    }
}

pub proof fn lemma_insert_pos_bound(t: Seq<DownloadItem>, x: DownloadItem)
    ensures
        insert_pos(t, x) <= t.len(),
    decreases t.len(),
{
    if t.len() > 0 && ts_ge(t[0].created_at, x.created_at) {
        lemma_insert_pos_bound(t.drop_first(), x);
    }
}

pub proof fn lemma_newest_first_len(s: Seq<DownloadItem>)
    ensures
        newest_first(s).len() == s.len(),
    decreases s.len(),
{
    if s.len() > 0 {
        lemma_newest_first_len(s.drop_last());
        lemma_insert_pos_bound(newest_first(s.drop_last()), s.last());
    }
}


/// The state-changing commands a user can give a download.
#[derive(Debug, Clone, Copy, PartialEq, Eq, Structural)]
pub enum Command {
    Pause,
    Resume,
    Cancel,
    Retry,
}

pub open spec fn allows(c: Command, st: DownloadStatus) -> bool {
    match c {
        Command::Pause => can_pause(st),
        Command::Resume => can_resume(st),
        Command::Cancel => can_cancel(st),
        Command::Retry => can_retry(st),
    }
}

pub open spec fn command_target(c: Command) -> DownloadStatus {
    match c {
        Command::Pause => DownloadStatus::Paused,
        Command::Resume => DownloadStatus::Queued,
        Command::Cancel => DownloadStatus::Cancelled,
        Command::Retry => DownloadStatus::Queued,
    }
}

pub open spec fn command_refusal(c: Command) -> Seq<char> {
    match c {
        Command::Pause => "download cannot be paused in its current state"@,
        Command::Resume => "download is not paused or interrupted"@,
        Command::Cancel => "download is already finished"@,
        Command::Retry => "only failed or cancelled downloads can be retried"@,
    }
}

/// What a command does to the item list: the new list, or the error it answers with.
pub open spec fn spec_command(s: Seq<DownloadItem>, id: Seq<char>, c: Command) -> Result<Seq<DownloadItem>, (AppErrorKind, Seq<char>)> {
    spec_change(s, id, allows(c, status_at(s, id)), command_target(c), command_refusal(c))
}

/// The result of a command and the list after it agree with the expected outcome:
/// on an error the list is unchanged.
pub open spec fn outcome<T>(
    r: Result<T, AppError>,
    before: Seq<DownloadItem>,
    after: Seq<DownloadItem>,
    expected: Result<Seq<DownloadItem>, (AppErrorKind, Seq<char>)>,
) -> bool {
    match expected {
        Ok(t) => r is Ok && after == t,
        Err(e) => r matches Err(x) && x@ == e && after == before,
    }
}

/// `s[i]` is the first queued item.
pub open spec fn first_queued(s: Seq<DownloadItem>, i: int) -> bool {
    &&& 0 <= i < s.len()
    &&& s[i].status == DownloadStatus::Queued
    &&& forall|j: int| 0 <= j < i ==> (#[trigger] s[j]).status != DownloadStatus::Queued
}

pub open spec fn has_status(s: Seq<DownloadItem>, st: DownloadStatus) -> bool {
    exists|i: int| 0 <= i < s.len() && (#[trigger] s[i]).status == st
}

pub open spec fn has_active(s: Seq<DownloadItem>) -> bool {
    exists|i: int| 0 <= i < s.len() && is_active((#[trigger] s[i]).status)
}

/// An item after its download ended with `status`: a completed download is at
/// 100% and records when it completed; speed and time left are cleared.
pub open spec fn finished_item(
    it: DownloadItem,
    status: DownloadStatus,
    error: Option<String>,
    output: Option<String>,
    now: Timestamp,
) -> DownloadItem {
    DownloadItem {
        status,
        error,
        output_path: output,
        progress_bits: if status == DownloadStatus::Completed {
            PROGRESS_FULL_BITS
        } else {
            it.progress_bits
        },
        completed_at: if status == DownloadStatus::Completed {
            Some(now)
        } else {
            it.completed_at
        },
        speed: None,
        eta: None,
        ..it
    }
}

pub open spec fn progressed_item(
    it: DownloadItem,
    progress_bits: u32,
    speed: Option<String>,
    eta: Option<String>,
    bytes: Option<u64>,
) -> DownloadItem {
    DownloadItem { progress_bits, speed, eta, downloaded_bytes: bytes, ..it }
}

/// `after` is `before` with the download's text details taken from yt-dlp's metadata.
pub open spec fn metadata_applied(
    before: DownloadItem,
    after: DownloadItem,
    title: Option<String>,
    channel: Option<String>,
    thumbnail: Option<String>,
) -> bool {
    &&& after == DownloadItem { title: after.title, channel: after.channel, thumbnail, ..before }
    &&& after.title@ == match title {
        Some(t) => t@,
        None => "YouTube download"@,
    }
    &&& after.channel@ == match channel {
        Some(c) => c@,
        None => Seq::<char>::empty(),
    }
}

/// An item read back from the saved history: a download that was running when
/// the application closed is marked interrupted.
pub open spec fn restored_item(before: DownloadItem, after: DownloadItem) -> bool {
    if before.status == DownloadStatus::Downloading {
        &&& after == DownloadItem {
            status: DownloadStatus::Interrupted,
            error: after.error,
            ..before
        }
        &&& after.error matches Some(e) && e@ == "Yood closed while this download was active"@
    } else {
        after == before
    }
}

/// The queue as first created: a request checked, with its URL normalized.
pub open spec fn accepted_request(request: DownloadRequest, stored: DownloadRequest) -> bool {
    &&& spec_validate_youtube_url(request.url@) matches Ok(u) && stored.url@ == u.serialized
    &&& stored == DownloadRequest { url: stored.url, ..request }
}

/// The item a newly queued request becomes.
pub open spec fn fresh_item(
    item: DownloadItem,
    request: DownloadRequest,
    id: String,
    now: Timestamp,
) -> bool {
    &&& accepted_request(request, item.request)
    &&& item.id == id
    &&& item.title@ == "Queued download"@
    &&& item.channel@ == Seq::<char>::empty()
    &&& item.thumbnail is None
    &&& item.output_path is None
    &&& item.status == DownloadStatus::Queued
    &&& item.progress_bits == PROGRESS_ZERO_BITS
    &&& item.speed is None
    &&& item.eta is None
    &&& item.total_bytes is None
    &&& item.downloaded_bytes is None
    &&& item.error is None
    &&& item.created_at == now
    &&& item.completed_at is None
}

/// The downloads the application knows of: queued, running and finished ones,
/// at most [`MAX_HISTORY`] of them.
pub struct DownloadQueue {
    items: Vec<DownloadItem>,
}

impl View for DownloadQueue {
    type V = Seq<DownloadItem>;

    closed spec fn view(&self) -> Seq<DownloadItem> {
        self.items@
    }
}

fn command_allows(c: Command, st: DownloadStatus) -> (r: bool)
    ensures
        r == allows(c, st),
{
    match c {
        Command::Pause => st == DownloadStatus::Downloading || st == DownloadStatus::Queued,
        Command::Resume => st == DownloadStatus::Paused || st == DownloadStatus::Interrupted,
        Command::Cancel => st != DownloadStatus::Completed && st != DownloadStatus::Cancelled,
        Command::Retry => st == DownloadStatus::Failed || st == DownloadStatus::Cancelled,
    }
}

fn target_of(c: Command) -> (r: DownloadStatus)
    ensures
        r == command_target(c),
{
    match c {
        Command::Pause => DownloadStatus::Paused,
        Command::Resume => DownloadStatus::Queued,
        Command::Cancel => DownloadStatus::Cancelled,
        Command::Retry => DownloadStatus::Queued,
    }
}

fn refusal_of(c: Command) -> (r: String)
    ensures
        r@ == command_refusal(c),
{
    match c {
        Command::Pause => String::from_str("download cannot be paused in its current state"),
        Command::Resume => String::from_str("download is not paused or interrupted"),
        Command::Cancel => String::from_str("download is already finished"),
        Command::Retry => String::from_str("only failed or cancelled downloads can be retried"),
    }
}

fn status_is_active(st: DownloadStatus) -> (r: bool)
    ensures
        r == is_active(st),
{
    st == DownloadStatus::Downloading || st == DownloadStatus::Queued || st
        == DownloadStatus::Paused
}

impl DownloadQueue {
    #[verifier::type_invariant]
    spec fn within_limit(self) -> bool {
        self.items.len() <= MAX_HISTORY
    }

    /// An empty queue.
    pub fn new() -> (r: DownloadQueue)
        ensures
            r@ == Seq::<DownloadItem>::empty(),
    {
        DownloadQueue { items: Vec::new() }
    }

    /// The queue as the saved history left it: downloads that were running are
    /// marked interrupted, and only the first [`MAX_HISTORY`] entries are kept.
    pub fn from_history(items: Vec<DownloadItem>) -> (r: DownloadQueue)
        ensures
            r@.len() == if items@.len() > MAX_HISTORY {
                MAX_HISTORY as nat
            } else {
                items@.len()
            },
            forall|i: int| 0 <= i < r@.len() ==> restored_item(items@[i], #[trigger] r@[i]),
    {
        let mut out: Vec<DownloadItem> = Vec::new();
        let mut i: usize = 0;
        let n = if items.len() > MAX_HISTORY {
            MAX_HISTORY
        } else {
            items.len()
        };
        while i < n
            invariant
                n <= items.len(),
                n <= MAX_HISTORY,
                i <= n,
                out@.len() == i,
                forall|j: int| 0 <= j < i ==> restored_item(items@[j], #[trigger] out@[j]),
            decreases n - i,
        {
            let it = items[i].copy();
            match it.status {
                DownloadStatus::Downloading => {
                    let DownloadItem {
                        id,
                        request,
                        title,
                        channel,
                        thumbnail,
                        output_path,
                        status,
                        progress_bits,
                        speed,
                        eta,
                        total_bytes,
                        downloaded_bytes,
                        error,
                        created_at,
                        completed_at,
                    } = it;
                    out.push(
                        DownloadItem {
                            id,
                            request,
                            title,
                            channel,
                            thumbnail,
                            output_path,
                            status: DownloadStatus::Interrupted,
                            progress_bits,
                            speed,
                            eta,
                            total_bytes,
                            downloaded_bytes,
                            error: Some(
                                String::from_str("Yood closed while this download was active"),
                            ),
                            created_at,
                            completed_at,
                        },
                    );
                },
                _ => {
                    out.push(it);
                },
            }
            i = i + 1;
        }
        DownloadQueue { items: out }
    }

    /// The items in their stored order.
    pub fn items(&self) -> (r: Vec<DownloadItem>)
        ensures
            r@ == self@,
    {
        let mut out: Vec<DownloadItem> = Vec::new();
        let mut i: usize = 0;
        while i < self.items.len()
            invariant
                i <= self.items@.len(),
                out@ == self.items@.take(i as int),
            decreases self.items@.len() - i,
        {
            out.push(self.items[i].copy());
            i = i + 1;
            assert(out@ =~= self.items@.take(i as int));
        }
        assert(self.items@.take(self.items@.len() as int) =~= self.items@);
        out
    }

    fn find(&self, id: &Vec<char>) -> (r: Option<usize>)
        ensures
            match r {
                Some(i) => first_with_id(self@, id@, i as int),
                None => !has_id(self@, id@),
            },
    {
        let mut i: usize = 0;
        while i < self.items.len()
            invariant
                i <= self.items@.len(),
                forall|j: int| 0 <= j < i ==> (#[trigger] self.items@[j]).id@ != id@,
            decreases self.items@.len() - i,
        {
            if chars_eq(&str_chars(self.items[i].id.as_str()), id) {
                return Some(i);
            }
            i = i + 1;
        }
        None
    }

    /// A copy of the first item with this id.
    pub fn item(&self, id: &str) -> (r: Result<DownloadItem, AppError>)
        ensures
            match r {
                Ok(it) => has_id(self@, id@) && it == self@[index_of(self@, id@)],
                Err(e) => !has_id(self@, id@) && e@ == (AppErrorKind::NotFound, id@),
            },
    {
        match self.find(&str_chars(id)) {
            Some(i) => {
                proof {
                    lemma_first_unique(self@, id@, i as int);
                }
                Ok(self.items[i].copy())
            },
            None => Err(AppError::NotFound(String::from_str(id))),
        }
    }

    fn set_at(&mut self, i: usize, status: DownloadStatus, error: Option<String>)
        requires
            i < old(self)@.len(),
        ensures
            final(self)@ == old(self)@.update(i as int, with_status(old(self)@[i as int], status, error)),
    {
        proof {
            use_type_invariant(&*self);
        }
        let mut items: Vec<DownloadItem> = Vec::new();
        std::mem::swap(&mut items, &mut self.items);
        let item = &mut items[i];
        item.status = status;
        item.error = error;
        self.items = items;
    }

    fn apply(&mut self, id: &str, c: Command) -> (r: Result<(), AppError>)
        ensures
            outcome(r, old(self)@, final(self)@, spec_command(old(self)@, id@, c)),
    {
        match self.find(&str_chars(id)) {
            None => Err(AppError::NotFound(String::from_str(id))),
            Some(i) => {
                proof {
                    lemma_first_unique(self@, id@, i as int);
                }
                let st = self.items[i].status;
                if !command_allows(c, st) {
                    return Err(AppError::InvalidInput(refusal_of(c)));
                }
                self.set_at(i, target_of(c), None);
                Ok(())
            },
        }
    }

    /// Pauses a queued or running download.
    pub fn pause(&mut self, id: &str) -> (r: Result<(), AppError>)
        ensures
            outcome(r, old(self)@, final(self)@, spec_command(old(self)@, id@, Command::Pause)),
    {
        self.apply(id, Command::Pause)
    }

    /// Queues a paused or interrupted download again.
    pub fn resume(&mut self, id: &str) -> (r: Result<(), AppError>)
        ensures
            outcome(r, old(self)@, final(self)@, spec_command(old(self)@, id@, Command::Resume)),
    {
        self.apply(id, Command::Resume)
    }

    /// Cancels any download that has not completed or been cancelled already.
    pub fn cancel(&mut self, id: &str) -> (r: Result<(), AppError>)
        ensures
            outcome(r, old(self)@, final(self)@, spec_command(old(self)@, id@, Command::Cancel)),
    {
        self.apply(id, Command::Cancel)
    }

    /// Queues a failed or cancelled download again.
    pub fn retry(&mut self, id: &str) -> (r: Result<(), AppError>)
        ensures
            outcome(r, old(self)@, final(self)@, spec_command(old(self)@, id@, Command::Retry)),
    {
        self.apply(id, Command::Retry)
    }

    /// Removes a download that is no longer active from the history.
    pub fn remove(&mut self, id: &str) -> (r: Result<(), AppError>)
        ensures
            outcome(r, old(self)@, final(self)@, spec_remove(old(self)@, id@)),
    {
        proof {
            use_type_invariant(&*self);
        }
        match self.find(&str_chars(id)) {
            None => Err(AppError::NotFound(String::from_str(id))),
            Some(i) => {
                proof {
                    lemma_first_unique(self@, id@, i as int);
                }
                if status_is_active(self.items[i].status) {
                    return Err(
                        AppError::InvalidInput(
                            String::from_str("active downloads must be cancelled first"),
                        ),
                    );
                }
                let mut items: Vec<DownloadItem> = Vec::new();
        std::mem::swap(&mut items, &mut self.items);
                items.remove(i);
                self.items = items;
                Ok(())
            },
        }
    }

    /// Whether any download waits in the queue.
    pub fn has_queued(&self) -> (r: bool)
        ensures
            r == has_status(self@, DownloadStatus::Queued),
    {
        let mut i: usize = 0;
        while i < self.items.len()
            invariant
                i <= self.items@.len(),
                forall|j: int| 0 <= j < i ==> (#[trigger] self.items@[j]).status != DownloadStatus::Queued,
            decreases self.items@.len() - i,
        {
            if self.items[i].status == DownloadStatus::Queued {
                return true;
            }
            i = i + 1;
        }
        false
    }

    /// Whether any download is queued, running or paused.
    pub fn has_active_downloads(&self) -> (r: bool)
        ensures
            r == has_active(self@),
    {
        let mut i: usize = 0;
        while i < self.items.len()
            invariant
                i <= self.items@.len(),
                forall|j: int| 0 <= j < i ==> !is_active((#[trigger] self.items@[j]).status),
            decreases self.items@.len() - i,
        {
            if status_is_active(self.items[i].status) {
                return true;
            }
            i = i + 1;
        }
        false
    }

    /// Starts the first queued download: it becomes a running one, and its id is returned.
    pub fn next_queued(&mut self) -> (r: Option<String>)
        ensures
            match r {
                Some(id) => exists|i: int|
                    first_queued(old(self)@, i) && id == old(self)@[i].id && final(self)@ == old(
                        self,
                    )@.update(
                        i,
                        DownloadItem { status: DownloadStatus::Downloading, ..old(self)@[i] },
                    ),
                None => !has_status(old(self)@, DownloadStatus::Queued) && final(self)@ == old(
                    self,
                )@,
            },
    {
        proof {
            use_type_invariant(&*self);
        }
        let ghost before = self@;
        let mut i: usize = 0;
        while i < self.items.len()
            invariant
                i <= self.items@.len(),
                self.items@.len() <= MAX_HISTORY,
                self@ == before,
                before == old(self)@,
                forall|j: int| 0 <= j < i ==> (#[trigger] self.items@[j]).status != DownloadStatus::Queued,
            decreases self.items@.len() - i,
        {
            if self.items[i].status == DownloadStatus::Queued {
                let mut items: Vec<DownloadItem> = Vec::new();
        std::mem::swap(&mut items, &mut self.items);
                let item = &mut items[i];
                item.status = DownloadStatus::Downloading;
                let id = item.id.clone();
                self.items = items;
                assert(first_queued(old(self)@, i as int));
                return Some(id);
            }
            i = i + 1;
        }
        None
    }

    /// Records how a download ended and returns the updated item.
    pub fn finish(
        &mut self,
        id: &str,
        status: DownloadStatus,
        error: Option<String>,
        output: Option<String>,
        now: Timestamp,
    ) -> (r: Result<DownloadItem, AppError>)
        ensures
            match r {
                Ok(it) => has_id(old(self)@, id@) && it == finished_item(
                    old(self)@[index_of(old(self)@, id@)],
                    status,
                    error,
                    output,
                    now,
                ) && final(self)@ == old(self)@.update(index_of(old(self)@, id@), it),
                Err(e) => !has_id(old(self)@, id@) && e@ == (AppErrorKind::NotFound, id@)
                    && final(self)@ == old(self)@,
            },
    {
        proof {
            use_type_invariant(&*self);
        }
        match self.find(&str_chars(id)) {
            None => Err(AppError::NotFound(String::from_str(id))),
            Some(i) => {
                proof {
                    lemma_first_unique(self@, id@, i as int);
                }
                let mut items: Vec<DownloadItem> = Vec::new();
        std::mem::swap(&mut items, &mut self.items);
                let item = &mut items[i];
                let completed = match status {
                    DownloadStatus::Completed => true,
                    _ => false,
                };
                item.status = status;
                item.error = error;
                item.output_path = output;
                if completed {
                    item.progress_bits = PROGRESS_FULL_BITS;
                    item.completed_at = Some(now);
                }
                item.speed = None;
                item.eta = None;
                let snapshot = item.copy();
                self.items = items;
                Ok(snapshot)
            },
        }
    }

    /// Records yt-dlp's metadata on a download, if it is still known, and
    /// returns the updated item.
    pub fn update_metadata(
        &mut self,
        id: &str,
        title: Option<String>,
        channel: Option<String>,
        thumbnail: Option<String>,
    ) -> (r: Option<DownloadItem>)
        ensures
            match r {
                Some(it) => has_id(old(self)@, id@) && metadata_applied(
                    old(self)@[index_of(old(self)@, id@)],
                    it,
                    title,
                    channel,
                    thumbnail,
                ) && final(self)@ == old(self)@.update(index_of(old(self)@, id@), it),
                None => !has_id(old(self)@, id@) && final(self)@ == old(self)@,
            },
    {
        proof {
            use_type_invariant(&*self);
        }
        match self.find(&str_chars(id)) {
            None => None,
            Some(i) => {
                proof {
                    lemma_first_unique(self@, id@, i as int);
                }
                let mut items: Vec<DownloadItem> = Vec::new();
        std::mem::swap(&mut items, &mut self.items);
                let item = &mut items[i];
                item.title = match title {
                    Some(t) => t,
                    None => String::from_str("YouTube download"),
                };
                item.channel = match channel {
                    Some(c) => c,
                    None => String::new(),
                };
                item.thumbnail = thumbnail;
                let snapshot = item.copy();
                self.items = items;
                Some(snapshot)
            },
        }
    }

    /// Records a progress report on a download, if it is still known, and
    /// returns the updated item.
    pub fn update_progress(
        &mut self,
        id: &str,
        progress_bits: u32,
        speed: Option<String>,
        eta: Option<String>,
        bytes: Option<u64>,
    ) -> (r: Option<DownloadItem>)
        ensures
            match r {
                Some(it) => has_id(old(self)@, id@) && it == progressed_item(
                    old(self)@[index_of(old(self)@, id@)],
                    progress_bits,
                    speed,
                    eta,
                    bytes,
                ) && final(self)@ == old(self)@.update(index_of(old(self)@, id@), it),
                None => !has_id(old(self)@, id@) && final(self)@ == old(self)@,
            },
    {
        proof {
            use_type_invariant(&*self);
        }
        match self.find(&str_chars(id)) {
            None => None,
            Some(i) => {
                proof {
                    lemma_first_unique(self@, id@, i as int);
                }
                let mut items: Vec<DownloadItem> = Vec::new();
        std::mem::swap(&mut items, &mut self.items);
                let item = &mut items[i];
                item.progress_bits = progress_bits;
                item.speed = speed;
                item.eta = eta;
                item.downloaded_bytes = bytes;
                let snapshot = item.copy();
                self.items = items;
                Some(snapshot)
            },
        }
    }

    /// The downloads newest first; downloads created at the same instant keep
    /// their stored order.
    pub fn list(&self) -> (r: Vec<DownloadItem>)
        ensures
            r@ == newest_first(self@),
    {
        sorted_newest_first(&self.items)
    }

    /// Queues a request under the given id and creation time, after checking
    /// its URL and options, and returns the new item. The history is then
    /// trimmed to the newest [`MAX_HISTORY`] downloads.
    pub fn enqueue_with(&mut self, request: DownloadRequest, id: String, now: Timestamp) -> (r:
        Result<DownloadItem, AppError>)
        ensures
            match r {
                Ok(item) => fresh_item(item, request, id, now) && spec_validate_request(
                    request,
                ) is Ok && final(self)@ == trimmed(old(self)@.push(item)),
                Err(e) => final(self)@ == old(self)@ && match spec_validate_youtube_url(
                    request.url@,
                ) {
                    Err(u) => e@ == u,
                    Ok(_) => spec_validate_request(request) == Err::<(), (AppErrorKind, Seq<char>)>(
                        e@,
                    ),
                },
            },
    {
        proof {
            use_type_invariant(&*self);
        }
        let url = match validate_youtube_url(request.url.as_str()) {
            Ok(u) => u,
            Err(e) => {
                return Err(e);
            },
        };
        let DownloadRequest {
            url: _,
            mode,
            quality,
            container,
            format_selector,
            audio_quality,
            subtitles,
            subtitle_language,
            embed_thumbnail,
            context,
        } = request;
        let stored = DownloadRequest {
            url: url.serialized,
            mode,
            quality,
            container,
            format_selector,
            audio_quality,
            subtitles,
            subtitle_language,
            embed_thumbnail,
            context,
        };
        match validate_request(&stored) {
            Ok(()) => {},
            Err(e) => {
                return Err(e);
            },
        }
        let item = DownloadItem {
            id,
            request: stored,
            title: String::from_str("Queued download"),
            channel: String::new(),
            thumbnail: None,
            output_path: None,
            status: DownloadStatus::Queued,
            progress_bits: PROGRESS_ZERO_BITS,
            speed: None,
            eta: None,
            total_bytes: None,
            downloaded_bytes: None,
            error: None,
            created_at: now,
            completed_at: None,
        };
        let snapshot = item.copy();
        let mut items: Vec<DownloadItem> = Vec::new();
        std::mem::swap(&mut items, &mut self.items);
        items.push(item);
        if items.len() > MAX_HISTORY {
            let mut sorted = sorted_newest_first(&items);
            proof {
                lemma_newest_first_len(items@);
            }
            sorted.truncate(MAX_HISTORY);
            self.items = sorted;
        } else {
            self.items = items;
        }
        Ok(snapshot)
    }

    /// Queues a request under a fresh random id, created now.
    pub fn enqueue(&mut self, request: DownloadRequest) -> (r: Result<DownloadItem, AppError>)
        ensures
            match r {
                Ok(item) => fresh_item(item, request, item.id, item.created_at)
                    && spec_validate_request(request) is Ok && final(self)@ == trimmed(
                    old(self)@.push(item),
                ),
                Err(e) => final(self)@ == old(self)@ && match spec_validate_youtube_url(
                    request.url@,
                ) {
                    Err(u) => e@ == u,
                    Ok(_) => spec_validate_request(request) == Err::<(), (AppErrorKind, Seq<char>)>(
                        e@,
                    ),
                },
            },
    {
        let id = new_download_id();
        let now = now_timestamp();
        self.enqueue_with(request, id, now)
    }
}

/// A stable newest-first sort by creation time.
pub fn sorted_newest_first(items: &Vec<DownloadItem>) -> (r: Vec<DownloadItem>)
    ensures
        r@ == newest_first(items@),
{
    let mut out: Vec<DownloadItem> = Vec::new();
    let mut i: usize = 0;
    assert(items@.take(0) =~= Seq::<DownloadItem>::empty());
    while i < items.len()
        invariant
            i <= items@.len(),
            out@ == newest_first(items@.take(i as int)),
        decreases items@.len() - i,
    {
        let x = items[i].copy();
        proof {
            lemma_newest_first_len(items@.take(i as int));
        }
        let mut k: usize = 0;
        assert(out@.skip(0) =~= out@);
        while k < out.len() && timestamp_ge(out[k].created_at, x.created_at)
            invariant
                k <= out@.len(),
                insert_pos(out@, x) == k + insert_pos(out@.skip(k as int), x),
            decreases out@.len() - k,
        {
            assert(out@.skip(k as int).drop_first() =~= out@.skip(k + 1));
            k = k + 1;
        }
        assert(insert_pos(out@.skip(k as int), x) == 0);
        let ghost t = out@;
        out.insert(k, x);
        proof {
            assert(items@.take(i + 1).drop_last() =~= items@.take(i as int));
            assert(items@.take(i + 1).last() == items@[i as int]);
        }
        i = i + 1;
    }
    assert(items@.take(items@.len() as int) =~= items@);
    out
}

/// `s` lists downloads newest first.
pub open spec fn is_newest_first(s: Seq<DownloadItem>) -> bool {
    forall|i: int, j: int| 0 <= i < j < s.len() ==> ts_ge(s[i].created_at, s[j].created_at)
}

/// A command moves only the download it names: the list keeps its length and
/// every other entry, and the named entry gets the command's state with its
/// error cleared.
pub proof fn command_changes_only_its_target(s: Seq<DownloadItem>, id: Seq<char>, c: Command)
    requires
        spec_command(s, id, c) is Ok,
    ensures
        has_id(s, id),
        allows(c, status_at(s, id)),
        spec_command(s, id, c)->Ok_0.len() == s.len(),
        spec_command(s, id, c)->Ok_0[index_of(s, id)] == with_status(
            s[index_of(s, id)],
            command_target(c),
            None,
        ),
        forall|j: int|
            0 <= j < s.len() && j != index_of(s, id) ==> #[trigger] spec_command(s, id, c)->Ok_0[j]
                == s[j],
{
    let w = choose|k: int| 0 <= k < s.len() && (#[trigger] s[k]).id@ == id;
    lemma_first_exists(s, id, w);
}

/// A command that names no download, or that the download's state refuses,
/// changes nothing and says why.
pub proof fn refused_command_reports_why(s: Seq<DownloadItem>, id: Seq<char>, c: Command)
    ensures
        !has_id(s, id) ==> spec_command(s, id, c) == Err::<Seq<DownloadItem>, _>(
            (AppErrorKind::NotFound, id),
        ),
        has_id(s, id) && !allows(c, status_at(s, id)) ==> spec_command(s, id, c) == Err::<
            Seq<DownloadItem>,
            _,
        >((AppErrorKind::InvalidInput, command_refusal(c))),
{
}

proof fn lemma_status_change_keeps_first(s: Seq<DownloadItem>, id: Seq<char>, st: DownloadStatus)
    requires
        has_id(s, id),
    ensures
        first_with_id(s, id, index_of(s, id)),
        index_of(s.update(index_of(s, id), with_status(s[index_of(s, id)], st, None)), id)
            == index_of(s, id),
{
    let i = index_of(s, id);
    let w = choose|k: int| 0 <= k < s.len() && (#[trigger] s[k]).id@ == id;
    lemma_first_exists(s, id, w);
    let t = s.update(i, with_status(s[i], st, None));
    assert(first_with_id(t, id, i));
    lemma_first_unique(t, id, i);
}

proof fn lemma_first_exists(s: Seq<DownloadItem>, id: Seq<char>, w: int)
    requires
        0 <= w < s.len(),
        s[w].id@ == id,
    ensures
        first_with_id(s, id, index_of(s, id)),
    decreases w,
{
    if exists|k: int| 0 <= k < w && (#[trigger] s[k]).id@ == id {
        let k = choose|k: int| 0 <= k < w && (#[trigger] s[k]).id@ == id;
        lemma_first_exists(s, id, k);
    } else {
        assert(first_with_id(s, id, w));
    }
}

/// Pausing a download and then resuming it puts it back in the queue, with
/// every other download untouched.
pub proof fn pause_then_resume_requeues(s: Seq<DownloadItem>, id: Seq<char>)
    requires
        spec_command(s, id, Command::Pause) is Ok,
    ensures
        spec_command(spec_command(s, id, Command::Pause)->Ok_0, id, Command::Resume) == Ok::<
            Seq<DownloadItem>,
            (AppErrorKind, Seq<char>),
        >(s.update(index_of(s, id), with_status(s[index_of(s, id)], DownloadStatus::Queued, None))),
{
    lemma_status_change_keeps_first(s, id, DownloadStatus::Paused);
    let i = index_of(s, id);
    let t = s.update(i, with_status(s[i], DownloadStatus::Paused, None));
    assert(has_id(t, id)) by {
        assert(t[i].id@ == id);
    }
    assert(t.update(i, with_status(t[i], DownloadStatus::Queued, None)) =~= s.update(
        i,
        with_status(s[i], DownloadStatus::Queued, None),
    ));
}

/// A cancelled download can always be retried, which queues it again.
pub proof fn cancel_then_retry_requeues(s: Seq<DownloadItem>, id: Seq<char>)
    requires
        spec_command(s, id, Command::Cancel) is Ok,
    ensures
        spec_command(spec_command(s, id, Command::Cancel)->Ok_0, id, Command::Retry) == Ok::<
            Seq<DownloadItem>,
            (AppErrorKind, Seq<char>),
        >(s.update(index_of(s, id), with_status(s[index_of(s, id)], DownloadStatus::Queued, None))),
{
    lemma_status_change_keeps_first(s, id, DownloadStatus::Cancelled);
    let i = index_of(s, id);
    let t = s.update(i, with_status(s[i], DownloadStatus::Cancelled, None));
    assert(has_id(t, id)) by {
        assert(t[i].id@ == id);
    }
    assert(t.update(i, with_status(t[i], DownloadStatus::Queued, None)) =~= s.update(
        i,
        with_status(s[i], DownloadStatus::Queued, None),
    ));
}

/// A completed download accepts no command: it can only be removed.
pub proof fn completed_download_refuses_commands(s: Seq<DownloadItem>, id: Seq<char>, c: Command)
    requires
        has_id(s, id),
        status_at(s, id) == DownloadStatus::Completed,
    ensures
        spec_command(s, id, c) is Err,
        spec_remove(s, id) is Ok,
{
}

/// Removing forgets exactly one download, and never one that is still queued,
/// running or paused.
pub proof fn remove_drops_one_inactive_download(s: Seq<DownloadItem>, id: Seq<char>)
    requires
        spec_remove(s, id) is Ok,
    ensures
        has_id(s, id),
        !is_active(status_at(s, id)),
        spec_remove(s, id)->Ok_0 == s.remove(index_of(s, id)),
        spec_remove(s, id)->Ok_0.len() + 1 == s.len(),
{
    let w = choose|k: int| 0 <= k < s.len() && (#[trigger] s[k]).id@ == id;
    lemma_first_exists(s, id, w);
}

proof fn lemma_insert_pos_splits(t: Seq<DownloadItem>, x: DownloadItem)
    requires
        is_newest_first(t),
    ensures
        insert_pos(t, x) <= t.len(),
        forall|k: int| 0 <= k < insert_pos(t, x) ==> ts_ge(#[trigger] t[k].created_at, x.created_at),
        forall|k: int|
            insert_pos(t, x) <= k < t.len() ==> ts_ge(x.created_at, #[trigger] t[k].created_at),
    decreases t.len(),
{
    lemma_insert_pos_bound(t, x);
    if t.len() > 0 {
        if ts_ge(t[0].created_at, x.created_at) {
            let u = t.drop_first();
            assert(is_newest_first(u)) by {
                assert forall|i: int, j: int| 0 <= i < j < u.len() implies ts_ge(
                    u[i].created_at,
                    u[j].created_at,
                ) by {
                    assert(u[i] == t[i + 1] && u[j] == t[j + 1]);
                }
            }
            lemma_insert_pos_splits(u, x);
            assert forall|k: int| 0 <= k < insert_pos(t, x) implies ts_ge(
                #[trigger] t[k].created_at,
                x.created_at,
            ) by {
                if k > 0 {
                    assert(t[k] == u[k - 1]);
                }
            }
            assert forall|k: int| insert_pos(t, x) <= k < t.len() implies ts_ge(
                x.created_at,
                #[trigger] t[k].created_at,
            ) by {
                assert(t[k] == u[k - 1]);
            }
        } else {
            assert forall|k: int| 0 <= k < t.len() implies ts_ge(
                x.created_at,
                #[trigger] t[k].created_at,
            ) by {
                if k > 0 {
                    assert(ts_ge(t[0].created_at, t[k].created_at));
                }
            }
        }
    }
}

/// The history is shown newest first, and showing it that way loses and adds
/// no download.
pub proof fn newest_first_sorts_and_keeps(s: Seq<DownloadItem>)
    ensures
        is_newest_first(newest_first(s)),
        newest_first(s).to_multiset() =~= s.to_multiset(),
    decreases s.len(),
{
    if s.len() > 0 {
        let t = newest_first(s.drop_last());
        let x = s.last();
        newest_first_sorts_and_keeps(s.drop_last());
        lemma_insert_pos_splits(t, x);
        let p = insert_pos(t, x) as int;
        let r = t.insert(p, x);
        assert(is_newest_first(r)) by {
            assert forall|i: int, j: int| 0 <= i < j < r.len() implies ts_ge(
                r[i].created_at,
                r[j].created_at,
            ) by {
                if i < p && j < p {
                    assert(r[i] == t[i] && r[j] == t[j]);
                } else if i < p && j == p {
                    assert(r[i] == t[i]);
                } else if i < p {
                    assert(r[i] == t[i] && r[j] == t[j - 1]);
                } else if i == p {
                    assert(r[j] == t[j - 1]);
                } else {
                    assert(r[i] == t[i - 1] && r[j] == t[j - 1]);
                }
            }
        }
        broadcast use vstd::multiset::group_multiset_axioms;

        assert(r =~= t.subrange(0, p) + seq![x] + t.subrange(p, t.len() as int));
        assert(t =~= t.subrange(0, p) + t.subrange(p, t.len() as int));
        vstd::seq_lib::lemma_multiset_commutative(t.subrange(0, p), seq![x]);
        vstd::seq_lib::lemma_multiset_commutative(t.subrange(0, p) + seq![x], t.subrange(p, t.len() as int));
        vstd::seq_lib::lemma_multiset_commutative(t.subrange(0, p), t.subrange(p, t.len() as int));
        assert(s =~= s.drop_last() + seq![x]);
        vstd::seq_lib::lemma_multiset_commutative(s.drop_last(), seq![x]);
    }
}

/// Whether a download was created at the instant `at`.
pub open spec fn created_at_instant(at: Timestamp) -> spec_fn(DownloadItem) -> bool {
    |y: DownloadItem| y.created_at == at
}

proof fn lemma_insert_pos_stops(t: Seq<DownloadItem>, x: DownloadItem)
    ensures
        insert_pos(t, x) < t.len() ==> !ts_ge(t[insert_pos(t, x) as int].created_at, x.created_at),
    decreases t.len(),
{
    if t.len() > 0 && ts_ge(t[0].created_at, x.created_at) {
        lemma_insert_pos_stops(t.drop_first(), x);
        if insert_pos(t, x) < t.len() {
            assert(t.drop_first()[insert_pos(t.drop_first(), x) as int] == t[insert_pos(t, x) as int]);
        }
    }
}

proof fn lemma_filter_none(s: Seq<DownloadItem>, f: spec_fn(DownloadItem) -> bool)
    requires
        forall|k: int| 0 <= k < s.len() ==> !f(#[trigger] s[k]),
    ensures
        s.filter(f) =~= Seq::<DownloadItem>::empty(),
{
    #[allow(deprecated)]
    s.filter_lemma(f);
    if s.filter(f).len() > 0 {
        let y = s.filter(f)[0];
        assert(s.filter(f).contains(y));
        s.lemma_filter_contains_rev(f, y);
        let k = choose|k: int| 0 <= k < s.len() && s[k] == y;
        assert(f(s[k]));
    }
}

/// Downloads created at the same instant keep their stored order when the
/// history is shown newest first: of the items created at any one instant,
/// the listing holds the same ones in the same order as the history.
pub proof fn newest_first_keeps_ties_in_order(s: Seq<DownloadItem>, at: Timestamp)
    ensures
        newest_first(s).filter(created_at_instant(at)) == s.filter(created_at_instant(at)),
    decreases s.len(),
{
    reveal(Seq::filter);
    let f = created_at_instant(at);
    if s.len() > 0 {
        let d = s.drop_last();
        let t = newest_first(d);
        let x = s.last();
        let p = insert_pos(t, x) as int;
        newest_first_keeps_ties_in_order(d, at);
        newest_first_sorts_and_keeps(d);
        lemma_insert_pos_splits(t, x);
        lemma_insert_pos_stops(t, x);
        let head = t.subrange(0, p);
        let tail = t.subrange(p, t.len() as int);
        assert(t.insert(p, x) =~= head + seq![x] + tail);
        assert(t =~= head + tail);
        Seq::filter_distributes_over_add(head + seq![x], tail, f);
        Seq::filter_distributes_over_add(head, seq![x], f);
        Seq::filter_distributes_over_add(head, tail, f);
        reveal_with_fuel(Seq::filter, 2);
        assert(seq![x].drop_last() =~= Seq::<DownloadItem>::empty());
        if f(x) {
            assert forall|k: int| 0 <= k < tail.len() implies !f(#[trigger] tail[k]) by {
                assert(tail[k] == t[p + k]);
                if p + k > p {
                    assert(ts_ge(t[p].created_at, t[p + k].created_at));
                }
            }
            lemma_filter_none(tail, f);
            assert(seq![x].filter(f) =~= seq![x]);
        } else {
            assert(seq![x].filter(f) =~= Seq::<DownloadItem>::empty());
        }
    }
}

proof fn lemma_insert_pos_is(t: Seq<DownloadItem>, x: DownloadItem, p: int)
    requires
        0 <= p <= t.len(),
        forall|k: int| 0 <= k < p ==> ts_ge(#[trigger] t[k].created_at, x.created_at),
        p < t.len() ==> !ts_ge(t[p].created_at, x.created_at),
    ensures
        insert_pos(t, x) == p,
    decreases t.len(),
{
    if p > 0 {
        assert(ts_ge(t[0].created_at, x.created_at));
        let u = t.drop_first();
        assert forall|k: int| 0 <= k < p - 1 implies ts_ge(#[trigger] u[k].created_at, x.created_at) by {
            assert(u[k] == t[k + 1]);
        }
        if p - 1 < u.len() {
            assert(u[p - 1] == t[p]);
        }
        lemma_insert_pos_is(u, x, p - 1);
    }
}

/// The listing of a history with one download taken out: the old listing
/// with that download taken out, everything else in the same order.
pub proof fn listing_without(s: Seq<DownloadItem>, i: int)
    requires
        0 <= i < s.len(),
    ensures
        exists|pos: int|
            0 <= pos < s.len() && newest_first(s)[pos] == s[i] && newest_first(s.remove(i))
                == newest_first(s).remove(pos),
    decreases s.len(),
{
    let d = s.drop_last();
    let x = s.last();
    let t = newest_first(d);
    let p = insert_pos(t, x) as int;
    lemma_newest_first_len(d);
    lemma_insert_pos_bound(t, x);
    let r = t.insert(p, x);
    assert(newest_first(s) == r);
    if i == s.len() - 1 {
        assert(s.remove(i) =~= d);
        assert(r.remove(p) =~= t);
        assert(r[p] == s[i]);
    } else {
        let s2 = s.remove(i);
        assert(s2.drop_last() =~= d.remove(i));
        assert(s2.last() == x);
        listing_without(d, i);
        let q = choose|q: int|
            0 <= q < d.len() && newest_first(d)[q] == d[i] && newest_first(d.remove(i))
                == newest_first(d).remove(q);
        newest_first_sorts_and_keeps(d);
        lemma_insert_pos_splits(t, x);
        lemma_insert_pos_stops(t, x);
        let t2 = t.remove(q);
        assert(newest_first(s2) == t2.insert(insert_pos(t2, x) as int, x));
        assert(s[i] == d[i]);
        if q < p {
            assert forall|k: int| 0 <= k < p - 1 implies ts_ge(#[trigger] t2[k].created_at, x.created_at) by {
                if k < q {
                    assert(t2[k] == t[k]);
                } else {
                    assert(t2[k] == t[k + 1]);
                }
            }
            if p - 1 < t2.len() {
                assert(t2[p - 1] == t[p]);
            }
            lemma_insert_pos_is(t2, x, p - 1);
            assert(t2.insert(p - 1, x) =~= r.remove(q));
            assert(r[q] == t[q]);
        } else {
            assert forall|k: int| 0 <= k < p implies ts_ge(#[trigger] t2[k].created_at, x.created_at) by {
                assert(t2[k] == t[k]);
            }
            if p < t2.len() {
                if q == p {
                    assert(t2[p] == t[p + 1]);
                    assert(ts_ge(t[p].created_at, t[p + 1].created_at));
                } else {
                    assert(t2[p] == t[p]);
                }
            }
            lemma_insert_pos_is(t2, x, p);
            assert(t2.insert(p, x) =~= r.remove(q + 1));
            assert(r[q + 1] == t[q]);
        }
    }
}

/// Removing a download from the history takes exactly that download out of
/// the newest-first listing and leaves the rest in the same order.
pub proof fn remove_keeps_the_listing_order(s: Seq<DownloadItem>, id: Seq<char>)
    requires
        spec_remove(s, id) is Ok,
    ensures
        exists|pos: int|
            0 <= pos < s.len() && newest_first(s)[pos].id@ == id && newest_first(
                spec_remove(s, id)->Ok_0,
            ) == newest_first(s).remove(pos),
{
    remove_drops_one_inactive_download(s, id);
    let w = choose|k: int| 0 <= k < s.len() && (#[trigger] s[k]).id@ == id;
    lemma_first_exists(s, id, w);
    listing_without(s, index_of(s, id));
}

/// Which commands a download's state accepts, and what each does: pause a
/// running or queued download; resume a paused or interrupted one; cancel
/// anything not yet completed or cancelled; retry a failed or cancelled one.
/// An accepted command gives the download its new state (paused, queued,
/// cancelled, queued again) with the error cleared.
pub proof fn commands_follow_the_state_table(s: Seq<DownloadItem>, id: Seq<char>, c: Command)
    requires
        has_id(s, id),
    ensures
        ({
            let st = status_at(s, id);
            (spec_command(s, id, c) is Ok) == match c {
                Command::Pause => st == DownloadStatus::Downloading || st == DownloadStatus::Queued,
                Command::Resume => st == DownloadStatus::Paused || st == DownloadStatus::Interrupted,
                Command::Cancel => st != DownloadStatus::Completed && st != DownloadStatus::Cancelled,
                Command::Retry => st == DownloadStatus::Cancelled || st == DownloadStatus::Failed,
            }
        }),
        spec_command(s, id, c) is Ok ==> spec_command(s, id, c)->Ok_0[index_of(s, id)].status
            == match c {
            Command::Pause => DownloadStatus::Paused,
            Command::Resume => DownloadStatus::Queued,
            Command::Cancel => DownloadStatus::Cancelled,
            Command::Retry => DownloadStatus::Queued,
        },
        spec_command(s, id, c) is Ok ==> spec_command(s, id, c)->Ok_0[index_of(s, id)].error is None,
{
    let w = choose|k: int| 0 <= k < s.len() && (#[trigger] s[k]).id@ == id;
    lemma_first_exists(s, id, w);
}

/// A failed download can be retried, which queues it again with its error
/// cleared and leaves every other download as it was.
pub proof fn failed_download_can_be_retried(s: Seq<DownloadItem>, id: Seq<char>)
    requires
        has_id(s, id),
        status_at(s, id) == DownloadStatus::Failed,
    ensures
        spec_command(s, id, Command::Retry) == Ok::<Seq<DownloadItem>, (AppErrorKind, Seq<char>)>(
            s.update(
                index_of(s, id),
                DownloadItem { status: DownloadStatus::Queued, error: None, ..s[index_of(s, id)] },
            ),
        ),
{
}

/// Only a download that is over can be removed: a completed, failed,
/// cancelled or interrupted one; a queued, running or paused one is refused.
pub proof fn remove_accepts_only_finished_downloads(s: Seq<DownloadItem>, id: Seq<char>)
    requires
        has_id(s, id),
    ensures
        ({
            let st = status_at(s, id);
            (spec_remove(s, id) is Ok) == (st == DownloadStatus::Completed || st
                == DownloadStatus::Failed || st == DownloadStatus::Cancelled || st
                == DownloadStatus::Interrupted)
        }),
{
}

/// How a finished run leaves its download: the given state, error and
/// output file; full progress and the finish time when it completed, the
/// progress and finish time it had otherwise; no speed or time left; and its
/// id, request, title and creation time as they were.
pub proof fn finishing_records_the_outcome(
    it: DownloadItem,
    status: DownloadStatus,
    error: Option<String>,
    output: Option<String>,
    now: Timestamp,
)
    ensures
        ({
            let f = finished_item(it, status, error, output, now);
            &&& f.status == status && f.error == error && f.output_path == output
            &&& DownloadStatus::Completed == status ==> f.progress_bits == 0x42c8_0000u32
                && f.completed_at == Some(now)
            &&& DownloadStatus::Completed != status ==> f.progress_bits == it.progress_bits
                && f.completed_at == it.completed_at
            &&& f.speed is None && f.eta is None
            &&& f.id == it.id && f.request == it.request && f.title == it.title
                && f.created_at == it.created_at && f.downloaded_bytes == it.downloaded_bytes
        }),
{
}

/// A random (version 4) UUID in its hyphenated form, from the uuid crate. The
/// contract states nothing: the id is random.
#[verifier::external_body]
fn new_download_id() -> String {
    uuid::Uuid::new_v4().to_string()
}

/// The current time from chrono's `Utc::now`, as seconds and nanoseconds
/// since the Unix epoch. The contract states nothing: it reads the clock.
#[verifier::external_body]
pub(crate) fn now_timestamp() -> Timestamp {
    let now = chrono::Utc::now();
    Timestamp { secs: now.timestamp(), nanos: now.timestamp_subsec_nanos() }
}


} // verus!
