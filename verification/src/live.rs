use vstd::prelude::*;

use crate::error::{IoriError, IoriResult};
use crate::segment::SegmentInfo;

verus! {

/// Declares url::Url so it can stand in fields and signatures; its values
/// are opaque here and only carried through to the caller's manifest I/O.
#[verifier::external_type_specification]
#[verifier::external_body]
pub struct ExUrl(url::Url);

/// Declares url::ParseError, the error url::Url::parse returns; it is
/// mapped to this library's own error right after the call.
#[verifier::external_type_specification]
#[verifier::external_body]
pub struct ExParseError(url::ParseError);

/// Whether the url crate accepts `s` as an absolute URL.
pub uninterp spec fn is_valid_url(s: Seq<char>) -> bool;

/// Relies on url::Url::parse: parses an absolute URL from a string.  It
/// succeeds exactly on the addresses the crate accepts, which depend on
/// the characters alone, and returns the crate's parse error on the rest.
#[verifier::external_body]
fn parse_url(input: &str) -> (r: Result<url::Url, url::ParseError>)
    ensures
        r is Ok <==> is_valid_url(input@),
{
    url::Url::parse(input)
}

/// A live HLS stream: the playlist address to poll, an optional decryption
/// key and external decrypt/remux command handed through to the fetch path,
/// and the retry budget of the polling state machine.  The network client
/// that loads the playlist is the caller's; this type holds what the
/// polling decisions need.
pub struct HlsLiveSource {
    playlist_url: url::Url,
    key: Option<String>,
    shaka_packager_command: Option<String>,
    retry: u32,
}

/// The view of an optional borrowed string.
pub open spec fn opt_str_view(s: Option<&str>) -> Option<Seq<char>> {
    match s {
        Some(k) => Some(k@),
        None => None,
    }
}

impl HlsLiveSource {
    pub closed spec fn spec_retry(self) -> u32 {
        self.retry
    }

    pub closed spec fn spec_key(self) -> Option<Seq<char>> {
        match self.key {
            Some(k) => Some(k@),
            None => None,
        }
    }

    pub closed spec fn spec_shaka_packager_command(self) -> Option<String> {
        self.shaka_packager_command
    }

    pub closed spec fn spec_playlist_url(self) -> url::Url {
        self.playlist_url
    }

    /// A live source polling `m3u8_url`.  Construction succeeds exactly
    /// when the address parses as an absolute URL; anything else is
    /// rejected as `InvalidUrl`.  The retry budget starts at 3.
    pub fn new(m3u8_url: &str, key: Option<&str>, shaka_packager_command: Option<String>) -> (r:
        IoriResult<Self>)
        ensures
            r is Ok <==> is_valid_url(m3u8_url@),
            r matches Ok(s) ==> s.spec_retry() == 3 && s.spec_key() == opt_str_view(key)
                && s.spec_shaka_packager_command() == shaka_packager_command,
            !is_valid_url(m3u8_url@) ==> r == IoriResult::<Self>::Err(IoriError::InvalidUrl),
    {
        match parse_url(m3u8_url) {
            Ok(u) => Ok(
                HlsLiveSource {
                    playlist_url: u,
                    key: match key {
                        Some(k) => Some(k.to_owned()),
                        None => None,
                    },
                    shaka_packager_command,
                    retry: 3,
                },
            ),
            Err(_) => Err(IoriError::InvalidUrl),
        }
    }

    /// The same source with its retry budget replaced; every other field,
    /// the playlist address first, is kept.
    pub fn with_retry(self, retry: u32) -> (r: Self)
        ensures
            r.spec_retry() == retry,
            r.spec_playlist_url() == self.spec_playlist_url(),
            r.spec_key() == self.spec_key(),
            r.spec_shaka_packager_command() == self.spec_shaka_packager_command(),
    {
        HlsLiveSource {
            playlist_url: self.playlist_url,
            key: self.key,
            shaka_packager_command: self.shaka_packager_command,
            retry,
        }
    }

    /// The playlist address, for the caller that performs the manifest I/O.
    pub fn playlist_url(&self) -> (r: &url::Url)
        ensures
            *r == self.spec_playlist_url(),
    {
        &self.playlist_url
    }

    /// The decryption key, for the caller's fetch path.
    pub fn key(&self) -> (r: &Option<String>)
        ensures
            r matches Some(k) ==> self.spec_key() matches Some(v) && v == k@,
            r is None <==> self.spec_key() is None,
    {
        &self.key
    }

    /// The external decrypt/remux command, for the caller's fetch path.
    pub fn shaka_packager_command(&self) -> (r: &Option<String>)
        ensures
            *r == self.spec_shaka_packager_command(),
    {
        &self.shaka_packager_command
    }

    pub fn retry(&self) -> (r: u32)
        ensures
            r == self.spec_retry(),
    {
        self.retry
    }
}

/// The duration assumed for a rendition that reported no new segments, and
/// the bounds the poll delay is clamped to, all in milliseconds.
pub const DEFAULT_SEGMENT_DURATION_MS: u64 = 5000;

pub const MIN_POLL_DELAY_MS: u64 = 1000;

pub const MAX_POLL_DELAY_MS: u64 = 5000;

/// Whether `s` became available after the cursor position: with no cursor
/// every segment is new, otherwise exactly those past the remote counter.
pub open spec fn is_new(s: SegmentInfo, cursor: Option<u64>) -> bool {
    match cursor {
        None => true,
        Some(c) => s.media_sequence > c,
    }
}

/// The subsequence of `rendition` whose `media_sequence` lies strictly past
/// the cursor, in its original order.
pub open spec fn new_of(rendition: Seq<SegmentInfo>, cursor: Option<u64>) -> Seq<SegmentInfo>
    decreases rendition.len(),
{
    if rendition.len() == 0 {
        Seq::empty()
    } else {
        let rest = new_of(rendition.drop_last(), cursor);
        if is_new(rendition.last(), cursor) {
            rest.push(rendition.last())
        } else {
            rest
        }
    }
}

pub proof fn lemma_new_of_len(rendition: Seq<SegmentInfo>, cursor: Option<u64>)
    ensures
        new_of(rendition, cursor).len() <= rendition.len(),
    decreases rendition.len(),
{
    if rendition.len() > 0 {
        lemma_new_of_len(rendition.drop_last(), cursor);
    }
}

/// The segments of `rendition` that are new past `cursor`.
pub fn new_segments(rendition: &Vec<SegmentInfo>, cursor: Option<u64>) -> (r: Vec<SegmentInfo>)
    ensures
        r@ == new_of(rendition@, cursor),
{
    let n = rendition.len();
    let mut r: Vec<SegmentInfo> = Vec::new();
    let mut i: usize = 0;
    while i < n
        invariant
            n == rendition@.len(),
            i <= n,
            r@ == new_of(rendition@.take(i as int), cursor),
        decreases n - i,
    {
        let s = rendition[i];
        let fresh = match cursor {
            None => true,
            Some(c) => s.media_sequence > c,
        };
        proof {
            assert(rendition@.take(i + 1).drop_last() =~= rendition@.take(i as int));
            assert(rendition@.take(i + 1).last() == rendition@[i as int]);
        }
        if fresh {
            r.push(s);
        }
        i += 1;
    }
    proof {
        assert(rendition@.take(n as int) =~= rendition@);
    }
    r
}

/// The cursor after a poll: the last new segment's `media_sequence`, or the
/// old position when nothing new appeared.
pub open spec fn spec_advance_cursor(new_segs: Seq<SegmentInfo>, cursor: Option<u64>) -> Option<
    u64,
> {
    if new_segs.len() == 0 {
        cursor
    } else {
        Some(new_segs.last().media_sequence)
    }
}

pub fn advance_cursor(new_segs: &Vec<SegmentInfo>, cursor: Option<u64>) -> (r: Option<u64>)
    ensures
        r == spec_advance_cursor(new_segs@, cursor),
{
    if new_segs.len() == 0 {
        cursor
    } else {
        Some(new_segs[new_segs.len() - 1].media_sequence)
    }
}

/// The renditions' new segments interleaved into one batch: rendition order
/// across tracks, arrival order within each track.  Which interleaving the
/// mixing step uses is open; this one keeps each track's relative order,
/// which is all the pipeline relies on.
pub open spec fn mixed(lists: Seq<Seq<SegmentInfo>>) -> Seq<SegmentInfo>
    decreases lists.len(),
{
    if lists.len() == 0 {
        Seq::empty()
    } else {
        mixed(lists.drop_last()) + lists.last()
    }
}

pub fn mix(lists: &Vec<Vec<SegmentInfo>>) -> (r: Vec<SegmentInfo>)
    ensures
        r@ == mixed(lists@.map_values(|v: Vec<SegmentInfo>| v@)),
{
    let ghost lv = lists@.map_values(|v: Vec<SegmentInfo>| v@);
    let n = lists.len();
    let mut r: Vec<SegmentInfo> = Vec::new();
    let mut i: usize = 0;
    while i < n
        invariant
            n == lists@.len(),
            lv == lists@.map_values(|v: Vec<SegmentInfo>| v@),
            i <= n,
            r@ == mixed(lv.take(i as int)),
        decreases n - i,
    {
        let m = lists[i].len();
        let mut j: usize = 0;
        while j < m
            invariant
                n == lists@.len(),
                lv == lists@.map_values(|v: Vec<SegmentInfo>| v@),
                i < n,
                m == lists@[i as int]@.len(),
                j <= m,
                r@ == mixed(lv.take(i as int)) + lv[i as int].take(j as int),
            decreases m - j,
        {
            r.push(lists[i][j]);
            proof {
                assert(lv[i as int].take(j + 1) =~= lv[i as int].take(j as int).push(
                    lv[i as int][j as int],
                ));
                assert(r@ =~= mixed(lv.take(i as int)) + lv[i as int].take(j + 1));
            }
            j += 1;
        }
        proof {
            assert(lv.take(i + 1).drop_last() =~= lv.take(i as int));
            assert(lv.take(i + 1).last() == lv[i as int]);
            assert(lv[i as int].take(m as int) =~= lv[i as int]);
        }
        i += 1;
    }
    proof {
        assert(lv.take(n as int) =~= lv);
    }
    r
}

/// The summed play time of a rendition's new segments, in milliseconds.
pub open spec fn sum_duration_ms(s: Seq<SegmentInfo>) -> int
    decreases s.len(),
{
    if s.len() == 0 {
        0
    } else {
        sum_duration_ms(s.drop_last()) + s.last().duration_ms
    }
}

/// A rendition's average new-segment duration in milliseconds; a rendition
/// with no new segments has no average and is assumed to run at the default
/// segment duration.
pub open spec fn rendition_avg_ms(s: Seq<SegmentInfo>) -> int {
    if s.len() == 0 {
        DEFAULT_SEGMENT_DURATION_MS as int
    } else {
        sum_duration_ms(s) / (s.len() as int)
    }
}

/// The fold of the per-rendition averages by minimum, floored at the
/// default duration when there are no renditions.  The default also bounds
/// the fold from above, which the clamp makes indistinguishable from the
/// plain minimum.
pub open spec fn min_avg_ms(lists: Seq<Seq<SegmentInfo>>) -> int
    decreases lists.len(),
{
    if lists.len() == 0 {
        DEFAULT_SEGMENT_DURATION_MS as int
    } else {
        let rest = min_avg_ms(lists.drop_last());
        let a = rendition_avg_ms(lists.last());
        if a < rest {
            a
        } else {
            rest
        }
    }
}

/// The next poll delay: the minimum average per-rendition segment duration
/// in milliseconds, clamped to the poll-delay bounds.
pub open spec fn spec_poll_delay_ms(lists: Seq<Seq<SegmentInfo>>) -> int {
    let d = min_avg_ms(lists);
    if d < MIN_POLL_DELAY_MS as int {
        MIN_POLL_DELAY_MS as int
    } else if d > MAX_POLL_DELAY_MS as int {
        MAX_POLL_DELAY_MS as int
    } else {
        d
    }
}

proof fn lemma_sum_duration_bound(s: Seq<SegmentInfo>)
    ensures
        0 <= sum_duration_ms(s) <= s.len() * (u64::MAX as int),
    decreases s.len(),
{
    if s.len() > 0 {
        lemma_sum_duration_bound(s.drop_last());
        assert(s.len() * (u64::MAX as int) == (s.len() - 1) * (u64::MAX as int) + (
        u64::MAX as int)) by (nonlinear_arith);
    }
}

/// A rendition's average duration fits in 64 bits.
proof fn lemma_avg_bound(s: Seq<SegmentInfo>)
    ensures
        0 <= rendition_avg_ms(s) <= u64::MAX as int,
{
    lemma_sum_duration_bound(s);
    if s.len() > 0 {
        assert(sum_duration_ms(s) / (s.len() as int) <= u64::MAX as int) by (nonlinear_arith)
            requires
                0 <= sum_duration_ms(s) <= s.len() * (u64::MAX as int),
                s.len() > 0,
        ;
        assert(sum_duration_ms(s) / (s.len() as int) >= 0) by (nonlinear_arith)
            requires
                0 <= sum_duration_ms(s),
                s.len() > 0,
        ;
    }
}

/// The duration sum of one rendition's new segments.
fn sum_durations(s: &Vec<SegmentInfo>) -> (r: u128)
    ensures
        r as int == sum_duration_ms(s@),
{
    let n = s.len();
    let mut sum: u128 = 0;
    let mut i: usize = 0;
    while i < n
        invariant
            n == s@.len(),
            i <= n,
            sum as int == sum_duration_ms(s@.take(i as int)),
            0 <= sum as int <= (i as int) * (u64::MAX as int),
        decreases n - i,
    {
        proof {
            assert(s@.take(i + 1).drop_last() =~= s@.take(i as int));
            assert(s@.take(i + 1).last() == s@[i as int]);
            assert((i + 1) * (u64::MAX as int) == (i as int) * (u64::MAX as int) + (
            u64::MAX as int)) by (nonlinear_arith);
            assert((i as int) * (u64::MAX as int) <= (usize::MAX as int) * (u64::MAX as int))
                by (nonlinear_arith)
                requires
                    0 <= i as int <= usize::MAX as int,
            ;
        }
        sum = sum + (s[i].duration_ms as u128);
        i += 1;
    }
    proof {
        assert(s@.take(n as int) =~= s@);
    }
    sum
}

/// The next poll delay for the renditions' new segments, in milliseconds.
/// An average of 2000 ms polls at 2000 ms; averages beyond the bounds are
/// clamped to them.
pub fn poll_delay_ms(lists: &Vec<Vec<SegmentInfo>>) -> (r: u64)
    ensures
        r as int == spec_poll_delay_ms(lists@.map_values(|v: Vec<SegmentInfo>| v@)),
        MIN_POLL_DELAY_MS <= r <= MAX_POLL_DELAY_MS,
{
    let ghost lv = lists@.map_values(|v: Vec<SegmentInfo>| v@);
    let n = lists.len();
    let mut best: u64 = DEFAULT_SEGMENT_DURATION_MS;
    let mut i: usize = 0;
    while i < n
        invariant
            n == lists@.len(),
            lv == lists@.map_values(|v: Vec<SegmentInfo>| v@),
            i <= n,
            best as int == min_avg_ms(lv.take(i as int)),
        decreases n - i,
    {
        let m = lists[i].len();
        let avg: u64 = if m == 0 {
            DEFAULT_SEGMENT_DURATION_MS
        } else {
            let sum = sum_durations(&lists[i]);
            proof {
                lemma_avg_bound(lv[i as int]);
            }
            (sum / (m as u128)) as u64
        };
        proof {
            assert(avg as int == rendition_avg_ms(lv[i as int]));
            assert(lv.take(i + 1).drop_last() =~= lv.take(i as int));
            assert(lv.take(i + 1).last() == lv[i as int]);
        }
        if avg < best {
            best = avg;
        }
        i += 1;
    }
    proof {
        assert(lv.take(n as int) =~= lv);
    }
    if best < MIN_POLL_DELAY_MS {
        MIN_POLL_DELAY_MS
    } else if best > MAX_POLL_DELAY_MS {
        MAX_POLL_DELAY_MS
    } else {
        best
    }
}

/// The number of segments across all renditions.
pub open spec fn total_count(lists: Seq<Seq<SegmentInfo>>) -> int
    decreases lists.len(),
{
    if lists.len() == 0 {
        0
    } else {
        total_count(lists.drop_last()) + lists.last().len()
    }
}

pub proof fn lemma_mixed_len(lists: Seq<Seq<SegmentInfo>>)
    ensures
        mixed(lists).len() == total_count(lists),
    decreases lists.len(),
{
    if lists.len() > 0 {
        lemma_mixed_len(lists.drop_last());
    }
}

proof fn lemma_total_count_pointwise_le(a: Seq<Seq<SegmentInfo>>, b: Seq<Seq<SegmentInfo>>)
    requires
        a.len() == b.len(),
        forall|i: int| 0 <= i < a.len() ==> (#[trigger] a[i]).len() <= b[i].len(),
    ensures
        total_count(a) <= total_count(b),
    decreases a.len(),
{
    if a.len() > 0 {
        lemma_total_count_pointwise_le(a.drop_last(), b.drop_last());
    }
}

/// Per rendition, the segments that are new past that rendition's cursor.
pub open spec fn new_lists(lists: Seq<Seq<SegmentInfo>>, cursors: Seq<Option<u64>>) -> Seq<
    Seq<SegmentInfo>,
> {
    Seq::new(lists.len(), |i: int| new_of(lists[i], cursors[i]))
}

/// Per rendition, the cursor advanced past that rendition's new segments.
pub open spec fn advanced_cursors(lists: Seq<Seq<SegmentInfo>>, cursors: Seq<Option<u64>>) -> Seq<
    Option<u64>,
> {
    Seq::new(cursors.len(), |i: int| spec_advance_cursor(new_of(lists[i], cursors[i]), cursors[i]))
}

/// The batch with this stream's own gap-free ordering keys assigned:
/// element `i` carries sequence `start + i`.
pub open spec fn with_sequences(batch: Seq<SegmentInfo>, start: u64) -> Seq<SegmentInfo> {
    Seq::new(
        batch.len(),
        |i: int|
            SegmentInfo {
                sequence: (start + i) as u64,
                media_sequence: batch[i].media_sequence,
                rendition: batch[i].rendition,
                duration_ms: batch[i].duration_ms,
                format: batch[i].format,
            },
    )
}

/// A batch whose element `i` carries sequence `start + i`, with no
/// wrap-around.
pub open spec fn batch_from(batch: Seq<SegmentInfo>, start: u64) -> bool {
    forall|i: int| 0 <= i < batch.len() ==> (#[trigger] batch[i].sequence) as int == start + i
}

/// Assigning sequences from `start` yields a batch counted from `start`.
pub proof fn lemma_with_sequences_from(batch: Seq<SegmentInfo>, start: u64)
    requires
        start + batch.len() <= u64::MAX,
    ensures
        batch_from(with_sequences(batch, start), start),
{
}

/// Every batch emitted by the streaming source carries sequences strictly
/// greater than those of every batch emitted before it, and each batch is
/// strictly increasing within itself.  The premises are what `on_manifest`
/// ensures of any two emissions: each batch counts up from the session's
/// counter, and the counter has moved past the whole earlier batch by the
/// time the later one is assigned.
pub proof fn lemma_batches_strictly_increasing(
    b1: Seq<SegmentInfo>,
    s1: u64,
    b2: Seq<SegmentInfo>,
    s2: u64,
)
    requires
        batch_from(b1, s1),
        batch_from(b2, s2),
        s1 + b1.len() <= s2,
    ensures
        forall|i: int, j: int|
            0 <= i < b1.len() && 0 <= j < b2.len() ==> b1[i].sequence < b2[j].sequence,
        forall|i: int, j: int| 0 <= i < j < b2.len() ==> b2[i].sequence < b2[j].sequence,
{
}

/// The states of the live polling state machine.  One cycle runs
/// `Polling -> Waiting -> Polling`; `Terminated` is terminal, reached at
/// end-of-stream, on an exhausted retry budget, or when the consumer goes
/// away.
#[derive(Clone, Copy, Debug, PartialEq, Eq, Structural)]
pub enum SourceState {
    Initializing,
    Polling,
    Waiting,
    Terminated,
}

/// What one successful poll hands back: the batch to emit, already carrying
/// this stream's ordering keys, and the delay until the next poll.
pub struct PollOutcome {
    pub batch: Vec<SegmentInfo>,
    pub delay_ms: u64,
}

/// The transient state of one live stream across polls: the per-rendition
/// `media_sequence` cursors, the single-writer counter assigning this
/// stream's gap-free sequence keys, and the retry budget.  The session is
/// owned by one polling task; the caller performs the manifest I/O and the
/// waiting, and feeds the outcomes in.
pub struct StreamSession {
    state: SourceState,
    cursors: Vec<Option<u64>>,
    next_sequence: u64,
    retry: u32,
    retries_left: u32,
    failed: bool,
}

impl StreamSession {
    pub closed spec fn spec_state(self) -> SourceState {
        self.state
    }

    pub closed spec fn spec_cursors(self) -> Seq<Option<u64>> {
        self.cursors@
    }

    pub closed spec fn spec_next_sequence(self) -> u64 {
        self.next_sequence
    }

    pub closed spec fn spec_retry(self) -> u32 {
        self.retry
    }

    pub closed spec fn spec_retries_left(self) -> u32 {
        self.retries_left
    }

    pub closed spec fn spec_failed(self) -> bool {
        self.failed
    }

    pub open spec fn inv(self) -> bool {
        &&& self.spec_retries_left() <= self.spec_retry()
        &&& (self.spec_failed() ==> self.spec_state() == SourceState::Terminated)
    }

    /// A fresh session with retry budget `retry`, before the first manifest
    /// load; no segment has been emitted.
    pub fn new(retry: u32) -> (r: Self)
        ensures
            r.inv(),
            r.spec_state() == SourceState::Initializing,
            r.spec_cursors() == Seq::<Option<u64>>::empty(),
            r.spec_next_sequence() == 0,
            r.spec_retry() == retry,
            r.spec_retries_left() == retry,
            !r.spec_failed(),
    {
        let r = StreamSession {
            state: SourceState::Initializing,
            cursors: Vec::new(),
            next_sequence: 0,
            retry,
            retries_left: retry,
            failed: false,
        };
        proof {
            assert(r.cursors@ =~= Seq::<Option<u64>>::empty());
        }
        r
    }

    pub fn state(&self) -> (r: SourceState)
        ensures
            r == self.spec_state(),
    {
        self.state
    }

    pub fn has_failed(&self) -> (r: bool)
        ensures
            r == self.spec_failed(),
    {
        self.failed
    }

    pub fn next_sequence(&self) -> (r: u64)
        ensures
            r == self.spec_next_sequence(),
    {
        self.next_sequence
    }

    /// How many renditions this session tracks a cursor for.
    pub fn rendition_count(&self) -> (r: usize)
        ensures
            r == self.spec_cursors().len(),
    {
        self.cursors.len()
    }

    /// The first manifest load succeeded and established one cursor per
    /// rendition; polling begins, with a full retry budget.
    pub fn on_init_loaded(&mut self, cursors: Vec<Option<u64>>)
        requires
            old(self).inv(),
            old(self).spec_state() == SourceState::Initializing,
        ensures
            final(self).inv(),
            final(self).spec_state() == SourceState::Polling,
            final(self).spec_cursors() == cursors@,
            final(self).spec_next_sequence() == old(self).spec_next_sequence(),
            final(self).spec_retry() == old(self).spec_retry(),
            final(self).spec_retries_left() == old(self).spec_retry(),
            !final(self).spec_failed(),
    {
        self.cursors = cursors;
        self.state = SourceState::Polling;
        self.retries_left = self.retry;
    }

    /// One manifest load attempt failed.  The budget tolerates `retry`
    /// consecutive failures; the one that exhausts it terminates the stream
    /// with `ManifestFetchError`, and with a budget of zero every failure
    /// is fatal at once.
    pub fn on_manifest_failure(&mut self) -> (r: IoriResult<()>)
        requires
            old(self).inv(),
            old(self).spec_state() == SourceState::Initializing || old(self).spec_state()
                == SourceState::Polling,
        ensures
            final(self).inv(),
            old(self).spec_retries_left() <= 1 ==> r == IoriResult::<()>::Err(
                IoriError::ManifestFetchError,
            ) && final(self).spec_state() == SourceState::Terminated && final(self).spec_failed()
                && final(self).spec_retries_left() == 0,
            old(self).spec_retries_left() > 1 ==> r == IoriResult::<()>::Ok(())
                && final(self).spec_state() == old(self).spec_state()
                && !final(self).spec_failed()
                && final(self).spec_retries_left() == old(self).spec_retries_left() - 1,
            final(self).spec_cursors() == old(self).spec_cursors(),
            final(self).spec_next_sequence() == old(self).spec_next_sequence(),
            final(self).spec_retry() == old(self).spec_retry(),
    {
        if self.retries_left <= 1 {
            self.retries_left = 0;
            self.state = SourceState::Terminated;
            self.failed = true;
            Err(IoriError::ManifestFetchError)
        } else {
            self.retries_left = self.retries_left - 1;
            Ok(())
        }
    }

    /// The consumer side of the emission boundary is gone: the stream ends
    /// at once, cleanly, with no error recorded.
    pub fn on_consumer_closed(&mut self)
        requires
            old(self).inv(),
            old(self).spec_state() != SourceState::Terminated,
        ensures
            final(self).inv(),
            final(self).spec_state() == SourceState::Terminated,
            !final(self).spec_failed(),
            final(self).spec_cursors() == old(self).spec_cursors(),
            final(self).spec_next_sequence() == old(self).spec_next_sequence(),
            final(self).spec_retry() == old(self).spec_retry(),
            final(self).spec_retries_left() == old(self).spec_retries_left(),
    {
        self.state = SourceState::Terminated;
    }

    /// The poll-interval wait elapsed; the next poll begins.
    pub fn on_wake(&mut self)
        requires
            old(self).inv(),
            old(self).spec_state() == SourceState::Waiting,
        ensures
            final(self).inv(),
            final(self).spec_state() == SourceState::Polling,
            final(self).spec_cursors() == old(self).spec_cursors(),
            final(self).spec_next_sequence() == old(self).spec_next_sequence(),
            final(self).spec_retry() == old(self).spec_retry(),
            final(self).spec_retries_left() == old(self).spec_retries_left(),
            final(self).spec_failed() == old(self).spec_failed(),
    {
        self.state = SourceState::Polling;
    }

    /// One manifest poll succeeded: `renditions` holds the manifest's
    /// current segments, one list per rendition, and `is_end` its
    /// end-of-stream signal.  The session filters each rendition down to
    /// the segments past its cursor, advances the cursors, interleaves the
    /// new segments into one batch carrying this stream's own strictly
    /// increasing sequence keys, and computes the next poll delay.  At
    /// end-of-stream the session terminates cleanly; otherwise it waits out
    /// the delay.
    pub fn on_manifest(&mut self, renditions: &Vec<Vec<SegmentInfo>>, is_end: bool) -> (r:
        PollOutcome)
        requires
            old(self).inv(),
            old(self).spec_state() == SourceState::Polling,
            renditions@.len() == old(self).spec_cursors().len(),
            old(self).spec_next_sequence() + total_count(
                renditions@.map_values(|v: Vec<SegmentInfo>| v@),
            ) <= u64::MAX,
        ensures
            final(self).inv(),
            ({
                let rv = renditions@.map_values(|v: Vec<SegmentInfo>| v@);
                let nl = new_lists(rv, old(self).spec_cursors());
                &&& r.batch@ == with_sequences(mixed(nl), old(self).spec_next_sequence())
                &&& r.delay_ms as int == spec_poll_delay_ms(nl)
                &&& final(self).spec_cursors() == advanced_cursors(rv, old(self).spec_cursors())
                &&& final(self).spec_next_sequence() == old(self).spec_next_sequence()
                    + r.batch@.len()
            }),
            final(self).spec_state() == if is_end {
                SourceState::Terminated
            } else {
                SourceState::Waiting
            },
            !final(self).spec_failed(),
            final(self).spec_retry() == old(self).spec_retry(),
            final(self).spec_retries_left() == old(self).spec_retry(),
    {
        let ghost rv = renditions@.map_values(|v: Vec<SegmentInfo>| v@);
        let ghost cur0 = self.cursors@;
        let ghost next0 = self.next_sequence;
        let n = renditions.len();
        let mut nl: Vec<Vec<SegmentInfo>> = Vec::new();
        let mut nc: Vec<Option<u64>> = Vec::new();
        let mut i: usize = 0;
        while i < n
            invariant
                *self == *old(self),
                rv == renditions@.map_values(|v: Vec<SegmentInfo>| v@),
                cur0 == self.cursors@,
                n == renditions@.len(),
                n == cur0.len(),
                i <= n,
                nl@.len() == i,
                nc@.len() == i,
                forall|j: int| 0 <= j < i ==> (#[trigger] nl@[j])@ == new_of(rv[j], cur0[j]),
                forall|j: int|
                    0 <= j < i ==> (#[trigger] nc@[j]) == spec_advance_cursor(
                        new_of(rv[j], cur0[j]),
                        cur0[j],
                    ),
            decreases n - i,
        {
            let segs = new_segments(&renditions[i], self.cursors[i]);
            let c = advance_cursor(&segs, self.cursors[i]);
            nl.push(segs);
            nc.push(c);
            i += 1;
        }
        proof {
            assert(nl@.map_values(|v: Vec<SegmentInfo>| v@) =~= new_lists(rv, cur0));
            assert(nc@ =~= advanced_cursors(rv, cur0));
        }
        let delay = poll_delay_ms(&nl);
        let mixed_v = mix(&nl);
        proof {
            lemma_mixed_len(new_lists(rv, cur0));
            assert forall|j: int|
                0 <= j < new_lists(rv, cur0).len() implies (#[trigger] new_lists(rv, cur0)[j]).len()
                <= rv[j].len() by {
                lemma_new_of_len(rv[j], cur0[j]);
            }
            lemma_total_count_pointwise_le(new_lists(rv, cur0), rv);
        }
        let m = mixed_v.len();
        let mut batch: Vec<SegmentInfo> = Vec::new();
        let mut k: usize = 0;
        while k < m
            invariant
                *self == *old(self),
                next0 == self.next_sequence,
                m == mixed_v@.len(),
                next0 + m <= u64::MAX,
                k <= m,
                batch@.len() == k,
                forall|j: int|
                    0 <= j < k ==> (#[trigger] batch@[j]) == (SegmentInfo {
                        sequence: (next0 + j) as u64,
                        media_sequence: mixed_v@[j].media_sequence,
                        rendition: mixed_v@[j].rendition,
                        duration_ms: mixed_v@[j].duration_ms,
                        format: mixed_v@[j].format,
                    }),
            decreases m - k,
        {
            let s = mixed_v[k];
            batch.push(
                SegmentInfo {
                    sequence: self.next_sequence + (k as u64),
                    media_sequence: s.media_sequence,
                    rendition: s.rendition,
                    duration_ms: s.duration_ms,
                    format: s.format,
                },
            );
            k += 1;
        }
        proof {
            assert(batch@ =~= with_sequences(mixed(new_lists(rv, cur0)), next0));
        }
        self.cursors = nc;
        self.next_sequence = self.next_sequence + (m as u64);
        self.retries_left = self.retry;
        self.state = if is_end {
            SourceState::Terminated
        } else {
            SourceState::Waiting
        };
        PollOutcome { batch, delay_ms: delay }
    }
}

impl HlsLiveSource {
    /// A fresh polling session for this source, carrying its retry budget.
    pub fn start_session(&self) -> (r: StreamSession)
        ensures
            r.inv(),
            r.spec_state() == SourceState::Initializing,
            r.spec_cursors() == Seq::<Option<u64>>::empty(),
            r.spec_next_sequence() == 0,
            r.spec_retry() == self.spec_retry(),
            r.spec_retries_left() == self.spec_retry(),
            !r.spec_failed(),
    {
        StreamSession::new(self.retry)
    }
}

} // verus!
