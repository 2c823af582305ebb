use vstd::prelude::*;

use crate::cache::MemoryCache;
use crate::error::{IoriError, IoriResult};
use crate::segment::SegmentInfo;

verus! {

/// The bytes of a run of chunks laid end to end, earlier chunks first.
pub open spec fn concat_of(chunks: Seq<Seq<u8>>) -> Seq<u8>
    decreases chunks.len(),
{
    if chunks.len() == 0 {
        Seq::empty()
    } else {
        concat_of(chunks.drop_last()) + chunks.last()
    }
}

/// The sum of the chunk lengths.
pub open spec fn total_len(chunks: Seq<Seq<u8>>) -> nat
    decreases chunks.len(),
{
    if chunks.len() == 0 {
        0
    } else {
        total_len(chunks.drop_last()) + chunks.last().len()
    }
}

/// Where chunk `i` starts in the concatenation: the summed length of the
/// chunks before it.
pub open spec fn offset_of(chunks: Seq<Seq<u8>>, i: int) -> nat {
    total_len(chunks.take(i))
}

/// Appending one chunk appends exactly its bytes.
pub proof fn lemma_concat_push(chunks: Seq<Seq<u8>>, b: Seq<u8>)
    ensures
        concat_of(chunks.push(b)) == concat_of(chunks) + b,
        total_len(chunks.push(b)) == total_len(chunks) + b.len(),
{
    assert(chunks.push(b).drop_last() =~= chunks);
    assert(chunks.push(b).last() == b);
}

/// The concatenation of a run of chunks is exactly as long as the sum of
/// the chunk lengths.
pub proof fn lemma_concat_output_length(chunks: Seq<Seq<u8>>)
    ensures
        concat_of(chunks).len() == total_len(chunks),
    decreases chunks.len(),
{
    if chunks.len() > 0 {
        lemma_concat_output_length(chunks.drop_last());
    }
}

/// Offsets grow chunk by chunk: the chunk after `i` starts where chunk `i`
/// ends.
pub proof fn lemma_offset_step(chunks: Seq<Seq<u8>>, i: int)
    requires
        0 <= i < chunks.len(),
    ensures
        offset_of(chunks, i + 1) == offset_of(chunks, i) + chunks[i].len(),
{
    assert(chunks.take(i + 1).drop_last() =~= chunks.take(i));
    assert(chunks.take(i + 1).last() == chunks[i]);
}

/// No chunk starts past the end of the concatenation.
pub proof fn lemma_offset_in_bounds(chunks: Seq<Seq<u8>>, i: int)
    requires
        0 <= i <= chunks.len(),
    ensures
        offset_of(chunks, i) <= total_len(chunks),
    decreases chunks.len() - i,
{
    if i == chunks.len() {
        assert(chunks.take(i) =~= chunks);
    } else {
        lemma_offset_step(chunks, i);
        lemma_offset_in_bounds(chunks, i + 1);
    }
}

/// Chunk `i` appears, byte for byte, at its own offset of the
/// concatenation.  Together with `lemma_concat_output_length` and a run of
/// chunks registered under increasing sequence numbers, this is the shape of
/// the concatenated artifact: its length is the sum of the entry lengths,
/// and the byte range of each entry stands at the position its rank gives
/// it.
pub proof fn lemma_concat_chunk_range(chunks: Seq<Seq<u8>>, i: int)
    requires
        0 <= i < chunks.len(),
    ensures
        offset_of(chunks, i) + chunks[i].len() <= concat_of(chunks).len(),
        concat_of(chunks).subrange(
            offset_of(chunks, i) as int,
            offset_of(chunks, i) + chunks[i].len() as int,
        ) == chunks[i],
    decreases chunks.len(),
{
    lemma_concat_output_length(chunks);
    lemma_offset_step(chunks, i);
    lemma_offset_in_bounds(chunks, i + 1);
    let off = offset_of(chunks, i) as int;
    let hi = off + chunks[i].len();
    if i == chunks.len() - 1 {
        assert(chunks.take(i) =~= chunks.drop_last());
        lemma_concat_output_length(chunks.drop_last());
        assert(concat_of(chunks).subrange(off, hi) =~= chunks[i]);
    } else {
        lemma_concat_chunk_range(chunks.drop_last(), i);
        assert(chunks.drop_last().take(i) =~= chunks.take(i));
        assert(chunks.drop_last()[i] == chunks[i]);
        lemma_concat_output_length(chunks.drop_last());
        lemma_offset_in_bounds(chunks.drop_last(), i + 1);
        assert(concat_of(chunks).subrange(off, hi) =~= concat_of(chunks.drop_last()).subrange(
            off,
            hi,
        ));
    }
}

/// The two selectable merge strategies.
#[derive(Clone, Copy, Debug, PartialEq, Eq, Structural)]
pub enum MergeStrategy {
    /// Raw byte concatenation in sequence order; all inputs must share one
    /// concatenation-compatible container format.
    Concat,
    /// Container-aware join: the merger orders the registered segments and
    /// hands them to an external remux tool at `finish`.
    Auto,
}

/// What `finish` makes visible: the complete artifact bytes under Concat,
/// or the ordered list of segments an external container-aware join must
/// consume under Auto.
pub enum MergeOutput {
    Concatenated(Vec<u8>),
    ExternalJoin(Vec<SegmentInfo>),
}

/// The merge engine.  It consumes cached segments in strictly increasing
/// `sequence` order and incrementally produces the final artifact.  A
/// segment that would break that order is rejected rather than buffered:
/// a stricter contract than arrival-order concatenation, chosen so that a
/// caller slip cannot corrupt the artifact.
pub struct IoriMerger {
    strategy: MergeStrategy,
    output: String,
    keep_segments: bool,
    segments: Vec<SegmentInfo>,
    buffer: Vec<u8>,
    chunks: Ghost<Seq<Seq<u8>>>,
    finished: bool,
}

impl IoriMerger {
    pub closed spec fn spec_strategy(self) -> MergeStrategy {
        self.strategy
    }

    pub closed spec fn spec_output(self) -> Seq<char> {
        self.output@
    }

    pub closed spec fn spec_keep(self) -> bool {
        self.keep_segments
    }

    /// The segments accepted so far, in the order they were accepted.
    pub closed spec fn spec_segments(self) -> Seq<SegmentInfo> {
        self.segments@
    }

    /// The cache bytes of the accepted segments, in the same order.
    pub closed spec fn spec_chunks(self) -> Seq<Seq<u8>> {
        self.chunks@
    }

    pub closed spec fn spec_finished(self) -> bool {
        self.finished
    }

    pub closed spec fn inv(self) -> bool {
        &&& self.buffer@ == concat_of(self.chunks@)
        &&& (self.strategy == MergeStrategy::Concat && !self.finished ==> self.chunks@.len()
            == self.segments@.len())
        &&& (self.strategy == MergeStrategy::Auto ==> self.chunks@.len() == 0)
        &&& forall|i: int, j: int|
            0 <= i < j < self.segments@.len() ==> self.segments@[i].sequence
                < self.segments@[j].sequence
        &&& (self.strategy == MergeStrategy::Concat ==> forall|i: int|
            0 <= i < self.segments@.len() ==> (#[trigger] self.segments@[i].format)
                == self.segments@[0].format
                && self.segments@[i].format.spec_concat_compatible())
    }

    /// A merger that appends every accepted segment's bytes to the artifact
    /// at once.
    pub fn concat(output: String, keep_segments: bool) -> (r: Self)
        ensures
            r.inv(),
            r.spec_strategy() == MergeStrategy::Concat,
            r.spec_output() == output@,
            r.spec_keep() == keep_segments,
            r.spec_segments() == Seq::<SegmentInfo>::empty(),
            r.spec_chunks() == Seq::<Seq<u8>>::empty(),
            !r.spec_finished(),
    {
        let r = IoriMerger {
            strategy: MergeStrategy::Concat,
            output,
            keep_segments,
            segments: Vec::new(),
            buffer: Vec::new(),
            chunks: Ghost(Seq::empty()),
            finished: false,
        };
        proof {
            assert(r.buffer@ =~= concat_of(r.chunks@));
        }
        r
    }

    /// A merger that defers to a container-aware join across the registered
    /// segments.
    pub fn auto(output: String, keep_segments: bool) -> (r: Self)
        ensures
            r.inv(),
            r.spec_strategy() == MergeStrategy::Auto,
            r.spec_output() == output@,
            r.spec_keep() == keep_segments,
            r.spec_segments() == Seq::<SegmentInfo>::empty(),
            r.spec_chunks() == Seq::<Seq<u8>>::empty(),
            !r.spec_finished(),
    {
        let r = IoriMerger {
            strategy: MergeStrategy::Auto,
            output,
            keep_segments,
            segments: Vec::new(),
            buffer: Vec::new(),
            chunks: Ghost(Seq::empty()),
            finished: false,
        };
        proof {
            assert(r.buffer@ =~= concat_of(r.chunks@));
        }
        r
    }

    /// `segment` keeps the strictly increasing sequence order of the run
    /// accepted so far, and the merger is still open.
    pub open spec fn accepts_order(self, segment: SegmentInfo) -> bool {
        &&& !self.spec_finished()
        &&& (self.spec_segments().len() == 0 || self.spec_segments().last().sequence
            < segment.sequence)
    }

    /// Under Concat, `segment` shares the one concatenation-compatible
    /// format of the run; Auto accepts any format.
    pub open spec fn accepts_format(self, segment: SegmentInfo) -> bool {
        self.spec_strategy() == MergeStrategy::Auto || {
            &&& segment.format.spec_concat_compatible()
            &&& (self.spec_segments().len() == 0 || segment.format
                == self.spec_segments()[0].format)
        }
    }

    /// Registers one segment.  Under Concat the entry's bytes are read from
    /// `cache` and appended to the artifact at once, and the entry is
    /// invalidated when the merger does not keep segments; under Auto the
    /// segment is only recorded for the deferred join.  A segment out of
    /// strictly increasing sequence order, a format break, or a call after
    /// `finish` is rejected with `MergeError`; a missing cache entry with
    /// `NotFound`.
    pub fn update(&mut self, segment: SegmentInfo, cache: &mut MemoryCache) -> (r: IoriResult<()>)
        requires
            old(self).inv(),
            old(cache).inv(),
        ensures
            final(self).inv(),
            final(cache).inv(),
            !old(self).accepts_order(segment) ==> r == IoriResult::<()>::Err(
                IoriError::MergeError,
            ) && *final(self) == *old(self) && *final(cache) == *old(cache),
            old(self).accepts_order(segment) && !old(self).accepts_format(segment) ==> r
                == IoriResult::<()>::Err(IoriError::MergeError) && *final(self) == *old(self)
                && *final(cache) == *old(cache),
            old(self).accepts_order(segment) && old(self).accepts_format(segment) && old(
                self,
            ).spec_strategy() == MergeStrategy::Concat && !old(cache)@.dom().contains(
                segment.sequence,
            ) ==> r == IoriResult::<()>::Err(IoriError::NotFound) && *final(self) == *old(self)
                && *final(cache) == *old(cache),
            old(self).accepts_order(segment) && old(self).accepts_format(segment) && old(
                self,
            ).spec_strategy() == MergeStrategy::Concat && old(cache)@.dom().contains(
                segment.sequence,
            ) ==> {
                &&& r == IoriResult::<()>::Ok(())
                &&& final(self).spec_segments() == old(self).spec_segments().push(segment)
                &&& final(self).spec_chunks() == old(self).spec_chunks().push(
                    old(cache)@[segment.sequence],
                )
                &&& final(cache)@ == if old(self).spec_keep() {
                    old(cache)@
                } else {
                    old(cache)@.remove(segment.sequence)
                }
            },
            old(self).accepts_order(segment) && old(self).spec_strategy() == MergeStrategy::Auto
                ==> {
                &&& r == IoriResult::<()>::Ok(())
                &&& final(self).spec_segments() == old(self).spec_segments().push(segment)
                &&& final(self).spec_chunks() == old(self).spec_chunks()
                &&& *final(cache) == *old(cache)
            },
            final(self).spec_strategy() == old(self).spec_strategy(),
            final(self).spec_output() == old(self).spec_output(),
            final(self).spec_keep() == old(self).spec_keep(),
            final(self).spec_finished() == old(self).spec_finished(),
    {
        if self.finished {
            return Err(IoriError::MergeError);
        }
        if self.segments.len() > 0 {
            let last = self.segments[self.segments.len() - 1];
            if !(last.sequence < segment.sequence) {
                return Err(IoriError::MergeError);
            }
        }
        match self.strategy {
            MergeStrategy::Auto => {
                self.segments.push(segment);
                Ok(())
            }
            MergeStrategy::Concat => {
                let mut format_ok = segment.format.concat_compatible();
                if format_ok && self.segments.len() > 0 {
                    format_ok = segment.format == self.segments[0].format;
                }
                if !format_ok {
                    return Err(IoriError::MergeError);
                }
                let ghost pre_chunks = self.chunks@;
                let ghost pre_buffer = self.buffer@;
                match cache.open_reader(&segment) {
                    Err(e) => Err(e),
                    Ok(bytes) => {
                        let ghost b = bytes@;
                        self.buffer.extend_from_slice(bytes.as_slice());
                        proof {
                            assert(self.buffer@ =~= pre_buffer + b);
                            lemma_concat_push(pre_chunks, b);
                        }
                        self.chunks = Ghost(pre_chunks.push(b));
                        self.segments.push(segment);
                        if !self.keep_segments {
                            let _invalidated = cache.invalidate(&segment);
                        }
                        Ok(())
                    }
                }
            }
        }
    }

    /// Closes the merge and makes the artifact visible: the concatenated
    /// bytes under Concat, or the ordered segment list for the external
    /// join under Auto, which first checks that every registered entry is
    /// still readable.  A second `finish`, like any failure, changes
    /// nothing.
    pub fn finish(&mut self, cache: &MemoryCache) -> (r: IoriResult<MergeOutput>)
        requires
            old(self).inv(),
            cache.inv(),
        ensures
            final(self).inv(),
            old(self).spec_finished() ==> r == IoriResult::<MergeOutput>::Err(
                IoriError::MergeError,
            ) && *final(self) == *old(self),
            !old(self).spec_finished() && old(self).spec_strategy() == MergeStrategy::Concat ==> {
                &&& r matches Ok(out) && out matches MergeOutput::Concatenated(bytes) && bytes@
                    == concat_of(old(self).spec_chunks())
                &&& final(self).spec_finished()
            },
            !old(self).spec_finished() && old(self).spec_strategy() == MergeStrategy::Auto && (
            forall|i: int|
                0 <= i < old(self).spec_segments().len() ==> cache@.dom().contains(
                    #[trigger] old(self).spec_segments()[i].sequence,
                )) ==> {
                &&& r matches Ok(out) && out matches MergeOutput::ExternalJoin(run) && run@ == old(
                    self,
                ).spec_segments()
                &&& final(self).spec_finished()
            },
            !old(self).spec_finished() && old(self).spec_strategy() == MergeStrategy::Auto && !(
            forall|i: int|
                0 <= i < old(self).spec_segments().len() ==> cache@.dom().contains(
                    #[trigger] old(self).spec_segments()[i].sequence,
                )) ==> r == IoriResult::<MergeOutput>::Err(IoriError::NotFound) && *final(self)
                == *old(self),
            final(self).spec_segments() == old(self).spec_segments(),
            final(self).spec_strategy() == old(self).spec_strategy(),
            final(self).spec_output() == old(self).spec_output(),
    {
        if self.finished {
            return Err(IoriError::MergeError);
        }
        match self.strategy {
            MergeStrategy::Concat => {
                let mut bytes: Vec<u8> = Vec::new();
                core::mem::swap(&mut bytes, &mut self.buffer);
                self.chunks = Ghost(Seq::empty());
                self.finished = true;
                proof {
                    assert(self.buffer@ =~= concat_of(self.chunks@));
                }
                Ok(MergeOutput::Concatenated(bytes))
            }
            MergeStrategy::Auto => {
                let ghost pre = *self;
                let n = self.segments.len();
                let mut i: usize = 0;
                while i < n
                    invariant
                        *self == pre,
                        *old(self) == pre,
                        old(self).inv(),
                        !old(self).spec_finished(),
                        old(self).spec_strategy() == MergeStrategy::Auto,
                        n == self.segments@.len(),
                        i <= n,
                        cache.inv(),
                        forall|j: int|
                            0 <= j < i ==> cache@.dom().contains(
                                #[trigger] self.segments@[j].sequence,
                            ),
                    decreases n - i,
                {
                    if !cache.contains_entry(self.segments[i].sequence) {
                        return Err(IoriError::NotFound);
                    }
                    i += 1;
                }
                let run = self.clone_segments();
                self.finished = true;
                Ok(MergeOutput::ExternalJoin(run))
            }
        }
    }

    /// The caller-specified path under which the finished artifact becomes
    /// visible.
    pub fn output_path(&self) -> (r: &String)
        ensures
            r@ == self.spec_output(),
    {
        &self.output
    }

    /// A copy of the run of accepted segments, in accepted order.
    fn clone_segments(&self) -> (r: Vec<SegmentInfo>)
        ensures
            r@ == self.spec_segments(),
    {
        let n = self.segments.len();
        let mut r: Vec<SegmentInfo> = Vec::new();
        let mut i: usize = 0;
        while i < n
            invariant
                n == self.segments@.len(),
                i <= n,
                r@ == self.segments@.take(i as int),
            decreases n - i,
        {
            r.push(self.segments[i]);
            proof {
                assert(self.segments@.take(i + 1) =~= self.segments@.take(i as int).push(
                    self.segments@[i as int],
                ));
            }
            i += 1;
        }
        proof {
            assert(self.segments@.take(n as int) =~= self.segments@);
        }
        r
    }
}

/// The shape of a Concat merge: for any run of accepted entries, the
/// artifact's length equals the sum of the entry lengths, each entry's
/// bytes stand at the offset its rank gives it, and the ranks follow the
/// strictly increasing `sequence` order the merger accepted the run in.
pub proof fn lemma_concat_artifact_shape(m: IoriMerger)
    requires
        m.inv(),
        m.spec_strategy() == MergeStrategy::Concat,
        !m.spec_finished(),
    ensures
        concat_of(m.spec_chunks()).len() == total_len(m.spec_chunks()),
        m.spec_chunks().len() == m.spec_segments().len(),
        forall|i: int|
            0 <= i < m.spec_chunks().len() ==> offset_of(m.spec_chunks(), i) + (
            #[trigger] m.spec_chunks()[i]).len() <= concat_of(m.spec_chunks()).len()
                && concat_of(m.spec_chunks()).subrange(
                offset_of(m.spec_chunks(), i) as int,
                offset_of(m.spec_chunks(), i) + m.spec_chunks()[i].len() as int,
            ) == m.spec_chunks()[i],
        forall|i: int, j: int|
            0 <= i < j < m.spec_segments().len() ==> m.spec_segments()[i].sequence
                < m.spec_segments()[j].sequence,
{
    lemma_concat_output_length(m.spec_chunks());
    assert forall|i: int|
        0 <= i < m.spec_chunks().len() implies offset_of(m.spec_chunks(), i) + (
    #[trigger] m.spec_chunks()[i]).len() <= concat_of(m.spec_chunks()).len() && concat_of(
        m.spec_chunks(),
    ).subrange(
        offset_of(m.spec_chunks(), i) as int,
        offset_of(m.spec_chunks(), i) + m.spec_chunks()[i].len() as int,
    ) == m.spec_chunks()[i] by {
        lemma_concat_chunk_range(m.spec_chunks(), i);
    }
}

} // verus!
