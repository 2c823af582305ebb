use vstd::prelude::*;

use crate::cache::MemoryCache;
use crate::error::{IoriError, IoriResult};
use crate::merge::{concat_of, IoriMerger, MergeOutput, MergeStrategy};
use crate::segment::{SegmentFormat, SegmentInfo};

verus! {

/// The merge command's arguments: whether to concatenate raw bytes or pick
/// a container-aware join, the container format the inputs are declared to
/// share, the output path, and the input files in merge order.
#[derive(Clone, Debug)]
pub struct MergeCommand {
    pub concat: bool,
    pub format: SegmentFormat,
    pub output: String,
    pub inputs: Vec<String>,
}

impl Default for MergeCommand {
    /// Container-aware join of transport-stream inputs, with no paths set.
    fn default() -> (r: Self)
        ensures
            !r.concat,
            r.format == SegmentFormat::Mpeg2TS,
            r.output@ == Seq::<char>::empty(),
            r.inputs@ == Seq::<String>::empty(),
    {
        let r = MergeCommand {
            concat: false,
            format: SegmentFormat::Mpeg2TS,
            output: String::new(),
            inputs: Vec::new(),
        };
        proof {
            assert(r.output@ =~= Seq::<char>::empty());
            assert(r.inputs@ =~= Seq::<String>::empty());
        }
        r
    }
}

/// The segment under which input `i` of a merge command is registered:
/// sequence `i`, the command's format, no live metadata.
pub open spec fn entry_segment(format: SegmentFormat, i: int) -> SegmentInfo {
    SegmentInfo { sequence: i as u64, media_sequence: 0, rendition: 0, duration_ms: 0, format }
}

/// The compute core of the merge command.  `contents` holds the bytes of
/// the input files, already read and in merge order; entry `i` is
/// registered under sequence `i` and the chosen merger consumes the run.
/// Under Concat the result is the inputs' bytes laid end to end, provided
/// the declared format admits raw concatenation; otherwise the ordered
/// segment list for the external container-aware join.
pub fn merge_entries(me: &MergeCommand, contents: Vec<Vec<u8>>) -> (r: IoriResult<MergeOutput>)
    requires
        contents@.len() <= u64::MAX,
    ensures
        me.concat && !me.format.spec_concat_compatible() ==> r == IoriResult::<MergeOutput>::Err(
            IoriError::MergeError,
        ),
        me.concat && me.format.spec_concat_compatible() ==> (r matches Ok(out) && out matches
            MergeOutput::Concatenated(bytes) && bytes@ == concat_of(
            contents@.map_values(|v: Vec<u8>| v@),
        )),
        !me.concat ==> (r matches Ok(out) && out matches MergeOutput::ExternalJoin(run) && run@
            == Seq::new(contents@.len(), |i: int| entry_segment(me.format, i))),
{
    if me.concat && !me.format.concat_compatible() {
        return Err(IoriError::MergeError);
    }
    let ghost cv = contents@.map_values(|v: Vec<u8>| v@);
    let mut cache = MemoryCache::new();
    let mut merger = if me.concat {
        IoriMerger::concat(me.output.clone(), true)
    } else {
        IoriMerger::auto(me.output.clone(), true)
    };
    let n = contents.len();
    let mut rest = contents;
    let mut i: usize = 0;
    while i < n
        invariant
            n == cv.len(),
            i <= n,
            n <= u64::MAX,
            rest@.len() == n - i,
            forall|j: int| 0 <= j < n - i ==> (#[trigger] rest@[j])@ == cv[i + j],
            cache.inv(),
            forall|k: u64|
                (k as int) < i ==> (#[trigger] cache@.dom().contains(k)) && cache@[k] == cv[k as int],
            forall|k: u64| #[trigger] cache@.dom().contains(k) ==> (k as int) < i,
            merger.inv(),
            merger.spec_strategy() == (if me.concat {
                MergeStrategy::Concat
            } else {
                MergeStrategy::Auto
            }),
            !merger.spec_finished(),
            merger.spec_keep(),
            merger.spec_segments() == Seq::new(i as nat, |j: int| entry_segment(me.format, j)),
            me.concat ==> merger.spec_chunks() == cv.take(i as int),
            me.concat ==> me.format.spec_concat_compatible(),
        decreases n - i,
    {
        let bytes = rest.remove(0);
        let segment = SegmentInfo {
            sequence: i as u64,
            media_sequence: 0,
            rendition: 0,
            duration_ms: 0,
            format: me.format,
        };
        let ghost bv = bytes@;
        let ghost pre_cache = cache;
        let ghost pre_merger = merger;
        let wrote = cache.write(&segment, bytes);
        proof {
            assert(wrote);
            assert(pre_merger.accepts_order(segment));
            assert(pre_merger.accepts_format(segment));
        }
        let res = merger.update(segment, &mut cache);
        proof {
            assert(res == IoriResult::<()>::Ok(()));
            assert(bv == cv[i as int]);
            assert(cache@ == pre_cache@.insert(i as u64, bv));
            assert(merger.spec_segments() =~= Seq::new(
                (i + 1) as nat,
                |j: int| entry_segment(me.format, j),
            ));
            if me.concat {
                assert(merger.spec_chunks() =~= cv.take(i + 1));
            }
            assert forall|k: u64|
                (k as int) < i + 1 implies cache@.dom().contains(k) && cache@[k] == cv[k as int] by {
                if (k as int) < i {
                    assert(pre_cache@.dom().contains(k));
                    assert(k != i as u64);
                } else {
                    assert(k == i as u64);
                }
            }
        }
        i += 1;
    }
    proof {
        if me.concat {
            assert(cv.take(n as int) =~= cv);
        }
        assert forall|j: int|
            0 <= j < merger.spec_segments().len() implies cache@.dom().contains(
            #[trigger] merger.spec_segments()[j].sequence,
        ) by {
            assert(merger.spec_segments()[j] == entry_segment(me.format, j));
            assert(cache@.dom().contains(j as u64));
        }
    }
    let out = merger.finish(&cache)?;
    Ok(out)
}

} // verus!
