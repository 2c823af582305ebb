use vstd::prelude::*;

verus! {

/// Container / transport format of one media segment.
#[derive(Clone, Copy, Debug, PartialEq, Eq, Structural)]
pub enum SegmentFormat {
    /// MPEG transport stream (`.ts`); raw byte concatenation is valid.
    Mpeg2TS,
    /// Fragmented MP4; joining needs a container-aware tool.
    Mp4,
    /// Opaque bytes with no known container; raw concatenation is valid.
    Raw,
}

impl SegmentFormat {
    /// A format whose segments may be joined by plain byte concatenation.
    pub open spec fn spec_concat_compatible(self) -> bool {
        self == SegmentFormat::Mpeg2TS || self == SegmentFormat::Raw
    }

    pub fn concat_compatible(self) -> (r: bool)
        ensures
            r == self.spec_concat_compatible(),
    {
        match self {
            SegmentFormat::Mpeg2TS => true,
            SegmentFormat::Raw => true,
            SegmentFormat::Mp4 => false,
        }
    }
}

/// Identity and metadata of one media segment.
///
/// `sequence` is this system's own ordering key: gap-free and strictly
/// increasing over the lifetime of a stream, assigned by a single writer.
/// `media_sequence` is the remote playlist's counter, used only to detect
/// segments that are new since the previous poll.  `rendition` is the index
/// of the track the segment was discovered on; together with
/// `media_sequence` it lets the consumer resolve the segment's remote
/// address.  `duration_ms` is play time in milliseconds and only sizes the
/// next poll interval.
#[derive(Clone, Copy, Debug, PartialEq, Eq, Structural)]
pub struct SegmentInfo {
    pub sequence: u64,
    pub media_sequence: u64,
    pub rendition: u64,
    pub duration_ms: u64,
    pub format: SegmentFormat,
}

impl Default for SegmentInfo {
    /// A placeholder segment: sequence zero, transport-stream format.
    fn default() -> (r: Self)
        ensures
            r.sequence == 0,
            r.media_sequence == 0,
            r.rendition == 0,
            r.duration_ms == 0,
            r.format == SegmentFormat::Mpeg2TS,
    {
        SegmentInfo {
            sequence: 0,
            media_sequence: 0,
            rendition: 0,
            duration_ms: 0,
            format: SegmentFormat::Mpeg2TS,
        }
    }
}

} // verus!
