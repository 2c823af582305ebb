use iori::cache::MemoryCache;
use iori::command::merge_entries;
use iori::merge::{IoriMerger, MergeOutput};
use iori::{IoriError, MergeCommand, SegmentFormat, SegmentInfo};

fn seg(sequence: u64, format: SegmentFormat) -> SegmentInfo {
    SegmentInfo {
        sequence,
        media_sequence: 0,
        rendition: 0,
        duration_ms: 0,
        format,
    }
}

fn ts(sequence: u64) -> SegmentInfo {
    seg(sequence, SegmentFormat::Mpeg2TS)
}

#[test]
fn three_files_concat_to_sixty_bytes() {
    let a = vec![b'a'; 10];
    let b = vec![b'b'; 20];
    let c = vec![b'c'; 30];
    let me = MergeCommand {
        concat: true,
        format: SegmentFormat::Mpeg2TS,
        output: String::from("out.ts"),
        inputs: vec![
            String::from("a.ts"),
            String::from("b.ts"),
            String::from("c.ts"),
        ],
    };
    let out = merge_entries(&me, vec![a.clone(), b.clone(), c.clone()]).unwrap();
    match out {
        MergeOutput::Concatenated(bytes) => {
            assert_eq!(bytes.len(), 60);
            assert_eq!(&bytes[0..10], &a[..]);
            assert_eq!(&bytes[10..30], &b[..]);
            assert_eq!(&bytes[30..60], &c[..]);
        }
        MergeOutput::ExternalJoin(_) => panic!("concat merge must produce bytes"),
    }
}

#[test]
fn concat_output_length_is_sum_of_entries() {
    let mut cache = MemoryCache::new();
    assert!(cache.write(&ts(0), vec![1u8, 2, 3]));
    assert!(cache.write(&ts(1), vec![4u8]));
    assert!(cache.write(&ts(2), vec![5u8, 6]));
    let mut merger = IoriMerger::concat(String::from("out.ts"), true);
    assert!(merger.update(ts(0), &mut cache).is_ok());
    assert!(merger.update(ts(1), &mut cache).is_ok());
    assert!(merger.update(ts(2), &mut cache).is_ok());
    match merger.finish(&cache).unwrap() {
        MergeOutput::Concatenated(bytes) => {
            assert_eq!(bytes.len(), 3 + 1 + 2);
            assert_eq!(bytes, vec![1u8, 2, 3, 4, 5, 6]);
        }
        MergeOutput::ExternalJoin(_) => panic!("concat merge must produce bytes"),
    }
}

#[test]
fn out_of_order_segment_rejected() {
    let mut cache = MemoryCache::new();
    assert!(cache.write(&ts(1), vec![1u8]));
    assert!(cache.write(&ts(2), vec![2u8]));
    let mut merger = IoriMerger::concat(String::from("out.ts"), true);
    assert!(merger.update(ts(2), &mut cache).is_ok());
    assert!(matches!(
        merger.update(ts(1), &mut cache),
        Err(IoriError::MergeError)
    ));
    assert!(matches!(
        merger.update(ts(2), &mut cache),
        Err(IoriError::MergeError)
    ));
}

#[test]
fn missing_entry_is_not_found() {
    let mut cache = MemoryCache::new();
    let mut merger = IoriMerger::concat(String::from("out.ts"), true);
    assert!(matches!(
        merger.update(ts(0), &mut cache),
        Err(IoriError::NotFound)
    ));
}

#[test]
fn incompatible_format_rejected() {
    let mut cache = MemoryCache::new();
    assert!(cache.write(&seg(0, SegmentFormat::Mp4), vec![1u8]));
    let mut merger = IoriMerger::concat(String::from("out.mp4"), true);
    assert!(matches!(
        merger.update(seg(0, SegmentFormat::Mp4), &mut cache),
        Err(IoriError::MergeError)
    ));
}

#[test]
fn mixed_formats_rejected_under_concat() {
    let mut cache = MemoryCache::new();
    assert!(cache.write(&ts(0), vec![1u8]));
    assert!(cache.write(&seg(1, SegmentFormat::Raw), vec![2u8]));
    let mut merger = IoriMerger::concat(String::from("out.ts"), true);
    assert!(merger.update(ts(0), &mut cache).is_ok());
    assert!(matches!(
        merger.update(seg(1, SegmentFormat::Raw), &mut cache),
        Err(IoriError::MergeError)
    ));
}

#[test]
fn update_after_finish_rejected() {
    let mut cache = MemoryCache::new();
    assert!(cache.write(&ts(0), vec![1u8]));
    let mut merger = IoriMerger::concat(String::from("out.ts"), true);
    assert!(merger.update(ts(0), &mut cache).is_ok());
    assert!(merger.finish(&cache).is_ok());
    assert!(cache.write(&ts(1), vec![2u8]));
    assert!(matches!(
        merger.update(ts(1), &mut cache),
        Err(IoriError::MergeError)
    ));
    assert!(matches!(merger.finish(&cache), Err(IoriError::MergeError)));
}

#[test]
fn merger_without_keep_invalidates_consumed_entry() {
    let mut cache = MemoryCache::new();
    assert!(cache.write(&ts(0), vec![1u8, 2]));
    let mut merger = IoriMerger::concat(String::from("out.ts"), false);
    assert!(merger.update(ts(0), &mut cache).is_ok());
    assert!(matches!(cache.open_reader(&ts(0)), Err(IoriError::NotFound)));
}

#[test]
fn auto_merge_hands_out_ordered_run() {
    let mut cache = MemoryCache::new();
    assert!(cache.write(&seg(0, SegmentFormat::Mp4), vec![1u8]));
    assert!(cache.write(&seg(3, SegmentFormat::Mpeg2TS), vec![2u8]));
    let mut merger = IoriMerger::auto(String::from("out.mp4"), true);
    assert!(merger.update(seg(0, SegmentFormat::Mp4), &mut cache).is_ok());
    assert!(merger
        .update(seg(3, SegmentFormat::Mpeg2TS), &mut cache)
        .is_ok());
    match merger.finish(&cache).unwrap() {
        MergeOutput::ExternalJoin(run) => {
            assert_eq!(run.len(), 2);
            assert_eq!(run[0].sequence, 0);
            assert_eq!(run[1].sequence, 3);
        }
        MergeOutput::Concatenated(_) => panic!("auto merge must defer to the external join"),
    }
}

#[test]
fn auto_finish_with_missing_entry_not_found() {
    let mut cache = MemoryCache::new();
    let mut merger = IoriMerger::auto(String::from("out.mp4"), true);
    assert!(merger.update(seg(0, SegmentFormat::Mp4), &mut cache).is_ok());
    assert!(matches!(merger.finish(&cache), Err(IoriError::NotFound)));
}

#[test]
fn merge_entries_incompatible_concat_format() {
    let me = MergeCommand {
        concat: true,
        format: SegmentFormat::Mp4,
        output: String::from("out.mp4"),
        inputs: vec![String::from("a.m4s")],
    };
    assert!(matches!(
        merge_entries(&me, vec![vec![1u8]]),
        Err(IoriError::MergeError)
    ));
}

#[test]
fn merge_entries_auto_registers_inputs_in_order() {
    let me = MergeCommand {
        concat: false,
        format: SegmentFormat::Mp4,
        output: String::from("out.mp4"),
        inputs: vec![String::from("a.m4s"), String::from("b.m4s")],
    };
    match merge_entries(&me, vec![vec![1u8], vec![2u8]]).unwrap() {
        MergeOutput::ExternalJoin(run) => {
            assert_eq!(run.len(), 2);
            assert_eq!(run[0].sequence, 0);
            assert_eq!(run[1].sequence, 1);
            assert_eq!(run[0].format, SegmentFormat::Mp4);
        }
        MergeOutput::Concatenated(_) => panic!("auto merge must defer to the external join"),
    }
}

#[test]
fn merge_command_default_is_auto_ts() {
    let me = MergeCommand::default();
    assert!(!me.concat);
    assert_eq!(me.format, SegmentFormat::Mpeg2TS);
    assert!(me.output.is_empty());
    assert!(me.inputs.is_empty());
}
