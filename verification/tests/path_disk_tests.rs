use oskernel::ext4_disk::{disk_chunks, BlockChunk, Ext4Disk};
use oskernel::path::{skipelem, walk_plan, StepKind};
use oskernel::dirent::{getdents_plan, DirEntryInfo, DirentRecord};

fn kinds_and_names(path: &str, to_father: bool) -> (bool, Vec<(StepKind, String)>) {
    let (root, steps) = walk_plan(path.as_bytes(), to_father);
    (root, steps.into_iter().map(|s| (s.kind, String::from_utf8(s.name).unwrap())).collect())
}

#[test]
fn skipelem_splits_on_slashes() {
    let p = b"//usr//lib/";
    assert_eq!(skipelem(p, 0), Some((2, 5, 7)));
    assert_eq!(skipelem(p, 7), Some((7, 10, 11)));
    assert_eq!(skipelem(p, 11), None);
    assert_eq!(skipelem(b"", 0), None);
    assert_eq!(skipelem(b"///", 0), None);
}

#[test]
fn long_names_are_cut_to_32_bytes() {
    let long = "x".repeat(40);
    let path = format!("{}/y", long);
    assert_eq!(skipelem(path.as_bytes(), 0), Some((0, 32, 41)));
    let (_, steps) = kinds_and_names(&path, false);
    assert_eq!(steps[0].1, "x".repeat(32));
}

#[test]
fn walk_plan_classifies_elements() {
    let (root, steps) = kinds_and_names("/a/./b/../c", false);
    assert!(root);
    assert_eq!(
        steps,
        vec![
            (StepKind::Lookup, "a".to_string()),
            (StepKind::Current, ".".to_string()),
            (StepKind::Lookup, "b".to_string()),
            (StepKind::Parent, "..".to_string()),
            (StepKind::Lookup, "c".to_string()),
        ]
    );
}

#[test]
fn walk_to_father_stops_before_the_last_name() {
    let (root, steps) = kinds_and_names("a//b/", true);
    assert!(!root);
    assert_eq!(steps, vec![(StepKind::Lookup, "a".to_string()), (StepKind::Stop, "b".to_string())]);
    let (_, steps) = kinds_and_names("a/..", true);
    assert_eq!(steps, vec![(StepKind::Lookup, "a".to_string()), (StepKind::Parent, "..".to_string())]);
    let (root, steps) = kinds_and_names("///", true);
    assert!(root);
    assert!(steps.is_empty());
}

#[test]
fn disk_chunks_cover_an_unaligned_range() {
    let chunks = disk_chunks(100, 1024, 512);
    assert_eq!(
        chunks,
        vec![
            BlockChunk { block_id: 0, block_off: 100, buf_off: 0, len: 412 },
            BlockChunk { block_id: 0, block_off: 0, buf_off: 412, len: 512 },
            BlockChunk { block_id: 1, block_off: 0, buf_off: 924, len: 100 },
        ]
    );
}

#[test]
fn disk_chunks_of_aligned_and_empty_ranges() {
    assert_eq!(
        disk_chunks(1024, 1024, 512),
        vec![
            BlockChunk { block_id: 2, block_off: 0, buf_off: 0, len: 512 },
            BlockChunk { block_id: 3, block_off: 0, buf_off: 512, len: 512 },
        ]
    );
    assert!(disk_chunks(1024, 0, 512).is_empty());
    assert_eq!(disk_chunks(10, 5, 512), vec![BlockChunk { block_id: 0, block_off: 10, buf_off: 0, len: 5 }]);
    let d = Ext4Disk::new(42u8);
    assert_eq!(d.dev, 42);
}

#[test]
fn getdents_packs_records_until_the_buffer_is_full() {
    let entries = vec![
        DirEntryInfo { has_inode: true, name_len: 1, ino: 7, is_dir: true, is_file: false },
        DirEntryInfo { has_inode: false, name_len: 3, ino: 0, is_dir: false, is_file: false },
        DirEntryInfo { has_inode: true, name_len: 10, ino: 9, is_dir: false, is_file: true },
    ];
    let (recs, off, write) = getdents_plan(&entries, 0, 64);
    assert_eq!(
        recs,
        vec![
            DirentRecord { entry: 0, d_ino: 7, d_off: 0, d_reclen: 24, d_type: 4 },
            DirentRecord { entry: 2, d_ino: 9, d_off: 2, d_reclen: 32, d_type: 8 },
        ]
    );
    assert_eq!((off, write), (3, 56));
    let (recs, off, write) = getdents_plan(&entries, 0, 50);
    assert_eq!(recs.len(), 1);
    assert_eq!((off, write), (2, 24));
    let (recs, off, write) = getdents_plan(&entries, 2, 64);
    assert_eq!(recs, vec![DirentRecord { entry: 2, d_ino: 9, d_off: 2, d_reclen: 32, d_type: 8 }]);
    assert_eq!((off, write), (3, 32));
    let (recs, off, _) = getdents_plan(&entries, 5, 64);
    assert!(recs.is_empty());
    assert_eq!(off, 5);
}
