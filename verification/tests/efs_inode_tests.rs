use oskernel::efs::EasyFileSystem;
use oskernel::efs_inode::{block_slot, BlockSlot, clear_size, data_blocks, read_plan, total_blocks, write_plan, IndirectBlocks, InodeInner, IoChunk};

fn inode() -> InodeInner {
    InodeInner { valid: true, direct: vec![11, 12, 13], indirect1: 20, indirect2: 30 }
}

fn blocks() -> IndirectBlocks {
    IndirectBlocks {
        indirect1: (100..228).collect(),
        indirect2: (40..168).collect(),
        level2: vec![(200..328).collect(), (400..528).collect()],
    }
}

#[test]
fn block_counts() {
    assert_eq!(data_blocks(0), 0);
    assert_eq!(data_blocks(1), 1);
    assert_eq!(data_blocks(1024), 2);
    assert_eq!(total_blocks(1024, 3), 2);
    assert_eq!(total_blocks(512 * 4, 3), 5);
    assert_eq!(total_blocks(512 * 264, 3), 268);
}

#[test]
fn clearing_a_small_file_frees_its_direct_blocks() {
    let mut inner = inode();
    let mut size = 1000u32;
    let freed = clear_size(&mut inner, &mut size, &blocks());
    assert_eq!(freed, vec![11, 12]);
    assert_eq!(size, 0);
    assert_eq!(inner.direct, vec![0, 0, 13]);
    assert_eq!((inner.indirect1, inner.indirect2), (20, 30));
}

#[test]
fn clearing_a_large_file_walks_both_indirect_levels() {
    let mut inner = inode();
    let mut size = 512 * 264;
    let freed = clear_size(&mut inner, &mut size, &blocks());
    let mut expected: Vec<u32> = vec![11, 12, 13, 20];
    expected.extend(100..228);
    expected.push(30);
    expected.push(40);
    expected.extend(200..328);
    expected.push(41);
    expected.extend(400..405);
    assert_eq!(freed, expected);
    assert_eq!(freed.len(), total_blocks(512 * 264, 3) as usize);
    assert_eq!(inner.direct, vec![0, 0, 0]);
    assert_eq!((inner.indirect1, inner.indirect2, size), (0, 0, 0));
}

fn parts(plan: &[IoChunk]) -> Vec<(usize, usize, usize, usize)> {
    plan.iter().map(|c| (c.block, c.in_block, c.len, c.buf_start)).collect()
}

#[test]
fn reads_go_block_by_block_up_to_the_end_of_the_file() {
    assert_eq!(parts(&read_plan(500, 600, 2000)), vec![(0, 500, 12, 0), (1, 0, 512, 12), (2, 0, 76, 524)]);
    assert_eq!(parts(&read_plan(1900, 600, 2000)), vec![(3, 364, 100, 0)]);
    assert!(read_plan(2000, 10, 2000).is_empty());
    assert!(read_plan(100, 0, 2000).is_empty());
}

#[test]
fn writes_grow_the_file_and_refuse_gaps() {
    let (plan, size) = write_plan(1000, 100, 1000, 28).unwrap();
    assert_eq!(parts(&plan), vec![(1, 488, 24, 0), (2, 0, 76, 24)]);
    assert_eq!(size, 1100);
    let (plan, size) = write_plan(0, 10, 1000, 28).unwrap();
    assert_eq!(parts(&plan), vec![(0, 0, 10, 0)]);
    assert_eq!(size, 1000);
    let (plan, _) = write_plan(512, 0, 1000, 28).unwrap();
    assert_eq!(parts(&plan), vec![(1, 0, 0, 0)]);
    assert!(write_plan(1001, 1, 1000, 28).is_none());
    assert!(write_plan(0, (28 + 128 + 128 * 128) * 512 + 1, 1000, 28).is_none());
}

#[test]
fn block_pointers_live_in_three_levels() {
    assert_eq!(block_slot(5, 28), BlockSlot::Direct(5));
    assert_eq!(block_slot(28, 28), BlockSlot::Indirect1(0));
    assert_eq!(block_slot(155, 28), BlockSlot::Indirect1(127));
    assert_eq!(block_slot(156, 28), BlockSlot::Indirect2(0, 0));
    assert_eq!(block_slot(156 + 129, 28), BlockSlot::Indirect2(1, 1));
}

#[test]
fn missing_block_pointers_get_fresh_blocks() {
    let (mut fs, _) = EasyFileSystem::create((), 8192, 1);
    assert!(fs.can_alloc_data());
    assert_eq!(fs.ensure_data_block(3000), 3000);
    assert_eq!(fs.ensure_data_block(0), 1028);
    assert_eq!(fs.ensure_data_block(0), 1029);
}

fn empty_file(blocks: usize) -> oskernel::efs_inode::FileData {
    oskernel::efs_inode::FileData { blocks: vec![vec![0u8; 512]; blocks], size: 0 }
}

const MAX_FILE: usize = (28 + 128 + 128 * 128) * 512;

#[test]
fn efs_read_gives_back_what_was_written() {
    for len in [2048usize, 4352, 35913] {
        let s: Vec<u8> = (0..len).map(|i| b'0' + ((i * 7 + i / 13) % 10) as u8).collect();
        let mut f = empty_file((len + 511) / 512);
        assert_eq!(f.write_at(0, &s, MAX_FILE), len);
        assert_eq!(f.size as usize, len);
        let mut off = 0;
        let mut back: Vec<u8> = Vec::new();
        loop {
            let chunk = f.read_at(off, 127);
            if chunk.is_empty() {
                break;
            }
            assert_eq!(chunk.len(), 127.min(len - off));
            off += chunk.len();
            back.extend_from_slice(&chunk);
        }
        assert_eq!(off, len);
        assert_eq!(back, s);
    }
}

#[test]
fn writes_overwrite_in_place_and_refuse_gaps() {
    let mut f = empty_file(2);
    assert_eq!(f.write_at(0, b"hello world", MAX_FILE), 11);
    assert_eq!(f.write_at(6, b"there, friend", MAX_FILE), 13);
    assert_eq!(f.read_at(0, 100), b"hello there, friend".to_vec());
    assert_eq!(f.write_at(1, b"J", MAX_FILE), 1);
    assert_eq!(f.read_at(0, 5), b"hJllo".to_vec());
    assert_eq!(f.write_at(100, b"x", MAX_FILE), 0);
    assert_eq!(f.write_at(0, b"abc", 2), 0);
    assert_eq!(f.size, 19);
    assert!(f.read_at(19, 4).is_empty());
}

#[test]
fn block_ids_are_found_or_allocated_level_by_level() {
    let (mut fs, _) = EasyFileSystem::create((), 8192, 1);
    let mut inner = InodeInner { valid: true, direct: vec![0, 5000, 0], indirect1: 0, indirect2: 0 };
    let mut ind = IndirectBlocks {
        indirect1: vec![7; 128],
        indirect2: vec![7; 128],
        level2: vec![vec![7; 128]; 128],
    };
    assert_eq!(oskernel::efs_inode::get_block_id(&mut fs, &mut inner, &mut ind, 1), Some(5000));
    assert_eq!(oskernel::efs_inode::get_block_id(&mut fs, &mut inner, &mut ind, 0), Some(1028));
    assert_eq!(inner.direct, vec![1028, 5000, 0]);
    assert_eq!(oskernel::efs_inode::get_block_id(&mut fs, &mut inner, &mut ind, 4), Some(1030));
    assert_eq!(inner.indirect1, 1029);
    assert_eq!(ind.indirect1[1], 1030);
    assert_eq!(ind.indirect1[0], 0);
    assert_eq!(oskernel::efs_inode::get_block_id(&mut fs, &mut inner, &mut ind, 4), Some(1030));
    assert_eq!(oskernel::efs_inode::get_block_id(&mut fs, &mut inner, &mut ind, 3 + 128 + 129), Some(1033));
    assert_eq!(inner.indirect2, 1031);
    assert_eq!(ind.indirect2[1], 1032);
    assert_eq!(ind.level2[1][1], 1033);
    assert_eq!(ind.level2[1][0], 0);
    assert_eq!(ind.level2[0][0], 7);
}
