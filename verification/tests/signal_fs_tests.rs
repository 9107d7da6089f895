use oskernel::efs::{Bitmap, EasyFileSystem};
use oskernel::error::SysError;
use oskernel::signal::{
    check_sigaction_error, PendingAction, SigAction, SignalFlags, SignalState, TrapChange, SIGCONT, SIGSTOP, SIGINT, SIGKILL, SIGUSR1, SIG_BLOCK,
    SIG_IGN, SIG_SETMASK, SIG_UNBLOCK,
};
use oskernel::pagetable::{MappingFlags, MF_R, MF_U, MF_W, MF_X};
use oskernel::sv39::{PTEFlags, PTE, PTE_A, PTE_D, PTE_R, PTE_U, PTE_V, PTE_W};

#[test]
fn sigprocmask_blocks_unblocks_and_sets() {
    let mut s = SignalState::new();
    let a = SignalFlags { bits: SIGINT | SIGUSR1 };
    assert_eq!(s.sigprocmask(SIG_BLOCK, Some(a)), Ok(0));
    assert_eq!(s.signal_mask.bits, SIGINT | SIGUSR1);
    assert_eq!(s.sigprocmask(SIG_UNBLOCK, Some(SignalFlags { bits: SIGINT })), Ok(0));
    assert_eq!(s.signal_mask.bits, SIGUSR1);
    assert_eq!(s.sigprocmask(SIG_SETMASK, Some(SignalFlags { bits: SIGKILL })), Ok(0));
    assert_eq!(s.signal_mask.bits, SIGKILL);
    assert_eq!(s.sigprocmask(7, Some(a)), Err(SysError::EINVAL));
    assert_eq!(s.sigprocmask(7, None), Ok(0));
    assert_eq!(s.signal_mask.bits, SIGKILL);
}

#[test]
fn kill_marks_the_signal_pending() {
    let mut s = SignalState::new();
    assert_eq!(s.kill(2), Ok(0));
    assert_eq!(s.signals.bits, SIGINT);
    assert_eq!(s.kill(40), Err(SysError::EINVAL));
    assert_eq!(s.signals.bits, SIGINT);
}

#[test]
fn pending_signals_are_delivered_unless_blocked() {
    let mut s = SignalState::new();
    assert_eq!(s.take_pending_signal(), PendingAction::Nothing);
    s.signal_queue.push(2);
    s.signals = SignalFlags { bits: SIGINT };
    s.signal_mask = SignalFlags { bits: SIGINT };
    assert_eq!(s.take_pending_signal(), PendingAction::Deferred);
    assert_eq!(s.signal_queue.len(), 1);
    s.signal_mask = SignalFlags::empty();
    assert_eq!(s.take_pending_signal(), PendingAction::User(2, SignalFlags { bits: SIGINT }));
    assert!(s.signal_queue.is_empty());
    s.signal_queue.push(9);
    s.signals = SignalFlags { bits: SIGKILL };
    assert_eq!(s.take_pending_signal(), PendingAction::Kernel(9, SignalFlags { bits: SIGKILL }));
    s.signal_queue.push(3);
    assert_eq!(s.take_pending_signal(), PendingAction::Dropped);
    s.signal_queue.push(0);
    assert_eq!(s.take_pending_signal(), PendingAction::Dropped);
    assert!(s.signal_queue.is_empty());
}

#[test]
fn queued_signal_nine_is_sigkill_not_sigusr1() {
    let mut s = SignalState::new();
    s.signal_queue.push(9);
    s.signals = SignalFlags { bits: SIGUSR1 };
    assert_eq!(s.take_pending_signal(), PendingAction::Dropped);
    s.signal_queue.push(10);
    assert_eq!(s.take_pending_signal(), PendingAction::User(10, SignalFlags { bits: SIGUSR1 }));
}

#[test]
fn sigaction_refuses_kill_and_stop() {
    let mut s = SignalState::new();
    assert_eq!(s.sigaction(9, None, 0x1000).map(|a| a.handler), Err(SysError::EINVAL));
    assert_eq!(s.sigaction(19, None, 0x1000).map(|a| a.handler), Err(SysError::EINVAL));
    assert_eq!(s.sigaction(32, None, 0x1000).map(|a| a.handler), Err(SysError::EINVAL));
    let mut act = SigAction::ignore();
    act.handler = 0x4000;
    assert!(s.sigaction(10, Some(act), 0x1000).is_ok());
    assert_eq!(s.sigaction(10, None, 0x1000).unwrap().handler, 0x4000);
    act.handler = 1;
    s.sigaction(10, Some(act), 0x1000).unwrap();
    assert_eq!(s.sigaction(10, None, 0x1000).unwrap().handler, SIG_IGN);
    assert!(check_sigaction_error(SignalFlags { bits: SIGKILL }));
    assert!(!check_sigaction_error(SignalFlags { bits: SIGINT }));
}

#[test]
fn easy_fs_layout_and_allocation() {
    let (mut fs, layout) = EasyFileSystem::create((), 8192, 1);
    assert_eq!(layout.inode_area_blocks, 1024);
    assert_eq!(layout.data_bitmap_blocks, 2);
    assert_eq!(layout.data_area_blocks, 7164);
    assert_eq!(fs.inode_area_start_block, 2);
    assert_eq!(fs.data_area_start_block, 1028);
    assert_eq!(fs.alloc_inode(), 1);
    assert_eq!(fs.alloc_inode(), 2);
    assert_eq!(fs.get_disk_inode_pos(5), (3, 128));
    assert_eq!(fs.get_disk_inode_id(3, 128), 5);
    let b = fs.alloc_data();
    assert_eq!(b, 1028);
    assert_eq!(fs.alloc_data(), 1029);
    let mut block = vec![7u8; 512];
    fs.dealloc_data(b, &mut block);
    assert_eq!(block, vec![0u8; 512]);
    assert_eq!(fs.alloc_data(), 1028);
    assert_eq!(fs.get_data_block_id(7), 1035);
}

#[test]
fn bitmap_takes_the_lowest_clear_bit() {
    let mut words = vec![0u64; 64];
    words[0] = u64::MAX;
    words[1] = 0b1011;
    let mut bm = Bitmap::from_words(1, 1, words);
    assert_eq!(bm.maximum(), 4096);
    assert_eq!(bm.allocate(), Some(66));
    assert_eq!(bm.allocate(), Some(68));
    bm.dealloc(3);
    assert_eq!(bm.allocate(), Some(3));
}

#[test]
fn sv39_entries_mark_accessed_and_dirty() {
    let f = PTEFlags::from_bits_truncate(PTE_V | PTE_R | PTE_W);
    let e = PTE::from_ppn(0x80200, f);
    assert_eq!(e.flags().bits(), PTE_V | PTE_R | PTE_W | PTE_A | PTE_D);
    assert_eq!(e.address().0, 0x8020_0000);
    assert!(e.is_valid() && e.is_huge() && !e.is_table());
    let m = MappingFlags::from_bits_retain(MF_R | MF_W | MF_X | MF_U);
    let p = PTEFlags::from_mapping_flags(m);
    assert!(p.contains(PTEFlags::from_bits_truncate(PTE_U | PTE_R)));
    assert_eq!(p.to_mapping_flags().bits() & (MF_R | MF_W | MF_X | MF_U), MF_R | MF_W | MF_X | MF_U);
}

#[test]
fn delivery_kills_freezes_thaws_and_enters_handlers() {
    let mut s = SignalState::new();
    s.signal_queue.push(9);
    s.signals = SignalFlags { bits: SIGKILL };
    assert_eq!(s.check_pending_signals(), TrapChange::Keep);
    assert!(s.killed);
    let mut s = SignalState::new();
    s.signal_queue.push(19);
    s.signals = SignalFlags { bits: SIGSTOP | SIGINT };
    assert_eq!(s.check_pending_signals(), TrapChange::Keep);
    assert!(s.frozen);
    assert_eq!(s.signals.bits, SIGINT);
    s.signal_queue.push(18);
    s.signals = SignalFlags { bits: SIGCONT };
    assert_eq!(s.check_pending_signals(), TrapChange::Keep);
    assert!(!s.frozen);
    assert_eq!(s.signals.bits, 0);
    let mut s = SignalState::new();
    s.signal_actions.table[2].handler = 0x4000;
    s.signal_actions.table[2].mask = SignalFlags { bits: SIGUSR1 };
    s.signal_mask = SignalFlags { bits: SIGKILL };
    s.signal_queue.push(2);
    s.signals = SignalFlags { bits: SIGINT };
    assert_eq!(s.check_pending_signals(), TrapChange::EnterHandler { pc: 0x4000, arg0: 2 });
    assert_eq!(s.handling_sig, 2);
    assert_eq!(s.signal_mask_backup.bits, SIGKILL);
    assert_eq!(s.signal_mask.bits, SIGUSR1);
    assert!(s.signal_queue.is_empty());
    s.signal_queue.push(10);
    s.signals = SignalFlags { bits: SIGUSR1 };
    assert_eq!(s.check_pending_signals(), TrapChange::Keep);
    assert_eq!(s.signal_queue.len(), 1);
}
