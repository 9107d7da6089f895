use oskernel::elf::{PF_R, PF_W, PF_X, PT_INTERP, PT_LOAD, PT_TLS};
use oskernel::elf_file::{from_elf_bytes, interp_image, interp_path, parse_elf_header, InterpLookup};

fn put(v: &mut Vec<u8>, at: usize, bytes: &[u8]) {
    v[at..at + bytes.len()].copy_from_slice(bytes);
}

fn elf_file(ph_count: u16, ph_entry_size: u16, len: usize) -> Vec<u8> {
    let mut v = vec![0u8; len];
    put(&mut v, 0, &[0x7f, b'E', b'L', b'F', 2, 1, 1]);
    put(&mut v, 16, &2u16.to_le_bytes());
    put(&mut v, 18, &0xf3u16.to_le_bytes());
    put(&mut v, 20, &1u32.to_le_bytes());
    put(&mut v, 24, &0x10100u64.to_le_bytes());
    put(&mut v, 32, &0x40u64.to_le_bytes());
    put(&mut v, 52, &64u16.to_le_bytes());
    put(&mut v, 54, &ph_entry_size.to_le_bytes());
    put(&mut v, 56, &ph_count.to_le_bytes());
    let phs: [(u32, u32, u64, u64, u64, u64); 4] = [
        (PT_LOAD, PF_R | PF_X, 0, 0x10000, 0x200, 0x200),
        (PT_TLS, PF_R, 0x300, 0x12000, 0x10, 0x20),
        (PT_LOAD, PF_R | PF_W, 0x1000, 0x11500, 0x100, 0x2000),
        (PT_INTERP, PF_R, 0x2000, 0, 0x1c, 0x1c),
    ];
    for (i, (t, f, off, va, fsz, msz)) in phs.iter().enumerate() {
        let at = 0x40 + i * 56;
        if at + 56 > len {
            break;
        }
        put(&mut v, at, &t.to_le_bytes());
        put(&mut v, at + 4, &f.to_le_bytes());
        put(&mut v, at + 8, &off.to_le_bytes());
        put(&mut v, at + 16, &va.to_le_bytes());
        put(&mut v, at + 32, &fsz.to_le_bytes());
        put(&mut v, at + 40, &msz.to_le_bytes());
    }
    v
}

#[test]
fn elf_bytes_are_read_and_laid_out() {
    let data = elf_file(4, 56, 0x40 + 4 * 56);
    let img = from_elf_bytes::<(), u32>(&data).unwrap();
    assert_eq!(img.layout.segments.len(), 4);
    let s2 = img.layout.segments[2].as_ref().unwrap();
    assert_eq!((s2.area.vpn_range.l.0, s2.area.vpn_range.r.0), (0x11, 0x14));
    assert_eq!((s2.data_start, s2.data_end), (0x1000, 0x1100));
    assert!(img.layout.segments[1].is_none());
    assert_eq!(img.layout.max_virt_mem, 0x14000);
    assert_eq!(img.layout.tls_addr, 0x12000);
    assert_eq!(img.layout.phdr, 0x10040);
    assert_eq!(img.layout.ph_count, 4);
    assert_eq!(img.entry_point, 0x10100);
    assert_eq!(img.ph_entry_size, 56);
    assert_eq!(img.heap_top, 0x14000 + 0x8000);
}

#[test]
fn files_that_cannot_be_loaded_give_none() {
    assert!(from_elf_bytes::<(), u32>(&vec![0u8; 200]).is_none());
    let mut not_elf = elf_file(4, 56, 0x40 + 4 * 56);
    not_elf[1] = b'X';
    assert!(from_elf_bytes::<(), u32>(&not_elf).is_none());
    assert!(from_elf_bytes::<(), u32>(&elf_file(4, 56, 0x40 + 3 * 56)).is_none());
    assert!(from_elf_bytes::<(), u32>(&elf_file(4, 40, 0x40 + 4 * 56)).is_none());
}

#[test]
fn a_file_without_program_headers_has_no_segments() {
    let img = from_elf_bytes::<(), u32>(&elf_file(0, 56, 0x40)).unwrap();
    assert!(img.layout.segments.is_empty());
    assert_eq!(img.layout.max_virt_mem, 0);
}

#[test]
fn misaligned_and_malformed_files_do_not_panic() {
    let data = elf_file(4, 56, 0x40 + 4 * 56);
    let mut shifted = vec![0u8];
    shifted.extend_from_slice(&data);
    let img = from_elf_bytes::<(), u32>(&shifted[1..]).unwrap();
    assert_eq!(img.layout.max_virt_mem, 0x14000);
    let mut odd = elf_file(1, 56, 0x41 + 56);
    put(&mut odd, 32, &0x41u64.to_le_bytes());
    put(&mut odd, 0x41, &PT_LOAD.to_le_bytes());
    put(&mut odd, 0x41 + 16, &0x10000u64.to_le_bytes());
    let img = from_elf_bytes::<(), u32>(&odd).unwrap();
    assert_eq!(img.layout.ph_count, 1);
    let h = parse_elf_header(&data).unwrap();
    assert_eq!((h.is64, h.ph_count, h.ph_offset, h.ph_entry_size, h.entry_point), (true, 4, 0x40, 56, 0x10100));
}

/// A 64-bit file with one PT_INTERP program header and three sections:
/// null, `.shstrtab` and `.interp`.
fn dynamic_file(path: &[u8]) -> Vec<u8> {
    let mut v = elf_file(1, 56, 0x400);
    put(&mut v, 0x40, &PT_INTERP.to_le_bytes());
    let names: &[u8] = b"\0.shstrtab\0.interp\0";
    put(&mut v, 0x200, names);
    put(&mut v, 0x300, path);
    put(&mut v, 40, &0x100u64.to_le_bytes());
    put(&mut v, 58, &64u16.to_le_bytes());
    put(&mut v, 60, &3u16.to_le_bytes());
    put(&mut v, 62, &1u16.to_le_bytes());
    let sections: [(u32, u32, u64, u64); 3] = [(0, 0, 0, 0), (1, 3, 0x200, names.len() as u64), (11, 1, 0x300, path.len() as u64)];
    for (i, (name, ty, off, size)) in sections.iter().enumerate() {
        let at = 0x100 + i * 64;
        put(&mut v, at, &name.to_le_bytes());
        put(&mut v, at + 4, &ty.to_le_bytes());
        put(&mut v, at + 24, &off.to_le_bytes());
        put(&mut v, at + 32, &size.to_le_bytes());
    }
    v
}

#[test]
fn the_dynamic_linker_path_comes_from_the_interp_section() {
    let v = dynamic_file(b"/lib/ld.so\0");
    match interp_path(&v) {
        InterpLookup::Dynamic(p) => assert_eq!(p, b"/lib/ld.so".to_vec()),
        _ => panic!("expected a dynamic linker"),
    }
    assert!(matches!(interp_path(&elf_file(4, 56, 0x40 + 4 * 56)), InterpLookup::Bad));
    assert!(matches!(interp_path(&elf_file(0, 56, 0x40)), InterpLookup::Static));
    assert!(matches!(interp_path(&vec![0u8; 10]), InterpLookup::Bad));
}

#[test]
fn the_dynamic_linker_is_laid_out_at_its_offset() {
    let data = elf_file(4, 56, 0x40 + 4 * 56);
    let (layout, entry) = interp_image::<(), u32>(&data, 0x2000_0000).unwrap();
    assert_eq!(entry, 0x2001_0100);
    assert_eq!(layout.max_virt_mem, 0x2001_4000);
    assert!(interp_image::<(), u32>(&vec![1u8; 64], 0).is_none());
}
