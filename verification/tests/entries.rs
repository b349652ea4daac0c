use fat_bits::dir::{checksum_83, DirEntry, DirError, LongNameDirEntry, RegularDirEntry};
use fat_bits::FatFs;

fn set_u16(image: &mut [u8], at: usize, v: u16) {
    image[at..at + 2].copy_from_slice(&v.to_le_bytes());
}

fn set_u32(image: &mut [u8], at: usize, v: u32) {
    image[at..at + 4].copy_from_slice(&v.to_le_bytes());
}

/// The same small FAT12 volume the volume tests use: root directory at
/// offset 1024, 16 slots, data region at offset 1536.
fn build_fat12_image() -> Vec<u8> {
    let mut image = vec![0u8; 16 * 512];

    image[3..11].copy_from_slice(b"MSDOS5.0");
    set_u16(&mut image, 11, 512);
    image[13] = 1;
    set_u16(&mut image, 14, 1);
    image[16] = 1;
    set_u16(&mut image, 17, 16);
    set_u16(&mut image, 19, 16);
    image[21] = 0xF8;
    set_u16(&mut image, 22, 1);
    image[36] = 0x00;
    image[38] = 0x29;
    set_u32(&mut image, 39, 0x12345678);
    image[43..54].copy_from_slice(b"NO NAME    ");
    image[54..62].copy_from_slice(b"FAT12   ");
    image[510] = 0x55;
    image[511] = 0xAA;

    image[512] = 0xF8;
    image[513] = 0xFF;
    image[514] = 0xFF;

    image
}

fn short_slot(name11: &[u8; 11], attr: u8, first_cluster: u16, size: u32) -> [u8; 32] {
    let mut slot = [0u8; 32];
    slot[0..11].copy_from_slice(name11);
    slot[11] = attr;
    slot[26..28].copy_from_slice(&first_cluster.to_le_bytes());
    slot[28..32].copy_from_slice(&size.to_le_bytes());
    slot
}

fn lfn_slot(ordinal: u8, units: &[u16; 13], checksum: u8) -> [u8; 32] {
    let mut slot = [0u8; 32];
    slot[0] = ordinal;
    slot[11] = 0x0F;
    slot[12] = 0;
    slot[13] = checksum;
    for (k, &u) in units.iter().enumerate() {
        let at = if k < 5 {
            1 + 2 * k
        } else if k < 11 {
            14 + 2 * (k - 5)
        } else {
            28 + 2 * (k - 11)
        };
        slot[at..at + 2].copy_from_slice(&u.to_le_bytes());
    }
    slot
}

#[test]
fn sentinel_terminates_iteration() {
    // a valid file entry, then the 0x00 sentinel: exactly one entry comes
    // out, and even a valid-looking slot after the sentinel is ignored
    let mut image = build_fat12_image();
    image[1024..1056].copy_from_slice(&short_slot(b"FILE    TXT", 0x20, 0, 100));
    image[1088..1120].copy_from_slice(&short_slot(b"GHOST   TXT", 0x20, 0, 1));

    let fs = FatFs::load(image).unwrap();
    let mut iter = fs.root_dir_iter();

    let entry = iter.next(&fs).expect("one entry before the sentinel");
    assert_eq!(entry.name(), b"FILE    TXT");
    assert_eq!(entry.file_size(), 100);
    assert_eq!(entry.name_string(), "FILE.TXT");
    assert!(entry.is_file());
    assert!(!entry.is_dir());

    // the sentinel fuses the iterator: even the valid-looking slot behind
    // it is never reached by later calls
    assert!(iter.next(&fs).is_none());
    assert!(iter.next(&fs).is_none());
}

#[test]
fn deleted_slot_is_skipped() {
    // first slot deleted, second valid, third the sentinel: exactly the
    // second comes out
    let mut image = build_fat12_image();
    let mut deleted = short_slot(b"OLD     TXT", 0x20, 0, 5);
    deleted[0] = 0xE5;
    image[1024..1056].copy_from_slice(&deleted);
    image[1056..1088].copy_from_slice(&short_slot(b"KEEP    TXT", 0x20, 0, 7));

    let fs = FatFs::load(image).unwrap();
    let mut iter = fs.root_dir_iter();

    let entry = iter.next(&fs).expect("the second slot");
    assert_eq!(entry.name(), b"KEEP    TXT");
    assert_eq!(entry.file_size(), 7);
    assert!(iter.next(&fs).is_none());
}

fn units13(chars: &[u16]) -> [u16; 13] {
    let mut units = [0xFFFFu16; 13];
    units[..chars.len()].copy_from_slice(chars);
    if chars.len() < 13 {
        units[chars.len()] = 0x0000;
    }
    units
}

#[test]
fn long_name_reassembly() {
    // two fragments spell "hello-world.txt": the one with the is-last flag
    // and ordinal 2 arrives first, then ordinal 1, then the short entry
    let long: Vec<u16> = "hello-world.txt".encode_utf16().collect();
    let checksum = checksum_83(b"HELLO~1 TXT");
    assert_eq!(checksum, 0xED);

    let frag2 = lfn_slot(0x40 | 2, &units13(&long[13..]), checksum);
    let frag1 = lfn_slot(1, &units13_full(&long[..13]), checksum);
    let short = short_slot(b"HELLO~1 TXT", 0x20, 0, 42);

    let mut image = build_fat12_image();
    image[1024..1056].copy_from_slice(&frag2);
    image[1056..1088].copy_from_slice(&frag1);
    image[1088..1120].copy_from_slice(&short);

    let fs = FatFs::load(image).unwrap();
    let mut iter = fs.root_dir_iter();

    let entry = iter.next(&fs).expect("the logical entry");
    assert_eq!(entry.long_name(), Some("hello-world.txt"));
    assert_eq!(entry.name_string(), "hello-world.txt");
    assert_eq!(entry.name(), b"HELLO~1 TXT");
    assert_eq!(entry.file_size(), 42);
    assert!(iter.next(&fs).is_none());
}

fn units13_full(chars: &[u16]) -> [u16; 13] {
    let mut units = [0u16; 13];
    units.copy_from_slice(chars);
    units
}

#[test]
fn long_name_bad_checksum_is_dropped() {
    // the fragments carry a checksum that does not match the short name:
    // the entry still comes out, without a long name
    let long: Vec<u16> = "mismatch.txt".encode_utf16().collect();
    let frag = lfn_slot(0x40 | 1, &units13(&long), 0x99);
    let short = short_slot(b"FILE    TXT", 0x20, 0, 1);

    let mut image = build_fat12_image();
    image[1024..1056].copy_from_slice(&frag);
    image[1056..1088].copy_from_slice(&short);

    let fs = FatFs::load(image).unwrap();
    let mut iter = fs.root_dir_iter();

    let entry = iter.next(&fs).unwrap();
    assert!(entry.long_name().is_none());
    assert_eq!(entry.name_string(), "FILE.TXT");
}

#[test]
fn orphan_fragment_is_dropped() {
    // a fragment without the is-last flag has no run to continue: it is
    // dropped and iteration goes on
    let long: Vec<u16> = "orphan.txt".encode_utf16().collect();
    let frag = lfn_slot(1, &units13(&long), 0x12);
    let short = short_slot(b"FILE    TXT", 0x20, 0, 1);

    let mut image = build_fat12_image();
    image[1024..1056].copy_from_slice(&frag);
    image[1056..1088].copy_from_slice(&short);

    let fs = FatFs::load(image).unwrap();
    let mut iter = fs.root_dir_iter();

    let entry = iter.next(&fs).unwrap();
    assert!(entry.long_name().is_none());
    assert!(iter.next(&fs).is_none());
}

#[test]
fn name_mapping_and_hidden_prefix() {
    let mut image = build_fat12_image();
    image[1024..1056].copy_from_slice(&short_slot(b"MY*FILE TXT", 0x20, 0, 0));
    let mut hidden = short_slot(b"SECRET  BIN", 0x02 | 0x20, 0, 0);
    hidden[11] = 0x22;
    image[1056..1088].copy_from_slice(&hidden);
    image[1088..1120].copy_from_slice(&short_slot(b"NOEXT      ", 0x20, 0, 0));

    let fs = FatFs::load(image).unwrap();
    let mut iter = fs.root_dir_iter();

    // '*' is not a permitted 8.3 byte and becomes '?'
    let starred = iter.next(&fs).unwrap();
    assert_eq!(starred.name_string(), "MY?FILE.TXT");

    // a hidden entry is prefixed with a dot and reports hidden
    let secret = iter.next(&fs).unwrap();
    assert_eq!(secret.name_string(), ".SECRET.BIN");
    assert!(secret.is_hidden());

    // no extension: no joining dot
    let noext = iter.next(&fs).unwrap();
    assert_eq!(noext.name_string(), "NOEXT");
}

#[test]
fn dot_and_dotdot() {
    let mut image = build_fat12_image();
    image[1024..1056].copy_from_slice(&short_slot(b".          ", 0x10, 0, 0));
    image[1056..1088].copy_from_slice(&short_slot(b"..         ", 0x10, 0, 0));

    let fs = FatFs::load(image).unwrap();
    let mut iter = fs.root_dir_iter();

    let dot = iter.next(&fs).unwrap();
    assert!(dot.is_dot());
    assert!(!dot.is_dotdot());
    assert!(dot.is_dir());
    assert!(dot.is_hidden());

    let dotdot = iter.next(&fs).unwrap();
    assert!(dotdot.is_dotdot());
    assert!(!dotdot.is_dot());
}

#[test]
fn slot_validation_errors() {
    let dir_with_size = short_slot(b"BADDIR     ", 0x10, 0, 9);
    assert_eq!(
        RegularDirEntry::load(&dir_with_size).unwrap_err(),
        DirError::DirectoryWithSize
    );

    let label_with_cluster = short_slot(b"LABEL      ", 0x08, 3, 0);
    assert_eq!(
        RegularDirEntry::load(&label_with_cluster).unwrap_err(),
        DirError::VolumeIdWithCluster
    );

    let mut bad_tenths = short_slot(b"FILE    TXT", 0x20, 0, 0);
    bad_tenths[13] = 200;
    assert_eq!(
        RegularDirEntry::load(&bad_tenths).unwrap_err(),
        DirError::InvalidCreateTenths
    );

    let mut bad_month = short_slot(b"FILE    TXT", 0x20, 0, 0);
    set_u16(&mut bad_month, 16, 13 << 5); // create date with month 13
    assert_eq!(
        RegularDirEntry::load(&bad_month).unwrap_err(),
        DirError::InvalidDate
    );

    let mut bad_type = lfn_slot(0x41, &[0u16; 13], 0);
    bad_type[12] = 7;
    assert_eq!(
        LongNameDirEntry::load(&bad_type).unwrap_err(),
        DirError::BadLongType
    );

    let mut bad_cluster = lfn_slot(0x41, &[0u16; 13], 0);
    bad_cluster[26] = 1;
    assert_eq!(
        LongNameDirEntry::load(&bad_cluster).unwrap_err(),
        DirError::BadLongCluster
    );

    let not_lfn = short_slot(b"FILE    TXT", 0x20, 0, 0);
    assert_eq!(
        LongNameDirEntry::load(&not_lfn).unwrap_err(),
        DirError::NotLongName
    );
}

#[test]
fn entry_fields_decode() {
    let mut slot = short_slot(b"FILE    TXT", 0x21, 0x0005, 0x11223344);
    slot[13] = 150; // creation tenths
    set_u16(&mut slot, 14, 0x6000); // creation time: 12:00:00
    set_u16(&mut slot, 16, (19 << 9) | (4 << 5) | 15); // 1999-04-15
    set_u16(&mut slot, 20, 0x0001); // first cluster, high word

    let entry = RegularDirEntry::load(&slot).unwrap();
    assert_eq!(entry.first_cluster(), 0x0001_0005);
    assert_eq!(entry.file_size(), 0x11223344);
    assert_eq!(entry.create_time_tenths(), 150);
    assert_eq!(entry.create_time().hour(), 12);
    assert_eq!(entry.create_date().year(), 1999);
    assert_eq!(entry.create_date().month(), 4);
    assert_eq!(entry.create_date().day(), 15);
    assert!(entry.is_readonly());
    assert_eq!(entry.attr().bits(), 0x21);
    assert_eq!(entry.stem(), b"FILE    ");
    assert_eq!(entry.extension(), b"TXT");
    assert_eq!(entry.stem_str(), Some("FILE    "));
    assert_eq!(entry.checksum(), checksum_83(b"FILE    TXT"));
}

#[test]
fn update_size_rewrites_the_slot() {
    let mut image = build_fat12_image();
    image[1024..1056].copy_from_slice(&short_slot(b"FILE    TXT", 0x20, 3, 100));

    let mut fs = FatFs::load(image).unwrap();
    let mut iter = fs.root_dir_iter();
    let mut entry = iter.next(&fs).unwrap();

    entry.update_size(&mut fs, 0xABCD).unwrap();
    assert_eq!(entry.file_size(), 0xABCD);

    let out = fs.inner.into_vec();
    assert_eq!(&out[1024 + 28..1024 + 32], &0xABCDu32.to_le_bytes());
}

#[test]
fn erase_marks_entry_and_fragments() {
    let long: Vec<u16> = "hello-world.txt".encode_utf16().collect();
    let checksum = checksum_83(b"HELLO~1 TXT");
    let frag2 = lfn_slot(0x40 | 2, &units13(&long[13..]), checksum);
    let frag1 = lfn_slot(1, &units13_full(&long[..13]), checksum);
    let short = short_slot(b"HELLO~1 TXT", 0x20, 0, 42);

    let mut image = build_fat12_image();
    image[1024..1056].copy_from_slice(&frag2);
    image[1056..1088].copy_from_slice(&frag1);
    image[1088..1120].copy_from_slice(&short);

    let mut fs = FatFs::load(image).unwrap();
    let mut iter = fs.root_dir_iter();
    let entry = iter.next(&fs).unwrap();
    assert_eq!(entry.long_name(), Some("hello-world.txt"));

    entry.erase(&mut fs).unwrap();
    let out = fs.inner.into_vec();
    // the short entry and both fragment slots now start with the deleted
    // marker
    assert_eq!(out[1088], 0xE5);
    assert_eq!(out[1024], 0xE5);
    assert_eq!(out[1056], 0xE5);
    // the rest of each slot is untouched
    assert_eq!(out[1089..1099].to_vec(), b"ELLO~1 TXT".to_vec());
}

#[test]
fn update_without_position_is_refused() {
    let slot = short_slot(b"FILE    TXT", 0x20, 0, 1);
    let mut entry = RegularDirEntry::load(&slot).unwrap();
    let mut fs = FatFs::load(build_fat12_image()).unwrap();
    assert_eq!(
        entry.update_size(&mut fs, 5),
        Err(DirError::NoDiskPosition)
    );
    assert_eq!(entry.erase(&mut fs), Err(DirError::NoDiskPosition));
}

#[test]
fn dir_iter_over_a_cluster_chain() {
    let mut image = build_fat12_image();
    // directory chain: single cluster 3
    image[512 + 3] = 0x00;
    image[512 + 4] = 0xF0;
    image[512 + 5] = 0xFF;
    let dir_off = 3 * 512 + 512; // cluster 3
    let slot = short_slot(b"SUB     TXT", 0x20, 0, 3);
    image[dir_off..dir_off + 32].copy_from_slice(&slot);

    let fs = FatFs::load(image).unwrap();
    let mut iter = fs.dir_iter(3);
    let entry = iter.next(&fs).unwrap();
    assert_eq!(entry.name(), b"SUB     TXT");
    assert!(iter.next(&fs).is_none());

    // cluster 0 marks an empty directory
    let mut empty = fs.dir_iter(0);
    assert!(empty.next(&fs).is_none());
}

#[test]
fn lowercase_and_kanji_escape_in_display() {
    let mut image = build_fat12_image();
    // lowercase bytes are not in the permitted 8.3 set and become '?'
    image[1024..1056].copy_from_slice(&short_slot(b"readme  txt", 0x20, 0, 0));
    // a leading 0x05 stands for a real first byte of 0xE5 (and is listed,
    // not treated as deleted)
    let mut kanji = short_slot(b"\x05AME    TXT", 0x20, 0, 0);
    kanji[0] = 0x05;
    image[1056..1088].copy_from_slice(&kanji);

    let fs = FatFs::load(image).unwrap();
    let mut iter = fs.root_dir_iter();

    let lower = iter.next(&fs).unwrap();
    assert_eq!(lower.name_string(), "??????.???");

    let kanji_entry = iter.next(&fs).unwrap();
    assert_eq!(kanji_entry.name_string(), "?AME.TXT");
    assert!(iter.next(&fs).is_none());
}

#[test]
fn hidden_volume_label_gets_no_dot() {
    let mut image = build_fat12_image();
    image[1024..1056].copy_from_slice(&short_slot(b"LABEL      ", 0x08 | 0x02, 0, 0));

    let fs = FatFs::load(image).unwrap();
    let mut iter = fs.root_dir_iter();

    let label = iter.next(&fs).unwrap();
    assert_eq!(label.name_string(), "LABEL");
    assert!(!label.is_file());
}

#[test]
fn sentinel_by_first_byte_even_when_invalid() {
    // the sentinel is recognized by its first byte alone: a zero-led slot
    // with an out-of-range tenths byte still ends iteration
    let mut image = build_fat12_image();
    image[1024 + 13] = 200;
    image[1056..1088].copy_from_slice(&short_slot(b"AFTER   TXT", 0x20, 0, 1));

    let fs = FatFs::load(image).unwrap();
    let mut iter = fs.root_dir_iter();
    assert!(iter.next(&fs).is_none());
}

#[test]
fn deleted_slot_keeps_the_fragment_run() {
    // a deleted slot between the fragments and the short entry does not
    // drop the long name
    let long: Vec<u16> = "kept.txt".encode_utf16().collect();
    let checksum = checksum_83(b"KEPT    TXT");
    let frag = lfn_slot(0x40 | 1, &units13(&long), checksum);
    let mut deleted = short_slot(b"GONE    TXT", 0x20, 0, 0);
    deleted[0] = 0xE5;
    let short = short_slot(b"KEPT    TXT", 0x20, 0, 9);

    let mut image = build_fat12_image();
    image[1024..1056].copy_from_slice(&frag);
    image[1056..1088].copy_from_slice(&deleted);
    image[1088..1120].copy_from_slice(&short);

    let fs = FatFs::load(image).unwrap();
    let mut iter = fs.root_dir_iter();

    let entry = iter.next(&fs).unwrap();
    assert_eq!(entry.long_name(), Some("kept.txt"));
    assert!(iter.next(&fs).is_none());
}


#[test]
fn slot_dispatch_by_attribute() {
    let short = short_slot(b"FILE    TXT", 0x20, 0, 1);
    assert!(matches!(DirEntry::load(&short), Ok(DirEntry::Regular(_))));

    let frag = lfn_slot(0x41, &[0u16; 13], 0x12);
    assert!(matches!(DirEntry::load(&frag), Ok(DirEntry::LongName(_))));
}
