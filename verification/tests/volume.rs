use fat_bits::bpb::{Bpb, BpbError};
use fat_bits::fat::FatError;
use fat_bits::{FatFs, FatFsError, FatType};

fn set_u16(image: &mut [u8], at: usize, v: u16) {
    image[at..at + 2].copy_from_slice(&v.to_le_bytes());
}

fn set_u32(image: &mut [u8], at: usize, v: u32) {
    image[at..at + 4].copy_from_slice(&v.to_le_bytes());
}

/// A small FAT12 volume: 512-byte sectors, one sector per cluster, one
/// reserved sector, one FAT sector, 16 root entries (one sector), 16
/// sectors in all.  Count of clusters: 16 - 3 = 13; valid clusters 2..=13.
fn build_fat12_image() -> Vec<u8> {
    let mut image = vec![0u8; 16 * 512];

    image[3..11].copy_from_slice(b"MSDOS5.0");
    set_u16(&mut image, 11, 512); // bytes per sector
    image[13] = 1; // sectors per cluster
    set_u16(&mut image, 14, 1); // reserved sectors
    image[16] = 1; // number of FATs
    set_u16(&mut image, 17, 16); // root entries
    set_u16(&mut image, 19, 16); // total sectors
    image[21] = 0xF8; // media
    set_u16(&mut image, 22, 1); // FAT size
    image[36] = 0x00; // drive number
    image[38] = 0x29; // boot signature
    set_u32(&mut image, 39, 0x12345678); // serial
    image[43..54].copy_from_slice(b"NO NAME    ");
    image[54..62].copy_from_slice(b"FAT12   ");
    image[510] = 0x55;
    image[511] = 0xAA;

    // FAT: entry 0 carries the media byte, entry 1 is EOF
    image[512] = 0xF8;
    image[513] = 0xFF;
    image[514] = 0xFF;

    image
}

#[test]
fn bpb_decodes_and_classifies() {
    let image = build_fat12_image();
    let bpb = Bpb::load(&image[0..512]).unwrap();

    assert_eq!(bpb.fat_type(), FatType::Fat12);
    assert_eq!(bpb.bytes_per_sector(), 512);
    assert_eq!(bpb.sectors_per_cluster(), 1);
    assert_eq!(bpb.reserved_sector_count(), 1);
    assert_eq!(bpb.num_fats(), 1);
    assert_eq!(bpb.root_entry_count(), 16);
    assert_eq!(bpb.total_sectors(), 16);
    assert_eq!(bpb.media(), 0xF8);
    assert_eq!(bpb.fat_size(), 1);
    assert_eq!(bpb.oem_name_str(), Some("MSDOS5.0"));
    assert_eq!(bpb.count_of_clusters(), 13);

    // derived geometry: first data sector is reserved + FATs + root dir,
    // and the data offset scales it by the sector size
    assert_eq!(bpb.root_dir_sectors(), 1);
    assert_eq!(bpb.first_data_sector(), 1 + 1 + 1);
    assert_eq!(bpb.data_offset(), 3 * 512);
    assert_eq!(bpb.fat_offset(), 512);
    assert_eq!(bpb.fat_len_bytes(), 512);
    assert_eq!(bpb.root_directory_offset(), Some(1024));
    assert_eq!(bpb.num_data_sectors(), 13);
    assert_eq!(bpb.bytes_per_cluster(), 512);
    assert_eq!(bpb.root_cluster(), None);
}

#[test]
fn bpb_validation_errors() {
    let image = build_fat12_image();

    let mut bad = image.clone();
    set_u16(&mut bad, 11, 500);
    assert_eq!(Bpb::load(&bad[0..512]).unwrap_err(), BpbError::InvalidBytesPerSector);

    let mut bad = image.clone();
    bad[13] = 3;
    assert_eq!(Bpb::load(&bad[0..512]).unwrap_err(), BpbError::InvalidSectorsPerCluster);

    let mut bad = image.clone();
    set_u16(&mut bad, 14, 0);
    assert_eq!(Bpb::load(&bad[0..512]).unwrap_err(), BpbError::ZeroReservedSectors);

    let mut bad = image.clone();
    bad[21] = 0x17;
    assert_eq!(Bpb::load(&bad[0..512]).unwrap_err(), BpbError::InvalidMedia);

    let mut bad = image.clone();
    bad[510] = 0x00;
    assert_eq!(Bpb::load(&bad[0..512]).unwrap_err(), BpbError::InvalidSignature);

    let mut bad = image.clone();
    bad[36] = 0x42;
    assert_eq!(Bpb::load(&bad[0..512]).unwrap_err(), BpbError::InvalidDriveNumber);

    let mut bad = image.clone();
    bad[38] = 0x00; // serial present but boot signature missing
    assert_eq!(Bpb::load(&bad[0..512]).unwrap_err(), BpbError::InvalidBootSig);

    let mut bad = image.clone();
    bad[54..62].copy_from_slice(b"NTFS    ");
    assert_eq!(Bpb::load(&bad[0..512]).unwrap_err(), BpbError::InvalidFileSysType);

    let mut bad = image.clone();
    set_u16(&mut bad, 17, 0); // no root entries on FAT12
    assert_eq!(Bpb::load(&bad[0..512]).unwrap_err(), BpbError::ZeroRootEntryCount);

    assert_eq!(Bpb::load(&image[0..100]).unwrap_err(), BpbError::TooShort);
}

#[test]
fn variant_reclassification() {
    // the disk claims FAT16 in its informational string, but the geometry
    // says 13 clusters: the volume is accepted and classified FAT12
    let mut image = build_fat12_image();
    image[54..62].copy_from_slice(b"FAT16   ");
    let bpb = Bpb::load(&image[0..512]).unwrap();
    assert_eq!(bpb.fat_type(), FatType::Fat12);

    // a FAT32-shaped extension with a small cluster count is refused
    let mut small32 = build_fat12_image();
    set_u16(&mut small32, 22, 0); // fat_size_16 = 0 marks the FAT32 shape
    set_u16(&mut small32, 19, 0); // total_sectors_16 must then be 0
    set_u32(&mut small32, 32, 16); // total_sectors_32
    set_u32(&mut small32, 36, 1); // fat_size_32
    set_u16(&mut small32, 42, 0); // fs_version
    set_u32(&mut small32, 44, 2); // root cluster
    set_u16(&mut small32, 48, 1); // fs info sector
    set_u16(&mut small32, 50, 6); // backup boot sector
    for b in small32[52..64].iter_mut() {
        *b = 0;
    }
    small32[64] = 0x00;
    small32[65] = 0;
    small32[66] = 0x29;
    set_u32(&mut small32, 67, 0x12345678);
    small32[71..82].copy_from_slice(b"NO NAME    ");
    small32[82..90].copy_from_slice(b"FAT32   ");
    assert_eq!(Bpb::load(&small32[0..512]).unwrap_err(), BpbError::VariantMismatch);
}

#[test]
fn mount_and_free_clusters() {
    let fs = FatFs::load(build_fat12_image()).unwrap();
    assert_eq!(fs.fat_type(), FatType::Fat12);
    assert_eq!(fs.free_clusters(), 12);
    assert_eq!(fs.bytes_per_sector(), 512);
    assert_eq!(fs.sectors_per_cluster(), 1);
    assert_eq!(fs.root_cluster(), None);
}

#[test]
fn mount_errors() {
    assert_eq!(FatFs::load(vec![0u8; 100]).unwrap_err(), FatFsError::TruncatedImage);

    let mut bad = build_fat12_image();
    bad[510] = 0;
    assert_eq!(
        FatFs::load(bad).unwrap_err(), FatFsError::Bpb(BpbError::InvalidSignature));

    // a cluster count the single FAT sector cannot cover
    let mut truncated = build_fat12_image();
    set_u16(&mut truncated, 19, 5000); // total sectors: count = 4997, FAT16 band
    truncated[54..62].copy_from_slice(b"FAT16   ");
    let mut big = truncated;
    big.resize(2 * 512, 0); // keep the FAT region inside the image
    big[510] = 0x55;
    big[511] = 0xAA;
    assert_eq!(FatFs::load(big).unwrap_err(), FatFsError::FatTruncated);
}

#[test]
fn chain_walk_visits_each_cluster_once() {
    let mut image = build_fat12_image();
    // chain 3 -> 4 -> 5 -> EOF, packed by pairs: entries 2..=5
    // pair (2,3): entries 0x000, 0x004 ; pair (4,5): 0x005, 0xFFF
    image[512 + 3] = 0x00;
    image[512 + 4] = 0x40;
    image[512 + 5] = 0x00;
    image[512 + 6] = 0x05;
    image[512 + 7] = 0xF0;
    image[512 + 8] = 0xFF;

    let fs = FatFs::load(image).unwrap();
    assert_eq!(fs.next_cluster(3), Ok(Some(4)));
    assert_eq!(fs.next_cluster(4), Ok(Some(5)));
    assert_eq!(fs.next_cluster(5), Ok(None));

    let chain = fs.chain_clusters(3).unwrap();
    assert_eq!(chain, vec![3, 4, 5]);
}

#[test]
fn chain_cycle_is_refused() {
    let mut image = build_fat12_image();
    // 3 -> 4 and 4 -> 3: a cycle
    // entries: 2 -> 0, 3 -> 4 ; 4 -> 3, 5 -> 0
    image[512 + 3] = 0x00;
    image[512 + 4] = 0x40;
    image[512 + 5] = 0x00;
    image[512 + 6] = 0x03;
    image[512 + 7] = 0x00;
    image[512 + 8] = 0x00;

    let fs = FatFs::load(image).unwrap();
    assert_eq!(fs.chain_clusters(3), Err(FatError::InvalidEntry(3)));
}

#[test]
fn allocate_and_free() {
    let fs = &mut FatFs::load(build_fat12_image()).unwrap();
    // clusters 2..=13 all free
    assert_eq!(fs.free_clusters(), 12);

    let c = fs.allocate().unwrap();
    assert!((2..=13).contains(&c));
    assert_eq!(fs.free_clusters(), 11);
    // the allocated entry is terminal
    assert_eq!(fs.next_cluster(c), Ok(None));

    fs.free(c);
    assert_eq!(fs.free_clusters(), 12);

    // drain the volume: exactly 12 allocations succeed
    for _ in 0..12 {
        assert!(fs.allocate().is_some());
    }
    assert_eq!(fs.allocate(), None);
    assert_eq!(fs.free_clusters(), 0);
}

#[test]
fn flush_writes_every_fat_copy() {
    let mut image = build_fat12_image();
    image[16] = 2; // two FAT copies
    set_u16(&mut image, 22, 1);
    // geometry shifts: overhead 1 + 2 + 1 = 4, count = 12
    let mut fs = FatFs::load(image).unwrap();

    let c = fs.allocate().unwrap();
    fs.flush_fat().unwrap();
    let out = fs.inner.into_vec();

    // both copies carry the updated entry
    let at = 512 + 3 * (c as usize / 2);
    let copy1 = &out[at..at + 3];
    let copy2 = &out[512 + 512 + 3 * (c as usize / 2)..][..3];
    assert_eq!(copy1, copy2);
    // the allocated entry reads back as EOF
    let entry = if c % 2 == 0 {
        (copy1[0] as u16) | (((copy1[1] & 0x0F) as u16) << 8)
    } else {
        ((copy1[1] >> 4) as u16) | ((copy1[2] as u16) << 4)
    };
    assert_eq!(entry, 0xFFF);
}

#[test]
fn file_reader_crosses_clusters() {
    let mut image = build_fat12_image();
    // chain 3 -> 4 -> EOF
    image[512 + 3] = 0x00;
    image[512 + 4] = 0x40;
    image[512 + 5] = 0x00;
    image[512 + 6] = 0xFF;
    image[512 + 7] = 0x0F;
    image[512 + 8] = 0x00;
    // cluster 3 holds 'a' bytes, cluster 4 holds 'b' bytes
    let data_off = 3 * 512;
    for i in 0..512 {
        image[data_off + 512 * 1 + i] = b'a'; // cluster 3
        image[data_off + 512 * 2 + i] = b'b'; // cluster 4
    }

    let fs = FatFs::load(image).unwrap();
    let mut reader = fs.file_reader(3);

    let first = reader.read(&fs, 512);
    assert_eq!(first.len(), 512);
    assert!(first.iter().all(|&b| b == b'a'));

    let second = reader.read(&fs, 1000);
    assert_eq!(second.len(), 512);
    assert!(second.iter().all(|&b| b == b'b'));

    let end = reader.read(&fs, 10);
    assert_eq!(end.len(), 0);
}

#[test]
fn reader_skip_crosses_clusters() {
    let mut image = build_fat12_image();
    image[512 + 3] = 0x00;
    image[512 + 4] = 0x40;
    image[512 + 5] = 0x00;
    image[512 + 6] = 0xFF;
    image[512 + 7] = 0x0F;
    image[512 + 8] = 0x00;
    let data_off = 3 * 512;
    image[data_off + 512 + 0] = 1;
    image[data_off + 2 * 512 + 88] = 42;

    let fs = FatFs::load(image).unwrap();
    let mut reader = fs.file_reader(3);

    assert_eq!(reader.skip(&fs, 600), 600);
    let rest = reader.read(&fs, 512 - 88);
    assert_eq!(rest[0], 42);

    // skipping past the end reports how far the stream went
    let mut reader = fs.file_reader(3);
    assert_eq!(reader.skip(&fs, 5000), 1024);
}

#[test]
fn writer_fills_and_splices() {
    let mut image = build_fat12_image();
    // single-cluster chain: 3 -> EOF
    image[512 + 3] = 0x00;
    image[512 + 4] = 0xF0;
    image[512 + 5] = 0xFF;

    let mut fs = FatFs::load(image).unwrap();
    let free_before = fs.free_clusters();
    let mut writer = fs.file_writer(3);

    let payload = vec![7u8; 600];
    let mut written = 0;
    while written < payload.len() {
        let n = writer.write(&mut fs, &payload[written..]);
        assert!(n > 0, "the writer made no progress");
        written += n;
    }
    assert_eq!(written, 600);
    assert_eq!(fs.free_clusters(), free_before - 1);

    // the chain grew by one spliced cluster
    let next = fs.next_cluster(3).unwrap().expect("chain should have grown");
    assert_eq!(fs.next_cluster(next), Ok(None));

    // the spilled bytes landed in the new cluster
    let out = fs.inner.into_vec();
    let spill = 3 * 512 + (next as usize - 2) * 512;
    assert!(out[spill..spill + 88].iter().all(|&b| b == 7));
}

#[test]
fn writer_short_when_volume_full() {
    let mut image = build_fat12_image();
    image[512 + 3] = 0x00;
    image[512 + 4] = 0xF0;
    image[512 + 5] = 0xFF;

    let mut fs = FatFs::load(image).unwrap();
    while fs.allocate().is_some() {}

    let mut writer = fs.file_writer(3);
    let n = writer.write(&mut fs, &[1u8; 512]);
    assert_eq!(n, 512); // the existing cluster still takes bytes
    let n = writer.write(&mut fs, &[1u8; 100]);
    assert_eq!(n, 0); // no free cluster: the write comes up short
}

#[test]
fn fat32_volume_mounts() {
    // the smallest FAT32 geometry: 65525 clusters and a bit of headroom
    let count: u32 = 65600;
    let fat_sectors: u32 = (4 * (count + 1)).div_ceil(512);
    let total: u32 = 1 + fat_sectors + count;

    let mut image = vec![0u8; (total as usize) * 512];
    image[3..11].copy_from_slice(b"MSDOS5.0");
    set_u16(&mut image, 11, 512);
    image[13] = 1;
    set_u16(&mut image, 14, 1);
    image[16] = 1;
    set_u16(&mut image, 17, 0);
    set_u16(&mut image, 19, 0);
    image[21] = 0xF8;
    set_u16(&mut image, 22, 0);
    set_u32(&mut image, 32, total);
    set_u32(&mut image, 36, fat_sectors);
    set_u16(&mut image, 40, 0);
    set_u16(&mut image, 42, 0);
    set_u32(&mut image, 44, 2); // root cluster
    set_u16(&mut image, 48, 1);
    set_u16(&mut image, 50, 6);
    image[64] = 0x00;
    image[66] = 0x29;
    set_u32(&mut image, 67, 0xCAFEBABE);
    image[71..82].copy_from_slice(b"NO NAME    ");
    image[82..90].copy_from_slice(b"FAT32   ");
    image[510] = 0x55;
    image[511] = 0xAA;

    // root cluster 2: terminal
    let fat_off = 512;
    image[fat_off + 8..fat_off + 12].copy_from_slice(&0x0FFF_FFFFu32.to_le_bytes());

    let fs = FatFs::load(image).unwrap();
    assert_eq!(fs.fat_type(), FatType::Fat32);
    assert_eq!(fs.root_cluster(), Some(2));
    assert_eq!(fs.bpb.count_of_clusters(), count);
    assert_eq!(fs.next_cluster(2), Ok(None));
}

#[test]
fn fat16_volume_mounts() {
    // enough clusters to land in the FAT16 band: 4085 <= count < 65525
    let mut image = vec![0u8; 5000 * 512];
    image[3..11].copy_from_slice(b"MSDOS5.0");
    set_u16(&mut image, 11, 512);
    image[13] = 1;
    set_u16(&mut image, 14, 1);
    image[16] = 1;
    set_u16(&mut image, 17, 32); // root: two sectors
    set_u16(&mut image, 19, 5000);
    image[21] = 0xF8;
    set_u16(&mut image, 22, 20); // one FAT of 20 sectors covers 5120 entries
    image[36] = 0x80;
    image[38] = 0x29;
    set_u32(&mut image, 39, 0xBEEF);
    image[43..54].copy_from_slice(b"NO NAME    ");
    image[54..62].copy_from_slice(b"FAT16   ");
    image[510] = 0x55;
    image[511] = 0xAA;

    // FAT entries 0 and 1
    image[512..516].copy_from_slice(&[0xF8, 0xFF, 0xFF, 0xFF]);

    let fs = FatFs::load(image).unwrap();
    assert_eq!(fs.fat_type(), FatType::Fat16);
    // overhead: 1 reserved + 20 FAT + 2 root = 23 sectors
    assert_eq!(fs.bpb.count_of_clusters(), 5000 - 23);
    assert_eq!(fs.free_clusters(), (5000 - 23 - 1) as usize);
    assert_eq!(fs.next_cluster(0xFFF7), Err(FatError::DefectiveCluster));
}

#[test]
fn root_dir_writer_cannot_grow() {
    let mut fs = FatFs::load(build_fat12_image()).unwrap();
    let mut writer = fat_bits::iter::ClusterChainWriter::root_dir_writer(&fs);

    // the fixed root directory takes its 512 bytes and not one more
    let n = writer.write(&mut fs, &[0x41u8; 512]);
    assert_eq!(n, 512);
    let n = writer.write(&mut fs, &[0x42u8; 16]);
    assert_eq!(n, 0);

    let out = fs.inner.into_vec();
    assert!(out[1024..1536].iter().all(|&b| b == 0x41));
    assert_eq!(out[1536], 0);
}
