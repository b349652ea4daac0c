use fat_bits::dir::checksum_83;
use fat_bits::datetime::{Date, DateTimeError, Time};
use fat_bits::fat::{Fat, Fat12, Fat16, Fat32, FatError, FatOps};
use fat_bits::fs_info::{FsInfo, FsInfoError};
use fat_bits::subslice::SubSlice;
use fat_bits::utils::{load_u16_le, load_u32_le};
use fat_bits::FatType;

#[test]
fn load_le_fields() {
    assert_eq!(load_u16_le(&[0x34, 0x12]), 0x1234);
    assert_eq!(load_u32_le(&[0x78, 0x56, 0x34, 0x12]), 0x12345678);
}

#[test]
fn fat12_pack_of_two_entries() {
    // the pair (0x123, 0x456) packs into exactly these three bytes
    let fat = Fat12 {
        max: 1,
        next_sectors: vec![0x123, 0x456],
    };
    assert_eq!(fat.encode(), vec![0x23, 0x61, 0x45]);

    // and the three bytes decode back to the pair
    let decoded = Fat12::new(&[0x23, 0x61, 0x45], 1);
    assert_eq!(decoded.next_sectors, vec![0x123, 0x456]);
}

#[test]
fn fat12_odd_table_writes_two_bytes() {
    let fat = Fat12 {
        max: 2,
        next_sectors: vec![0x123, 0x456, 0x789],
    };
    // the final unpaired entry packs into two bytes: low byte, high nibble
    assert_eq!(fat.encode(), vec![0x23, 0x61, 0x45, 0x89, 0x07]);

    let decoded = Fat12::new(&[0x23, 0x61, 0x45, 0x89, 0x07], 2);
    assert_eq!(decoded.next_sectors, vec![0x123, 0x456, 0x789]);
}

#[test]
fn fat16_round_trip() {
    let mut entries: Vec<u16> = vec![0; 4086];
    entries[0] = 0xFFF8;
    entries[1] = 0xFFFF;
    entries[2] = 0x0003;
    entries[3] = 0xABCD;
    let fat = Fat16 {
        max: 4085,
        next_sectors: entries.clone(),
    };
    let bytes = fat.encode();
    assert_eq!(&bytes[0..10], &[0xF8, 0xFF, 0xFF, 0xFF, 0x03, 0x00, 0xCD, 0xAB, 0x00, 0x00]);

    let decoded = Fat16::new(&bytes, 4085);
    assert_eq!(decoded.next_sectors, entries);
}

#[test]
fn fat16_decode_le() {
    // 6 entries of two bytes each, little endian
    let bytes: Vec<u8> = vec![
        0xF8, 0xFF, 0xFF, 0xFF, 0x04, 0x00, 0x05, 0x00, 0xFE, 0xFF, 0x00, 0x00,
    ];
    // max must lie in the FAT16 band; the byte image only needs to cover it
    let mut image = bytes.clone();
    image.resize(2 * 4087, 0);
    let fat = Fat16::new(&image, 4086);
    assert_eq!(fat.next_sectors[0], 0xFFF8);
    assert_eq!(fat.next_sectors[2], 0x0004);
    assert_eq!(fat.next_sectors[3], 0x0005);
    assert_eq!(fat.next_sectors[4], 0xFFFE);
}

#[test]
fn fat32_decode_masks_high_nibble() {
    let mut image = vec![0u8; 4 * 65527];
    // entry 2 on disk carries 0xFFFF_FFF6: the top nibble is reserved; it
    // stays in the stored word but is masked off wherever the entry is read
    image[8..12].copy_from_slice(&[0xF6, 0xFF, 0xFF, 0xFF]);
    let fat = Fat32::new(&image, 65525);
    assert_eq!(fat.get_entry(2), 0x0FFF_FFF6);
    assert_eq!(fat.next_sectors[2], 0xFFFF_FFF6);
}

#[test]
fn fat32_write_preserves_reserved_nibble() {
    let mut image = vec![0u8; 4 * 65527];
    // entry 3 carries a reserved nibble of 0xA
    image[12..16].copy_from_slice(&[0x04, 0x00, 0x00, 0xA0]);
    let mut fat = Fat32::new(&image, 65525);
    assert_eq!(fat.get_entry(3), 4);

    fat.set_entry(3, 0x0FFF_FFFF);
    assert_eq!(fat.get_entry(3), 0x0FFF_FFFF);

    // the write-back keeps the reserved nibble
    let bytes = fat.encode();
    assert_eq!(&bytes[12..16], &[0xFF, 0xFF, 0xFF, 0xAF]);
}

#[test]
fn fat32_round_trip() {
    let mut entries: Vec<u32> = vec![0; 65526];
    entries[2] = 0x0FFF_FFFF;
    entries[3] = 0x0012_3456;
    let fat = Fat32 {
        max: 65525,
        next_sectors: entries.clone(),
    };
    let bytes = fat.encode();
    assert_eq!(&bytes[8..12], &[0xFF, 0xFF, 0xFF, 0x0F]);
    assert_eq!(&bytes[12..16], &[0x56, 0x34, 0x12, 0x00]);
    let decoded = Fat32::new(&bytes, 65525);
    assert_eq!(decoded.next_sectors, entries);
}

#[test]
fn chain_end_in_reserved_band() {
    // a FAT16 entry value 0xFFFE lies in the reserved-EOF band and ends the
    // chain
    let mut image = vec![0u8; 2 * 4087];
    image[2 * 3..2 * 3 + 2].copy_from_slice(&[0xFE, 0xFF]);
    let fat = Fat::new(FatType::Fat16, &image, 4086);
    assert_eq!(fat.get_next_cluster(3), Ok(None));
}

#[test]
fn chain_walk_errors() {
    let mut image = vec![0u8; 2 * 4087];
    image[2 * 3..2 * 3 + 2].copy_from_slice(&[0x01, 0x00]); // entry 3 -> 1: invalid
    image[2 * 4..2 * 4 + 2].copy_from_slice(&[0x05, 0x00]); // entry 4 -> 5: a link
    let fat = Fat::new(FatType::Fat16, &image, 4086);

    assert_eq!(fat.get_next_cluster(0), Err(FatError::FreeCluster));
    assert_eq!(fat.get_next_cluster(4), Ok(Some(5)));
    assert_eq!(fat.get_next_cluster(3), Err(FatError::InvalidEntry(1)));
    // a cluster number above the valid range is reserved
    assert_eq!(fat.get_next_cluster(4087), Err(FatError::ReservedCluster(4087)));
    // the defective marker
    assert_eq!(fat.get_next_cluster(0xFFF7), Err(FatError::DefectiveCluster));
    // a cluster number inside the reserved-EOF band is also refused
    assert_eq!(fat.get_next_cluster(0xFFF8), Err(FatError::ReservedCluster(0xFFF8)));
}

#[test]
fn free_cluster_count() {
    let mut image = vec![0u8; 2 * 4087];
    image[2 * 3..2 * 3 + 2].copy_from_slice(&[0xFF, 0xFF]);
    image[2 * 10..2 * 10 + 2].copy_from_slice(&[0xFF, 0xFF]);
    let fat = Fat::new(FatType::Fat16, &image, 4086);
    // clusters 2..=4086, two of them allocated
    assert_eq!(fat.count_free_clusters(), 4085 - 2);
}

#[test]
fn date_round_trip() {
    let date = Date::from_day_month_year(12, 3, 1999).unwrap();
    assert_eq!(date.day(), 12);
    assert_eq!(date.month(), 3);
    assert_eq!(date.year(), 1999);

    let first = Date::from_day_month_year(1, 1, 1980).unwrap();
    assert_eq!(first.repr(), 0x0021);
    assert_eq!((first.day(), first.month(), first.year()), (1, 1, 1980));

    let last = Date::from_day_month_year(31, 12, 2107).unwrap();
    assert_eq!((last.day(), last.month(), last.year()), (31, 12, 2107));
}

#[test]
fn date_errors() {
    assert_eq!(Date::from_day_month_year(32, 1, 2000), Err(DateTimeError::InvalidDay));
    assert_eq!(Date::from_day_month_year(1, 13, 2000), Err(DateTimeError::InvalidMonth));
    assert_eq!(Date::from_day_month_year(1, 1, 1979), Err(DateTimeError::InvalidYear));
    assert_eq!(Date::from_day_month_year(1, 1, 2108), Err(DateTimeError::InvalidYear));
    // a packed date with month 13 is refused
    assert_eq!(Date::new(13 << 5), Err(DateTimeError::InvalidMonth));
    assert!(Date::new(12 << 5).is_ok());
}

#[test]
fn time_round_trip_floors_seconds() {
    let time = Time::from_seconds_minutes_hours(33, 59, 23).unwrap();
    // two-second granularity: 33 floors to 32
    assert_eq!(time.second(), 32);
    assert_eq!(time.minute(), 59);
    assert_eq!(time.hour(), 23);

    let exact = Time::from_seconds_minutes_hours(58, 0, 0).unwrap();
    assert_eq!(exact.second(), 58);
    assert_eq!(exact.repr(), 29);
}

#[test]
fn time_errors() {
    assert_eq!(
        Time::from_seconds_minutes_hours(60, 0, 0),
        Err(DateTimeError::InvalidSeconds)
    );
    assert_eq!(
        Time::from_seconds_minutes_hours(0, 60, 0),
        Err(DateTimeError::InvalidMinutes)
    );
    assert_eq!(
        Time::from_seconds_minutes_hours(0, 0, 24),
        Err(DateTimeError::InvalidHours)
    );
}

#[test]
fn checksum_83_values() {
    assert_eq!(checksum_83(b"FILE    TXT"), 0x19);
    assert_eq!(checksum_83(b"HELLO~1 TXT"), 0xED);
    assert_eq!(checksum_83(b""), 0x00);
    assert_eq!(checksum_83(b"A"), 0x41);
}

#[test]
fn fs_info_hints() {
    let mut sector = vec![0u8; 512];
    sector[0..4].copy_from_slice(&0x41615252u32.to_le_bytes());
    sector[484..488].copy_from_slice(&0x61417272u32.to_le_bytes());
    sector[488..492].copy_from_slice(&1234u32.to_le_bytes());
    sector[492..496].copy_from_slice(&7u32.to_le_bytes());
    sector[508..512].copy_from_slice(&0xAA550000u32.to_le_bytes());

    let info = FsInfo::load(&sector).unwrap();
    assert_eq!(info.free_count(), 1234);
    assert_eq!(info.next_free(), 7);
}

#[test]
fn fs_info_errors() {
    let mut sector = vec![0u8; 512];
    assert_eq!(FsInfo::load(&sector), Err(FsInfoError::InvalidLeadSignature));

    sector[0..4].copy_from_slice(&0x41615252u32.to_le_bytes());
    assert_eq!(FsInfo::load(&sector), Err(FsInfoError::InvalidStructSignature));

    sector[484..488].copy_from_slice(&0x61417272u32.to_le_bytes());
    assert_eq!(FsInfo::load(&sector), Err(FsInfoError::InvalidTrailSignature));
}

#[test]
fn subslice_skip_caps_at_length() {
    let mut w = SubSlice::new(100, 50);
    assert_eq!(w.skip(30), 30);
    assert_eq!(w.offset(), 130);
    assert_eq!(w.len(), 20);
    assert_eq!(w.skip(25), 20);
    assert_eq!(w.len(), 0);
    assert!(w.is_empty());
}
