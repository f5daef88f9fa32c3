//! Byte-level parsing: little-endian readers, the run-list codec, the boot
//! sector, the typed attribute decoders, and name selection.

use ntfs::attributecontent::{pad_i64, pad_u64, RunList};
use ntfs::attributes::filename::{FileName, NameSpace};
use ntfs::attributes::standard::StandardInformation;
use ntfs::attributes::volume::{VolumeInformation, VolumeName};
use ntfs::attributes::FileAttributes;
use ntfs::bootsector::BootSector;
use ntfs::bytes::{read_u16_at, read_u32_at, read_u64_at, utf16_units};
use ntfs::datetime::Timestamp;
use ntfs::error::{BootField, NtfsError};
use ntfs::ntfsattributes::{NtfsAttribute, NtfsAttributeType, NtfsAttributes};
use ntfs::runlist::{decode_runs, encode_runs};
use ntfs::text::{u64_to_dec, utf16_to_string};
use ntfs::vfile::VFile;

fn put_u16(b: &mut [u8], off: usize, v: u16) {
    b[off..off + 2].copy_from_slice(&v.to_le_bytes());
}

fn put_u32(b: &mut [u8], off: usize, v: u32) {
    b[off..off + 4].copy_from_slice(&v.to_le_bytes());
}

fn put_u64(b: &mut [u8], off: usize, v: u64) {
    b[off..off + 8].copy_from_slice(&v.to_le_bytes());
}

fn make_boot(bps: u16, spc: u8, total: u64, mft_lcn: u64, cpmr: i8, cpir: i8) -> Vec<u8> {
    let mut b = vec![0u8; 512];
    put_u64(&mut b, 3, 0x202020_5346544e); // "NTFS    "
    put_u16(&mut b, 0x0b, bps);
    b[0x0d] = spc;
    b[0x15] = 0xf8;
    put_u64(&mut b, 0x28, total);
    put_u64(&mut b, 0x30, mft_lcn);
    put_u64(&mut b, 0x38, 2);
    b[0x40] = cpmr as u8;
    b[0x44] = cpir as u8;
    put_u64(&mut b, 0x48, 0x1234_5678_9abc_def0);
    put_u32(&mut b, 0x50, 0xdeadbeef);
    put_u16(&mut b, 510, 0xaa55);
    b
}

#[test]
fn le_readers_read_fields() {
    let d = vec![0x01u8, 0x02, 0x03, 0x04, 0x05, 0x06, 0x07, 0x08];
    assert_eq!(read_u16_at(&d, 0), 0x0201);
    assert_eq!(read_u32_at(&d, 1), 0x05040302);
    assert_eq!(read_u64_at(&d, 0), 0x0807060504030201);
}

#[test]
fn pad_readers_sign_extend() {
    assert_eq!(pad_u64(&vec![0xff, 0x00]), 0xff);
    assert_eq!(pad_u64(&vec![]), 0);
    assert_eq!(pad_i64(&vec![0xff]), -1);
    assert_eq!(pad_i64(&vec![0x00, 0x80]), -32768);
    assert_eq!(pad_i64(&vec![0x7f]), 127);
    assert_eq!(pad_i64(&vec![0xfe, 0xff, 0xff]), -2);
}

#[test]
fn utf16_helpers_decode() {
    let d = vec![0x41u8, 0x00, 0x42, 0x00];
    let units = utf16_units(&d);
    assert_eq!(units, vec![0x41u16, 0x42]);
    assert_eq!(utf16_to_string(&units), "AB");
}

#[test]
fn decimal_rendering() {
    assert_eq!(u64_to_dec(0), "0");
    assert_eq!(u64_to_dec(7), "7");
    assert_eq!(u64_to_dec(1234), "1234");
    assert_eq!(u64_to_dec(u64::MAX), "18446744073709551615");
}

#[test]
fn sparse_hole_runs_decode() {
    // One run of one cluster at LCN 2, then a sparse hole of four clusters.
    let data = vec![0x11u8, 0x01, 0x02, 0x01, 0x04, 0x00];
    let runs = decode_runs(&data, 0).unwrap();
    assert_eq!(
        runs,
        vec![
            RunList { offset: 2, length: 1 },
            RunList { offset: 0, length: 4 },
        ]
    );
}

#[test]
fn signed_negative_delta_accumulates() {
    // First run at LCN 0x20; the second's one-byte delta 0xFF is -1, so its
    // absolute offset is 0x1F.
    let data = vec![0x21u8, 0x10, 0x20, 0x00, 0x11, 0x08, 0xff, 0x00];
    let runs = decode_runs(&data, 0).unwrap();
    assert_eq!(
        runs,
        vec![
            RunList { offset: 0x20, length: 0x10 },
            RunList { offset: 0x1f, length: 0x08 },
        ]
    );
}

#[test]
fn run_list_round_trip() {
    let runs = vec![
        RunList { offset: 16, length: 3 },
        RunList { offset: 0, length: 5 },
        RunList { offset: 9, length: 1 },
        RunList { offset: 0x1_0000, length: 0x300 },
        RunList { offset: 2, length: 70000 },
    ];
    let encoded = encode_runs(&runs);
    let decoded = decode_runs(&encoded, 0).unwrap();
    assert_eq!(decoded, runs);
}

#[test]
fn run_list_round_trip_zero_delta() {
    // A non-sparse run at the same offset as its predecessor encodes a
    // one-byte zero delta, not a sparse marker.
    let runs = vec![
        RunList { offset: 5, length: 2 },
        RunList { offset: 5, length: 4 },
    ];
    let encoded = encode_runs(&runs);
    assert_eq!(decode_runs(&encoded, 0).unwrap(), runs);
}

#[test]
fn run_list_decode_stops_on_oversized_nibble() {
    // 0x9F: length nibble 15 > 8 terminates the list cleanly.
    let data = vec![0x9fu8, 0x01, 0x02];
    assert_eq!(decode_runs(&data, 0).unwrap(), vec![]);
}

#[test]
fn run_list_decode_short_read_fails() {
    let data = vec![0x11u8, 0x01];
    assert_eq!(decode_runs(&data, 0), Err(NtfsError::ReadOutOfBounds));
}

#[test]
fn boot_sector_parses_valid_sector() {
    let b = make_boot(512, 8, 10000, 4, -10, 2);
    let bs = BootSector::from_file(&VFile::memory(b)).unwrap();
    assert_eq!(bs.bpb.bytes_per_sector, 512);
    assert_eq!(bs.bpb.sector_per_cluster, 8);
    assert_eq!(bs.bpb.total_sectors, 10000);
    assert_eq!(bs.bpb.mft_logical_cluster_number, 4);
    assert_eq!(bs.bpb.clusters_per_mft_record, -10);
    assert_eq!(bs.cluster_size, 4096);
    assert_eq!(bs.mft_record_size, 1024);
    assert_eq!(bs.index_record_size, 2 * 4096);
    assert_eq!(bs.bpb.volume_serial_number, 0x1234_5678_9abc_def0);
    assert_eq!(bs.bpb.checksum, 0xdeadbeef);
    assert_eq!(bs.size(), 512 * 16);
}

#[test]
fn boot_sector_rejects_bad_trailer() {
    let mut b = make_boot(512, 8, 10000, 4, -10, 2);
    b[510] = 0;
    b[511] = 0;
    assert_eq!(
        BootSector::from_file(&VFile::memory(b)),
        Err(NtfsError::BootSectorInvalid(BootField::EndOfSector))
    );
}

#[test]
fn boot_sector_rejects_bad_fields() {
    let volume = |b: Vec<u8>| BootSector::from_file(&VFile::memory(b));
    assert_eq!(
        volume(make_boot(0, 8, 10000, 4, -10, 2)),
        Err(NtfsError::BootSectorInvalid(BootField::BytesPerSector))
    );
    assert_eq!(
        volume(make_boot(500, 8, 10000, 4, -10, 2)),
        Err(NtfsError::BootSectorInvalid(BootField::BytesPerSector))
    );
    assert_eq!(
        volume(make_boot(512, 0, 10000, 4, -10, 2)),
        Err(NtfsError::BootSectorInvalid(BootField::SectorPerCluster))
    );
    assert_eq!(
        volume(make_boot(512, 8, 0, 4, -10, 2)),
        Err(NtfsError::BootSectorInvalid(BootField::TotalSectors))
    );
    // Only when both MFT cluster numbers exceed the sector count does the
    // check fail.
    let mut both_high = make_boot(512, 8, 100, 200, -10, 2);
    put_u64(&mut both_high, 0x38, 300);
    assert_eq!(
        volume(both_high),
        Err(NtfsError::BootSectorInvalid(BootField::MftClusterNumber))
    );
    assert!(volume(make_boot(512, 8, 100, 200, -10, 2)).is_ok());
    assert_eq!(
        volume(make_boot(512, 8, 10000, 4, 0, 2)),
        Err(NtfsError::BootSectorInvalid(BootField::ClustersPerMftRecord))
    );
    assert_eq!(
        volume(make_boot(512, 8, 10000, 4, -10, 0)),
        Err(NtfsError::BootSectorInvalid(BootField::ClustersPerIndexRecord))
    );
    assert_eq!(
        volume(make_boot(512, 8, 10000, 4, -100, 2)),
        Err(NtfsError::BootSectorInvalid(BootField::ClustersPerMftRecord))
    );
    assert_eq!(
        volume(vec![0u8; 100]),
        Err(NtfsError::ReadOutOfBounds)
    );
}

fn standard_info_bytes(len: usize) -> Vec<u8> {
    let mut c = vec![0u8; len];
    put_u64(&mut c, 0, 116444736000000000); // 1970-01-01
    put_u64(&mut c, 8, 116444736000000000 + 10_000_000);
    put_u64(&mut c, 16, 2);
    put_u64(&mut c, 24, 3);
    put_u32(&mut c, 32, 0x0001 | 0x0002);
    put_u32(&mut c, 36, 9);
    put_u32(&mut c, 40, 8);
    put_u32(&mut c, 44, 7);
    c
}

#[test]
fn standard_information_short_form() {
    let si = StandardInformation::new(&VFile::memory(standard_info_bytes(48))).unwrap();
    assert_eq!(si.creation_time.filetime, 116444736000000000);
    assert_eq!(si.altered_time.filetime, 116444736000000000 + 10_000_000);
    assert_eq!(si.flags.bits, 0x0003);
    assert_eq!(si.version_maximum_number, 9);
    assert_eq!(si.version_number, 8);
    assert_eq!(si.class_id, 7);
    assert_eq!(si.owner_id, None);
    assert_eq!(si.usn, None);
}

#[test]
fn standard_information_long_form() {
    let mut c = standard_info_bytes(72);
    put_u32(&mut c, 48, 11);
    put_u32(&mut c, 52, 12);
    put_u64(&mut c, 56, 13);
    put_u64(&mut c, 64, 14);
    let si = StandardInformation::new(&VFile::memory(c)).unwrap();
    assert_eq!(si.owner_id, Some(11));
    assert_eq!(si.security_id, Some(12));
    assert_eq!(si.quota_charged, Some(13));
    assert_eq!(si.usn, Some(14));
}

#[test]
fn standard_information_rejects_other_sizes() {
    assert_eq!(
        StandardInformation::new(&VFile::memory(standard_info_bytes(50))),
        Err(NtfsError::MftAttributeStandardInvalidSize)
    );
}

fn filename_bytes(name: &str, parent: u64, namespace: u8) -> Vec<u8> {
    let units: Vec<u16> = name.encode_utf16().collect();
    let mut c = vec![0u8; 66 + 2 * units.len()];
    c[0..6].copy_from_slice(&parent.to_le_bytes()[0..6]);
    put_u16(&mut c, 6, 1);
    put_u64(&mut c, 8, 116444736000000000);
    put_u64(&mut c, 16, 1);
    put_u64(&mut c, 24, 2);
    put_u64(&mut c, 32, 3);
    put_u64(&mut c, 40, 4096);
    put_u64(&mut c, 48, 2000);
    put_u32(&mut c, 56, 0x20);
    c[64] = units.len() as u8;
    c[65] = namespace;
    for (i, u) in units.iter().enumerate() {
        put_u16(&mut c, 66 + 2 * i, *u);
    }
    c
}

#[test]
fn filename_parses() {
    let f = FileName::new(&VFile::memory(filename_bytes("hello.txt", 5, 1))).unwrap();
    assert_eq!(f.file_name, "hello.txt");
    assert_eq!(f.parent_mft_entry_id, 5);
    assert_eq!(f.parent_sequence, 1);
    assert_eq!(f.name_space, NameSpace::Win32);
    assert_eq!(f.allocated_size, 4096);
    assert_eq!(f.real_size, 2000);
    assert_eq!(f.flags.bits, 0x20);
}

#[test]
fn filename_rejects_unknown_namespace() {
    assert_eq!(
        FileName::new(&VFile::memory(filename_bytes("x", 5, 7))),
        Err(NtfsError::MftAttributeUnknownNameSpace(7))
    );
}

#[test]
fn filename_rejects_oversized_name() {
    let mut c = filename_bytes("x", 5, 0);
    c[64] = 200;
    assert_eq!(
        FileName::new(&VFile::memory(c)),
        Err(NtfsError::MftAttributeNameSpaceInvalidSize)
    );
}

#[test]
fn volume_attributes_parse() {
    let mut c = vec![0u8; 12];
    c[8] = 3;
    c[9] = 1;
    let vi = VolumeInformation::new(&VFile::memory(c)).unwrap();
    assert_eq!((vi.major, vi.minor), (3, 1));
    assert_eq!(
        VolumeInformation::new(&VFile::memory(vec![0u8; 8])),
        Err(NtfsError::ReadOutOfBounds)
    );

    let name = vec![0x56u8, 0x00, 0x4f, 0x00, 0x4c, 0x00];
    let vn = VolumeName::new(&VFile::memory(name)).unwrap();
    assert_eq!(vn.name, "VOL");
}

fn plain_filename(name: &str, namespace: NameSpace) -> FileName {
    FileName {
        file_name: name.to_string(),
        parent_mft_entry_id: 5,
        parent_sequence: 0,
        creation_time: Timestamp { filetime: 0 },
        modification_time: Timestamp { filetime: 0 },
        mft_modification_time: Timestamp { filetime: 0 },
        accessed_time: Timestamp { filetime: 0 },
        allocated_size: 0,
        real_size: 0,
        flags: FileAttributes { bits: 0 },
        reparse_value: 0,
        name_length: name.len() as u8,
        name_space: namespace,
    }
}

#[test]
fn filename_namespace_preference() {
    // A Win32 name wins over an earlier Posix pick.
    let attrs = NtfsAttributes::new(vec![
        NtfsAttribute::FileName(plain_filename("posix_name", NameSpace::Posix)),
        NtfsAttribute::FileName(plain_filename("win_name", NameSpace::Win32)),
    ]);
    assert_eq!(attrs.find_filename().unwrap().file_name, "win_name");

    // A Win32 name seen first is kept.
    let attrs = NtfsAttributes::new(vec![
        NtfsAttribute::FileName(plain_filename("win_name", NameSpace::Win32)),
        NtfsAttribute::FileName(plain_filename("posix_name", NameSpace::Posix)),
    ]);
    assert_eq!(attrs.find_filename().unwrap().file_name, "win_name");

    // Without a preferred namespace the first name wins.
    let attrs = NtfsAttributes::new(vec![
        NtfsAttribute::FileName(plain_filename("first", NameSpace::Posix)),
        NtfsAttribute::FileName(plain_filename("second", NameSpace::Dos)),
    ]);
    assert_eq!(attrs.find_filename().unwrap().file_name, "first");

    // DosWin32 also takes precedence.
    let attrs = NtfsAttributes::new(vec![
        NtfsAttribute::FileName(plain_filename("first", NameSpace::Dos)),
        NtfsAttribute::FileName(plain_filename("both", NameSpace::DosWin32)),
    ]);
    assert_eq!(attrs.find_filename().unwrap().file_name, "both");

    // No FileName attribute at all selects nothing.
    let attrs = NtfsAttributes::new(vec![]);
    assert!(attrs.find_filename().is_none());
}

#[test]
fn timestamps_convert_to_civil_dates() {
    let epoch = Timestamp { filetime: 116444736000000000 };
    let (secs, nanos) = epoch.to_unix();
    assert_eq!((secs, nanos), (0, 0));
    let c = epoch.to_civil();
    assert_eq!(
        (c.year, c.month, c.day, c.hour, c.minute, c.second),
        (1970, 1, 1, 0, 0, 0)
    );

    let origin = Timestamp { filetime: 0 };
    let c = origin.to_civil();
    assert_eq!((c.year, c.month, c.day), (1601, 1, 1));

    // 2004-02-29 12:00:00 UTC, a leap day.
    let leap = Timestamp { filetime: 116444736000000000 + 1078056000 * 10_000_000 };
    let c = leap.to_civil();
    assert_eq!(
        (c.year, c.month, c.day, c.hour, c.minute, c.second),
        (2004, 2, 29, 12, 0, 0)
    );

    // Sub-second ticks become nanoseconds.
    let frac = Timestamp { filetime: 116444736000000000 + 1234567 };
    let (secs, nanos) = frac.to_unix();
    assert_eq!((secs, nanos), (0, 123456700));
    assert_eq!(frac.to_civil().nanosecond, 123456700);
}

#[test]
fn attribute_type_codes_round_trip() {
    for code in [16u32, 32, 48, 64, 80, 96, 112, 128, 144, 160, 176, 192, 208, 224, 240, 246] {
        let t = NtfsAttributeType::from_u32(code).unwrap();
        assert_eq!(t.to_u32(), code);
    }
    assert!(NtfsAttributeType::from_u32(17).is_none());
    assert!(NtfsAttributeType::from_u32(0xffffffff).is_none());
}

#[test]
fn plugin_reports_its_name() {
    let plugin = ntfs::NtfsPlugin {};
    assert_eq!(plugin.name(), "ntfs");
}
