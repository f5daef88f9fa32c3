//! Stream materialization: virtual files, resident and non-resident
//! builders, sector fixups, the allocation bitmap, and the freespace view.

use ntfs::attribute::MftAttribute;
use ntfs::attributes::list::{AttributeList, AttributeListItem};
use ntfs::attributes::FileAttributes;
use ntfs::bootsector::{BootSector, BPB};
use ntfs::attributecontent::{MftAttributeContent, NonResident, Resident, ResidentType, RunList};
use ntfs::attributes::bitmap::{Bitmap, ClusterRange};
use ntfs::error::NtfsError;
use ntfs::mftentry::MftEntry;
use ntfs::ntfsattributes::NtfsAttributeType;
use ntfs::unallocated::freespace_builder;
use ntfs::vfile::VFile;

fn patterned(len: usize) -> Vec<u8> {
    (0..len).map(|i| (i % 251) as u8).collect()
}

#[test]
fn vfile_memory_reads_back() {
    let data = patterned(100);
    let vf = VFile::memory(data.clone());
    assert_eq!(vf.size(), 100);
    assert_eq!(vf.read_exact(0, 100).unwrap(), data);
    assert_eq!(vf.read_exact(10, 5).unwrap(), &data[10..15]);
    assert_eq!(vf.read_exact(96, 5), Err(NtfsError::ReadOutOfBounds));
    assert_eq!(vf.read_byte(7), data[7]);
}

#[test]
fn vfile_push_concatenates_windows() {
    let a = VFile::memory(patterned(32));
    let zero = VFile::zero();
    let mut vf = VFile::empty();
    vf.push(4, &a, 8);
    vf.push(3, &zero, 0);
    vf.push(2, &a, 0);
    assert_eq!(vf.size(), 9);
    let got = vf.read_exact(0, 9).unwrap();
    assert_eq!(got, vec![8, 9, 10, 11, 0, 0, 0, 0, 1]);
}

#[test]
fn vfile_mapped_over_mapped_flattens() {
    let a = VFile::memory(patterned(16));
    let mut inner = VFile::empty();
    inner.push(8, &a, 4);
    let mut outer = VFile::empty();
    outer.push(4, &inner, 2);
    assert_eq!(outer.read_exact(0, 4).unwrap(), vec![6, 7, 8, 9]);
}

#[test]
fn vfile_to_memory_preserves_contents() {
    let a = VFile::memory(patterned(40));
    let mut vf = VFile::empty();
    vf.push(10, &a, 5);
    let cached = vf.to_memory().unwrap();
    assert_eq!(cached.read_exact(0, 10).unwrap(), &patterned(40)[5..15]);
}

fn content_for(
    attr_data: ResidentType,
    entry: VFile,
    partition: Option<VFile>,
    zero: Option<VFile>,
    cluster_size: Option<u32>,
) -> MftAttributeContent {
    MftAttributeContent {
        offset: 0,
        mft_attribute: MftAttribute {
            type_id: NtfsAttributeType::Data,
            length: 0,
            non_resident_flag: match attr_data {
                ResidentType::Resident(_) => 0,
                ResidentType::NonResident(_) => 1,
            },
            name_size: 0,
            name_offset: 0,
            flags: 0,
            id: 0,
            name: None,
            data: attr_data,
        },
        mft_entry_builder: entry,
        partition_builder: partition,
        zero_builder: zero,
        cluster_size,
    }
}

#[test]
fn resident_stream_reads_entry_window() {
    let entry = VFile::memory(patterned(64));
    let content = content_for(
        ResidentType::Resident(Resident { content_size: 5, content_offset: 24 }),
        entry,
        None,
        None,
        None,
    );
    let vf = content.builder().unwrap();
    assert_eq!(vf.size(), 5);
    assert_eq!(vf.read_exact(0, 5).unwrap(), &patterned(64)[24..29]);
}

#[test]
fn resident_stream_rejects_out_of_entry_windows() {
    let entry = VFile::memory(patterned(16));
    let content = content_for(
        ResidentType::Resident(Resident { content_size: 5, content_offset: 200 }),
        entry,
        None,
        None,
        None,
    );
    assert!(matches!(content.builder(), Err(NtfsError::ResidentAttributeOffsetTooLarge)));

    let entry = VFile::memory(patterned(16));
    let content = content_for(
        ResidentType::Resident(Resident { content_size: 50, content_offset: 8 }),
        entry,
        None,
        None,
        None,
    );
    assert!(matches!(content.builder(), Err(NtfsError::ResidentAttributeContentTooLarge)));
}

fn non_resident_body(vnc_start: u64, vnc_end: u64, runs: Vec<RunList>) -> NonResident {
    NonResident {
        vnc_start,
        vnc_end,
        run_list_offset: 64,
        compression_block_size: 0,
        unused: 0,
        content_allocated_size: 0,
        content_actual_size: 0,
        content_initialized_size: 0,
        runs,
    }
}

#[test]
fn non_resident_stream_gathers_runs_and_holes() {
    // Cluster size 4; one data cluster at LCN 2, then a four-cluster hole:
    // after the first cluster, reading the rest returns only zeros.
    let vol = patterned(64);
    let content = content_for(
        ResidentType::NonResident(non_resident_body(
            0,
            4,
            vec![
                RunList { offset: 2, length: 1 },
                RunList { offset: 0, length: 4 },
            ],
        )),
        VFile::memory(vec![]),
        Some(VFile::memory(vol.clone())),
        Some(VFile::zero()),
        Some(4),
    );
    let vf = content.builder().unwrap();
    // The stream size is the sum of the run lengths times the cluster size.
    assert_eq!(vf.size(), 5 * 4);
    assert_eq!(vf.read_exact(0, 4).unwrap(), &vol[8..12]);
    assert_eq!(vf.read_exact(4, 16).unwrap(), vec![0u8; 16]);
}

#[test]
fn non_resident_stream_leads_with_vnc_zeros() {
    let vol = patterned(64);
    let content = content_for(
        ResidentType::NonResident(non_resident_body(2, 2, vec![RunList { offset: 1, length: 1 }])),
        VFile::memory(vec![]),
        Some(VFile::memory(vol.clone())),
        Some(VFile::zero()),
        Some(4),
    );
    let vf = content.builder().unwrap();
    assert_eq!(vf.size(), 3 * 4);
    assert_eq!(vf.read_exact(0, 8).unwrap(), vec![0u8; 8]);
    assert_eq!(vf.read_exact(8, 4).unwrap(), &vol[4..8]);
}

#[test]
fn non_resident_stream_requires_sources() {
    let body = non_resident_body(0, 0, vec![RunList { offset: 1, length: 1 }]);
    let content = content_for(
        ResidentType::NonResident(body.clone()),
        VFile::memory(vec![]),
        None,
        Some(VFile::zero()),
        Some(4),
    );
    assert!(matches!(content.builder(), Err(NtfsError::NonResidentData)));

    let content = content_for(
        ResidentType::NonResident(body.clone()),
        VFile::memory(vec![]),
        Some(VFile::memory(patterned(16))),
        None,
        Some(4),
    );
    assert!(matches!(content.builder(), Err(NtfsError::NonResidentAttributeZeroBuilder)));

    let content = content_for(
        ResidentType::NonResident(body.clone()),
        VFile::memory(vec![]),
        Some(VFile::memory(patterned(16))),
        Some(VFile::zero()),
        None,
    );
    assert!(matches!(content.builder(), Err(NtfsError::NonResidentAttributeClusterSize)));
}

#[test]
fn non_resident_stream_rejects_runs_past_volume() {
    let content = content_for(
        ResidentType::NonResident(non_resident_body(0, 0, vec![RunList { offset: 9, length: 2 }])),
        VFile::memory(vec![]),
        Some(VFile::memory(patterned(16))),
        Some(VFile::zero()),
        Some(4),
    );
    assert!(matches!(content.builder(), Err(NtfsError::NonResidentAttributeOffsetTooLarge)));
}

#[test]
fn attribute_flag_bits() {
    let non_resident = content_for(
        ResidentType::NonResident(non_resident_body(0, 0, vec![])),
        VFile::memory(vec![]),
        None,
        None,
        None,
    );
    let mut attr = non_resident.mft_attribute;
    attr.flags = 0x8001;
    assert!(attr.is_compressed());
    assert!(!attr.is_encrypted());
    assert!(attr.is_sparse());
    attr.flags = 0x4000;
    assert!(attr.is_encrypted());

    // Resident attributes report none of the non-resident flag bits.
    let resident = content_for(
        ResidentType::Resident(Resident { content_size: 0, content_offset: 0 }),
        VFile::memory(vec![]),
        None,
        None,
        None,
    );
    let mut attr = resident.mft_attribute;
    attr.flags = 0xffff;
    assert!(!attr.is_compressed());
    assert!(!attr.is_encrypted());
    assert!(!attr.is_sparse());
}

#[test]
fn bitmap_lsb_first_ranges() {
    // 0xF0 0x0F, LSB first: clusters 0..3 and 12..15 are unallocated.
    let ranges = Bitmap::new(&VFile::memory(vec![0xf0, 0x0f])).unwrap();
    assert_eq!(
        ranges,
        vec![
            ClusterRange { start: 0, end: 3 },
            ClusterRange { start: 12, end: 15 },
        ]
    );
}

#[test]
fn bitmap_edge_patterns() {
    assert_eq!(Bitmap::new(&VFile::memory(vec![])).unwrap(), vec![]);
    assert_eq!(Bitmap::new(&VFile::memory(vec![0xff])).unwrap(), vec![]);
    assert_eq!(
        Bitmap::new(&VFile::memory(vec![0x00])).unwrap(),
        vec![ClusterRange { start: 0, end: 7 }]
    );
    // A run that crosses a byte boundary is merged.
    assert_eq!(
        Bitmap::new(&VFile::memory(vec![0x7f, 0xfe])).unwrap(),
        vec![ClusterRange { start: 7, end: 8 }]
    );
}

#[test]
fn freespace_concatenates_unallocated_regions() {
    // Bitmap 0x0F: clusters 0..3 allocated, 4..7 free; cluster size 2.
    let vol = patterned(16);
    let vf = freespace_builder(&VFile::memory(vec![0x0f]), &VFile::memory(vol.clone()), 2).unwrap();
    assert_eq!(vf.size(), 8);
    assert_eq!(vf.read_exact(0, 8).unwrap(), &vol[8..16]);
}

#[test]
fn freespace_rejects_ranges_past_volume() {
    // Free clusters reach past an eight-byte volume at cluster size 4.
    let r = freespace_builder(&VFile::memory(vec![0x00]), &VFile::memory(patterned(8)), 4);
    assert!(matches!(r, Err(NtfsError::ReadOutOfBounds)));
}

fn make_record_with_trailers() -> Vec<u8> {
    let mut r = vec![0u8; 1024];
    r[0..4].copy_from_slice(b"FILE");
    r[4..6].copy_from_slice(&42u16.to_le_bytes()); // fixup array offset
    r[6..8].copy_from_slice(&3u16.to_le_bytes()); // USN + 2 entries
    r[20..22].copy_from_slice(&56u16.to_le_bytes());
    r[22..24].copy_from_slice(&1u16.to_le_bytes());
    r[24..28].copy_from_slice(&60u32.to_le_bytes()); // used size
    r[28..32].copy_from_slice(&1024u32.to_le_bytes());
    // Update sequence array: the USN, then the true trailer bytes of the
    // two sectors.
    r[42..44].copy_from_slice(&0xbeefu16.to_le_bytes());
    r[44] = 0x11;
    r[45] = 0x22;
    r[46] = 0x33;
    r[47] = 0x44;
    // On-disk trailers hold the USN marker instead.
    r[510] = 0xef;
    r[511] = 0xbe;
    r[1022] = 0xef;
    r[1023] = 0xbe;
    r
}

#[test]
fn fixups_splice_trailer_bytes() {
    let raw = make_record_with_trailers();
    let entry = MftEntry::from_offset(
        0,
        None,
        VFile::memory(raw.clone()),
        None,
        1024,
        512,
        None,
    )
    .unwrap();
    assert_eq!(entry.signature, 0x454c4946);
    assert!(entry.is_valid());
    assert_eq!(entry.fixup_array_offset, 42);
    assert_eq!(entry.fixup_array_entry_count, 2);
    let fixed = entry.to_builder();
    assert_eq!(fixed.size(), 1024);
    let bytes = fixed.read_exact(0, 1024).unwrap();
    // Positions ss*k - 2 and ss*k - 1 carry fixup entry k.
    assert_eq!((bytes[510], bytes[511]), (0x11, 0x22));
    assert_eq!((bytes[1022], bytes[1023]), (0x33, 0x44));
    // Everything else reads through unchanged.
    assert_eq!(&bytes[0..4], b"FILE");
    assert_eq!(&bytes[44..48], &raw[44..48]);
}

#[test]
fn unused_entry_is_reported() {
    let mut raw = make_record_with_trailers();
    raw[24..28].copy_from_slice(&0xffffffffu32.to_le_bytes());
    let r = MftEntry::from_offset(0, None, VFile::memory(raw), None, 1024, 512, None);
    assert_eq!(r.err().unwrap(), NtfsError::MftUnusedEntry);
}

#[test]
fn impossible_fixup_geometry_is_reported() {
    let mut raw = make_record_with_trailers();
    raw[4..6].copy_from_slice(&1021u16.to_le_bytes());
    let r = MftEntry::from_offset(0, None, VFile::memory(raw), None, 1024, 512, None);
    assert_eq!(r.err().unwrap(), NtfsError::MftInvalidSignature);
}

#[test]
fn record_past_mft_end_is_reported() {
    let raw = make_record_with_trailers();
    let r = MftEntry::from_offset(512, None, VFile::memory(raw), None, 1024, 512, None);
    assert_eq!(r.err().unwrap(), NtfsError::ReadOutOfBounds);
}

fn attr_header(type_code: u32, non_resident_flag: u8) -> Vec<u8> {
    let mut a = vec![0u8; 24];
    a[0..4].copy_from_slice(&type_code.to_le_bytes());
    a[4..8].copy_from_slice(&24u32.to_le_bytes());
    a[8] = non_resident_flag;
    a[16..20].copy_from_slice(&0u32.to_le_bytes());
    a[20..22].copy_from_slice(&24u16.to_le_bytes());
    a
}

#[test]
fn attribute_header_errors() {
    // The 0xFFFFFFFF type code is the attribute-stream terminator.
    let end = attr_header(0xffffffff, 0);
    assert!(matches!(
        MftAttribute::from_file(&VFile::memory(end), 0),
        Err(NtfsError::MftAttributesEnd)
    ));

    // An unknown type code is rejected with its raw value.
    let unknown = attr_header(17, 0);
    assert!(matches!(
        MftAttribute::from_file(&VFile::memory(unknown), 0),
        Err(NtfsError::MftAttributeUnknownType(17))
    ));

    // A residency flag other than 0 or 1 is rejected.
    let bad_flag = attr_header(128, 2);
    assert!(matches!(
        MftAttribute::from_file(&VFile::memory(bad_flag), 0),
        Err(NtfsError::MftAttributeDataType)
    ));

    // A header that does not fit is a short read.
    assert!(matches!(
        MftAttribute::from_file(&VFile::memory(vec![0u8; 8]), 0),
        Err(NtfsError::ReadOutOfBounds)
    ));
}

#[test]
fn attribute_name_is_decoded() {
    // A resident attribute with the two-unit name "ad" at offset 24.
    let mut a = vec![0u8; 32];
    a[0..4].copy_from_slice(&128u32.to_le_bytes());
    a[4..8].copy_from_slice(&32u32.to_le_bytes());
    a[8] = 0;
    a[9] = 2; // name units
    a[10..12].copy_from_slice(&24u16.to_le_bytes());
    a[16..20].copy_from_slice(&0u32.to_le_bytes()); // content size
    a[20..22].copy_from_slice(&28u16.to_le_bytes()); // content offset
    a[24..26].copy_from_slice(&(b'a' as u16).to_le_bytes());
    a[26..28].copy_from_slice(&(b'd' as u16).to_le_bytes());
    let attr = MftAttribute::from_file(&VFile::memory(a), 0).unwrap();
    assert_eq!(attr.name.as_deref(), Some("ad"));
    assert_eq!(attr.name_size, 2);
}

#[test]
fn attribute_list_items_parse_until_sentinel() {
    let mut c = Vec::new();
    for (entry_id, id) in [(3u64, 7u16), (4, 9)] {
        let mut item = vec![0u8; 26];
        item[0..4].copy_from_slice(&128u32.to_le_bytes());
        item[4..6].copy_from_slice(&26u16.to_le_bytes());
        item[8..16].copy_from_slice(&0u64.to_le_bytes());
        item[16..22].copy_from_slice(&entry_id.to_le_bytes()[0..6]);
        item[24..26].copy_from_slice(&id.to_le_bytes());
        c.extend_from_slice(&item);
    }
    c.extend_from_slice(&0xffffffffu32.to_le_bytes());
    let items = AttributeList::new(&VFile::memory(c)).unwrap();
    assert_eq!(items.len(), 2);
    assert_eq!(items[0].mft_entry_id, 3);
    assert_eq!(items[0].id, 7);
    assert_eq!(items[0].size, 26);
    assert_eq!(items[1].mft_entry_id, 4);
    assert_eq!(items[1].id, 9);
    assert_eq!(items[0].type_id, NtfsAttributeType::Data);
}

#[test]
fn attribute_list_item_sentinel_error() {
    let mut c = vec![0u8; 26];
    c[0..4].copy_from_slice(&0xffffffffu32.to_le_bytes());
    assert!(matches!(
        AttributeListItem::new(&VFile::memory(c), 0),
        Err(NtfsError::MftAttributeListEnd)
    ));
}

#[test]
fn file_attribute_bits_truncate() {
    let f = FileAttributes::from_bits_truncate(0xffff_ffff);
    assert_eq!(f.bits, 0x7ff7);
    assert!(f.is_readonly());
    assert!(f.is_hidden());
    assert!(f.is_system());
    assert!(f.is_directory());
    let none = FileAttributes::from_bits_truncate(0x8);
    assert_eq!(none.bits, 0);
    assert!(!none.is_readonly());
}

#[test]
fn boot_region_view_maps_first_sectors() {
    let volume: Vec<u8> = (0..12000u32).map(|i| (i % 253) as u8).collect();
    let bs = BootSector {
        oem_id: 0,
        bpb: BPB {
            bytes_per_sector: 512,
            sector_per_cluster: 1,
            media_descriptor: 0,
            total_sectors: 100,
            mft_logical_cluster_number: 1,
            mft_mirror_logical_cluster_number: 1,
            clusters_per_mft_record: 2,
            clusters_per_index_record: 2,
            volume_serial_number: 0,
            checksum: 0,
        },
        end_of_sector: 0xaa55,
        cluster_size: 512,
        mft_record_size: 1024,
        index_record_size: 1024,
    };
    let region = bs.to_builder(&VFile::memory(volume.clone())).unwrap();
    assert_eq!(region.size(), 512 * 16);
    assert_eq!(region.read_exact(0, 100).unwrap(), &volume[0..100]);
    // A volume shorter than sixteen sectors cannot carry the region.
    assert!(matches!(
        bs.to_builder(&VFile::memory(vec![0u8; 100])),
        Err(NtfsError::ReadOutOfBounds)
    ));
}

#[test]
fn baad_records_parse_but_are_invalid() {
    let mut raw = make_record_with_trailers();
    raw[0..4].copy_from_slice(b"BAAD");
    let entry = MftEntry::from_offset(0, None, VFile::memory(raw), None, 1024, 512, None).unwrap();
    assert_eq!(entry.signature, 0x44414142);
    assert!(!entry.is_valid());
}
