//! Entry walking, attribute-list following, node derivation and tree
//! linking, up to a whole synthesized volume.

use ntfs::bootsector::BootSector;
use ntfs::error::NtfsError;
use ntfs::mft::MftEntries;
use ntfs::ntfs::{LinkAction, LinkTarget, Ntfs, NtfsNode};
use ntfs::ntfsattributes::NtfsAttribute;
use ntfs::vfile::VFile;

const RECORD: usize = 1024;
const SECTOR: usize = 512;

fn put_u16(b: &mut [u8], off: usize, v: u16) {
    b[off..off + 2].copy_from_slice(&v.to_le_bytes());
}

fn put_u32(b: &mut [u8], off: usize, v: u32) {
    b[off..off + 4].copy_from_slice(&v.to_le_bytes());
}

fn put_u64(b: &mut [u8], off: usize, v: u64) {
    b[off..off + 8].copy_from_slice(&v.to_le_bytes());
}

fn pad8(v: &mut Vec<u8>) {
    while v.len() % 8 != 0 {
        v.push(0);
    }
}

/// A resident attribute: 16-byte header, 6-byte body, optional UTF-16
/// name at offset 24, content after it.
fn resident_attr(type_code: u32, name: Option<&str>, id: u16, content: &[u8]) -> Vec<u8> {
    let units: Vec<u16> = name.unwrap_or("").encode_utf16().collect();
    let n = units.len();
    let content_offset = (24 + 2 * n) as u16;
    let mut a = vec![0u8; 24 + 2 * n];
    put_u32(&mut a, 0, type_code);
    a[8] = 0;
    a[9] = n as u8;
    put_u16(&mut a, 10, 24);
    put_u16(&mut a, 14, id);
    put_u32(&mut a, 16, content.len() as u32);
    put_u16(&mut a, 20, content_offset);
    for (i, u) in units.iter().enumerate() {
        put_u16(&mut a, 24 + 2 * i, *u);
    }
    a.extend_from_slice(content);
    pad8(&mut a);
    let len = a.len() as u32;
    put_u32(&mut a, 4, len);
    a
}

/// A non-resident attribute: 16-byte header, 48-byte body, run list at
/// offset 64.
fn nonres_attr(type_code: u32, vnc_start: u64, vnc_end: u64, runs: &[u8]) -> Vec<u8> {
    let mut a = vec![0u8; 64];
    put_u32(&mut a, 0, type_code);
    a[8] = 1;
    put_u64(&mut a, 16, vnc_start);
    put_u64(&mut a, 24, vnc_end);
    put_u16(&mut a, 32, 64);
    a.extend_from_slice(runs);
    pad8(&mut a);
    let len = a.len() as u32;
    put_u32(&mut a, 4, len);
    a
}

/// A 66-byte FileName content plus the UTF-16 name.
fn filename_content(name: &str, parent: u64, namespace: u8) -> Vec<u8> {
    let units: Vec<u16> = name.encode_utf16().collect();
    let mut c = vec![0u8; 66];
    c[0..6].copy_from_slice(&parent.to_le_bytes()[0..6]);
    put_u16(&mut c, 6, 1);
    c[64] = units.len() as u8;
    c[65] = namespace;
    for u in units {
        c.extend_from_slice(&u.to_le_bytes());
    }
    c
}

/// Assembles one in-use FILE record from its attributes, then applies the
/// on-disk fixup discipline: the true trailer bytes of each sector move
/// into the update sequence array and the update sequence number takes
/// their place.
fn make_record(attrs: &[Vec<u8>]) -> Vec<u8> {
    let mut r = vec![0u8; RECORD];
    r[0..4].copy_from_slice(b"FILE");
    put_u16(&mut r, 4, 42); // update sequence array offset
    put_u16(&mut r, 6, 3); // the USN plus one entry per sector
    put_u16(&mut r, 16, 1); // sequence
    put_u16(&mut r, 20, 56); // first attribute offset
    put_u16(&mut r, 22, 1); // in use
    put_u32(&mut r, 28, RECORD as u32);
    let mut off = 56;
    for a in attrs {
        r[off..off + a.len()].copy_from_slice(a);
        off += a.len();
    }
    put_u32(&mut r, off, 0xffffffff); // attribute stream terminator
    put_u32(&mut r, 24, (off + 4) as u32); // used size
    // Move the real trailer bytes into the update sequence array.
    let usn = 0xbeefu16;
    put_u16(&mut r, 42, usn);
    for k in 0..2 {
        let t = SECTOR * (k + 1) - 2;
        r[44 + 2 * k] = r[t];
        r[45 + 2 * k] = r[t + 1];
        r[t..t + 2].copy_from_slice(&usn.to_le_bytes());
    }
    r
}

fn mark_unused(r: &mut [u8]) {
    put_u32(r, 24, 0xffffffff);
}

fn table_from_records(records: Vec<Vec<u8>>) -> MftEntries {
    let mut mft = Vec::new();
    for r in records {
        mft.extend_from_slice(&r);
    }
    MftEntries::from_master_mft(&VFile::memory(mft), Some(SECTOR as u16), Some(RECORD as u32))
        .unwrap()
}

const T_STANDARD: u32 = 16;
const T_ATTRLIST: u32 = 32;
const T_FILENAME: u32 = 48;
const T_DATA: u32 = 128;

#[test]
fn resident_data_stream_reads_payload() {
    // An entry whose single Data attribute holds "HELLO" resident at
    // content offset 24: the stream has size 5 and reads "HELLO".
    let record = make_record(&[resident_attr(T_DATA, None, 1, b"HELLO")]);
    let entries = table_from_records(vec![record]);
    let entry = entries.entry(0).unwrap();
    let contents = entry.contents();
    assert_eq!(contents.len(), 1);
    assert_eq!(contents[0].mft_attribute.data,
        ntfs::attributecontent::ResidentType::Resident(
            ntfs::attributecontent::Resident { content_size: 5, content_offset: 24 }
        ));
    let vf = contents[0].builder().unwrap();
    assert_eq!(vf.size(), 5);
    assert_eq!(vf.read_exact(0, 5).unwrap(), b"HELLO");

    // The same stream through the data-attribute lookup.
    let vf = entry.data_attribute().unwrap();
    assert_eq!(vf.read_exact(0, 5).unwrap(), b"HELLO");
}

#[test]
fn missing_data_attribute_is_reported() {
    let record = make_record(&[resident_attr(
        T_FILENAME,
        None,
        1,
        &filename_content("x", 5, 1),
    )]);
    let entries = table_from_records(vec![record]);
    let entry = entries.entry(0).unwrap();
    assert!(matches!(
        entry.data_attribute(),
        Err(NtfsError::MftAttributeNotFound(
            ntfs::ntfsattributes::NtfsAttributeType::Data
        ))
    ));
}

#[test]
fn alternate_data_streams_make_one_node_each() {
    // Display name "file.txt"; an unnamed Data of size 3 and a Data named
    // "stream" of size 7 yield nodes "file.txt" and "file.txt:stream",
    // sharing StandardInformation and FileName.
    let record = make_record(&[
        resident_attr(T_STANDARD, None, 1, &[0u8; 48]),
        resident_attr(T_FILENAME, None, 2, &filename_content("file.txt", 5, 1)),
        resident_attr(T_DATA, None, 3, b"abc"),
        resident_attr(T_DATA, Some("stream"), 4, b"abcdefg"),
    ]);
    let entries = table_from_records(vec![record]);
    let entry = entries.entry(0).unwrap();
    let nodes = NtfsNode::from_entry(1, &entry, &entries);
    assert_eq!(nodes.len(), 2);
    assert_eq!(nodes[0].name, "file.txt");
    assert_eq!(nodes[1].name, "file.txt:stream");
    assert_eq!(nodes[0].data.as_ref().unwrap().size(), 3);
    assert_eq!(nodes[1].data.as_ref().unwrap().size(), 7);
    for node in &nodes {
        assert!(node.attributes.standard_information.is_some());
        assert_eq!(node.attributes.file_name.as_ref().unwrap().file_name, "file.txt");
        assert!(!node.attributes.is_deleted);
    }
    assert_eq!(
        nodes[0].attributes.standard_information,
        nodes[1].attributes.standard_information
    );
}

#[test]
fn deleted_entries_are_flagged() {
    let mut record = make_record(&[resident_attr(T_DATA, None, 1, b"x")]);
    // Clear the in-use flag; the fixup discipline is unaffected because
    // the flags field lies inside the first sector body.
    put_u16(&mut record, 22, 0);
    let entries = table_from_records(vec![record]);
    let entry = entries.entry(0).unwrap();
    assert!(!entry.is_used());
    let nodes = NtfsNode::from_entry(1, &entry, &entries);
    assert!(nodes[0].attributes.is_deleted);
}

fn attrlist_item(type_code: u32, entry_id: u64, id: u16) -> Vec<u8> {
    let mut c = vec![0u8; 26];
    put_u32(&mut c, 0, type_code);
    put_u16(&mut c, 4, 26);
    c[16..22].copy_from_slice(&entry_id.to_le_bytes()[0..6]);
    put_u16(&mut c, 24, id);
    c
}

#[test]
fn attribute_list_following_collects_split_data() {
    // A Data attribute split across two auxiliary entries: the host entry
    // carries an AttributeList naming both pieces; following it collects
    // both streams, and their sizes add up to the whole.
    let mut list = Vec::new();
    list.extend_from_slice(&attrlist_item(T_DATA, 1, 7));
    list.extend_from_slice(&attrlist_item(T_DATA, 2, 9));
    list.extend_from_slice(&0xffffffffu32.to_le_bytes());

    let host = make_record(&[resident_attr(T_ATTRLIST, None, 1, &list)]);
    let piece_a = make_record(&[resident_attr(T_DATA, None, 7, b"ABC")]);
    let piece_b = make_record(&[resident_attr(T_DATA, None, 9, b"DEFG")]);
    let entries = table_from_records(vec![host, piece_a, piece_b]);

    let entry = entries.entry(0).unwrap();
    let attrs = entry.read_attributes(Some(&entries));
    let datas: Vec<&NtfsAttribute> = attrs
        .attributes
        .iter()
        .filter(|a| matches!(a, NtfsAttribute::Data(_)))
        .collect();
    assert_eq!(datas.len(), 2);
    let mut total = 0;
    let mut bytes = Vec::new();
    for d in datas {
        if let NtfsAttribute::Data(c) = d {
            let vf = c.builder().unwrap();
            total += vf.size();
            let len = vf.size() as usize;
            bytes.extend_from_slice(&vf.read_exact(0, len).unwrap());
        }
    }
    assert_eq!(total, 7);
    assert_eq!(bytes, b"ABCDEFG");
}

#[test]
fn attribute_list_without_table_resolves_nothing() {
    let mut list = Vec::new();
    list.extend_from_slice(&attrlist_item(T_DATA, 1, 7));
    list.extend_from_slice(&0xffffffffu32.to_le_bytes());
    let host = make_record(&[resident_attr(T_ATTRLIST, None, 1, &list)]);
    let entries = table_from_records(vec![host]);
    let entry = entries.entry(0).unwrap();
    let attrs = entry.read_attributes(None);
    assert_eq!(attrs.attributes.len(), 0);
}

/// A seven-record volume: boot sector, then the MFT at cluster 1. Entry 0
/// is the MFT itself (non-resident, clusters 1 through 14); entries 1-6
/// hold one file each, exercising parent links, an absent parent, an
/// unused record, a self-parented record, and the root.
fn make_volume() -> Vec<u8> {
    let mut records = Vec::new();
    // Entry 0: $MFT, fourteen clusters at LCN 1.
    records.push(make_record(&[nonres_attr(T_DATA, 0, 13, &[0x11, 0x0e, 0x01, 0x00])]));
    // Entry 1: a file under the root.
    records.push(make_record(&[
        resident_attr(T_FILENAME, None, 1, &filename_content("FileA", 5, 1)),
        resident_attr(T_DATA, None, 2, b"AAAA"),
    ]));
    // Entry 2: parent entry 99 does not exist.
    records.push(make_record(&[resident_attr(
        T_FILENAME,
        None,
        1,
        &filename_content("Lost", 99, 1),
    )]));
    // Entry 3: unused.
    let mut unused = make_record(&[]);
    mark_unused(&mut unused);
    records.push(unused);
    // Entry 4: names itself as parent.
    records.push(make_record(&[resident_attr(
        T_FILENAME,
        None,
        1,
        &filename_content("Selfish", 4, 1),
    )]));
    // Entry 5: the root directory.
    records.push(make_record(&[resident_attr(
        T_FILENAME,
        None,
        1,
        &filename_content("rootdir", 5, 1),
    )]));
    // Entry 6: another file under the root.
    records.push(make_record(&[
        resident_attr(T_FILENAME, None, 1, &filename_content("FileB", 5, 1)),
        resident_attr(T_DATA, None, 2, b"BBBBBB"),
    ]));

    let mut boot = vec![0u8; 512];
    put_u16(&mut boot, 0x0b, 512);
    boot[0x0d] = 1;
    put_u64(&mut boot, 0x28, 15); // total sectors
    put_u64(&mut boot, 0x30, 1); // MFT at cluster 1
    put_u64(&mut boot, 0x38, 1);
    boot[0x40] = 2; // two clusters per record
    boot[0x44] = 2;
    put_u16(&mut boot, 510, 0xaa55);

    let mut volume = boot;
    for r in records {
        volume.extend_from_slice(&r);
    }
    volume
}

#[test]
fn tree_linking_attaches_root_children_and_orphans() {
    let volume = VFile::memory(make_volume());
    let boot = BootSector::from_file(&volume).unwrap();
    assert_eq!(boot.cluster_size, 512);
    assert_eq!(boot.mft_record_size, 1024);

    let mut ntfs = Ntfs::from_partition(&volume, &boot).unwrap();
    let nodes = ntfs.create_nodes();
    // Entries 1, 2, 4, 5, 6 each yield one node; entry 3 is unused.
    assert_eq!(nodes.len(), 5);
    assert_eq!(nodes[0].name, "FileA");
    assert_eq!(nodes[1].name, "Lost");
    assert_eq!(nodes[2].name, "Selfish");
    assert_eq!(nodes[3].name, "root");
    assert_eq!(nodes[4].name, "FileB");
    assert_eq!(nodes[0].data.as_ref().unwrap().read_exact(0, 4).unwrap(), b"AAAA");

    let actions = ntfs.link_nodes();
    assert_eq!(
        actions,
        vec![
            // FileA under the root's node.
            LinkAction { child: 0, target: LinkTarget::Under(3) },
            // The parent of "Lost" is absent: orphan.
            LinkAction { child: 1, target: LinkTarget::Orphan },
            // Self-parented, non-root: orphan.
            LinkAction { child: 2, target: LinkTarget::Orphan },
            // Entry 5's first node attaches under the NTFS root.
            LinkAction { child: 3, target: LinkTarget::NtfsRoot },
            LinkAction { child: 4, target: LinkTarget::Under(3) },
        ]
    );
}

#[test]
fn master_mft_node_carries_the_whole_table() {
    let volume = VFile::memory(make_volume());
    let boot = BootSector::from_file(&volume).unwrap();
    let ntfs = Ntfs::from_partition(&volume, &boot).unwrap();
    let node = ntfs.mft_node().unwrap();
    // Entry 0 carries no FileName, so its node is named by its number.
    assert_eq!(node.name, "Unknown_0");
    let data = node.data.as_ref().unwrap();
    assert_eq!(data.size(), 7 * 1024);
    // The MFT stream starts with entry 0's own record.
    assert_eq!(data.read_exact(0, 4).unwrap(), b"FILE");
}

#[test]
fn mft_record_size_zero_is_rejected() {
    let volume = VFile::memory(make_volume());
    assert!(matches!(
        MftEntries::from_partition(&volume, 1, 512, 512, 0),
        Err(NtfsError::MftRecordSize)
    ));
}

#[test]
fn entry_counts_follow_mft_size() {
    let volume = VFile::memory(make_volume());
    let boot = BootSector::from_file(&volume).unwrap();
    let ntfs = Ntfs::from_partition(&volume, &boot).unwrap();
    assert_eq!(ntfs.mft_entries.count(), 7);
    let entry = ntfs.mft_entries.entry(5).unwrap();
    assert_eq!(entry.offset, 5 * 1024);
    let attrs = entry.read_attributes(None);
    let picked = attrs.find_filename().unwrap();
    assert_eq!(picked.file_name, "rootdir");
    assert_eq!(picked.parent_mft_entry_id, 5);
}

#[test]
fn self_parented_nodes_are_recorded_parentless() {
    let volume = VFile::memory(make_volume());
    let boot = BootSector::from_file(&volume).unwrap();
    let mut ntfs = Ntfs::from_partition(&volume, &boot).unwrap();
    ntfs.create_nodes();
    // Entry 4 names itself as parent: its record drops the parent id, so
    // linking sends it to the orphan node. Entry 1 names entry 5.
    let by_id = |id: u64| ntfs.nodes_ids.iter().find(|g| g.entry_id == id).unwrap();
    assert_eq!(by_id(4).nodes[0].parent_id, None);
    assert_eq!(by_id(1).nodes[0].parent_id, Some(5));
    assert_eq!(by_id(2).nodes[0].parent_id, Some(99));
    // Entry 3 is unused and got no group.
    assert!(ntfs.nodes_ids.iter().all(|g| g.entry_id != 3));
}
