//! The AttributeList attribute: the directory of attributes that overflow
//! into auxiliary MFT entries.
//!
//! Each 26-byte item names an attribute type, the MFT entry that holds it,
//! and the attribute id to look for there; the list ends at the
//! 0xFFFFFFFF type sentinel or at the first item that does not parse.

use vstd::prelude::*;

use crate::bytes::le16_at;
use crate::bytes::le32_at;
use crate::bytes::le48_at;
use crate::bytes::le64_at;
use crate::bytes::read_u16_at;
use crate::bytes::read_u32_at;
use crate::bytes::read_u48_at;
use crate::bytes::read_u64_at;
use crate::bytes::spec_utf16_units;
use crate::bytes::utf16_units;
use crate::error::NtfsError;
use crate::ntfsattributes::spec_attribute_type_of;
use crate::ntfsattributes::NtfsAttributeType;
use crate::text::utf16_chars;
use crate::text::utf16_to_string;
use crate::vfile::VFile;

verus! {

/// One item of an AttributeList.
#[derive(Debug, Clone, PartialEq, Eq)]
pub struct AttributeListItem {
    pub name: Option<String>,
    pub type_id: NtfsAttributeType,
    pub size: u16,
    pub name_size: u8,
    pub name_offset: u8,
    pub vnc_start: u64,
    pub mft_entry_id: u64,
    pub sequence: u16,
    pub id: u16,
}

/// Whether the item at `pos` of the list content `s` parses: the record
/// fits, its type is known and not the sentinel, and its name (read at the
/// item's name offset from the start of the list) fits.
pub open spec fn spec_item_ok(s: Seq<u8>, pos: int) -> bool {
    &&& pos + 26 <= s.len()
    &&& le32_at(s, pos) != 0xffffffff
    &&& spec_attribute_type_of(le32_at(s, pos) as u32) is Some
    &&& (s[pos + 6] > 0 ==> s[pos + 7] + s[pos + 6] <= s.len())
}

/// The fields of a parsed item at `pos`.
pub open spec fn spec_item_fields(s: Seq<u8>, pos: int, item: AttributeListItem) -> bool {
    &&& Some(item.type_id) == spec_attribute_type_of(le32_at(s, pos) as u32)
    &&& item.size == le16_at(s, pos + 4)
    &&& item.name_size == s[pos + 6]
    &&& item.name_offset == s[pos + 7]
    &&& item.vnc_start == le64_at(s, pos + 8)
    &&& item.mft_entry_id == le48_at(s, pos + 16)
    &&& item.sequence == le16_at(s, pos + 22)
    &&& item.id == le16_at(s, pos + 24)
    &&& if item.name_size == 0 {
        item.name is None
    } else {
        item.name matches Some(nm) && nm@ == utf16_chars(
            spec_utf16_units(s.subrange(s[pos + 7] as int, s[pos + 7] + s[pos + 6])),
        )
    }
}

impl AttributeListItem {
    /// Parses the item at `pos` of the list content. The sentinel type
    /// reports `MftAttributeListEnd`; an unknown type reports its raw
    /// code.
    pub fn new(content: &VFile, pos: u64) -> (r: Result<AttributeListItem, NtfsError>)
        requires
            content.wf(),
            pos + 26 <= u64::MAX,
        ensures
            ({
                let s = content@;
                match r {
                    Ok(item) => spec_item_ok(s, pos as int) && spec_item_fields(
                        s,
                        pos as int,
                        item,
                    ),
                    Err(e) => {
                        &&& !spec_item_ok(s, pos as int)
                        &&& if pos + 26 > s.len() {
                            e == NtfsError::ReadOutOfBounds
                        } else if le32_at(s, pos as int) == 0xffffffff {
                            e == NtfsError::MftAttributeListEnd
                        } else if spec_attribute_type_of(le32_at(s, pos as int) as u32) is None {
                            e == NtfsError::MftAttributeUnknownType(le32_at(s, pos as int) as u32)
                        } else {
                            e == NtfsError::ReadOutOfBounds
                        }
                    },
                }
            }),
    {
        let ghost s = content@;
        let data = match content.read_exact(pos, 26) {
            Ok(d) => d,
            Err(e) => {
                return Err(e);
            },
        };
        proof {
            assert(data@.subrange(0, 4) =~= s.subrange(pos as int, pos + 4));
            assert(data@.subrange(4, 6) =~= s.subrange(pos + 4, pos + 6));
            assert(data@.subrange(8, 16) =~= s.subrange(pos + 8, pos + 16));
            assert(data@.subrange(16, 22) =~= s.subrange(pos + 16, pos + 22));
            assert(data@.subrange(22, 24) =~= s.subrange(pos + 22, pos + 24));
            assert(data@.subrange(24, 26) =~= s.subrange(pos + 24, pos + 26));
            assert(data@[6] == s[pos + 6]);
            assert(data@[7] == s[pos + 7]);
        }
        let raw_type = read_u32_at(&data, 0);
        if raw_type == 0xffffffff {
            return Err(NtfsError::MftAttributeListEnd);
        }
        let type_id = match NtfsAttributeType::from_u32(raw_type) {
            Some(t) => t,
            None => {
                return Err(NtfsError::MftAttributeUnknownType(raw_type));
            },
        };
        let size = read_u16_at(&data, 4);
        let name_size = data[6];
        let name_offset = data[7];
        let vnc_start = read_u64_at(&data, 8);
        let mft_entry_id = read_u48_at(&data, 16);
        let sequence = read_u16_at(&data, 22);
        let id = read_u16_at(&data, 24);

        let name = if name_size == 0 {
            None
        } else {
            let nb = match content.read_exact(name_offset as u64, name_size as usize) {
                Ok(d) => d,
                Err(e) => {
                    return Err(e);
                },
            };
            let units = utf16_units(&nb);
            Some(utf16_to_string(&units))
        };

        Ok(
            AttributeListItem {
                name,
                type_id,
                size,
                name_size,
                name_offset,
                vnc_start,
                mft_entry_id,
                sequence,
                id,
            },
        )
    }
}

/// The position of item `k`: items chain by their size fields from the
/// start of the list.
pub open spec fn spec_item_pos(s: Seq<u8>, k: nat) -> int
    decreases k,
{
    if k == 0 {
        0
    } else {
        spec_item_pos(s, (k - 1) as nat) + le16_at(s, spec_item_pos(s, (k - 1) as nat) + 4)
    }
}

/// Whether iteration continues at item position `pos`: the position lies
/// inside the content, the item parses, and its size moves forward.
pub open spec fn spec_list_continues(s: Seq<u8>, pos: int) -> bool {
    &&& pos < s.len()
    &&& spec_item_ok(s, pos)
    &&& le16_at(s, pos + 4) > 0
}

/// The items parse in order from the start of the list: item `k` sits at
/// `spec_item_pos(s, k)`, iteration continues there, and its fields are as
/// recorded.
pub open spec fn spec_list_prefix(s: Seq<u8>, items: Seq<AttributeListItem>) -> bool
    decreases items.len(),
{
    if items.len() == 0 {
        true
    } else {
        &&& spec_list_prefix(s, items.drop_last())
        &&& spec_list_continues(s, spec_item_pos(s, (items.len() - 1) as nat))
        &&& spec_item_fields(s, spec_item_pos(s, (items.len() - 1) as nat), items.last())
    }
}

/// Each item of a parsed list prefix sits at its chained position with its
/// recorded fields.
pub proof fn lemma_list_prefix_index(s: Seq<u8>, items: Seq<AttributeListItem>, k: int)
    requires
        spec_list_prefix(s, items),
        0 <= k < items.len(),
    ensures
        spec_list_continues(s, spec_item_pos(s, k as nat)),
        spec_item_fields(s, spec_item_pos(s, k as nat), items[k]),
    decreases items.len(),
{
    if k < items.len() - 1 {
        lemma_list_prefix_index(s, items.drop_last(), k);
    }
}

/// An AttributeList decoder.
#[derive(Debug)]
pub struct AttributeList {}

impl AttributeList {
    /// Parses the items of an AttributeList content in order. Iteration
    /// stops cleanly at the first position where no further item parses —
    /// the sentinel, a short or unknown item, or a zero item size.
    pub fn new(content: &VFile) -> (r: Result<Vec<AttributeListItem>, NtfsError>)
        requires
            content.wf(),
            content@.len() + 0x2_0000 <= u64::MAX,
        ensures
            ({
                let s = content@;
                match r {
                    Ok(items) => {
                        &&& spec_list_prefix(s, items@)
                        &&& !spec_list_continues(s, spec_item_pos(s, items@.len() as nat))
                    },
                    Err(_) => false,
                }
            }),
    {
        let ghost s = content@;
        let size = content.size();
        let mut items: Vec<AttributeListItem> = Vec::new();
        let mut pos: u64 = 0;
        loop
            invariant
                content.wf(),
                s == content@,
                size == s.len(),
                s.len() + 0x2_0000 <= u64::MAX,
                0 <= pos,
                pos <= s.len() + 0xffff,
                pos as int == spec_item_pos(s, items@.len() as nat),
                spec_list_prefix(s, items@),
            decreases s.len() + 0x1_0000 - pos,
        {
            if pos >= size {
                return Ok(items);
            }
            let item = match AttributeListItem::new(content, pos) {
                Ok(item) => item,
                Err(_) => {
                    return Ok(items);
                },
            };
            if item.size == 0 {
                return Ok(items);
            }
            let step = item.size;
            let ghost n0 = items@.len() as nat;
            let ghost pre_items = items@;
            let ghost gitem = item;
            items.push(item);
            pos = pos + step as u64;
            proof {
                assert(items@.len() as nat == n0 + 1);
                assert(spec_item_pos(s, n0 + 1) == spec_item_pos(s, n0) + le16_at(
                    s,
                    spec_item_pos(s, n0) + 4,
                ));
                assert(items@.drop_last() =~= pre_items);
                assert(items@.last() == gitem);
                assert(spec_list_continues(s, spec_item_pos(s, n0)));
                assert(spec_item_fields(s, spec_item_pos(s, n0), gitem));
                assert(spec_list_prefix(s, items@));
            }
        }
    }
}

} // verus!
