//! The set of NTFS attribute type codes and the typed attributes decoded
//! from them.

use vstd::prelude::*;
use vstd::pervasive::unreached;

use crate::attributecontent::MftAttributeContent;
use crate::attributes::bitmap::ClusterRange;
use crate::attributes::filename::FileName;
use crate::attributes::filename::NameSpace;
use crate::attributes::list::AttributeListItem;
use crate::attributes::standard::StandardInformation;
use crate::attributes::volume::VolumeInformation;
use crate::attributes::volume::VolumeName;

verus! {

/// The attribute type codes that appear in MFT attribute headers.
/// `from_u32` maps the on-disk code to the variant; unknown codes are
/// rejected by the attribute parser.
#[derive(Debug, Clone, Copy, PartialEq, Eq, Structural)]
pub enum NtfsAttributeType {
    StandardInformation,
    AttributeList,
    FileName,
    ObjectId,
    SecurityDescriptor,
    VolumeName,
    VolumeInformation,
    Data,
    IndexRoot,
    IndexAllocation,
    Bitmap,
    ReparsePoint,
    EaInformation,
    EA,
    PropertySet,
    LoggedUtilityStream,
}

/// The on-disk type code of each attribute type.
pub open spec fn spec_attribute_type_code(t: NtfsAttributeType) -> u32 {
    match t {
        NtfsAttributeType::StandardInformation => 16,
        NtfsAttributeType::AttributeList => 32,
        NtfsAttributeType::FileName => 48,
        NtfsAttributeType::ObjectId => 64,
        NtfsAttributeType::SecurityDescriptor => 80,
        NtfsAttributeType::VolumeName => 96,
        NtfsAttributeType::VolumeInformation => 112,
        NtfsAttributeType::Data => 128,
        NtfsAttributeType::IndexRoot => 144,
        NtfsAttributeType::IndexAllocation => 160,
        NtfsAttributeType::Bitmap => 176,
        NtfsAttributeType::ReparsePoint => 192,
        NtfsAttributeType::EaInformation => 208,
        NtfsAttributeType::EA => 224,
        NtfsAttributeType::PropertySet => 240,
        NtfsAttributeType::LoggedUtilityStream => 246,
    }
}

/// The attribute type encoded by `raw`, if `raw` is a known type code.
pub open spec fn spec_attribute_type_of(raw: u32) -> Option<NtfsAttributeType> {
    if raw == 16 {
        Some(NtfsAttributeType::StandardInformation)
    } else if raw == 32 {
        Some(NtfsAttributeType::AttributeList)
    } else if raw == 48 {
        Some(NtfsAttributeType::FileName)
    } else if raw == 64 {
        Some(NtfsAttributeType::ObjectId)
    } else if raw == 80 {
        Some(NtfsAttributeType::SecurityDescriptor)
    } else if raw == 96 {
        Some(NtfsAttributeType::VolumeName)
    } else if raw == 112 {
        Some(NtfsAttributeType::VolumeInformation)
    } else if raw == 128 {
        Some(NtfsAttributeType::Data)
    } else if raw == 144 {
        Some(NtfsAttributeType::IndexRoot)
    } else if raw == 160 {
        Some(NtfsAttributeType::IndexAllocation)
    } else if raw == 176 {
        Some(NtfsAttributeType::Bitmap)
    } else if raw == 192 {
        Some(NtfsAttributeType::ReparsePoint)
    } else if raw == 208 {
        Some(NtfsAttributeType::EaInformation)
    } else if raw == 224 {
        Some(NtfsAttributeType::EA)
    } else if raw == 240 {
        Some(NtfsAttributeType::PropertySet)
    } else if raw == 246 {
        Some(NtfsAttributeType::LoggedUtilityStream)
    } else {
        None
    }
}

impl NtfsAttributeType {
    /// Decodes an on-disk attribute type code.
    pub fn from_u32(raw: u32) -> (r: Option<NtfsAttributeType>)
        ensures
            r == spec_attribute_type_of(raw),
    {
        if raw == 16 {
            Some(NtfsAttributeType::StandardInformation)
        } else if raw == 32 {
            Some(NtfsAttributeType::AttributeList)
        } else if raw == 48 {
            Some(NtfsAttributeType::FileName)
        } else if raw == 64 {
            Some(NtfsAttributeType::ObjectId)
        } else if raw == 80 {
            Some(NtfsAttributeType::SecurityDescriptor)
        } else if raw == 96 {
            Some(NtfsAttributeType::VolumeName)
        } else if raw == 112 {
            Some(NtfsAttributeType::VolumeInformation)
        } else if raw == 128 {
            Some(NtfsAttributeType::Data)
        } else if raw == 144 {
            Some(NtfsAttributeType::IndexRoot)
        } else if raw == 160 {
            Some(NtfsAttributeType::IndexAllocation)
        } else if raw == 176 {
            Some(NtfsAttributeType::Bitmap)
        } else if raw == 192 {
            Some(NtfsAttributeType::ReparsePoint)
        } else if raw == 208 {
            Some(NtfsAttributeType::EaInformation)
        } else if raw == 224 {
            Some(NtfsAttributeType::EA)
        } else if raw == 240 {
            Some(NtfsAttributeType::PropertySet)
        } else if raw == 246 {
            Some(NtfsAttributeType::LoggedUtilityStream)
        } else {
            None
        }
    }

    /// The on-disk type code of this attribute type.
    pub fn to_u32(&self) -> (r: u32)
        ensures
            r == spec_attribute_type_code(*self),
    {
        match self {
            NtfsAttributeType::StandardInformation => 16,
            NtfsAttributeType::AttributeList => 32,
            NtfsAttributeType::FileName => 48,
            NtfsAttributeType::ObjectId => 64,
            NtfsAttributeType::SecurityDescriptor => 80,
            NtfsAttributeType::VolumeName => 96,
            NtfsAttributeType::VolumeInformation => 112,
            NtfsAttributeType::Data => 128,
            NtfsAttributeType::IndexRoot => 144,
            NtfsAttributeType::IndexAllocation => 160,
            NtfsAttributeType::Bitmap => 176,
            NtfsAttributeType::ReparsePoint => 192,
            NtfsAttributeType::EaInformation => 208,
            NtfsAttributeType::EA => 224,
            NtfsAttributeType::PropertySet => 240,
            NtfsAttributeType::LoggedUtilityStream => 246,
        }
    }
}

/// A typed attribute decoded from an entry's attribute stream.
#[derive(Debug)]
pub enum NtfsAttribute {
    StandardInformation(StandardInformation),
    FileName(FileName),
    Data(MftAttributeContent),
    AttributeList(Vec<AttributeListItem>),
    VolumeName(VolumeName),
    VolumeInformation(VolumeInformation),
    Bitmap(Vec<ClusterRange>),
    Unknown(MftAttributeContent),
}

/// The typed attributes of one entry, in the order they were decoded.
#[derive(Debug)]
pub struct NtfsAttributes {
    pub attributes: Vec<NtfsAttribute>,
}

/// The StandardInformation payloads of `attrs`, in order.
pub open spec fn spec_standard_infos(attrs: Seq<NtfsAttribute>) -> Seq<StandardInformation>
    decreases attrs.len(),
{
    if attrs.len() == 0 {
        Seq::empty()
    } else {
        let rest = spec_standard_infos(attrs.drop_last());
        match attrs.last() {
            NtfsAttribute::StandardInformation(si) => rest.push(si),
            _ => rest,
        }
    }
}

/// Whether a namespace takes precedence when picking a display name.
pub open spec fn spec_preferred(ns: NameSpace) -> bool {
    ns == NameSpace::Win32 || ns == NameSpace::DosWin32
}

/// The index of the FileName attribute picked as display name after
/// scanning `attrs[..n]`: the first FileName seen, unless a later Win32 or
/// DosWin32 one replaces it.
pub open spec fn spec_selected_filename(attrs: Seq<NtfsAttribute>, n: int) -> Option<int>
    decreases n,
{
    if n <= 0 {
        None
    } else {
        let prev = spec_selected_filename(attrs, n - 1);
        match attrs[n - 1] {
            NtfsAttribute::FileName(f) => {
                match prev {
                    None => Some(n - 1),
                    Some(_) => if spec_preferred(f.name_space) {
                        Some(n - 1)
                    } else {
                        prev
                    },
                }
            },
            _ => prev,
        }
    }
}

impl NtfsAttributes {
    /// Wraps a decoded attribute list.
    pub fn new(attributes: Vec<NtfsAttribute>) -> (r: NtfsAttributes)
        ensures
            r.attributes@ == attributes@,
    {
        NtfsAttributes { attributes }
    }

    /// The StandardInformation attributes, in order.
    pub fn find_standard_info(&self) -> (r: Vec<StandardInformation>)
        ensures
            r@ == spec_standard_infos(self.attributes@),
    {
        let mut r: Vec<StandardInformation> = Vec::new();
        let mut i: usize = 0;
        while i < self.attributes.len()
            invariant
                i <= self.attributes@.len(),
                r@ == spec_standard_infos(self.attributes@.take(i as int)),
            decreases self.attributes@.len() - i,
        {
            let ghost pre = self.attributes@.take(i as int);
            match &self.attributes[i] {
                NtfsAttribute::StandardInformation(si) => {
                    r.push(*si);
                },
                _ => {},
            }
            proof {
                assert(self.attributes@.take(i + 1).drop_last() =~= pre);
                assert(self.attributes@.take(i + 1).last() == self.attributes@[i as int]);
            }
            i = i + 1;
        }
        proof {
            assert(self.attributes@.take(self.attributes@.len() as int) =~= self.attributes@);
        }
        r
    }

    /// The indices of the Data attributes, in order. Each index points into
    /// `attributes` at a `Data` element.
    pub fn find_datas(&self) -> (r: Vec<usize>)
        ensures
            forall|k: int|
                0 <= k < r@.len() ==> (#[trigger] r@[k]) < self.attributes@.len()
                    && self.attributes@[r@[k] as int] is Data,
            forall|j: int|
                0 <= j < self.attributes@.len() && self.attributes@[j] is Data ==> exists|k: int|
                    0 <= k < r@.len() && (#[trigger] r@[k]) == j,
            forall|k: int, k2: int| 0 <= k < k2 < r@.len() ==> r@[k] < r@[k2],
    {
        let mut r: Vec<usize> = Vec::new();
        let mut i: usize = 0;
        while i < self.attributes.len()
            invariant
                i <= self.attributes@.len(),
                forall|k: int|
                    0 <= k < r@.len() ==> (#[trigger] r@[k]) < i && self.attributes@[r@[k] as int]
                        is Data,
                forall|j: int|
                    0 <= j < i && self.attributes@[j] is Data ==> exists|k: int|
                        0 <= k < r@.len() && (#[trigger] r@[k]) == j,
                forall|k: int, k2: int| 0 <= k < k2 < r@.len() ==> r@[k] < r@[k2],
            decreases self.attributes@.len() - i,
        {
            let ghost pre = r@;
            let is_data = match &self.attributes[i] {
                NtfsAttribute::Data(_) => true,
                _ => false,
            };
            if is_data {
                r.push(i);
                proof {
                    assert(forall|k: int| 0 <= k < pre.len() ==> #[trigger] r@[k] == pre[k]);
                    assert(r@[pre.len() as int] == i);
                }
            }
            proof {
                assert forall|j: int|
                    0 <= j < i + 1 && self.attributes@[j] is Data implies exists|k: int|
                    0 <= k < r@.len() && (#[trigger] r@[k]) == j by {
                    if j < i {
                        let k0 = choose|k: int| 0 <= k < pre.len() && (#[trigger] pre[k]) == j;
                        assert(r@[k0] == j);
                    } else {
                        assert(r@[r@.len() - 1] == j);
                    }
                }
            }
            i = i + 1;
        }
        r
    }

    /// The Data attribute at one of the indices `find_datas` returned.
    pub fn data_at(&self, k: usize) -> (r: &MftAttributeContent)
        requires
            k < self.attributes@.len(),
            self.attributes@[k as int] is Data,
        ensures
            self.attributes@[k as int] == NtfsAttribute::Data(*r),
    {
        match &self.attributes[k] {
            NtfsAttribute::Data(c) => c,
            _ => {
                proof {
                    assert(false);
                }
                unreached()
            },
        }
    }

    /// Selects the display name among the FileName attributes: the first
    /// one seen, unless a later Win32 or DosWin32 name replaces it. The
    /// returned value is an equivalent copy of the attribute that
    /// `spec_selected_filename` picks.
    pub fn find_filename(&self) -> (r: Option<FileName>)
        ensures
            ({
                let sel = spec_selected_filename(self.attributes@, self.attributes@.len() as int);
                match r {
                    None => sel is None,
                    Some(f) => sel matches Some(i) && 0 <= i < self.attributes@.len() && (
                    self.attributes@[i] matches NtfsAttribute::FileName(f0)
                        && crate::attributes::filename::filename_equiv(f, f0)),
                }
            }),
    {
        let mut file_name: Option<FileName> = None;
        let mut i: usize = 0;
        while i < self.attributes.len()
            invariant
                i <= self.attributes@.len(),
                ({
                    let sel = spec_selected_filename(self.attributes@, i as int);
                    match file_name {
                        None => sel is None,
                        Some(f) => sel matches Some(k) && 0 <= k < i && (self.attributes@[k] matches
                            NtfsAttribute::FileName(f0)
                            && crate::attributes::filename::filename_equiv(f, f0)),
                    }
                }),
            decreases self.attributes@.len() - i,
        {
            match &self.attributes[i] {
                NtfsAttribute::FileName(f) => {
                    let take = match &file_name {
                        None => true,
                        Some(_) => f.name_space.is_preferred(),
                    };
                    if take {
                        file_name = Some(f.duplicate());
                    }
                },
                _ => {},
            }
            i = i + 1;
        }
        file_name
    }
}

/// What dispatching one content to its typed attribute yields. When the
/// content's stream cannot be materialized, nothing is produced. Otherwise
/// the stream is decoded by the attribute's type: a Data attribute passes
/// the content through whole, the typed decoders produce one attribute on
/// a well-formed stream and nothing otherwise, and attribute types without
/// a decoder produce nothing. An AttributeList resolves through other
/// entries, which this predicate does not constrain.
pub open spec fn spec_dispatch_ok(
    c: &MftAttributeContent,
    out: Seq<NtfsAttribute>,
) -> bool {
    match crate::attributecontent::spec_stream_of(c) {
        None => out == Seq::<NtfsAttribute>::empty(),
        Some(b) => match c.mft_attribute.type_id {
            NtfsAttributeType::StandardInformation => {
                if b.len() == 48 || b.len() == 72 {
                    out.len() == 1 && (out[0] matches NtfsAttribute::StandardInformation(si)
                        && crate::attributes::standard::spec_standard_core(b, si))
                } else {
                    out == Seq::<NtfsAttribute>::empty()
                }
            },
            NtfsAttributeType::FileName => {
                if b.len() >= 66 && crate::attributes::filename::spec_namespace_of(b[65]) is Some
                    && 66 + 2 * b[64] <= b.len() {
                    out.len() == 1 && (out[0] matches NtfsAttribute::FileName(f)
                        && crate::attributes::filename::spec_filename_fields(b, f))
                } else {
                    out == Seq::<NtfsAttribute>::empty()
                }
            },
            NtfsAttributeType::Data => out.len() == 1 && out[0] == NtfsAttribute::Data(*c),
            NtfsAttributeType::VolumeName => {
                if b.len() <= usize::MAX {
                    out.len() == 1 && (out[0] matches NtfsAttribute::VolumeName(vn) && vn.name@
                        == crate::text::utf16_chars(crate::bytes::spec_utf16_units(b)))
                } else {
                    out == Seq::<NtfsAttribute>::empty()
                }
            },
            NtfsAttributeType::VolumeInformation => {
                if b.len() >= 12 {
                    out.len() == 1 && (out[0] matches NtfsAttribute::VolumeInformation(vi)
                        && vi.major == b[8] && vi.minor == b[9])
                } else {
                    out == Seq::<NtfsAttribute>::empty()
                }
            },
            NtfsAttributeType::AttributeList => true,
            _ => out == Seq::<NtfsAttribute>::empty(),
        },
    }
}

/// Whether an attribute is a FileName in a preferred namespace.
pub open spec fn spec_is_pref_filename(a: NtfsAttribute) -> bool {
    a matches NtfsAttribute::FileName(f) && spec_preferred(f.name_space)
}

/// Namespace preference of the selected display name: whatever order the
/// FileName attributes come in, the scan picks a Win32 or DosWin32 name
/// whenever one exists, picks nothing only when there is no FileName at
/// all, and otherwise picks the first FileName encountered.
pub proof fn lemma_filename_namespace_preference(attrs: Seq<NtfsAttribute>, n: int)
    requires
        0 <= n <= attrs.len(),
    ensures
        spec_selected_filename(attrs, n) matches Some(j) ==> 0 <= j < n && attrs[j]
            is FileName,
        (exists|i: int| 0 <= i < n && spec_is_pref_filename(#[trigger] attrs[i])) ==> (
        spec_selected_filename(attrs, n) matches Some(j) && spec_is_pref_filename(attrs[j])),
        (forall|i: int| 0 <= i < n ==> !((#[trigger] attrs[i]) is FileName))
            ==> spec_selected_filename(attrs, n) is None,
        spec_selected_filename(attrs, n) is None ==> (forall|i: int|
            0 <= i < n ==> !((#[trigger] attrs[i]) is FileName)),
        (forall|i: int| 0 <= i < n ==> !spec_is_pref_filename(#[trigger] attrs[i])) ==> (
        spec_selected_filename(attrs, n) matches Some(j) ==> (attrs[j] is FileName && forall|i: int|
            0 <= i < j ==> !((#[trigger] attrs[i]) is FileName))),
    decreases n,
{
    if n > 0 {
        lemma_filename_namespace_preference(attrs, n - 1);
        if exists|i: int| 0 <= i < n && spec_is_pref_filename(#[trigger] attrs[i]) {
            let w = choose|i: int| 0 <= i < n && spec_is_pref_filename(#[trigger] attrs[i]);
            if w < n - 1 {
                assert(0 <= w < n - 1 && spec_is_pref_filename(attrs[w]));
                assert(exists|i: int| 0 <= i < n - 1 && spec_is_pref_filename(#[trigger] attrs[i]));
            }
        }
    }
}

/// Round trip: every known code decodes to the type that encodes back to it,
/// and every type's code decodes to that type.
pub proof fn lemma_attribute_type_round_trip()
    ensures
        forall|t: NtfsAttributeType| spec_attribute_type_of(spec_attribute_type_code(t)) == Some(t),
        forall|raw: u32|
            #[trigger] spec_attribute_type_of(raw) matches Some(t) ==> spec_attribute_type_code(t)
                == raw,
{
}

} // verus!
