//! The parser's top level: walking every MFT entry into file nodes and
//! linking the nodes into a tree.
//!
//! The tree itself lives in the host application; the library computes the
//! nodes and a list of link actions — attach under the NTFS root, under a
//! parent entry's first node, or under the orphan node — that the host
//! replays against its tree.

use vstd::prelude::*;
use vstd::string::StringExecFns;

use crate::attributes::filename::filename_equiv;
use crate::attributes::filename::FileName;
use crate::attributes::standard::StandardInformation;
use crate::bootsector::BootSector;
use crate::error::NtfsError;
use crate::mft::MftEntries;
use crate::mftentry::MftEntry;
use crate::text::dec_chars;
use crate::text::u64_to_dec;
use crate::vfile::VFile;

verus! {

/// Where one node is attached.
#[derive(Debug, Clone, Copy, PartialEq, Eq, Structural)]
pub enum LinkTarget {
    /// Under the volume's root node.
    NtfsRoot,
    /// Under the orphan node: the parent is missing or the link loops.
    Orphan,
    /// Under the first node of the named entry.
    Under(usize),
}

/// One attachment: node `child` goes under `target`.
#[derive(Debug, Clone, Copy, PartialEq, Eq, Structural)]
pub struct LinkAction {
    pub child: usize,
    pub target: LinkTarget,
}

/// One created node of an entry: the parent entry id its FileName names,
/// if any and not the entry itself, and the node's handle.
#[derive(Debug, Clone, Copy, PartialEq, Eq, Structural)]
pub struct NodeRef {
    pub parent_id: Option<u64>,
    pub node: usize,
}

/// The nodes created for one MFT entry.
#[derive(Debug)]
pub struct NodeGroup {
    pub entry_id: u64,
    pub nodes: Vec<NodeRef>,
}

/// The parsed metadata a node carries.
#[derive(Debug)]
pub struct NtfsNodeAttribute {
    pub standard_information: Option<StandardInformation>,
    pub file_name: Option<FileName>,
    pub is_deleted: bool,
}

/// Equivalent node metadata: equal fields, names compared by characters.
pub open spec fn node_attribute_equiv(a: &NtfsNodeAttribute, b: &NtfsNodeAttribute) -> bool {
    &&& a.standard_information == b.standard_information
    &&& (a.file_name is Some <==> b.file_name is Some)
    &&& (a.file_name matches Some(af) ==> (b.file_name matches Some(bf) && filename_equiv(af, bf)))
    &&& a.is_deleted == b.is_deleted
}

impl NtfsNodeAttribute {
    /// An equivalent copy.
    pub fn duplicate(&self) -> (r: NtfsNodeAttribute)
        ensures
            node_attribute_equiv(&r, self),
    {
        NtfsNodeAttribute {
            standard_information: self.standard_information,
            file_name: match &self.file_name {
                Some(f) => Some(f.duplicate()),
                None => None,
            },
            is_deleted: self.is_deleted,
        }
    }
}

/// One file node: its display name, its metadata, and its data stream if
/// the entry carried one.
#[derive(Debug)]
pub struct NtfsNode {
    pub name: String,
    pub attributes: NtfsNodeAttribute,
    pub data: Option<VFile>,
}

/// The display name and FileName snapshot an entry's decoded attributes
/// select: entry 5 is "root" with no snapshot; otherwise the
/// namespace-preferred FileName gives both, and an entry without one is
/// named "Unknown_" followed by its number.
pub open spec fn spec_base_name_ok(
    entry_id: u64,
    attrs: Seq<crate::ntfsattributes::NtfsAttribute>,
    base: Seq<char>,
    fname: Option<FileName>,
) -> bool {
    if entry_id == 5 {
        base == "root"@ && fname is None
    } else {
        match crate::ntfsattributes::spec_selected_filename(attrs, attrs.len() as int) {
            Some(i) => (attrs[i] matches crate::ntfsattributes::NtfsAttribute::FileName(f) && (
            fname matches Some(g) && filename_equiv(g, f)) && base == f.file_name@),
            None => base == "Unknown_"@ + dec_chars(entry_id as int) && fname is None,
        }
    }
}

/// `datas` lists exactly the indices of the Data attributes of `attrs`,
/// in order.
pub open spec fn spec_data_indices_ok(
    attrs: Seq<crate::ntfsattributes::NtfsAttribute>,
    datas: Seq<usize>,
) -> bool {
    &&& forall|k: int|
        0 <= k < datas.len() ==> (#[trigger] datas[k]) < attrs.len() && attrs[datas[k] as int]
            is Data
    &&& forall|j: int|
        0 <= j < attrs.len() && (#[trigger] attrs[j]) is Data ==> exists|k: int|
            0 <= k < datas.len() && (#[trigger] datas[k]) == j
    &&& forall|k: int, k2: int| 0 <= k < k2 < datas.len() ==> datas[k] < datas[k2]
}

/// The metadata every node of the entry carries: the deleted flag, the
/// first StandardInformation, and the selected FileName snapshot.
pub open spec fn spec_node_meta(
    node: &NtfsNode,
    attrs: Seq<crate::ntfsattributes::NtfsAttribute>,
    deleted: bool,
    fname: Option<FileName>,
) -> bool {
    &&& node.attributes.is_deleted == deleted
    &&& node.attributes.standard_information == (if crate::ntfsattributes::spec_standard_infos(
        attrs,
    ).len() > 0 {
        Some(crate::ntfsattributes::spec_standard_infos(attrs)[0])
    } else {
        None::<StandardInformation>
    })
    &&& (node.attributes.file_name is Some <==> fname is Some)
    &&& (fname matches Some(f) ==> (node.attributes.file_name matches Some(g) && filename_equiv(
        g,
        f,
    )))
}

/// The name and stream of the node for Data attribute `attrs[di]`: the
/// base name, extended by ":" and the attribute's name when it has one,
/// and the attribute's stream when it materializes.
pub open spec fn spec_data_node_ok(
    node: &NtfsNode,
    attrs: Seq<crate::ntfsattributes::NtfsAttribute>,
    di: int,
    base: Seq<char>,
) -> bool {
    attrs[di] matches crate::ntfsattributes::NtfsAttribute::Data(c) && {
        &&& (match c.mft_attribute.name {
            Some(nm) => node.name@ == base + ":"@ + nm@,
            None => node.name@ == base,
        })
        &&& (match crate::attributecontent::spec_stream_of(&c) {
            Some(b) => node.data matches Some(vf) && vf@ == b,
            None => node.data is None,
        })
    }
}

/// The shape of an entry's nodes: one base-named node with no stream when
/// there is no Data attribute, else one node per Data attribute in order;
/// every node carries the shared metadata.
pub open spec fn spec_nodes_shape(
    nodes: Seq<NtfsNode>,
    attrs: Seq<crate::ntfsattributes::NtfsAttribute>,
    datas: Seq<usize>,
    base: Seq<char>,
    fname: Option<FileName>,
    deleted: bool,
) -> bool {
    if datas.len() == 0 {
        &&& nodes.len() == 1
        &&& nodes[0].name@ == base
        &&& nodes[0].data is None
        &&& spec_node_meta(&nodes[0], attrs, deleted, fname)
    } else {
        &&& nodes.len() == datas.len()
        &&& forall|k: int|
            #![trigger nodes[k]]
            0 <= k < nodes.len() ==> spec_node_meta(&nodes[k], attrs, deleted, fname)
                && spec_data_node_ok(&nodes[k], attrs, datas[k] as int, base)
    }
}

/// What deriving one entry's nodes yields: for some decoding of the
/// entry's attribute stream, the nodes have the shape of that decoding —
/// one node per Data attribute (or a single streamless node), named by
/// the selected display name with the alternate-data-stream convention,
/// carrying the shared snapshots and the entry's deleted flag.
pub open spec fn spec_entry_nodes(
    t: &MftEntries,
    entry_id: u64,
    entry: &MftEntry,
    nodes: Seq<NtfsNode>,
) -> bool {
    exists|
        attrs: Seq<crate::ntfsattributes::NtfsAttribute>,
        cs: Seq<crate::attributecontent::MftAttributeContent>,
        datas: Seq<usize>,
        base: Seq<char>,
        fname: Option<FileName>,
    |
        #![trigger crate::mftentry::spec_dispatched_all(cs, attrs), spec_data_indices_ok(attrs, datas), spec_base_name_ok(entry_id, attrs, base, fname)]
        {
            &&& crate::mftentry::spec_dispatched_all(cs, attrs)
            &&& crate::mftentry::spec_dispatched_all_with(Some(t), cs, attrs)
            &&& crate::mftentry::spec_contents_prefix(entry, entry.spec_entry_bytes(), cs)
            &&& crate::mftentry::spec_contents_stop(entry, entry.spec_entry_bytes(), cs)
            &&& spec_data_indices_ok(attrs, datas)
            &&& spec_base_name_ok(entry_id, attrs, base, fname)
            &&& spec_nodes_shape(nodes, attrs, datas, base, fname, entry.flags & 1 == 0)
        }
}

impl NtfsNode {
    /// Derives the nodes of one entry. Entry 5 is named "root"; otherwise
    /// the name comes from the selected FileName attribute, or reads
    /// "Unknown_" followed by the entry number. An entry without Data
    /// attributes yields one nameless-data node; otherwise one node per
    /// Data attribute, an unnamed one under the base name and each named
    /// one under "base:stream" — the alternate-data-stream convention.
    /// Every node is deleted exactly when the entry's in-use flag is
    /// clear.
    pub fn from_entry(entry_id: u64, entry: &MftEntry, entries: &MftEntries) -> (r: Vec<NtfsNode>)
        requires
            entry.wf(),
            entries.wf(),
        ensures
            r@.len() >= 1,
            forall|k: int|
                0 <= k < r@.len() ==> (#[trigger] r@[k]).attributes.is_deleted == (entry.flags & 1
                    == 0),
            entry_id == 5 ==> forall|k: int|
                0 <= k < r@.len() ==> (#[trigger] r@[k]).attributes.file_name is None,
            spec_entry_nodes(entries, entry_id, entry, r@),
    {
        let is_deleted = !entry.is_used();
        let attrs = entry.read_attributes(Some(entries));
        let ghost gattrs = attrs.attributes@;
        let ghost gcs = choose|cs: Seq<crate::attributecontent::MftAttributeContent>|
            crate::mftentry::spec_contents_prefix(entry, entry.spec_entry_bytes(), cs)
                && crate::mftentry::spec_contents_stop(entry, entry.spec_entry_bytes(), cs)
                && #[trigger] crate::mftentry::spec_dispatched_all(cs, gattrs)
                && crate::mftentry::spec_dispatched_all_with(Some(entries), cs, gattrs);
        let datas = attrs.find_datas();
        let ghost gdatas = datas@;
        proof {
            assert(crate::mftentry::spec_contents_prefix(entry, entry.spec_entry_bytes(), gcs)
                && crate::mftentry::spec_contents_stop(entry, entry.spec_entry_bytes(), gcs)
                && crate::mftentry::spec_dispatched_all(gcs, gattrs)
                && crate::mftentry::spec_dispatched_all_with(Some(entries), gcs, gattrs));
            assert(spec_data_indices_ok(gattrs, gdatas));
        }
        let standard_information = {
            let infos = attrs.find_standard_info();
            if infos.len() > 0 {
                Some(infos[0])
            } else {
                None
            }
        };

        let name: String;
        let file_name: Option<FileName>;
        if entry_id == 5 {
            name = String::from_str("root");
            file_name = None;
        } else {
            match attrs.find_filename() {
                Some(f) => {
                    name = f.file_name.clone();
                    file_name = Some(f);
                },
                None => {
                    name = String::from_str("Unknown_").concat(u64_to_dec(entry_id).as_str());
                    file_name = None;
                },
            }
        }
        let ghost gbase = name@;
        let ghost gfname = file_name;
        proof {
            assert(spec_base_name_ok(entry_id, gattrs, gbase, gfname));
        }

        let attributes = NtfsNodeAttribute { standard_information, file_name, is_deleted };

        if datas.len() == 0 {
            let mut r: Vec<NtfsNode> = Vec::new();
            r.push(NtfsNode { name, attributes, data: None });
            proof {
                assert(spec_nodes_shape(r@, gattrs, gdatas, gbase, gfname, entry.flags & 1 == 0));
                assert(spec_entry_nodes(entries, entry_id, entry, r@));
            }
            return r;
        }

        let mut nodes: Vec<NtfsNode> = Vec::new();
        let mut k: usize = 0;
        while k < datas.len()
            invariant
                k <= datas@.len(),
                nodes@.len() == k,
                gattrs == attrs.attributes@,
                gdatas == datas@,
                gbase == name@,
                gfname == attributes.file_name,
                attributes.is_deleted == is_deleted,
                is_deleted == (entry.flags & 1 == 0),
                spec_base_name_ok(entry_id, gattrs, gbase, gfname),
                spec_data_indices_ok(gattrs, gdatas),
                crate::mftentry::spec_contents_prefix(entry, entry.spec_entry_bytes(), gcs),
                crate::mftentry::spec_contents_stop(entry, entry.spec_entry_bytes(), gcs),
                crate::mftentry::spec_dispatched_all(gcs, gattrs),
                crate::mftentry::spec_dispatched_all_with(Some(entries), gcs, gattrs),
                attributes.standard_information == (if crate::ntfsattributes::spec_standard_infos(
                    gattrs,
                ).len() > 0 {
                    Some(crate::ntfsattributes::spec_standard_infos(gattrs)[0])
                } else {
                    None::<StandardInformation>
                }),
                forall|j: int|
                    0 <= j < datas@.len() ==> (#[trigger] datas@[j]) < attrs.attributes@.len()
                        && attrs.attributes@[datas@[j] as int] is Data,
                forall|j: int|
                    0 <= j < attrs.attributes@.len() ==> ((#[trigger] attrs.attributes@[j]) matches
                        crate::ntfsattributes::NtfsAttribute::Data(c) ==> c.wf()),
                forall|j: int|
                    #![trigger nodes@[j]]
                    0 <= j < nodes@.len() ==> spec_node_meta(&nodes@[j], gattrs, is_deleted, gfname)
                        && spec_data_node_ok(&nodes@[j], gattrs, gdatas[j] as int, gbase),
                entry_id == 5 ==> attributes.file_name is None,
            decreases datas@.len() - k,
        {
            let data = attrs.data_at(datas[k]);
            let builder = match data.builder() {
                Ok(vf) => {
                    proof {
                        assert(crate::attributecontent::spec_stream_of(data) == Some(vf@));
                    }
                    Some(vf)
                },
                Err(_) => {
                    proof {
                        assert(crate::attributecontent::spec_stream_of(data) is None);
                    }
                    None
                },
            };
            let stream_name = match &data.mft_attribute.name {
                Some(data_name) => name.clone().concat(":").concat(data_name.as_str()),
                None => name.clone(),
            };
            let ghost pre = nodes@;
            nodes.push(
                NtfsNode {
                    name: stream_name,
                    attributes: attributes.duplicate(),
                    data: builder,
                },
            );
            proof {
                assert(forall|j: int| 0 <= j < pre.len() ==> #[trigger] nodes@[j] == pre[j]);
                assert(spec_node_meta(&nodes@[k as int], gattrs, is_deleted, gfname));
                assert(spec_data_node_ok(&nodes@[k as int], gattrs, gdatas[k as int] as int, gbase));
            }
            k = k + 1;
        }
        proof {
            assert(spec_nodes_shape(nodes@, gattrs, gdatas, gbase, gfname, entry.flags & 1 == 0));
            assert(spec_entry_nodes(entries, entry_id, entry, nodes@));
            assert forall|j: int| 0 <= j < nodes@.len() implies (#[trigger] nodes@[j]).attributes.is_deleted
                == (entry.flags & 1 == 0) by {
                assert(spec_node_meta(&nodes@[j], gattrs, is_deleted, gfname));
            }
            if entry_id == 5 {
                assert forall|j: int|
                    0 <= j < nodes@.len() implies (#[trigger] nodes@[j]).attributes.file_name
                    is None by {
                    assert(spec_node_meta(&nodes@[j], gattrs, is_deleted, gfname));
                }
            }
        }
        nodes
    }
}

/// The group that holds `id`, scanned from the back (keys are unique in a
/// well-formed table, so at most one matches).
pub open spec fn spec_find_group(groups: Seq<NodeGroup>, id: int) -> Option<int>
    decreases groups.len(),
{
    if groups.len() == 0 {
        None
    } else if groups.last().entry_id == id {
        Some(groups.len() - 1)
    } else {
        spec_find_group(groups.drop_last(), id)
    }
}

/// The attachment of one node: no parent means orphan; a parent attaches
/// under the parent entry's first node unless that would loop back to the
/// node itself or the parent entry is absent or empty.
pub open spec fn spec_action_for(groups: Seq<NodeGroup>, nr: NodeRef) -> LinkAction {
    match nr.parent_id {
        None => LinkAction { child: nr.node, target: LinkTarget::Orphan },
        Some(p) => match spec_find_group(groups, p as int) {
            Some(gi) => {
                if groups[gi].nodes@.len() > 0 && groups[gi].nodes@[0].node != nr.node {
                    LinkAction { child: nr.node, target: LinkTarget::Under(groups[gi].nodes@[0].node) }
                } else {
                    LinkAction { child: nr.node, target: LinkTarget::Orphan }
                }
            },
            None => LinkAction { child: nr.node, target: LinkTarget::Orphan },
        },
    }
}

/// The actions of the first `k` nodes of a non-root group.
pub open spec fn spec_node_actions(groups: Seq<NodeGroup>, g: &NodeGroup, k: nat) -> Seq<LinkAction>
    decreases k,
{
    if k == 0 {
        Seq::empty()
    } else {
        spec_node_actions(groups, g, (k - 1) as nat).push(
            spec_action_for(groups, g.nodes@[k - 1]),
        )
    }
}

/// The actions of one group: entry 5 attaches its first node under the
/// NTFS root once; every node of any other entry is attached per
/// `spec_action_for`.
pub open spec fn spec_group_actions(groups: Seq<NodeGroup>, g: &NodeGroup) -> Seq<LinkAction> {
    if g.entry_id == 5 {
        if g.nodes@.len() > 0 {
            seq![LinkAction { child: g.nodes@[0].node, target: LinkTarget::NtfsRoot }]
        } else {
            Seq::empty()
        }
    } else {
        spec_node_actions(groups, g, g.nodes@.len() as nat)
    }
}

/// The actions of the first `n` groups, in order.
pub open spec fn spec_link_actions(groups: Seq<NodeGroup>, n: nat) -> Seq<LinkAction>
    decreases n,
{
    if n == 0 {
        Seq::empty()
    } else {
        spec_link_actions(groups, (n - 1) as nat) + spec_group_actions(groups, &groups[n - 1])
    }
}

/// The recorded parents of a group's nodes follow the nodes' FileName
/// snapshots — a parent naming the group's own entry is dropped — and the
/// group's handles are consecutive indices into the node list.
pub open spec fn spec_group_records_ok(g: &NodeGroup, out: Seq<NtfsNode>) -> bool {
    &&& g.nodes@.len() >= 1
    &&& forall|k: int|
        #![trigger g.nodes@[k]]
        0 <= k < g.nodes@.len() ==> {
            let nr = g.nodes@[k];
            &&& nr.node == g.nodes@[0].node + k
            &&& nr.node < out.len()
            &&& match out[nr.node as int].attributes.file_name {
                Some(f) => nr.parent_id == (if f.parent_mft_entry_id == g.entry_id {
                    None::<u64>
                } else {
                    Some(f.parent_mft_entry_id)
                }),
                None => nr.parent_id is None,
            }
        }
}

/// One recorded group is one readable entry's worth of nodes: the record
/// at the group's entry id parses against the cached MFT with the table's
/// geometry and sources, and the group's slice of the node list is what
/// deriving that entry yields.
pub open spec fn spec_group_entry_ok(
    t: &MftEntries,
    g: &NodeGroup,
    e: &MftEntry,
    out: Seq<NtfsNode>,
) -> bool {
    let off = g.entry_id * t.mft_record_size;
    &&& g.nodes@.len() >= 1
    &&& off <= u64::MAX
    &&& crate::mftentry::spec_record_parse_ok(
        t.master_mft_builder@,
        off as int,
        t.mft_record_size as int,
        t.sector_size as int,
    )
    &&& crate::mftentry::spec_entry_fields(t.master_mft_builder@, off as int, *e)
    &&& e.mft_builder@ == t.master_mft_builder@
    &&& e.record_size == t.mft_record_size
    &&& e.sector_size == t.sector_size
    &&& e.cluster_size == t.cluster_size
    &&& (e.partition_builder is Some <==> t.partition_builder is Some)
    &&& (t.partition_builder matches Some(p) ==> (e.partition_builder matches Some(q) && q@
        == p@))
    &&& (e.zero_builder is Some <==> t.zero_builder is Some)
    &&& spec_entry_nodes(
        t,
        g.entry_id,
        e,
        out.subrange(g.nodes@[0].node as int, g.nodes@[0].node + g.nodes@.len()),
    )
}

/// Some parsed entry stands behind the group.
pub open spec fn spec_group_model(t: &MftEntries, g: &NodeGroup, out: Seq<NtfsNode>) -> bool {
    exists|e: MftEntry| #[trigger] spec_group_entry_ok(t, g, &e, out)
}

/// Group facts survive appending nodes: handles and slices of an extended
/// node list read the same.
proof fn lemma_groups_grow(
    t: &MftEntries,
    groups: Seq<NodeGroup>,
    small: Seq<NtfsNode>,
    big: Seq<NtfsNode>,
)
    requires
        small.len() <= big.len(),
        forall|x: int| 0 <= x < small.len() ==> small[x] == #[trigger] big[x],
        forall|gi: int|
            0 <= gi < groups.len() ==> spec_group_records_ok(&(#[trigger] groups[gi]), small)
                && spec_group_model(t, &groups[gi], small),
    ensures
        forall|gi: int|
            0 <= gi < groups.len() ==> spec_group_records_ok(&(#[trigger] groups[gi]), big)
                && spec_group_model(t, &groups[gi], big),
{
    assert forall|gi: int|
        0 <= gi < groups.len() implies spec_group_records_ok(&(#[trigger] groups[gi]), big)
        && spec_group_model(t, &groups[gi], big) by {
        let g = groups[gi];
        assert(spec_group_records_ok(&g, small));
        assert forall|k: int| #![trigger g.nodes@[k]] 0 <= k < g.nodes@.len() implies {
            let nr = g.nodes@[k];
            &&& nr.node == g.nodes@[0].node + k
            &&& nr.node < big.len()
            &&& match big[nr.node as int].attributes.file_name {
                Some(f) => nr.parent_id == (if f.parent_mft_entry_id == g.entry_id {
                    None::<u64>
                } else {
                    Some(f.parent_mft_entry_id)
                }),
                None => nr.parent_id is None,
            }
        } by {
            assert(big[g.nodes@[k].node as int] == small[g.nodes@[k].node as int]);
        }
        let e0 = choose|e: MftEntry| #[trigger] spec_group_entry_ok(t, &g, &e, small);
        let a = g.nodes@[0].node as int;
        let b = g.nodes@[0].node + g.nodes@.len();
        assert(g.nodes@[g.nodes@.len() - 1].node < small.len());
        assert(big.subrange(a, b) =~= small.subrange(a, b));
        assert(spec_group_entry_ok(t, &g, &e0, big));
    }
}

/// The parser: the MFT table and the per-entry node records gathered while
/// creating nodes.
#[derive(Debug)]
pub struct Ntfs {
    pub mft_entries: MftEntries,
    pub nodes_ids: Vec<NodeGroup>,
}

impl Ntfs {
    /// The table is usable and the gathered groups are consistent: group
    /// keys strictly increase, and no node names its own entry as parent.
    pub open spec fn wf(&self) -> bool {
        &&& self.mft_entries.wf()
        &&& forall|i: int, j: int|
            0 <= i < j < self.nodes_ids@.len() ==> (#[trigger] self.nodes_ids@[i]).entry_id < (
            #[trigger] self.nodes_ids@[j]).entry_id
        &&& forall|i: int, k: int|
            0 <= i < self.nodes_ids@.len() && 0 <= k < (#[trigger] self.nodes_ids@[i]).nodes@.len()
                ==> ((#[trigger] self.nodes_ids@[i].nodes@[k]).parent_id matches Some(p) ==> p
                != self.nodes_ids@[i].entry_id)
    }

    /// Opens a volume: bootstraps the MFT table from the boot sector's
    /// geometry, carrying the table constructor's guarantees — entry 0
    /// parsed at the MFT start cluster, the MFT stream cached in memory,
    /// and the entry count derived from its size.
    pub fn from_partition(partition_builder: &VFile, boot_sector: &BootSector) -> (r: Result<
        Ntfs,
        NtfsError,
    >)
        requires
            partition_builder.wf(),
            boot_sector.bpb.bytes_per_sector > 2,
            boot_sector.mft_record_size + 64 <= usize::MAX,
        ensures
            r matches Ok(n) ==> {
                &&& n.wf()
                &&& n.nodes_ids@.len() == 0
                &&& n.mft_entries.mft_record_size == boot_sector.mft_record_size
                &&& n.mft_entries.sector_size == boot_sector.bpb.bytes_per_sector
                &&& n.mft_entries.cluster_size == Some(boot_sector.cluster_size)
                &&& (n.mft_entries.partition_builder matches Some(p) && p@ == partition_builder@)
                &&& (n.mft_entries.master_mft_entry matches Some(master) && {
                    &&& boot_sector.bpb.mft_logical_cluster_number * boot_sector.cluster_size
                        <= u64::MAX
                    &&& master.offset == boot_sector.bpb.mft_logical_cluster_number
                        * boot_sector.cluster_size
                    &&& crate::mftentry::spec_record_parse_ok(
                        partition_builder@,
                        master.offset as int,
                        boot_sector.mft_record_size as int,
                        boot_sector.bpb.bytes_per_sector as int,
                    )
                    &&& crate::mftentry::spec_entry_fields(
                        partition_builder@,
                        master.offset as int,
                        master,
                    )
                })
                &&& n.mft_entries.master_mft_builder@.len() <= usize::MAX
                &&& n.mft_entries.number_of_entry == n.mft_entries.master_mft_builder@.len() as int
                    / (boot_sector.mft_record_size as int)
            },
            boot_sector.mft_record_size == 0 ==> r == Err::<Ntfs, NtfsError>(
                NtfsError::MftRecordSize,
            ),
    {
        let mft_entries = match MftEntries::from_partition(
            partition_builder,
            boot_sector.bpb.mft_logical_cluster_number,
            boot_sector.cluster_size,
            boot_sector.bpb.bytes_per_sector,
            boot_sector.mft_record_size,
        ) {
            Ok(m) => m,
            Err(e) => {
                return Err(e);
            },
        };
        Ok(Ntfs { mft_entries, nodes_ids: Vec::new() })
    }

    /// Builds the parser from an already-extracted MFT stream, carrying
    /// the table constructor's guarantees: the given record size, or the
    /// allocated size entry 0 declares; a sector size defaulting to 512;
    /// and no volume sources.
    pub fn from_mft(
        master_mft_builder: &VFile,
        sector_size: Option<u16>,
        mft_record_size: Option<u32>,
    ) -> (r: Result<Ntfs, NtfsError>)
        requires
            master_mft_builder.wf(),
            sector_size matches Some(x) ==> x > 2,
        ensures
            r matches Ok(n) ==> {
                &&& n.wf()
                &&& n.nodes_ids@.len() == 0
                &&& n.mft_entries.partition_builder is None
                &&& n.mft_entries.cluster_size is None
                &&& n.mft_entries.mft_record_size == crate::mft::spec_record_size_choice(
                    master_mft_builder@,
                    mft_record_size,
                )
                &&& n.mft_entries.sector_size == crate::mft::spec_sector_size_choice(sector_size)
                &&& n.mft_entries.master_mft_builder@ == master_mft_builder@
                &&& n.mft_entries.number_of_entry == master_mft_builder@.len() as int
                    / (n.mft_entries.mft_record_size as int)
            },
    {
        let mft_entries = match MftEntries::from_master_mft(
            master_mft_builder,
            sector_size,
            mft_record_size,
        ) {
            Ok(m) => m,
            Err(e) => {
                return Err(e);
            },
        };
        Ok(Ntfs { mft_entries, nodes_ids: Vec::new() })
    }

    /// The node of the master MFT entry itself, when the table was
    /// bootstrapped from a volume: the first node entry 0 derives to.
    pub fn mft_node(&self) -> (r: Option<NtfsNode>)
        requires
            self.wf(),
        ensures
            r is Some <==> self.mft_entries.master_mft_entry is Some,
            (match (self.mft_entries.master_mft_entry, r) {
                (Some(master), Some(node)) => exists|nodes: Seq<NtfsNode>|
                    #[trigger] spec_entry_nodes(&self.mft_entries, 0, &master, nodes)
                        && nodes.len() >= 1 && node == nodes[0],
                (None, None) => true,
                _ => false,
            }),
    {
        self.mft_entries.master_mft()
    }

    /// Walks entries 1 up to the entry count (entry 0 is the MFT itself),
    /// derives each entry's nodes, and records, per entry, which parent
    /// each node links to — a self-referencing parent is dropped here, so
    /// the link pass sends such nodes to the orphan node. Returns the
    /// created nodes; a node's handle is its index in the returned list.
    /// Unreadable entries are skipped.
    pub fn create_nodes(&mut self) -> (r: Vec<NtfsNode>)
        requires
            old(self).wf(),
            old(self).nodes_ids@.len() == 0,
        ensures
            final(self).wf(),
            final(self).mft_entries == old(self).mft_entries,
            // Each recorded group belongs to one entry in 1..count, its
            // slice of the returned nodes is that entry's derivation, and
            // each node's recorded parent is its FileName's parent entry —
            // dropped when it names the entry itself, so self-parented
            // nodes later link under the orphan node.
            forall|gi: int|
                #![trigger final(self).nodes_ids@[gi]]
                0 <= gi < final(self).nodes_ids@.len() ==> {
                    let g = &final(self).nodes_ids@[gi];
                    &&& 1 <= g.entry_id < old(self).mft_entries.number_of_entry
                    &&& spec_group_records_ok(g, r@)
                    &&& spec_group_model(&old(self).mft_entries, g, r@)
                },
            // Every entry whose record parses got a group.
            forall|id: u64|
                1 <= id < old(self).mft_entries.number_of_entry && id
                    * old(self).mft_entries.mft_record_size <= u64::MAX
                    && #[trigger] crate::mftentry::spec_record_parse_ok(
                    old(self).mft_entries.master_mft_builder@,
                    (id * old(self).mft_entries.mft_record_size) as int,
                    old(self).mft_entries.mft_record_size as int,
                    old(self).mft_entries.sector_size as int,
                ) ==> exists|gi: int|
                    0 <= gi < final(self).nodes_ids@.len()
                        && (#[trigger] final(self).nodes_ids@[gi]).entry_id == id,
    {
        let count = self.mft_entries.count();
        let mut out: Vec<NtfsNode> = Vec::new();
        let mut i: u64 = 1;
        while i < count
            invariant
                self.wf(),
                self.mft_entries == old(self).mft_entries,
                count == self.mft_entries.number_of_entry,
                1 <= i,
                i <= count || count < 1,
                forall|gi: int|
                    #![trigger self.nodes_ids@[gi]]
                    0 <= gi < self.nodes_ids@.len() ==> {
                        let g = &self.nodes_ids@[gi];
                        &&& 1 <= g.entry_id < i
                        &&& g.entry_id < count
                        &&& spec_group_records_ok(g, out@)
                        &&& spec_group_model(&self.mft_entries, g, out@)
                    },
                forall|id: u64|
                    1 <= id < i && id * self.mft_entries.mft_record_size <= u64::MAX
                        && #[trigger] crate::mftentry::spec_record_parse_ok(
                        self.mft_entries.master_mft_builder@,
                        (id * self.mft_entries.mft_record_size) as int,
                        self.mft_entries.mft_record_size as int,
                        self.mft_entries.sector_size as int,
                    ) ==> exists|gi: int|
                        0 <= gi < self.nodes_ids@.len() && (#[trigger] self.nodes_ids@[gi]).entry_id
                            == id,
            decreases count - i,
        {
            let entry = match self.mft_entries.entry(i) {
                Ok(e) => e,
                Err(_) => {
                    i = i + 1;
                    continue ;
                },
            };
            let mut ntfs_nodes = NtfsNode::from_entry(i, &entry, &self.mft_entries);
            let ghost gnodes = ntfs_nodes@;
            let mut group: Vec<NodeRef> = Vec::new();
            let ghost pre_groups = self.nodes_ids@;
            let ghost pre_out = out@;
            while ntfs_nodes.len() > 0
                invariant
                    self.nodes_ids@ == pre_groups,
                    self.mft_entries == old(self).mft_entries,
                    gnodes.len() >= 1,
                    out@ == pre_out + gnodes.take(group@.len() as int),
                    ntfs_nodes@ == gnodes.skip(group@.len() as int),
                    group@.len() <= gnodes.len(),
                    forall|k: int|
                        #![trigger group@[k]]
                        0 <= k < group@.len() ==> {
                            let nr = group@[k];
                            &&& nr.node == pre_out.len() + k
                            &&& nr.node < out@.len()
                            &&& match out@[nr.node as int].attributes.file_name {
                                Some(f) => nr.parent_id == (if f.parent_mft_entry_id == i {
                                    None::<u64>
                                } else {
                                    Some(f.parent_mft_entry_id)
                                }),
                                None => nr.parent_id is None,
                            }
                        },
                decreases ntfs_nodes@.len(),
            {
                let node = ntfs_nodes.remove(0);
                let ghost gnode = node;
                let parent_id: Option<u64> = match &node.attributes.file_name {
                    Some(f) => {
                        if f.parent_mft_entry_id != i {
                            Some(f.parent_mft_entry_id)
                        } else {
                            None
                        }
                    },
                    None => None,
                };
                let handle = out.len();
                let ghost mid_out = out@;
                out.push(node);
                group.push(NodeRef { parent_id, node: handle });
                proof {
                    assert(forall|x: int| 0 <= x < mid_out.len() ==> #[trigger] out@[x] == mid_out[x]);
                    assert(out@[handle as int] == gnode);
                    assert(gnodes.skip(group@.len() - 1).remove(0) =~= gnodes.skip(
                        group@.len() as int,
                    ));
                    assert(gnode == gnodes[group@.len() - 1]);
                    assert(out@ =~= pre_out + gnodes.take(group@.len() as int));
                }
            }
            proof {
                assert(group@.len() == gnodes.len());
            }
            let ghost mid_groups = self.nodes_ids@;
            self.nodes_ids.push(NodeGroup { entry_id: i, nodes: group });
            proof {
                assert(forall|gi: int|
                    0 <= gi < pre_groups.len() ==> self.nodes_ids@[gi] == #[trigger] pre_groups[gi]);
                assert(forall|x: int| 0 <= x < pre_out.len() ==> pre_out[x] == #[trigger] out@[x]);
                lemma_groups_grow(&self.mft_entries, pre_groups, pre_out, out@);
                let g = &self.nodes_ids@[pre_groups.len() as int];
                assert(g.nodes@ == group@);
                assert(spec_group_records_ok(g, out@));
                assert(out@.subrange(pre_out.len() as int, pre_out.len() as int + gnodes.len() as int) =~= gnodes)
                    by {
                    assert(gnodes.take(gnodes.len() as int) =~= gnodes);
                }
                assert(g.nodes@[0].node == pre_out.len());
                assert(spec_group_entry_ok(&self.mft_entries, g, &entry, out@));
                assert(spec_group_model(&self.mft_entries, g, out@));
                // Older groups and parse-completeness carry over.
                assert forall|id: u64|
                    1 <= id < i + 1 && id * self.mft_entries.mft_record_size <= u64::MAX
                        && #[trigger] crate::mftentry::spec_record_parse_ok(
                        self.mft_entries.master_mft_builder@,
                        (id * self.mft_entries.mft_record_size) as int,
                        self.mft_entries.mft_record_size as int,
                        self.mft_entries.sector_size as int,
                    ) implies exists|gi: int|
                    0 <= gi < self.nodes_ids@.len() && (#[trigger] self.nodes_ids@[gi]).entry_id
                        == id by {
                    if id == i {
                        assert(self.nodes_ids@[pre_groups.len() as int].entry_id == id);
                    } else {
                        let gi0 = choose|gi: int|
                            0 <= gi < pre_groups.len() && (#[trigger] pre_groups[gi]).entry_id
                                == id;
                        assert(self.nodes_ids@[gi0].entry_id == id);
                    }
                }
            }
            i = i + 1;
        }
        out
    }

    /// Computes the attachment of every created node: entry 5's first node
    /// goes under the NTFS root; a node whose recorded parent entry is
    /// present attaches under that entry's first node, unless that node is
    /// itself; everything else goes under the orphan node.
    pub fn link_nodes(&self) -> (r: Vec<LinkAction>)
        requires
            self.wf(),
        ensures
            r@ == spec_link_actions(self.nodes_ids@, self.nodes_ids@.len() as nat),
    {
        let mut actions: Vec<LinkAction> = Vec::new();
        let mut gi: usize = 0;
        while gi < self.nodes_ids.len()
            invariant
                self.wf(),
                gi <= self.nodes_ids@.len(),
                actions@ == spec_link_actions(self.nodes_ids@, gi as nat),
            decreases self.nodes_ids@.len() - gi,
        {
            let group = &self.nodes_ids[gi];
            let ghost pre = actions@;
            if group.entry_id == 5 {
                if group.nodes.len() > 0 {
                    actions.push(
                        LinkAction { child: group.nodes[0].node, target: LinkTarget::NtfsRoot },
                    );
                }
                proof {
                    assert(actions@ =~= pre + spec_group_actions(
                        self.nodes_ids@,
                        &self.nodes_ids@[gi as int],
                    ));
                }
            } else {
                let mut k: usize = 0;
                while k < group.nodes.len()
                    invariant
                        self.wf(),
                        gi < self.nodes_ids@.len(),
                        *group == self.nodes_ids@[gi as int],
                        k <= group.nodes@.len(),
                        actions@ == pre + spec_node_actions(self.nodes_ids@, group, k as nat),
                    decreases group.nodes@.len() - k,
                {
                    let nr = group.nodes[k];
                    let action = match nr.parent_id {
                        None => LinkAction { child: nr.node, target: LinkTarget::Orphan },
                        Some(p) => {
                            match self.find_group(p) {
                                Some(pgi) => {
                                    let parent_nodes = &self.nodes_ids[pgi].nodes;
                                    if parent_nodes.len() > 0 && parent_nodes[0].node != nr.node {
                                        LinkAction {
                                            child: nr.node,
                                            target: LinkTarget::Under(parent_nodes[0].node),
                                        }
                                    } else {
                                        LinkAction { child: nr.node, target: LinkTarget::Orphan }
                                    }
                                },
                                None => LinkAction { child: nr.node, target: LinkTarget::Orphan },
                            }
                        },
                    };
                    actions.push(action);
                    proof {
                        assert(actions@ =~= pre + spec_node_actions(
                            self.nodes_ids@,
                            group,
                            (k + 1) as nat,
                        ));
                    }
                    k = k + 1;
                }
                proof {
                    assert(spec_node_actions(self.nodes_ids@, group, group.nodes@.len() as nat)
                        == spec_group_actions(self.nodes_ids@, &self.nodes_ids@[gi as int]));
                }
            }
            gi = gi + 1;
        }
        actions
    }

    /// Finds the group of an entry id, if one was recorded.
    fn find_group(&self, id: u64) -> (r: Option<usize>)
        ensures
            match r {
                Some(k) => k < self.nodes_ids@.len() && spec_find_group(self.nodes_ids@, id as int)
                    == Some(k as int),
                None => spec_find_group(self.nodes_ids@, id as int) is None,
            },
    {
        let mut k: usize = self.nodes_ids.len();
        proof {
            assert(self.nodes_ids@.take(self.nodes_ids@.len() as int) =~= self.nodes_ids@);
        }
        while k > 0
            invariant
                k <= self.nodes_ids@.len(),
                spec_find_group(self.nodes_ids@, id as int) == spec_find_group(
                    self.nodes_ids@.take(k as int),
                    id as int,
                ),
            decreases k,
        {
            k = k - 1;
            proof {
                assert(self.nodes_ids@.take(k + 1).drop_last() =~= self.nodes_ids@.take(k as int));
                assert(self.nodes_ids@.take(k + 1).last() == self.nodes_ids@[k as int]);
            }
            if self.nodes_ids[k].entry_id == id {
                return Some(k);
            }
        }
        None
    }

    /// Reserved for carving-based recovery of deleted records; currently a
    /// no-op.
    pub fn recovery(&self) {
    }
}

/// Tree linking: in the computed actions, entry 5's first node goes under
/// the NTFS root; every node whose recorded parent entry is present and
/// non-empty attaches under that entry's first node unless that node is
/// itself; a node with no recorded parent — including a self-parented one,
/// which node creation records as parentless — goes under the orphan node.
pub proof fn lemma_tree_linking(groups: Seq<NodeGroup>, gi: int, k: int)
    requires
        0 <= gi < groups.len(),
        0 <= k < groups[gi].nodes@.len(),
    ensures
        groups[gi].entry_id == 5 && k == 0 ==> spec_link_actions(groups, groups.len() as nat)
            .contains(
            LinkAction { child: groups[gi].nodes@[0].node, target: LinkTarget::NtfsRoot },
        ),
        groups[gi].entry_id != 5 ==> spec_link_actions(groups, groups.len() as nat).contains(
            spec_action_for(groups, groups[gi].nodes@[k]),
        ),
{
    lemma_link_actions_contain(groups, groups.len() as nat, gi, k);
}

proof fn lemma_link_actions_contain(groups: Seq<NodeGroup>, n: nat, gi: int, k: int)
    requires
        0 <= gi < n <= groups.len(),
        0 <= k < groups[gi].nodes@.len(),
    ensures
        groups[gi].entry_id == 5 && k == 0 ==> spec_link_actions(groups, n).contains(
            LinkAction { child: groups[gi].nodes@[0].node, target: LinkTarget::NtfsRoot },
        ),
        groups[gi].entry_id != 5 ==> spec_link_actions(groups, n).contains(
            spec_action_for(groups, groups[gi].nodes@[k]),
        ),
    decreases n,
{
    let whole = spec_link_actions(groups, n);
    let prefix = spec_link_actions(groups, (n - 1) as nat);
    if gi + 1 < n {
        lemma_link_actions_contain(groups, (n - 1) as nat, gi, k);
        assert forall|a: LinkAction| prefix.contains(a) implies whole.contains(a) by {
            let w = choose|w: int| 0 <= w < prefix.len() && prefix[w] == a;
            assert(whole[w] == a);
        }
    } else {
        let g = &groups[gi];
        if g.entry_id == 5 && k == 0 {
            assert(whole[prefix.len() as int] == LinkAction {
                child: g.nodes@[0].node,
                target: LinkTarget::NtfsRoot,
            });
        }
        if g.entry_id != 5 {
            lemma_node_actions_index(groups, g, g.nodes@.len() as nat, k);
            assert(whole[prefix.len() + k] == spec_action_for(groups, g.nodes@[k]));
        }
    }
}

proof fn lemma_node_actions_index(groups: Seq<NodeGroup>, g: &NodeGroup, m: nat, k: int)
    requires
        0 <= k < m <= g.nodes@.len(),
    ensures
        spec_node_actions(groups, g, m).len() == m,
        spec_node_actions(groups, g, m)[k] == spec_action_for(groups, g.nodes@[k]),
    decreases m,
{
    if m > 0 {
        if k < m - 1 {
            lemma_node_actions_index(groups, g, (m - 1) as nat, k);
        } else {
            lemma_node_actions_len(groups, g, (m - 1) as nat);
        }
    }
}

proof fn lemma_node_actions_len(groups: Seq<NodeGroup>, g: &NodeGroup, m: nat)
    ensures
        spec_node_actions(groups, g, m).len() == m,
    decreases m,
{
    if m > 0 {
        lemma_node_actions_len(groups, g, (m - 1) as nat);
    }
}

} // verus!
