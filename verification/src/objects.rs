//! The data model that a read walks: a node, its endpoints, their clusters,
//! and the attributes that a cluster declares.

use crate::encoder::{frame_ends, lemma_value_finished, AttrDataWriter, DATA_TAG};
use crate::error::Error;
use crate::tlv::{lemma_wrote_more, lemma_wrote_refused, wrote, TLVWriter, TagType, TlvElement};
use vstd::prelude::*;

verus! {

/// The id of the attribute that holds a cluster's feature map.
pub const FEATURE_MAP_ID: u16 = 0xFFFC;

/// The id of the attribute that lists the ids of a cluster's attributes.
pub const ATTRIBUTE_LIST_ID: u16 = 0xFFFB;

/// The lowest id of the attributes that every cluster has in common.
pub const SYSTEM_ATTR_MIN: u16 = 0xFFF8;

/// The context tag of the device type inside its structure.
pub const DEVICE_TYPE_TAG: u8 = 0;

/// The context tag of the revision inside a device type's structure.
pub const DEVICE_REVISION_TAG: u8 = 1;

/// Whether `attr_id` is an attribute that every cluster has in common, and
/// that is answered from the cluster's declaration.
pub open spec fn is_system_attr(attr_id: u16) -> bool {
    attr_id >= SYSTEM_ATTR_MIN
}

/// The values `values` as anonymous unsigned 16-bit elements.
pub open spec fn u16_items(values: Seq<u16>) -> Seq<TlvElement> {
    values.map_values(|v: u16| TlvElement::U16(TagType::Anonymous, v))
}

/// The values `values` as anonymous unsigned 32-bit elements.
pub open spec fn u32_items(values: Seq<u32>) -> Seq<TlvElement> {
    values.map_values(|v: u32| TlvElement::U32(TagType::Anonymous, v))
}

/// The device types `types` as anonymous structures, one after the other.
pub open spec fn device_type_items(types: Seq<DeviceType>) -> Seq<TlvElement> {
    types.flat_map(|t: DeviceType| t.tlv(TagType::Anonymous))
}

/// The array under `tag` that holds the elements `items`.
pub open spec fn array(tag: TagType, items: Seq<TlvElement>) -> Seq<TlvElement> {
    seq![TlvElement::ArrayStart(tag)] + items + seq![TlvElement::EndContainer]
}

/// The array of unsigned 16-bit values `values` under `tag`.
pub open spec fn u16_array(tag: TagType, values: Seq<u16>) -> Seq<TlvElement> {
    array(tag, u16_items(values))
}

/// The array of unsigned 32-bit values `values` under `tag`.
pub open spec fn u32_array(tag: TagType, values: Seq<u32>) -> Seq<TlvElement> {
    array(tag, u32_items(values))
}

/// The array of device types `types` under `tag`.
pub open spec fn device_type_array(tag: TagType, types: Seq<DeviceType>) -> Seq<TlvElement> {
    array(tag, device_type_items(types))
}

/// An array that was opened and filled with the first of its items is the
/// beginning of the whole array.
pub proof fn lemma_array_prefix(tag: TagType, done: Seq<TlvElement>, items: Seq<TlvElement>)
    requires
        done.is_prefix_of(items),
    ensures
        (seq![TlvElement::ArrayStart(tag)] + done).is_prefix_of(array(tag, items)),
        array(tag, items) == seq![TlvElement::ArrayStart(tag)] + items + seq![
            TlvElement::EndContainer,
        ],
{
}

/// No device types make no elements.
pub proof fn lemma_device_type_items_empty()
    ensures
        device_type_items(Seq::<DeviceType>::empty()) == Seq::<TlvElement>::empty(),
{
    let f = |t: DeviceType| t.tlv(TagType::Anonymous);
}

/// One more device type adds its structure behind the others.
pub proof fn lemma_device_type_items_push(types: Seq<DeviceType>, last: DeviceType)
    ensures
        device_type_items(types.push(last)) == device_type_items(types) + last.tlv(
            TagType::Anonymous,
        ),
{
    types.lemma_flat_map_push(|t: DeviceType| t.tlv(TagType::Anonymous), last);
}

/// The structures of the first device types begin the structures of them all.
pub proof fn lemma_device_type_items_prefix(first: Seq<DeviceType>, types: Seq<DeviceType>)
    requires
        first.is_prefix_of(types),
    ensures
        device_type_items(first).is_prefix_of(device_type_items(types)),
{
    let f = |t: DeviceType| t.tlv(TagType::Anonymous);
    let rest = types.skip(first.len() as int);
    assert(types.map_values(f) == first.map_values(f) + rest.map_values(f));
    vstd::seq_lib::lemma_flatten_concat(first.map_values(f), rest.map_values(f));
}

/// What kind of device an endpoint is.
#[derive(Clone, Copy, Debug, PartialEq, Eq, Hash)]
pub struct DeviceType {
    /// The device type.
    pub dtype: u16,
    /// The revision of the device type.
    pub drev: u16,
}

impl DeviceType {
    /// The structure that stands for this device type under `tag`.
    pub open spec fn tlv(self, tag: TagType) -> Seq<TlvElement> {
        seq![
            TlvElement::StructStart(tag),
            TlvElement::U16(TagType::Context(DEVICE_TYPE_TAG), self.dtype),
            TlvElement::U16(TagType::Context(DEVICE_REVISION_TAG), self.drev),
            TlvElement::EndContainer,
        ]
    }

    /// Writes this device type as one structure under `tag`.
    pub fn to_tlv(&self, tw: &mut TLVWriter, tag: TagType) -> (r: Result<(), Error>)
        ensures
            wrote(*old(tw), self.tlv(tag), r, *final(tw)),
    {
        let ghost start = *tw;
        let ghost whole = self.tlv(tag);
        let ghost e0 = seq![whole[0]];
        let ghost e1 = seq![whole[1]];
        let ghost e2 = seq![whole[2]];
        let ghost e3 = seq![whole[3]];
        proof {
            assert(e0 + e1 + e2 + e3 == whole);
        }
        let r = tw.start_struct(tag);
        if r.is_err() {
            proof {
                lemma_wrote_refused(start, e0, r, *tw, whole);
            }
            return r;
        }
        let ghost m1 = *tw;
        let r = tw.u16(TagType::Context(DEVICE_TYPE_TAG), self.dtype);
        proof {
            lemma_wrote_more(start, e0, m1, e1, r, *tw);
        }
        if r.is_err() {
            proof {
                lemma_wrote_refused(start, e0 + e1, r, *tw, whole);
            }
            return r;
        }
        let ghost m2 = *tw;
        let r = tw.u16(TagType::Context(DEVICE_REVISION_TAG), self.drev);
        proof {
            lemma_wrote_more(start, e0 + e1, m2, e2, r, *tw);
        }
        if r.is_err() {
            proof {
                lemma_wrote_refused(start, e0 + e1 + e2, r, *tw, whole);
            }
            return r;
        }
        let ghost m3 = *tw;
        let r = tw.end_container();
        proof {
            lemma_wrote_more(start, e0 + e1 + e2, m3, e3, r, *tw);
        }
        r
    }
}

/// What a requester may do with an attribute, and the privilege it needs.
#[derive(Clone, Copy, Debug, PartialEq, Eq, Hash)]
pub enum Access {
    /// Read with the view privilege.
    RV,
    /// Read with the view privilege, write with the manage privilege.
    RWVM,
    /// Read with the view privilege, write with the administer privilege.
    RWVA,
}

/// The qualities of an attribute beyond its access.
#[derive(Clone, Copy, Debug, PartialEq, Eq, Hash)]
#[allow(non_camel_case_types)]
pub enum Quality {
    /// No quality.
    NONE,
    /// The value never changes.
    FIXED,
    /// The value may be null.
    NULLABLE,
    /// The value survives a restart.
    PERSISTENT,
}

/// The declaration of one attribute of a cluster.
#[derive(Clone, Copy, Debug, PartialEq, Eq, Hash)]
pub struct Attribute {
    /// The id of the attribute.
    pub id: u16,
    /// Its qualities.
    pub quality: Quality,
    /// Who may read and write it.
    pub access: Access,
}

impl Attribute {
    /// The declaration of the attribute `id`.
    pub fn new(id: u16, access: Access, quality: Quality) -> (attribute: Attribute)
        ensures
            attribute == (Attribute { id, quality, access }),
    {
        Attribute { id, quality, access }
    }
}

/// The mathematical content of a cluster's declaration.
pub struct ClusterView {
    /// The id of the cluster.
    pub id: u32,
    /// The cluster's feature map.
    pub feature_map: u32,
    /// The ids of the attributes the cluster declares, in declaration order.
    pub attribute_ids: Seq<u16>,
}

impl ClusterView {
    /// The value of the system attribute `attr_id`: the feature map, or the
    /// list of the declared attribute ids. No other system attribute has a
    /// value.
    pub open spec fn system_value(self, attr_id: u16) -> Result<Seq<TlvElement>, Error> {
        if attr_id == FEATURE_MAP_ID {
            Ok(seq![TlvElement::U32(TagType::Context(DATA_TAG), self.feature_map)])
        } else if attr_id == ATTRIBUTE_LIST_ID {
            Ok(u16_array(TagType::Context(DATA_TAG), self.attribute_ids))
        } else {
            Err(Error::AttributeNotFound)
        }
    }
}

/// The declaration of a cluster: its identity and its attribute table.
#[derive(Debug, PartialEq, Eq)]
pub struct Cluster {
    /// The id of the cluster.
    pub id: u32,
    /// The cluster's feature map.
    pub feature_map: u32,
    /// The attributes the cluster declares.
    pub attributes: Vec<Attribute>,
    /// The ids of the commands the cluster accepts.
    pub commands: Vec<u32>,
}

impl View for Cluster {
    type V = ClusterView;

    open spec fn view(&self) -> ClusterView {
        ClusterView {
            id: self.id,
            feature_map: self.feature_map,
            attribute_ids: self.attributes@.map_values(|a: Attribute| a.id),
        }
    }
}

impl Cluster {
    /// Writes the ids of the declared attributes as one array under `tag`.
    pub fn encode_attribute_ids(&self, tag: TagType, tw: &mut TLVWriter) -> (r: Result<(), Error>)
        ensures
            wrote(*old(tw), u16_array(tag, self@.attribute_ids), r, *final(tw)),
    {
        let ghost start = *tw;
        let ghost ids = self@.attribute_ids;
        let ghost whole = u16_array(tag, ids);
        let ghost open = seq![TlvElement::ArrayStart(tag)];
        let r = tw.start_array(tag);
        if r.is_err() {
            proof {
                lemma_wrote_refused(start, open, r, *tw, whole);
            }
            return r;
        }
        let mut i: usize = 0;
        while i < self.attributes.len()
            invariant
                i <= self.attributes.len(),
                start == *old(tw),
                ids == self@.attribute_ids,
                whole == u16_array(tag, ids),
                open == seq![TlvElement::ArrayStart(tag)],
                wrote(start, open + u16_items(ids.take(i as int)), Ok(()), *tw),
            decreases self.attributes.len() - i,
        {
            let ghost done = open + u16_items(ids.take(i as int));
            let ghost item = seq![TlvElement::U16(TagType::Anonymous, ids[i as int])];
            let ghost between = *tw;
            let r = tw.u16(TagType::Anonymous, self.attributes[i].id);
            proof {
                assert(open + u16_items(ids.take(i + 1)) == done + item);
                lemma_wrote_more(start, done, between, item, r, *tw);
            }
            if r.is_err() {
                proof {
                    lemma_array_prefix(tag, u16_items(ids.take(i + 1)), u16_items(ids));
                    lemma_wrote_refused(start, done + item, r, *tw, whole);
                }
                return r;
            }
            i += 1;
        }
        let ghost done = open + u16_items(ids);
        let ghost between = *tw;
        let r = tw.end_container();
        proof {
            assert(ids.take(i as int) == ids);
            lemma_wrote_more(start, done, between, seq![TlvElement::EndContainer], r, *tw);
        }
        r
    }

    /// Answers a read of the system attribute `attr` from this declaration.
    ///
    /// The feature map and the attribute list have a value, which is written
    /// and the frame completed. Any other id ends the read with
    /// `AttributeNotFound`. A value that does not fit ends it with `NoSpace`.
    /// On every error the frame is given up.
    pub fn read(&self, attr: u16, writer: AttrDataWriter) -> (r: Result<(), Error>)
        requires
            writer.wf(),
        ensures
            frame_ends(
                *old(writer.tw),
                writer.anchor as nat,
                self@.system_value(attr),
                r,
                *final(writer.tw),
            ),
    {
        if attr == ATTRIBUTE_LIST_ID {
            let mut writer = writer;
            let ghost before = *writer.tw;
            let written = self.encode_attribute_ids(AttrDataWriter::tag(), writer.tw);
            let ghost between = *writer.tw;
            let r = writer.finish(written);
            proof {
                lemma_value_finished(
                    before,
                    writer.anchor as nat,
                    u16_array(TagType::Context(DATA_TAG), self@.attribute_ids),
                    written,
                    between,
                    r,
                    *final(writer.tw),
                );
            }
            r
        } else if attr == FEATURE_MAP_ID {
            writer.set(self.feature_map)
        } else {
            writer.reset();
            Err(Error::AttributeNotFound)
        }
    }
}

/// The mathematical content of an endpoint.
pub struct EndpointView {
    /// The id of the endpoint.
    pub id: u16,
    /// The device type of the endpoint.
    pub device_type: DeviceType,
    /// The ids of the clusters the endpoint hosts, in stored order.
    pub clusters: Seq<u32>,
}

/// One endpoint of a node.
#[derive(Debug, PartialEq, Eq)]
pub struct Endpoint {
    /// The id of the endpoint, unique within its node.
    pub id: u16,
    /// The device type of the endpoint.
    pub device_type: DeviceType,
    /// The clusters the endpoint hosts.
    pub clusters: Vec<Cluster>,
}

impl View for Endpoint {
    type V = EndpointView;

    open spec fn view(&self) -> EndpointView {
        EndpointView {
            id: self.id,
            device_type: self.device_type,
            clusters: self.clusters@.map_values(|c: Cluster| c.id),
        }
    }
}

/// The endpoints of one device.
#[derive(Debug, PartialEq, Eq)]
pub struct Node {
    /// The id of the node.
    pub id: u16,
    /// The endpoints of the node, in the order in which they are walked.
    pub endpoints: Vec<Endpoint>,
}

impl View for Node {
    type V = Seq<EndpointView>;

    open spec fn view(&self) -> Seq<EndpointView> {
        self.endpoints@.map_values(|e: Endpoint| e@)
    }
}

/// No two endpoints of `endpoints` have the same id.
pub open spec fn unique_ids(endpoints: Seq<EndpointView>) -> bool {
    forall|i: int, j: int|
        0 <= i < j < endpoints.len() ==> (#[trigger] endpoints[i]).id != (
        #[trigger] endpoints[j]).id
}

/// The request that a read answers.
pub struct AttrDetails<'a> {
    /// The node the request is about.
    pub node: &'a Node,
    /// The id of the endpoint the request is about.
    pub endpoint_id: u16,
    /// The id of the attribute that is read.
    pub attr_id: u16,
}

impl<'a> AttrDetails<'a> {
    /// Whether the request reads a system attribute.
    pub fn is_system(&self) -> (system: bool)
        ensures
            system == is_system_attr(self.attr_id),
    {
        self.attr_id >= SYSTEM_ATTR_MIN
    }
}

} // verus!
