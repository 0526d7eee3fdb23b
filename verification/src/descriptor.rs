//! The descriptor cluster: the policy that composes an endpoint's parts list,
//! and the handler that answers reads of the cluster's attributes.

use crate::dataver::{Dataver, DataverState};
use crate::encoder::{
    frame_written, lemma_frame_written, lemma_value_finished, AttrDataEncoder, AttrDataWriter,
    DATA_TAG,
};
use crate::error::Error;
use crate::lists::{
    client_list, device_type_list, lemma_device_type_list_step, lemma_parts_list_step,
    lemma_server_list_step, parts_list, server_list,
};
use crate::matcher::{policy_of, AggregatorPartsMatcher, PartsMatcher, StandardPartsMatcher};
use crate::objects::{
    device_type_array, device_type_items, is_system_attr, lemma_array_prefix,
    lemma_device_type_items_empty, lemma_device_type_items_prefix, lemma_device_type_items_push, u16_array, u16_items,
    u32_array, u32_items, Access, AttrDetails, Attribute, Cluster, ClusterView, EndpointView,
    Node, Quality, ATTRIBUTE_LIST_ID, FEATURE_MAP_ID,
};
use crate::tlv::{lemma_wrote_more, lemma_wrote_refused, wrote, TLVWriter, TagType, TlvElement};
use vstd::prelude::*;
use vstd::std_specs::convert::TryFromSpecImpl;

verus! {

/// The id of the descriptor cluster.
pub const ID: u32 = 0x001D;

/// The attributes of the descriptor cluster, in the order of their ids.
#[derive(Clone, Copy, Debug, PartialEq, Eq, Hash)]
pub enum Attributes {
    /// The device types of the endpoint.
    DeviceTypeList,
    /// The clusters the endpoint hosts as a server.
    ServerList,
    /// The clusters the endpoint hosts as a client.
    ClientList,
    /// The endpoints that make up the endpoint.
    PartsList,
}

impl Attributes {
    /// The attribute with the id `id`, if there is one.
    pub open spec fn spec_from_repr(id: u16) -> Option<Attributes> {
        if id == 0 {
            Some(Attributes::DeviceTypeList)
        } else if id == 1 {
            Some(Attributes::ServerList)
        } else if id == 2 {
            Some(Attributes::ClientList)
        } else if id == 3 {
            Some(Attributes::PartsList)
        } else {
            None
        }
    }

    /// The id of the attribute.
    pub open spec fn spec_repr(self) -> u16 {
        match self {
            Attributes::DeviceTypeList => 0,
            Attributes::ServerList => 1,
            Attributes::ClientList => 2,
            Attributes::PartsList => 3,
        }
    }

    /// The attribute with the id `id`, if there is one.
    #[verifier::when_used_as_spec(spec_from_repr)]
    pub fn from_repr(id: u16) -> (attribute: Option<Attributes>)
        ensures
            attribute == Attributes::spec_from_repr(id),
    {
        match id {
            0 => Some(Attributes::DeviceTypeList),
            1 => Some(Attributes::ServerList),
            2 => Some(Attributes::ClientList),
            3 => Some(Attributes::PartsList),
            _ => None,
        }
    }

    /// The id of the attribute.
    #[verifier::when_used_as_spec(spec_repr)]
    pub fn repr(self) -> (id: u16)
        ensures
            id == self.spec_repr(),
    {
        match self {
            Attributes::DeviceTypeList => 0,
            Attributes::ServerList => 1,
            Attributes::ClientList => 2,
            Attributes::PartsList => 3,
        }
    }
}

impl TryFrom<u16> for Attributes {
    type Error = Error;

    /// The attribute with the id `id`; an id that names none is refused with
    /// `AttributeNotFound`.
    fn try_from(id: u16) -> (r: Result<Attributes, Error>) {
        match Attributes::from_repr(id) {
            Some(attribute) => Ok(attribute),
            None => Err(Error::AttributeNotFound),
        }
    }
}

impl TryFromSpecImpl<u16> for Attributes {
    open spec fn obeys_try_from_spec() -> bool {
        true
    }

    open spec fn try_from_spec(id: u16) -> Result<Attributes, Error> {
        match Attributes::spec_from_repr(id) {
            Some(attribute) => Ok(attribute),
            None => Err(Error::AttributeNotFound),
        }
    }
}

/// Every attribute is found again by its id, and no other id names one.
pub proof fn lemma_attribute_ids(id: u16, attribute: Attributes)
    ensures
        Attributes::spec_from_repr(attribute.spec_repr()) == Some(attribute),
        Attributes::spec_from_repr(id) == Some(attribute) <==> id == attribute.spec_repr(),
        Attributes::spec_from_repr(id) is Some <==> id <= 3,
{
}

/// The content of the descriptor cluster's declaration: its id, an empty
/// feature map, and the ids of the attributes it answers.
pub open spec fn cluster_view() -> ClusterView {
    ClusterView {
        id: ID,
        feature_map: 0,
        attribute_ids: seq![
            FEATURE_MAP_ID,
            ATTRIBUTE_LIST_ID,
            Attributes::DeviceTypeList.spec_repr(),
            Attributes::ServerList.spec_repr(),
            Attributes::PartsList.spec_repr(),
            Attributes::ClientList.spec_repr(),
        ],
    }
}

/// The declaration of the descriptor cluster. Every attribute is read with
/// the view privilege and has no further quality; there are no commands.
pub fn cluster() -> (cluster: Cluster)
    ensures
        cluster@ == cluster_view(),
        forall|i: int|
            0 <= i < cluster.attributes@.len() ==> {
                &&& (#[trigger] cluster.attributes@[i]).access == Access::RV
                &&& cluster.attributes@[i].quality == Quality::NONE
            },
        cluster.commands@.len() == 0,
{
    let mut attributes: Vec<Attribute> = Vec::new();
    attributes.push(Attribute::new(FEATURE_MAP_ID, Access::RV, Quality::NONE));
    attributes.push(Attribute::new(ATTRIBUTE_LIST_ID, Access::RV, Quality::NONE));
    attributes.push(Attribute::new(Attributes::DeviceTypeList.repr(), Access::RV, Quality::NONE));
    attributes.push(Attribute::new(Attributes::ServerList.repr(), Access::RV, Quality::NONE));
    attributes.push(Attribute::new(Attributes::PartsList.repr(), Access::RV, Quality::NONE));
    attributes.push(Attribute::new(Attributes::ClientList.repr(), Access::RV, Quality::NONE));
    let cluster = Cluster { id: ID, feature_map: 0, attributes, commands: Vec::new() };
    assert(cluster@.attribute_ids == cluster_view().attribute_ids);
    cluster
}

/// The value of the attribute `attr_id` of the descriptor cluster for the
/// endpoint `endpoint_id` of `node`, as the array that a read writes under
/// the value's tag. An id that names none of the four attributes has no
/// value: it is refused with `AttributeNotFound`.
pub open spec fn attribute_value(
    policy: spec_fn(u16, u16) -> bool,
    node: Seq<EndpointView>,
    endpoint_id: u16,
    attr_id: u16,
) -> Result<Seq<TlvElement>, Error> {
    let tag = TagType::Context(DATA_TAG);
    match Attributes::spec_from_repr(attr_id) {
        Some(Attributes::DeviceTypeList) => Ok(
            device_type_array(tag, device_type_list(node, endpoint_id)),
        ),
        Some(Attributes::ServerList) => Ok(u32_array(tag, server_list(node, endpoint_id))),
        Some(Attributes::ClientList) => Ok(u32_array(tag, client_list(node, endpoint_id))),
        Some(Attributes::PartsList) => Ok(u16_array(tag, parts_list(policy, node, endpoint_id))),
        None => Err(Error::AttributeNotFound),
    }
}

/// What a read of the attribute `attr_id` is answered with: a system
/// attribute from the cluster's declaration alone, any other id by
/// `attribute_value`.
pub open spec fn answer(
    policy: spec_fn(u16, u16) -> bool,
    node: Seq<EndpointView>,
    endpoint_id: u16,
    attr_id: u16,
) -> Result<Seq<TlvElement>, Error> {
    if is_system_attr(attr_id) {
        cluster_view().system_value(attr_id)
    } else {
        attribute_value(policy, node, endpoint_id, attr_id)
    }
}

/// The handler of the descriptor cluster of one device.
pub struct DescriptorCluster<'a, M: PartsMatcher + ?Sized = dyn PartsMatcher + 'a> {
    matcher: &'a M,
    data_ver: Dataver,
}

impl DescriptorCluster<'static> {
    /// The handler of a flat device, with its data version starting at
    /// `dataver`.
    pub fn new(dataver: u32) -> (handler: DescriptorCluster<'static>)
        ensures
            handler.policy() == policy_of(&StandardPartsMatcher),
            handler.dataver() == (DataverState { version: dataver as nat, pending: false }),
    {
        let handler = Self::new_matching(&StandardPartsMatcher, dataver);
        handler
    }

    /// The handler of an aggregator, with its data version starting at
    /// `dataver`.
    pub fn new_aggregator(dataver: u32) -> (handler: DescriptorCluster<'static>)
        ensures
            handler.policy() == policy_of(&AggregatorPartsMatcher),
            handler.dataver() == (DataverState { version: dataver as nat, pending: false }),
    {
        let handler = Self::new_matching(&AggregatorPartsMatcher, dataver);
        handler
    }
}

impl<'a, M: PartsMatcher + ?Sized> DescriptorCluster<'a, M> {
    /// The policy that composes the parts lists.
    pub closed spec fn policy(&self) -> spec_fn(u16, u16) -> bool {
        policy_of(self.matcher)
    }

    /// The state of the data version.
    pub closed spec fn dataver(&self) -> DataverState {
        self.data_ver@
    }

    /// The data version that reads are gated by.
    pub open spec fn version(&self) -> u32 {
        self.dataver().version as u32
    }

    /// The data version is a 32-bit value.
    pub proof fn lemma_version_fits(&self)
        ensures
            self.dataver().version <= u32::MAX,
            self.version() == self.dataver().version,
    {
        self.data_ver.lemma_version_fits();
    }

    /// The handler that composes parts lists by `matcher`, with its data
    /// version starting at `dataver`.
    pub fn new_matching(matcher: &'a M, dataver: u32) -> (handler: DescriptorCluster<'a, M>)
        ensures
            handler.policy() == policy_of(matcher),
            handler.dataver() == (DataverState { version: dataver as nat, pending: false }),
    {
        DescriptorCluster { matcher, data_ver: Dataver::new(dataver) }
    }

    /// Answers one read.
    ///
    /// Where the requester already holds the current data version, nothing
    /// is written and the read succeeds. Otherwise the answer is one frame
    /// bound to the current data version, holding the value that `answer`
    /// gives for the request; where there is no such value, or the frame does
    /// not fit, the read fails and the output is left as it was.
    pub fn read(&self, attr: &AttrDetails, encoder: AttrDataEncoder) -> (r: Result<(), Error>)
        ensures
            encoder.skips(self.version()) ==> r == Ok::<(), Error>(())
                && *final(encoder.tw) == *old(encoder.tw),
            !encoder.skips(self.version()) ==> frame_written(
                *old(encoder.tw),
                self.version(),
                answer(self.policy(), attr.node@, attr.endpoint_id, attr.attr_id),
                r,
                *final(encoder.tw),
            ),
    {
        let dataver = self.data_ver.get();
        let ghost before = *encoder.tw;
        let ghost value = answer(self.policy(), attr.node@, attr.endpoint_id, attr.attr_id);
        let mut writer = match encoder.with_dataver(dataver) {
            Ok(Some(writer)) => writer,
            Ok(None) => {
                return Ok(());
            },
            Err(e) => {
                return Err(e);
            },
        };
        let ghost opened = *writer.tw;
        let ghost anchor = writer.anchor as nat;
        if attr.is_system() {
            let r = cluster().read(attr.attr_id, writer);
            proof {
                lemma_frame_written(before, dataver, opened, value, r, *final(writer.tw));
            }
            return r;
        }
        let attribute = match Attributes::try_from(attr.attr_id) {
            Ok(attribute) => attribute,
            Err(e) => {
                writer.reset();
                proof {
                    lemma_frame_written(before, dataver, opened, value, Err(e), *final(writer.tw));
                }
                return Err(e);
            },
        };
        let tag = AttrDataWriter::tag();
        let written = match attribute {
            Attributes::DeviceTypeList => self.encode_devtype_list(
                attr.node,
                attr.endpoint_id,
                tag,
                writer.tw,
            ),
            Attributes::ServerList => self.encode_server_list(
                attr.node,
                attr.endpoint_id,
                tag,
                writer.tw,
            ),
            Attributes::PartsList => self.encode_parts_list(
                attr.node,
                attr.endpoint_id,
                tag,
                writer.tw,
            ),
            Attributes::ClientList => self.encode_client_list(
                attr.node,
                attr.endpoint_id,
                tag,
                writer.tw,
            ),
        };
        let ghost between = *writer.tw;
        let r = writer.finish(written);
        proof {
            lemma_value_finished(
                opened,
                anchor,
                value->Ok_0,
                written,
                between,
                r,
                *final(writer.tw),
            );
            lemma_frame_written(before, dataver, opened, value, r, *final(writer.tw));
        }
        r
    }

    /// The data version that reads are gated by.
    pub fn current_version(&self) -> (ver: u32)
        ensures
            ver == self.version(),
    {
        self.data_ver.get()
    }

    /// Records a change to what the cluster exposes: the data version
    /// advances by one and the change signal is set. Returns the new version.
    pub fn changed(&mut self) -> (ver: u32)
        requires
            old(self).dataver().version < u32::MAX,
        ensures
            final(self).dataver() == old(self).dataver().changed(),
            final(self).policy() == old(self).policy(),
            ver == final(self).dataver().version,
    {
        self.data_ver.changed()
    }

    /// Hands out the change signal if a change is pending, and clears it.
    pub fn consume_change(&mut self) -> (signal: Option<()>)
        ensures
            final(self).dataver() == old(self).dataver().consumed(),
            final(self).policy() == old(self).policy(),
            signal is Some <==> old(self).dataver().pending,
    {
        self.data_ver.consume_change(())
    }
}

impl<'a, M: PartsMatcher + ?Sized> DescriptorCluster<'a, M> {
    /// Writes the parts of the endpoint `endpoint_id` as one array of
    /// unsigned 16-bit endpoint ids under `tag`.
    pub fn encode_parts_list(
        &self,
        node: &Node,
        endpoint_id: u16,
        tag: TagType,
        tw: &mut TLVWriter,
    ) -> (r: Result<(), Error>)
        ensures
            wrote(
                *old(tw),
                u16_array(tag, parts_list(self.policy(), node@, endpoint_id)),
                r,
                *final(tw),
            ),
    {
        let ghost start = *tw;
        let ghost policy = self.policy();
        let ghost all = parts_list(policy, node@, endpoint_id);
        let ghost whole = u16_array(tag, all);
        let ghost open = seq![TlvElement::ArrayStart(tag)];
        let r = tw.start_array(tag);
        if r.is_err() {
            proof {
                lemma_wrote_refused(start, open, r, *tw, whole);
            }
            return r;
        }
        let mut i: usize = 0;
        while i < node.endpoints.len()
            invariant
                i <= node.endpoints.len(),
                start == *old(tw),
                policy == self.policy(),
                all == parts_list(policy, node@, endpoint_id),
                whole == u16_array(tag, all),
                open == seq![TlvElement::ArrayStart(tag)],
                wrote(
                    start,
                    open + u16_items(parts_list(policy, node@.take(i as int), endpoint_id)),
                    Ok(()),
                    *tw,
                ),
            decreases node.endpoints.len() - i,
        {
            let id = node.endpoints[i].id;
            let ghost walked = parts_list(policy, node@.take(i as int), endpoint_id);
            proof {
                lemma_parts_list_step(policy, node@, endpoint_id, i as int);
            }
            if self.matcher.describe(endpoint_id, id) {
                let ghost item = seq![TlvElement::U16(TagType::Anonymous, id)];
                let ghost between = *tw;
                let r = tw.u16(TagType::Anonymous, id);
                proof {
                    assert(open + u16_items(walked.push(id)) == open + u16_items(walked) + item);
                    lemma_wrote_more(start, open + u16_items(walked), between, item, r, *tw);
                }
                if r.is_err() {
                    proof {
                        lemma_array_prefix(tag, u16_items(walked.push(id)), u16_items(all));
                        lemma_wrote_refused(start, open + u16_items(walked) + item, r, *tw, whole);
                    }
                    return r;
                }
            }
            i += 1;
        }
        let ghost between = *tw;
        let r = tw.end_container();
        proof {
            assert(node@.take(i as int) == node@);
            lemma_wrote_more(
                start,
                open + u16_items(all),
                between,
                seq![TlvElement::EndContainer],
                r,
                *tw,
            );
        }
        r
    }

    /// Writes the device type of the endpoint `endpoint_id` as one array of
    /// device-type structures under `tag`.
    pub fn encode_devtype_list(
        &self,
        node: &Node,
        endpoint_id: u16,
        tag: TagType,
        tw: &mut TLVWriter,
    ) -> (r: Result<(), Error>)
        ensures
            wrote(
                *old(tw),
                device_type_array(tag, device_type_list(node@, endpoint_id)),
                r,
                *final(tw),
            ),
    {
        let ghost start = *tw;
        let ghost all = device_type_list(node@, endpoint_id);
        let ghost whole = device_type_array(tag, all);
        let ghost open = seq![TlvElement::ArrayStart(tag)];
        let r = tw.start_array(tag);
        if r.is_err() {
            proof {
                lemma_wrote_refused(start, open, r, *tw, whole);
            }
            return r;
        }
        let mut i: usize = 0;
        proof {
            reveal(Seq::filter);
            lemma_device_type_items_empty();
        }
        while i < node.endpoints.len()
            invariant
                i <= node.endpoints.len(),
                start == *old(tw),
                all == device_type_list(node@, endpoint_id),
                whole == device_type_array(tag, all),
                open == seq![TlvElement::ArrayStart(tag)],
                wrote(
                    start,
                    open + device_type_items(device_type_list(node@.take(i as int), endpoint_id)),
                    Ok(()),
                    *tw,
                ),
            decreases node.endpoints.len() - i,
        {
            let ghost walked = device_type_list(node@.take(i as int), endpoint_id);
            proof {
                lemma_device_type_list_step(node@, endpoint_id, i as int);
            }
            if node.endpoints[i].id == endpoint_id {
                let dev_type = node.endpoints[i].device_type;
                let ghost item = dev_type.tlv(TagType::Anonymous);
                let ghost between = *tw;
                let r = dev_type.to_tlv(tw, TagType::Anonymous);
                proof {
                    lemma_device_type_items_push(walked, dev_type);
                    assert(open + device_type_items(walked.push(dev_type)) == open
                        + device_type_items(walked) + item);
                    lemma_wrote_more(start, open + device_type_items(walked), between, item, r, *tw);
                }
                if r.is_err() {
                    proof {
                        lemma_device_type_items_prefix(walked.push(dev_type), all);
                        lemma_array_prefix(
                            tag,
                            device_type_items(walked.push(dev_type)),
                            device_type_items(all),
                        );
                        lemma_wrote_refused(
                            start,
                            open + device_type_items(walked) + item,
                            r,
                            *tw,
                            whole,
                        );
                    }
                    return r;
                }
            }
            i += 1;
        }
        let ghost between = *tw;
        let r = tw.end_container();
        proof {
            assert(node@.take(i as int) == node@);
            lemma_wrote_more(
                start,
                open + device_type_items(all),
                between,
                seq![TlvElement::EndContainer],
                r,
                *tw,
            );
        }
        r
    }

    /// Writes the server clusters of the endpoint `endpoint_id` as one array
    /// of unsigned 32-bit cluster ids under `tag`.
    pub fn encode_server_list(
        &self,
        node: &Node,
        endpoint_id: u16,
        tag: TagType,
        tw: &mut TLVWriter,
    ) -> (r: Result<(), Error>)
        ensures
            wrote(*old(tw), u32_array(tag, server_list(node@, endpoint_id)), r, *final(tw)),
    {
        let ghost start = *tw;
        let ghost all = server_list(node@, endpoint_id);
        let ghost whole = u32_array(tag, all);
        let ghost open = seq![TlvElement::ArrayStart(tag)];
        let r = tw.start_array(tag);
        if r.is_err() {
            proof {
                lemma_wrote_refused(start, open, r, *tw, whole);
            }
            return r;
        }
        let mut i: usize = 0;
        while i < node.endpoints.len()
            invariant
                i <= node.endpoints.len(),
                start == *old(tw),
                all == server_list(node@, endpoint_id),
                whole == u32_array(tag, all),
                open == seq![TlvElement::ArrayStart(tag)],
                wrote(
                    start,
                    open + u32_items(server_list(node@.take(i as int), endpoint_id)),
                    Ok(()),
                    *tw,
                ),
            decreases node.endpoints.len() - i,
        {
            let endpoint = &node.endpoints[i];
            let ghost walked = server_list(node@.take(i as int), endpoint_id);
            let ghost clusters = node@[i as int].clusters;
            proof {
                lemma_server_list_step(node@, endpoint_id, i as int);
            }
            if endpoint.id == endpoint_id {
                let mut j: usize = 0;
                while j < endpoint.clusters.len()
                    invariant
                        j <= endpoint.clusters.len(),
                        i < node.endpoints.len(),
                        endpoint == &node.endpoints[i as int],
                        start == *old(tw),
                        all == server_list(node@, endpoint_id),
                        whole == u32_array(tag, all),
                        open == seq![TlvElement::ArrayStart(tag)],
                        walked == server_list(node@.take(i as int), endpoint_id),
                        clusters == node@[i as int].clusters,
                        (walked + clusters).is_prefix_of(all),
                        wrote(
                            start,
                            open + u32_items(walked + clusters.take(j as int)),
                            Ok(()),
                            *tw,
                        ),
                    decreases endpoint.clusters.len() - j,
                {
                    let id = endpoint.clusters[j].id;
                    let ghost done = walked + clusters.take(j as int);
                    let ghost item = seq![TlvElement::U32(TagType::Anonymous, id)];
                    let ghost between = *tw;
                    let r = tw.u32(TagType::Anonymous, id);
                    proof {
                        assert(walked + clusters.take(j + 1) == done.push(id));
                        assert(open + u32_items(done.push(id)) == open + u32_items(done) + item);
                        lemma_wrote_more(start, open + u32_items(done), between, item, r, *tw);
                    }
                    if r.is_err() {
                        proof {
                            assert(done.push(id).is_prefix_of(all));
                            lemma_array_prefix(tag, u32_items(done.push(id)), u32_items(all));
                            lemma_wrote_refused(
                                start,
                                open + u32_items(done) + item,
                                r,
                                *tw,
                                whole,
                            );
                        }
                        return r;
                    }
                    j += 1;
                }
                assert(clusters.take(j as int) == clusters);
            }
            i += 1;
        }
        let ghost between = *tw;
        let r = tw.end_container();
        proof {
            assert(node@.take(i as int) == node@);
            lemma_wrote_more(
                start,
                open + u32_items(all),
                between,
                seq![TlvElement::EndContainer],
                r,
                *tw,
            );
        }
        r
    }

    /// Writes the client clusters of the endpoint `endpoint_id` under `tag`:
    /// an array without elements, whatever the node and the endpoint.
    pub fn encode_client_list(
        &self,
        node: &Node,
        endpoint_id: u16,
        tag: TagType,
        tw: &mut TLVWriter,
    ) -> (r: Result<(), Error>)
        ensures
            wrote(*old(tw), u32_array(tag, client_list(node@, endpoint_id)), r, *final(tw)),
    {
        let ghost start = *tw;
        let ghost whole = u32_array(tag, client_list(node@, endpoint_id));
        let ghost open = seq![TlvElement::ArrayStart(tag)];
        let r = tw.start_array(tag);
        if r.is_err() {
            proof {
                lemma_wrote_refused(start, open, r, *tw, whole);
            }
            return r;
        }
        let ghost between = *tw;
        let r = tw.end_container();
        proof {
            lemma_wrote_more(start, open, between, seq![TlvElement::EndContainer], r, *tw);
        }
        r
    }
}

/// A system attribute is answered from the cluster's declaration alone:
/// whatever the policy, the node and the endpoint, the answer is the value
/// that the declaration gives, and none of the four lists is consulted.
pub proof fn lemma_system_attribute_answer(
    policy: spec_fn(u16, u16) -> bool,
    node: Seq<EndpointView>,
    endpoint_id: u16,
    attr_id: u16,
)
    requires
        is_system_attr(attr_id),
    ensures
        answer(policy, node, endpoint_id, attr_id) == cluster_view().system_value(attr_id),
        Attributes::spec_from_repr(attr_id) is None,
{
}

} // verus!
