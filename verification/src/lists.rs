//! The four lists that describe an endpoint, as mathematical sequences over
//! the endpoints of a node, and what holds of them.

use crate::matcher::{policy_of, AggregatorPartsMatcher, StandardPartsMatcher};
use crate::objects::{unique_ids, DeviceType, EndpointView};
use vstd::prelude::*;

verus! {

/// The ids of the endpoints `node`, in node order.
pub open spec fn endpoint_ids(node: Seq<EndpointView>) -> Seq<u16> {
    node.map_values(|e: EndpointView| e.id)
}

/// The parts of the endpoint `endpoint_id`: the ids of the endpoints of
/// `node` that `policy` makes a part of it, in node order.
pub open spec fn parts_list(
    policy: spec_fn(u16, u16) -> bool,
    node: Seq<EndpointView>,
    endpoint_id: u16,
) -> Seq<u16> {
    endpoint_ids(node).filter(|id: u16| policy(endpoint_id, id))
}

/// The server clusters of the endpoint `endpoint_id`: the ids of the clusters
/// of every endpoint of `node` with that id, in stored order.
pub open spec fn server_list(node: Seq<EndpointView>, endpoint_id: u16) -> Seq<u32> {
    node.flat_map(
        |e: EndpointView|
            if e.id == endpoint_id {
                e.clusters
            } else {
                Seq::<u32>::empty()
            },
    )
}

/// The client clusters of an endpoint: there are none.
pub open spec fn client_list(node: Seq<EndpointView>, endpoint_id: u16) -> Seq<u32> {
    Seq::<u32>::empty()
}

/// The device types of the endpoint `endpoint_id`: the device type of every
/// endpoint of `node` with that id, in node order.
pub open spec fn device_type_list(node: Seq<EndpointView>, endpoint_id: u16) -> Seq<DeviceType> {
    node.filter(|e: EndpointView| e.id == endpoint_id).map_values(
        |e: EndpointView| e.device_type,
    )
}

/// Walking one endpoint further adds that endpoint's id to the parts list
/// where the policy makes it a part, and nothing otherwise; and the parts of
/// the endpoints walked so far begin the parts of them all.
pub proof fn lemma_parts_list_step(
    policy: spec_fn(u16, u16) -> bool,
    node: Seq<EndpointView>,
    endpoint_id: u16,
    i: int,
)
    requires
        0 <= i < node.len(),
    ensures
        parts_list(policy, node.take(i + 1), endpoint_id) == if policy(endpoint_id, node[i].id) {
            parts_list(policy, node.take(i), endpoint_id).push(node[i].id)
        } else {
            parts_list(policy, node.take(i), endpoint_id)
        },
        parts_list(policy, node.take(i + 1), endpoint_id).is_prefix_of(
            parts_list(policy, node, endpoint_id),
        ),
{
    let pred = |id: u16| policy(endpoint_id, id);
    let ids = endpoint_ids(node);
    assert(endpoint_ids(node.take(i + 1)) == ids.take(i).push(ids[i]));
    assert(endpoint_ids(node.take(i)) == ids.take(i));
    ids.take(i).lemma_filter_push(ids[i], pred);
    assert(ids == ids.take(i + 1) + ids.skip(i + 1));
    Seq::filter_distributes_over_add(ids.take(i + 1), ids.skip(i + 1), pred);
    assert(endpoint_ids(node.take(i + 1)) == ids.take(i + 1));
    let walked = ids.take(i + 1).filter(pred);
}

/// Walking one endpoint further adds that endpoint's clusters to the server
/// list where its id is the one asked for, and nothing otherwise; and the
/// server clusters of the endpoints walked so far begin those of them all.
pub proof fn lemma_server_list_step(node: Seq<EndpointView>, endpoint_id: u16, i: int)
    requires
        0 <= i < node.len(),
    ensures
        server_list(node.take(i + 1), endpoint_id) == if node[i].id == endpoint_id {
            server_list(node.take(i), endpoint_id) + node[i].clusters
        } else {
            server_list(node.take(i), endpoint_id)
        },
        server_list(node.take(i + 1), endpoint_id).is_prefix_of(server_list(node, endpoint_id)),
{
    let f = |e: EndpointView|
        if e.id == endpoint_id {
            e.clusters
        } else {
            Seq::<u32>::empty()
        };
    node.lemma_flat_map_take_append(f, i);
    let a = node.take(i + 1);
    let b = node.skip(i + 1);
    assert(node.map_values(f) == a.map_values(f) + b.map_values(f));
    vstd::seq_lib::lemma_flatten_concat(a.map_values(f), b.map_values(f));
}

/// Walking one endpoint further adds that endpoint's device type to the list
/// where its id is the one asked for, and nothing otherwise; and the device
/// types of the endpoints walked so far begin those of them all.
pub proof fn lemma_device_type_list_step(node: Seq<EndpointView>, endpoint_id: u16, i: int)
    requires
        0 <= i < node.len(),
    ensures
        device_type_list(node.take(i + 1), endpoint_id) == if node[i].id == endpoint_id {
            device_type_list(node.take(i), endpoint_id).push(node[i].device_type)
        } else {
            device_type_list(node.take(i), endpoint_id)
        },
        device_type_list(node.take(i + 1), endpoint_id).is_prefix_of(
            device_type_list(node, endpoint_id),
        ),
{
    let pred = |e: EndpointView| e.id == endpoint_id;
    let dt = |e: EndpointView| e.device_type;
    assert(node.take(i + 1) == node.take(i).push(node[i]));
    node.take(i).lemma_filter_push(node[i], pred);
    let a = node.take(i + 1);
    let b = node.skip(i + 1);
    assert(node == a + b);
    Seq::filter_distributes_over_add(a, b, pred);
}

/// Two predicates that agree on every element keep the same elements.
pub proof fn lemma_filter_agree<A>(s: Seq<A>, p: spec_fn(A) -> bool, q: spec_fn(A) -> bool)
    requires
        forall|x: A| #[trigger] p(x) == q(x),
    ensures
        s.filter(p) == s.filter(q),
    decreases s.len(),
{
    reveal(Seq::filter);
    if s.len() > 0 {
        lemma_filter_agree(s.drop_last(), p, q);
    }
}

/// A predicate that holds of no element keeps none.
pub proof fn lemma_filter_none<A>(s: Seq<A>, p: spec_fn(A) -> bool)
    requires
        forall|x: A| !#[trigger] p(x),
    ensures
        s.filter(p) == Seq::<A>::empty(),
    decreases s.len(),
{
    reveal(Seq::filter);
    if s.len() > 0 {
        lemma_filter_none(s.drop_last(), p);
    }
}

/// Under the standard policy the parts of the root endpoint are the ids of
/// all the other endpoints, in node order, and no other endpoint has parts.
pub proof fn lemma_standard_parts_list(node: Seq<EndpointView>, endpoint_id: u16)
    ensures
        endpoint_id == 0 ==> parts_list(policy_of(&StandardPartsMatcher), node, endpoint_id)
            == endpoint_ids(node).filter(|id: u16| id != 0),
        endpoint_id != 0 ==> parts_list(policy_of(&StandardPartsMatcher), node, endpoint_id)
            == Seq::<u16>::empty(),
{
    let policy = policy_of(&StandardPartsMatcher);
    let pred = |id: u16| policy(endpoint_id, id);
    if endpoint_id == 0 {
        lemma_filter_agree(endpoint_ids(node), pred, |id: u16| id != 0);
    } else {
        lemma_filter_none(endpoint_ids(node), pred);
    }
}

/// Under the aggregator policy the parts of any endpoint are the ids of all
/// the endpoints but itself and the root, in node order.
pub proof fn lemma_aggregator_parts_list(node: Seq<EndpointView>, endpoint_id: u16)
    ensures
        parts_list(policy_of(&AggregatorPartsMatcher), node, endpoint_id) == endpoint_ids(
            node,
        ).filter(|id: u16| id != endpoint_id && id != 0),
{
    let policy = policy_of(&AggregatorPartsMatcher);
    let pred = |id: u16| policy(endpoint_id, id);
    lemma_filter_agree(endpoint_ids(node), pred, |id: u16| id != endpoint_id && id != 0);
}

/// No endpoint of any node has client clusters.
pub proof fn lemma_client_list_empty(node: Seq<EndpointView>, endpoint_id: u16)
    ensures
        client_list(node, endpoint_id) == Seq::<u32>::empty(),
{
}

/// Among the first `k` endpoints of a node whose ids are unique, the server
/// clusters of the id of endpoint `i` are that endpoint's clusters once it
/// was walked, and none before.
proof fn lemma_server_list_walk(node: Seq<EndpointView>, i: int, k: int)
    requires
        unique_ids(node),
        0 <= i < node.len(),
        0 <= k <= node.len(),
    ensures
        server_list(node.take(k), node[i].id) == if i < k {
            node[i].clusters
        } else {
            Seq::<u32>::empty()
        },
    decreases k,
{
    if k == 0 {
    } else {
        lemma_server_list_walk(node, i, k - 1);
        lemma_server_list_step(node, node[i].id, k - 1);
        if k - 1 == i {
        }
    }
}

/// In a node whose endpoint ids are unique, the server list of an endpoint
/// is exactly the ids of the clusters attached to it, in stored order.
pub proof fn lemma_server_list_of_endpoint(node: Seq<EndpointView>, i: int)
    requires
        unique_ids(node),
        0 <= i < node.len(),
    ensures
        server_list(node, node[i].id) == node[i].clusters,
{
    lemma_server_list_walk(node, i, node.len() as int);
    assert(node.take(node.len() as int) == node);
}

/// An id that no endpoint of the node has yields an empty server list.
pub proof fn lemma_server_list_of_stranger(node: Seq<EndpointView>, endpoint_id: u16)
    requires
        forall|i: int| 0 <= i < node.len() ==> (#[trigger] node[i]).id != endpoint_id,
    ensures
        server_list(node, endpoint_id) == Seq::<u32>::empty(),
    decreases node.len(),
{
    if node.len() == 0 {
    } else {
        let k = node.len() - 1;
        let rest = node.take(k);
        lemma_server_list_of_stranger(rest, endpoint_id);
        lemma_server_list_step(node, endpoint_id, k);
        assert(node.take(k + 1) == node);
    }
}

/// Among the first `k` endpoints of a node whose ids are unique, the device
/// types of the id of endpoint `i` are that endpoint's device type once it
/// was walked, and none before.
proof fn lemma_device_type_list_walk(node: Seq<EndpointView>, i: int, k: int)
    requires
        unique_ids(node),
        0 <= i < node.len(),
        0 <= k <= node.len(),
    ensures
        device_type_list(node.take(k), node[i].id) == if i < k {
            seq![node[i].device_type]
        } else {
            Seq::<DeviceType>::empty()
        },
    decreases k,
{
    if k == 0 {
        reveal(Seq::filter);
    } else {
        lemma_device_type_list_walk(node, i, k - 1);
        lemma_device_type_list_step(node, node[i].id, k - 1);
        if k - 1 == i {
        }
    }
}

/// In a node whose endpoint ids are unique, the device type list of an
/// endpoint holds exactly the device type of that endpoint.
pub proof fn lemma_device_type_list_of_endpoint(node: Seq<EndpointView>, i: int)
    requires
        unique_ids(node),
        0 <= i < node.len(),
    ensures
        device_type_list(node, node[i].id) == seq![node[i].device_type],
{
    lemma_device_type_list_walk(node, i, node.len() as int);
    assert(node.take(node.len() as int) == node);
}

/// An id that no endpoint of the node has yields an empty device type list.
pub proof fn lemma_device_type_list_of_stranger(node: Seq<EndpointView>, endpoint_id: u16)
    requires
        forall|i: int| 0 <= i < node.len() ==> (#[trigger] node[i]).id != endpoint_id,
    ensures
        device_type_list(node, endpoint_id) == Seq::<DeviceType>::empty(),
    decreases node.len(),
{
    if node.len() == 0 {
        reveal(Seq::filter);
    } else {
        let k = node.len() - 1;
        let rest = node.take(k);
        lemma_device_type_list_of_stranger(rest, endpoint_id);
        lemma_device_type_list_step(node, endpoint_id, k);
        assert(node.take(k + 1) == node);
    }
}

} // verus!
