use descriptor::descriptor::{cluster, Attributes, DescriptorCluster, ID};
use descriptor::encoder::{AttrDataEncoder, AttrDataWriter};
use descriptor::error::Error;
use descriptor::objects::{
    Access, AttrDetails, Attribute, Cluster, DeviceType, Endpoint, Node, Quality,
};
use descriptor::tlv::{TLVWriter, TagType, TlvElement};

fn hosted(id: u32) -> Cluster {
    Cluster { id, feature_map: 0, attributes: Vec::new(), commands: Vec::new() }
}

fn sample_node() -> Node {
    Node {
        id: 0,
        endpoints: vec![
            Endpoint {
                id: 0,
                device_type: DeviceType { dtype: 0x0016, drev: 1 },
                clusters: vec![hosted(0x001D), hosted(0x0028)],
            },
            Endpoint {
                id: 1,
                device_type: DeviceType { dtype: 0x0100, drev: 2 },
                clusters: vec![hosted(0x0006)],
            },
            Endpoint {
                id: 2,
                device_type: DeviceType { dtype: 0x0101, drev: 3 },
                clusters: Vec::new(),
            },
        ],
    }
}

fn framed(dataver: u32, value: Vec<TlvElement>) -> Vec<TlvElement> {
    let mut out = vec![
        TlvElement::StructStart(TagType::Anonymous),
        TlvElement::U32(TagType::Context(0), dataver),
    ];
    out.extend(value);
    out.push(TlvElement::EndContainer);
    out
}

fn read_into(
    handler: &DescriptorCluster<'_>,
    node: &Node,
    endpoint_id: u16,
    attr_id: u16,
    filter: Option<u32>,
    tw: &mut TLVWriter,
) -> Result<(), Error> {
    let attr = AttrDetails { node, endpoint_id, attr_id };
    handler.read(&attr, AttrDataEncoder::new(filter, tw))
}

const DATA: TagType = TagType::Context(2);

#[test]
fn cluster_id_is_fixed() {
    assert_eq!(ID, 0x001D);
    assert_eq!(cluster().id, 0x001D);
}

#[test]
fn attribute_ids_are_fixed() {
    assert_eq!(Attributes::DeviceTypeList.repr(), 0);
    assert_eq!(Attributes::ServerList.repr(), 1);
    assert_eq!(Attributes::ClientList.repr(), 2);
    assert_eq!(Attributes::PartsList.repr(), 3);
}

#[test]
fn attributes_are_found_by_id() {
    assert_eq!(Attributes::from_repr(0), Some(Attributes::DeviceTypeList));
    assert_eq!(Attributes::from_repr(1), Some(Attributes::ServerList));
    assert_eq!(Attributes::from_repr(2), Some(Attributes::ClientList));
    assert_eq!(Attributes::from_repr(3), Some(Attributes::PartsList));
    assert_eq!(Attributes::from_repr(4), None);
    assert_eq!(Attributes::from_repr(0xFFFC), None);
    assert_eq!(Attributes::from_repr(u16::MAX), None);
}

#[test]
fn every_id_names_at_most_the_attribute_with_that_id() {
    for id in 0..=u16::MAX {
        match Attributes::from_repr(id) {
            Some(attribute) => assert_eq!(attribute.repr(), id),
            None => assert!(id > 3),
        }
    }
}

#[test]
fn unknown_ids_are_refused_on_conversion() {
    assert_eq!(Attributes::try_from(3u16), Ok(Attributes::PartsList));
    assert_eq!(Attributes::try_from(4u16), Err(Error::AttributeNotFound));
}

#[test]
fn declaration_lists_the_attributes() {
    let declared = cluster();
    assert_eq!(declared.feature_map, 0);
    assert!(declared.commands.is_empty());
    let rv = |id: u16| Attribute { id, quality: Quality::NONE, access: Access::RV };
    assert_eq!(
        declared.attributes,
        vec![rv(0xFFFC), rv(0xFFFB), rv(0), rv(1), rv(3), rv(2)]
    );
    assert_eq!(Attribute::new(3, Access::RV, Quality::NONE), rv(3));
}

#[test]
fn value_tag_is_fixed() {
    assert_eq!(AttrDataWriter::tag(), DATA);
}

#[test]
fn read_parts_list_of_the_root() {
    let node = sample_node();
    let handler = DescriptorCluster::new(42);
    let mut tw = TLVWriter::new(64);
    assert_eq!(read_into(&handler, &node, 0, 3, None, &mut tw), Ok(()));
    assert_eq!(
        tw.elements().to_vec(),
        framed(
            42,
            vec![
                TlvElement::ArrayStart(DATA),
                TlvElement::U16(TagType::Anonymous, 1),
                TlvElement::U16(TagType::Anonymous, 2),
                TlvElement::EndContainer,
            ]
        )
    );
}

#[test]
fn read_parts_list_of_a_peer_under_an_aggregator() {
    let node = sample_node();
    let handler = DescriptorCluster::new_aggregator(42);
    let mut tw = TLVWriter::new(64);
    assert_eq!(read_into(&handler, &node, 1, 3, None, &mut tw), Ok(()));
    assert_eq!(
        tw.elements().to_vec(),
        framed(
            42,
            vec![
                TlvElement::ArrayStart(DATA),
                TlvElement::U16(TagType::Anonymous, 2),
                TlvElement::EndContainer,
            ]
        )
    );
}

#[test]
fn read_server_list() {
    let node = sample_node();
    let handler = DescriptorCluster::new(7);
    let mut tw = TLVWriter::new(64);
    assert_eq!(read_into(&handler, &node, 1, 1, None, &mut tw), Ok(()));
    assert_eq!(
        tw.elements().to_vec(),
        framed(
            7,
            vec![
                TlvElement::ArrayStart(DATA),
                TlvElement::U32(TagType::Anonymous, 0x0006),
                TlvElement::EndContainer,
            ]
        )
    );
}

#[test]
fn read_device_type_list() {
    let node = sample_node();
    let handler = DescriptorCluster::new(7);
    let mut tw = TLVWriter::new(64);
    assert_eq!(read_into(&handler, &node, 1, 0, None, &mut tw), Ok(()));
    assert_eq!(
        tw.elements().to_vec(),
        framed(
            7,
            vec![
                TlvElement::ArrayStart(DATA),
                TlvElement::StructStart(TagType::Anonymous),
                TlvElement::U16(TagType::Context(0), 0x0100),
                TlvElement::U16(TagType::Context(1), 2),
                TlvElement::EndContainer,
                TlvElement::EndContainer,
            ]
        )
    );
}

#[test]
fn read_client_list() {
    let node = sample_node();
    let handler = DescriptorCluster::new(7);
    for endpoint in [0u16, 1, 2, 9] {
        let mut tw = TLVWriter::new(64);
        assert_eq!(read_into(&handler, &node, endpoint, 2, None, &mut tw), Ok(()));
        assert_eq!(
            tw.elements().to_vec(),
            framed(7, vec![TlvElement::ArrayStart(DATA), TlvElement::EndContainer])
        );
    }
}

#[test]
fn read_is_skipped_when_the_version_is_held() {
    let node = sample_node();
    let handler = DescriptorCluster::new(42);
    for attr_id in [0u16, 1, 2, 3, 4, 0xFFFB, 0xFFFC, 0xFFFD] {
        let mut tw = TLVWriter::new(64);
        assert_eq!(read_into(&handler, &node, 0, attr_id, Some(42), &mut tw), Ok(()));
        assert!(tw.elements().is_empty());
        assert_eq!(tw.get_tail(), 0);
    }
}

#[test]
fn read_is_skipped_even_without_room() {
    let node = sample_node();
    let handler = DescriptorCluster::new(42);
    let mut tw = TLVWriter::new(0);
    assert_eq!(read_into(&handler, &node, 0, 3, Some(42), &mut tw), Ok(()));
    assert!(tw.elements().is_empty());
}

#[test]
fn read_is_answered_when_another_version_is_held() {
    let node = sample_node();
    let handler = DescriptorCluster::new(42);
    let mut tw = TLVWriter::new(64);
    assert_eq!(read_into(&handler, &node, 2, 3, Some(41), &mut tw), Ok(()));
    assert_eq!(
        tw.elements().to_vec(),
        framed(42, vec![TlvElement::ArrayStart(DATA), TlvElement::EndContainer])
    );
}

#[test]
fn read_is_answered_again_after_a_change() {
    let node = sample_node();
    let mut handler = DescriptorCluster::new(42);
    let mut tw = TLVWriter::new(64);
    assert_eq!(read_into(&handler, &node, 2, 2, Some(42), &mut tw), Ok(()));
    assert!(tw.elements().is_empty());
    assert_eq!(handler.changed(), 43);
    assert_eq!(read_into(&handler, &node, 2, 2, Some(42), &mut tw), Ok(()));
    assert_eq!(
        tw.elements().to_vec(),
        framed(43, vec![TlvElement::ArrayStart(DATA), TlvElement::EndContainer])
    );
}

#[test]
fn read_of_an_unknown_attribute_fails() {
    let node = sample_node();
    let handler = DescriptorCluster::new(42);
    for attr_id in [4u16, 5, 0x00FE, 0xFFF7] {
        let mut tw = TLVWriter::new(64);
        assert_eq!(
            read_into(&handler, &node, 0, attr_id, None, &mut tw),
            Err(Error::AttributeNotFound)
        );
        assert!(tw.elements().is_empty());
    }
}

#[test]
fn read_of_the_feature_map_is_answered_from_the_declaration() {
    let node = sample_node();
    for handler in [DescriptorCluster::new(9), DescriptorCluster::new_aggregator(9)] {
        for endpoint in [0u16, 1, 7] {
            let mut tw = TLVWriter::new(64);
            assert_eq!(read_into(&handler, &node, endpoint, 0xFFFC, None, &mut tw), Ok(()));
            assert_eq!(tw.elements().to_vec(), framed(9, vec![TlvElement::U32(DATA, 0)]));
        }
    }
}

#[test]
fn read_of_the_attribute_list_is_answered_from_the_declaration() {
    let node = sample_node();
    let empty = Node { id: 0, endpoints: Vec::new() };
    let expected = framed(
        9,
        vec![
            TlvElement::ArrayStart(DATA),
            TlvElement::U16(TagType::Anonymous, 0xFFFC),
            TlvElement::U16(TagType::Anonymous, 0xFFFB),
            TlvElement::U16(TagType::Anonymous, 0),
            TlvElement::U16(TagType::Anonymous, 1),
            TlvElement::U16(TagType::Anonymous, 3),
            TlvElement::U16(TagType::Anonymous, 2),
            TlvElement::EndContainer,
        ],
    );
    for handler in [DescriptorCluster::new(9), DescriptorCluster::new_aggregator(9)] {
        for node in [&node, &empty] {
            let mut tw = TLVWriter::new(64);
            assert_eq!(read_into(&handler, node, 1, 0xFFFB, None, &mut tw), Ok(()));
            assert_eq!(tw.elements().to_vec(), expected);
        }
    }
}

#[test]
fn read_of_another_system_attribute_fails() {
    let node = sample_node();
    let handler = DescriptorCluster::new(9);
    for attr_id in [0xFFF8u16, 0xFFF9, 0xFFFA, 0xFFFD, 0xFFFE, 0xFFFF] {
        let mut tw = TLVWriter::new(64);
        assert_eq!(
            read_into(&handler, &node, 0, attr_id, None, &mut tw),
            Err(Error::AttributeNotFound)
        );
        assert!(tw.elements().is_empty());
    }
}

#[test]
fn system_attributes_start_at_a_fixed_id() {
    let node = sample_node();
    let at = |attr_id: u16| AttrDetails { node: &node, endpoint_id: 0, attr_id };
    assert!(!at(0).is_system());
    assert!(!at(3).is_system());
    assert!(!at(0xFFF7).is_system());
    assert!(at(0xFFF8).is_system());
    assert!(at(0xFFFB).is_system());
    assert!(at(0xFFFC).is_system());
    assert!(at(0xFFFF).is_system());
}

#[test]
fn read_leaves_no_trace_when_the_frame_does_not_fit() {
    let node = sample_node();
    let handler = DescriptorCluster::new(42);
    let whole = 7;
    for attr_id in [3u16] {
        for capacity in 0..whole {
            let mut tw = TLVWriter::new(capacity);
            assert_eq!(
                read_into(&handler, &node, 0, attr_id, None, &mut tw),
                Err(Error::NoSpace)
            );
            assert!(tw.elements().is_empty());
        }
        let mut tw = TLVWriter::new(whole);
        assert_eq!(read_into(&handler, &node, 0, attr_id, None, &mut tw), Ok(()));
        assert_eq!(tw.get_tail(), whole);
    }
}

#[test]
fn read_of_a_system_attribute_leaves_no_trace_when_it_does_not_fit() {
    let node = sample_node();
    let handler = DescriptorCluster::new(42);
    for capacity in 0..4 {
        let mut tw = TLVWriter::new(capacity);
        assert_eq!(read_into(&handler, &node, 0, 0xFFFC, None, &mut tw), Err(Error::NoSpace));
        assert!(tw.elements().is_empty());
    }
    for capacity in 0..11 {
        let mut tw = TLVWriter::new(capacity);
        assert_eq!(read_into(&handler, &node, 0, 0xFFFB, None, &mut tw), Err(Error::NoSpace));
        assert!(tw.elements().is_empty());
    }
    let mut tw = TLVWriter::new(11);
    assert_eq!(read_into(&handler, &node, 0, 0xFFFB, None, &mut tw), Ok(()));
}

#[test]
fn a_header_without_room_comes_before_an_unknown_attribute() {
    let node = sample_node();
    let handler = DescriptorCluster::new(42);
    for capacity in 0..2 {
        let mut tw = TLVWriter::new(capacity);
        assert_eq!(read_into(&handler, &node, 0, 9, None, &mut tw), Err(Error::NoSpace));
        assert!(tw.elements().is_empty());
    }
    let mut tw = TLVWriter::new(2);
    assert_eq!(read_into(&handler, &node, 0, 9, None, &mut tw), Err(Error::AttributeNotFound));
    assert!(tw.elements().is_empty());
}

#[test]
fn a_failed_read_keeps_what_was_written_before_it() {
    let node = sample_node();
    let handler = DescriptorCluster::new(42);
    let mut tw = TLVWriter::new(5);
    assert_eq!(tw.u32(TagType::Context(4), 1), Ok(()));
    assert_eq!(read_into(&handler, &node, 0, 3, None, &mut tw), Err(Error::NoSpace));
    assert_eq!(tw.elements().to_vec(), vec![TlvElement::U32(TagType::Context(4), 1)]);
    assert_eq!(read_into(&handler, &node, 0, 8, None, &mut tw), Err(Error::AttributeNotFound));
    assert_eq!(tw.elements().to_vec(), vec![TlvElement::U32(TagType::Context(4), 1)]);
}

#[test]
fn reads_follow_one_another_in_the_output() {
    let node = sample_node();
    let handler = DescriptorCluster::new(42);
    let mut tw = TLVWriter::new(64);
    assert_eq!(read_into(&handler, &node, 0, 2, None, &mut tw), Ok(()));
    assert_eq!(read_into(&handler, &node, 0, 0xFFFC, None, &mut tw), Ok(()));
    let mut expected = framed(42, vec![TlvElement::ArrayStart(DATA), TlvElement::EndContainer]);
    expected.extend(framed(42, vec![TlvElement::U32(DATA, 0)]));
    assert_eq!(tw.elements().to_vec(), expected);
}

#[test]
fn generic_reader_answers_from_any_declaration() {
    let declared = Cluster {
        id: 6,
        feature_map: 5,
        attributes: vec![
            Attribute::new(0xFFFC, Access::RV, Quality::NONE),
            Attribute::new(0, Access::RWVM, Quality::PERSISTENT),
        ],
        commands: vec![0, 1, 2],
    };
    let mut tw = TLVWriter::new(64);
    let writer = AttrDataEncoder::new(None, &mut tw).with_dataver(3).unwrap().unwrap();
    assert_eq!(declared.read(0xFFFC, writer), Ok(()));
    assert_eq!(tw.elements().to_vec(), framed(3, vec![TlvElement::U32(DATA, 5)]));

    let mut tw = TLVWriter::new(64);
    let writer = AttrDataEncoder::new(None, &mut tw).with_dataver(3).unwrap().unwrap();
    assert_eq!(declared.read(0xFFFB, writer), Ok(()));
    assert_eq!(
        tw.elements().to_vec(),
        framed(
            3,
            vec![
                TlvElement::ArrayStart(DATA),
                TlvElement::U16(TagType::Anonymous, 0xFFFC),
                TlvElement::U16(TagType::Anonymous, 0),
                TlvElement::EndContainer,
            ]
        )
    );

    let mut tw = TLVWriter::new(64);
    let writer = AttrDataEncoder::new(None, &mut tw).with_dataver(3).unwrap().unwrap();
    assert_eq!(declared.read(0xFFFD, writer), Err(Error::AttributeNotFound));
    assert!(tw.elements().is_empty());
}

#[test]
fn attribute_ids_are_written_as_an_array() {
    let declared = cluster();
    let mut tw = TLVWriter::new(64);
    assert_eq!(declared.encode_attribute_ids(TagType::Context(1), &mut tw), Ok(()));
    assert_eq!(tw.get_tail(), 8);
    assert_eq!(tw.elements()[0], TlvElement::ArrayStart(TagType::Context(1)));
    assert_eq!(tw.elements()[5], TlvElement::U16(TagType::Anonymous, 3));
    let mut tw = TLVWriter::new(3);
    assert_eq!(declared.encode_attribute_ids(TagType::Context(1), &mut tw), Err(Error::NoSpace));
    assert_eq!(
        tw.elements().to_vec(),
        vec![
            TlvElement::ArrayStart(TagType::Context(1)),
            TlvElement::U16(TagType::Anonymous, 0xFFFC),
            TlvElement::U16(TagType::Anonymous, 0xFFFB),
        ]
    );
}
