use osc_address::{
    ArgKind, OscMessage, OscArg, OscBundle, OscPacket, OscTime, PathArg, Payload, RouteError,
    Segment, Shape, VariantShape, WireMessage,
};

fn shape() -> Shape {
    Shape::Branch(vec![VariantShape {
        segment: Segment::Literal(String::from("ping")),
        payload: Payload::Sequence(vec![ArgKind::Int]),
    }])
}

fn ping(n: i32) -> OscMessage {
    OscMessage::Branch {
        variant: 0,
        path: PathArg::Unit,
        body: Box::new(OscMessage::Args(vec![OscArg::Int(n)])),
    }
}

#[test]
fn nested_bundle_round_trip() {
    let inner = OscBundle::new((7, 8), vec![OscPacket::Message(ping(3))]);
    let outer = OscBundle::new((0, 1), vec![OscPacket::Bundle(inner)]);
    let encoded = shape().encode_bundle(&outer);
    assert_eq!(encoded.time_tag, (0, 1));
    match &encoded.messages[0] {
        OscPacket::Bundle(b) => {
            assert_eq!(b.time_tag, (7, 8));
            assert_eq!(
                b.messages[0],
                OscPacket::Message(WireMessage {
                    address: String::from("/ping"),
                    args: vec![OscArg::Int(3)],
                })
            );
        }
        OscPacket::Message(_) => panic!("expected a nested bundle"),
    }
    let decoded = shape().decode_bundle(&encoded);
    let expected = OscBundle::new(
        (0, 1),
        vec![OscPacket::Bundle(OscBundle::new((7, 8), vec![OscPacket::Message(Ok(ping(3)))]))],
    );
    assert_eq!(decoded, expected);
}

#[test]
fn failed_message_leaves_siblings() {
    let wire = OscBundle::new(
        (1, 2),
        vec![
            OscPacket::Message(WireMessage { address: String::from("/pong"), args: vec![] }),
            OscPacket::Message(WireMessage {
                address: String::from("/ping"),
                args: vec![OscArg::Int(4)],
            }),
        ],
    );
    let decoded = shape().decode_bundle(&wire);
    assert_eq!(
        decoded.messages,
        vec![
            OscPacket::Message(Err(RouteError::UnrecognizedSegment { segment: String::from("pong") })),
            OscPacket::Message(Ok(ping(4))),
        ]
    );
}

#[test]
fn bundle_accessors() {
    let b: OscBundle<OscMessage> = OscBundle::new((0, 1), vec![OscPacket::Message(ping(1))]);
    assert_eq!(b.time_tag(), OscTime::Now);
    assert_eq!(b.messages().len(), 1);
    let later: OscBundle<OscMessage> = OscBundle::new((3, 4), vec![]);
    assert_eq!(later.time_tag(), OscTime::new(3, 4));
    assert_eq!(later.time_tag(), OscTime::At(osc_address::AbsOscTime::new(3, 4)));
}

#[test]
fn encode_packet_of_message() {
    let p = OscPacket::Message(ping(9));
    let w = shape().encode_packet(&p);
    assert_eq!(
        w,
        OscPacket::Message(WireMessage { address: String::from("/ping"), args: vec![OscArg::Int(9)] })
    );
    assert_eq!(shape().decode_packet(&w), OscPacket::Message(Ok(ping(9))));
}
