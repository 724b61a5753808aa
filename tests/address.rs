use osc_address::{
    ArgKind, OscMessage, OscArg, PathArg, PathKind, Payload, RouteError, Segment, Shape,
    VariantShape, WireMessage,
};

fn literal(name: &str, payload: Payload) -> VariantShape {
    VariantShape { segment: Segment::Literal(String::from(name)), payload }
}

fn parsed(kind: PathKind, payload: Payload) -> VariantShape {
    VariantShape { segment: Segment::Parsed(kind), payload }
}

fn seq(kinds: Vec<ArgKind>) -> Payload {
    Payload::Sequence(kinds)
}

fn nested(shape: Shape) -> Payload {
    Payload::Nested(Box::new(shape))
}

fn branch(variant: usize, path: PathArg, body: OscMessage) -> OscMessage {
    OscMessage::Branch { variant, path, body: Box::new(body) }
}

fn unit_branch(variant: usize, body: OscMessage) -> OscMessage {
    branch(variant, PathArg::Unit, body)
}

fn args(a: Vec<OscArg>) -> OscMessage {
    OscMessage::Args(a)
}

/// first: no arguments; second: an int and a float.
fn msg_leaf() -> Shape {
    Shape::Branch(vec![
        literal("first", seq(vec![])),
        literal("second", seq(vec![ArgKind::Int, ArgKind::Float])),
    ])
}

fn msg_root() -> Shape {
    Shape::Branch(vec![literal("left", nested(msg_leaf())), literal("right", nested(msg_leaf()))])
}

fn renderer_by_id() -> Shape {
    Shape::Branch(vec![literal("say", seq(vec![ArgKind::Str]))])
}

fn renderer() -> Shape {
    Shape::Branch(vec![
        literal("new", seq(vec![ArgKind::Int])),
        literal("del", seq(vec![ArgKind::Int])),
        parsed(PathKind::U32, nested(renderer_by_id())),
    ])
}

fn route_graph() -> Shape {
    Shape::Branch(vec![
        literal("add_node", seq(vec![ArgKind::Int])),
        literal("add_edge", seq(vec![ArgKind::Int, ArgKind::Int])),
    ])
}

fn toplevel() -> Shape {
    Shape::Branch(vec![
        literal("routegraph", nested(route_graph())),
        literal("renderer", nested(renderer())),
    ])
}

fn wire(address: &str, a: Vec<OscArg>) -> WireMessage {
    WireMessage { address: String::from(address), args: a }
}

#[test]
fn test_nested_nested() {
    let msg = unit_branch(0, unit_branch(1, args(vec![OscArg::Int(-1), OscArg::Float(0f32.to_bits())])));
    assert_eq!(msg.get_address(&msg_root()), "/left/second");
}

#[test]
fn test_patharg_path() {
    let shape = Shape::Branch(vec![literal("first", seq(vec![])), parsed(PathKind::I32, seq(vec![]))]);
    let msg = branch(1, PathArg::I32(42), args(vec![]));
    assert_eq!(msg.get_address(&shape), "/42");
}

#[test]
fn test_patharg_serialize() {
    let shape = Shape::Branch(vec![literal("first", seq(vec![])), parsed(PathKind::I32, seq(vec![]))]);
    let msg = branch(1, PathArg::I32(42), args(vec![]));
    let encoded = shape.encode(&msg);
    assert_eq!(encoded, wire("/42", vec![]));
}

#[test]
fn test_payload() {
    let msg_data = Shape::Record(vec![ArgKind::Int, ArgKind::Str]);
    let shape = Shape::Branch(vec![
        literal("first", nested(msg_data)),
        literal("second", seq(vec![ArgKind::Int, ArgKind::Float])),
    ]);
    let payload = args(vec![OscArg::Int(0x01020304), OscArg::Str(String::from("test"))]);
    let msg = unit_branch(0, payload);
    let encoded = shape.encode(&msg);
    assert_eq!(
        encoded,
        wire("/first", vec![OscArg::Int(0x01020304), OscArg::Str(String::from("test"))])
    );
}

#[test]
fn test_nonnested_path() {
    let msg = unit_branch(1, args(vec![OscArg::Int(0), OscArg::Float(1f32.to_bits())]));
    assert_eq!(msg.get_address(&msg_leaf()), "/second");
}

#[test]
fn test_nonnested_serialize() {
    let msg = unit_branch(1, args(vec![OscArg::Int(1), OscArg::Float(0f32.to_bits())]));
    let encoded = msg_leaf().encode(&msg);
    assert_eq!(encoded, wire("/second", vec![OscArg::Int(1), OscArg::Float(0f32.to_bits())]));
}

#[test]
fn deserialize() {
    let from = wire("/second", vec![OscArg::Int(1), OscArg::Float(0f32.to_bits())]);
    let parsed = msg_leaf().decode(&from).unwrap();
    let expected = unit_branch(1, args(vec![OscArg::Int(1), OscArg::Float(0f32.to_bits())]));
    assert_eq!(parsed, expected);
}

#[test]
fn renderer_say_decodes_and_reencodes() {
    let from = wire("/renderer/42/say", vec![OscArg::Str(String::from("HELLO, WORLD!"))]);
    let parsed = toplevel().decode(&from).unwrap();
    let expected = unit_branch(
        1,
        branch(
            2,
            PathArg::U32(42),
            unit_branch(0, args(vec![OscArg::Str(String::from("HELLO, WORLD!"))])),
        ),
    );
    assert_eq!(parsed, expected);
    assert_eq!(parsed.get_address(&toplevel()), "/renderer/42/say");
    assert_eq!(toplevel().encode(&parsed), from);
}

#[test]
fn parsed_variant_reached_after_literal_fails() {
    let shape = Shape::Branch(vec![
        literal("new", seq(vec![ArgKind::Int])),
        parsed(PathKind::U32, nested(renderer_by_id())),
    ]);
    let from = wire("/42/say", vec![OscArg::Str(String::from("hi"))]);
    let expected = branch(1, PathArg::U32(42), unit_branch(0, args(vec![OscArg::Str(String::from("hi"))])));
    assert_eq!(shape.decode(&from), Ok(expected));
    let bad = wire("/abc/say", vec![OscArg::Str(String::from("hi"))]);
    assert_eq!(
        shape.decode(&bad),
        Err(RouteError::UnrecognizedSegment { segment: String::from("abc") })
    );
}

#[test]
fn earlier_variant_wins() {
    let shape = Shape::Branch(vec![
        parsed(PathKind::U32, seq(vec![])),
        literal("7", seq(vec![])),
    ]);
    assert_eq!(shape.decode(&wire("/7", vec![])), Ok(branch(0, PathArg::U32(7), args(vec![]))));
}

#[test]
fn literal_sequence_needs_address_to_end() {
    let shape = Shape::Branch(vec![literal("new", seq(vec![]))]);
    assert_eq!(
        shape.decode(&wire("/new/extra", vec![])),
        Err(RouteError::UnrecognizedSegment { segment: String::from("new") })
    );
    assert_eq!(shape.decode(&wire("/new", vec![])), Ok(unit_branch(0, args(vec![]))));
}

#[test]
fn parsed_sequence_ignores_rest_of_address() {
    let shape = Shape::Branch(vec![parsed(PathKind::I32, seq(vec![]))]);
    assert_eq!(
        shape.decode(&wire("/-5/extra", vec![])),
        Ok(branch(0, PathArg::I32(-5), args(vec![])))
    );
}

#[test]
fn text_path_argument_round_trips() {
    let shape = Shape::Branch(vec![parsed(PathKind::Text, nested(renderer_by_id()))]);
    let msg = branch(
        0,
        PathArg::Text(String::from("speaker")),
        unit_branch(0, args(vec![OscArg::Str(String::from("x"))])),
    );
    let encoded = shape.encode(&msg);
    assert_eq!(encoded.address, "/speaker/say");
    assert_eq!(shape.decode(&encoded), Ok(msg));
}

#[test]
fn record_takes_empty_or_slash_address() {
    let shape = Shape::Record(vec![ArgKind::Int]);
    assert_eq!(shape.decode(&wire("", vec![OscArg::Int(3)])), Ok(args(vec![OscArg::Int(3)])));
    assert_eq!(shape.decode(&wire("/", vec![OscArg::Int(3)])), Ok(args(vec![OscArg::Int(3)])));
    assert_eq!(shape.decode(&wire("/x", vec![OscArg::Int(3)])), Err(RouteError::TrailingAddress));
    assert_eq!(args(vec![OscArg::Int(3)]).get_address(&shape), "");
}

#[test]
fn nested_record_reports_trailing_address() {
    let shape = Shape::Branch(vec![literal("first", nested(Shape::Record(vec![])))]);
    assert_eq!(shape.decode(&wire("/first/more", vec![])), Err(RouteError::TrailingAddress));
    assert_eq!(shape.decode(&wire("/first/", vec![])), Ok(unit_branch(0, args(vec![]))));
}

#[test]
fn missing_payload_element() {
    assert_eq!(
        msg_leaf().decode(&wire("/second", vec![OscArg::Int(1)])),
        Err(RouteError::MissingPayloadElement)
    );
}

#[test]
fn mismatched_argument() {
    assert_eq!(
        msg_leaf().decode(&wire("/second", vec![OscArg::Int(1), OscArg::Int(2)])),
        Err(RouteError::MismatchedArgument { position: 1 })
    );
}

#[test]
fn deserialize_body_reports_position_after_payload() {
    let extra = vec![OscArg::Blob(vec![9]), OscArg::Int(1), OscArg::Float(2)];
    let (msg, next) = OscMessage::deserialize_body(&msg_leaf(), "/second", &extra, 1).unwrap();
    assert_eq!(msg, unit_branch(1, args(vec![OscArg::Int(1), OscArg::Float(2)])));
    assert_eq!(next, 3);
}

#[test]
fn serialize_body_appends_leaf_arguments() {
    let msg = unit_branch(0, unit_branch(1, args(vec![OscArg::Int(5), OscArg::Float(6)])));
    let mut out = vec![OscArg::Str(String::from("before"))];
    msg.serialize_body(&mut out);
    assert_eq!(out, vec![OscArg::Str(String::from("before")), OscArg::Int(5), OscArg::Float(6)]);
}

#[test]
fn argument_copy_and_kind() {
    let blob = OscArg::Blob(vec![1, 2, 3]);
    assert_eq!(blob.duplicate(), blob);
    assert_eq!(blob.kind(), ArgKind::Blob);
    assert_eq!(OscArg::Str(String::from("s")).kind(), ArgKind::Str);
}
