//! Message shapes, message values, and the mathematical meaning of routing:
//! the address a message renders to and the message an address decodes to.
use vstd::prelude::*;

use crate::decimal::{decimal, parse_i32_spec, parse_u32_spec, signed_decimal};

verus! {

/// The type of one OSC argument.
#[derive(Clone, Copy, Debug, PartialEq, Eq, Structural)]
pub enum ArgKind {
    Int,
    Float,
    Str,
    Blob,
}

/// One OSC argument. A float travels as the bit pattern of an IEEE-754
/// single-precision number.
#[derive(Clone, Debug, PartialEq, Eq)]
pub enum OscArg {
    Int(i32),
    Float(u32),
    Str(String),
    Blob(Vec<u8>),
}

/// Mathematical value of an [`OscArg`].
pub enum ArgModel {
    Int(i32),
    Float(u32),
    Str(Seq<char>),
    Blob(Seq<u8>),
}

/// The type of a path argument parsed out of an address segment.
#[derive(Clone, Copy, Debug, PartialEq, Eq, Structural)]
pub enum PathKind {
    /// An unsigned 32-bit number in decimal.
    U32,
    /// A signed 32-bit number in decimal.
    I32,
    /// The segment text itself.
    Text,
}

/// How a variant's address segment is written.
#[derive(Clone, Debug, PartialEq, Eq)]
pub enum Segment {
    /// A fixed literal; the variant carries no path argument.
    Literal(String),
    /// The rendering of a path argument of the given kind.
    Parsed(PathKind),
}

/// What follows a variant's segment.
#[derive(Debug, PartialEq, Eq)]
pub enum Payload {
    /// A fixed list of arguments; the address ends here.
    Sequence(Vec<ArgKind>),
    /// Another shape, which routes the rest of the address.
    Nested(Box<Shape>),
}

/// One alternative of a branch node.
#[derive(Debug, PartialEq, Eq)]
pub struct VariantShape {
    pub segment: Segment,
    pub payload: Payload,
}

/// The shape of a message type.
#[derive(Debug, PartialEq, Eq)]
pub enum Shape {
    /// Alternatives tried in order; the first that accepts the segment wins.
    Branch(Vec<VariantShape>),
    /// A plain record of arguments with no address of its own.
    Record(Vec<ArgKind>),
}

/// The path argument a message variant carries.
#[derive(Clone, Debug, PartialEq, Eq)]
pub enum PathArg {
    /// No argument: the variant's segment is a literal.
    Unit,
    U32(u32),
    I32(i32),
    Text(String),
}

/// Mathematical value of a [`PathArg`].
pub enum PathModel {
    Unit,
    U32(u32),
    I32(i32),
    Text(Seq<char>),
}

/// A message value of some shape.
#[derive(Debug, PartialEq, Eq)]
pub enum OscMessage {
    /// The chosen variant of a branch node, by position, with its path
    /// argument and payload.
    Branch { variant: usize, path: PathArg, body: Box<OscMessage> },
    /// The arguments of a sequence or record payload.
    Args(Vec<OscArg>),
}

/// Mathematical value of an [`OscMessage`].
pub enum MessageModel {
    Branch { variant: nat, path: PathModel, body: Box<MessageModel> },
    Args(Seq<ArgModel>),
}

/// Why an address and argument list do not decode.
#[derive(Clone, Debug, PartialEq, Eq)]
pub enum RouteError {
    /// No variant's literal or path argument accepts this segment.
    UnrecognizedSegment { segment: String },
    /// A record shape was reached with address left over.
    TrailingAddress,
    /// The argument list ran out.
    MissingPayloadElement,
    /// The argument at this position has another type than declared.
    MismatchedArgument { position: usize },
}

/// Mathematical value of a [`RouteError`].
pub enum RouteErrorModel {
    UnrecognizedSegment(Seq<char>),
    TrailingAddress,
    MissingPayloadElement,
    MismatchedArgument(nat),
}

impl View for OscArg {
    type V = ArgModel;

    open spec fn view(&self) -> ArgModel {
        match self {
            OscArg::Int(v) => ArgModel::Int(*v),
            OscArg::Float(v) => ArgModel::Float(*v),
            OscArg::Str(s) => ArgModel::Str(s@),
            OscArg::Blob(b) => ArgModel::Blob(b@),
        }
    }
}

impl View for PathArg {
    type V = PathModel;

    open spec fn view(&self) -> PathModel {
        match self {
            PathArg::Unit => PathModel::Unit,
            PathArg::U32(n) => PathModel::U32(*n),
            PathArg::I32(n) => PathModel::I32(*n),
            PathArg::Text(s) => PathModel::Text(s@),
        }
    }
}

impl View for OscMessage {
    type V = MessageModel;

    open spec fn view(&self) -> MessageModel
        decreases self,
    {
        match self {
            OscMessage::Branch { variant, path, body } => MessageModel::Branch {
                variant: *variant as nat,
                path: path@,
                body: Box::new((**body)@),
            },
            OscMessage::Args(a) => MessageModel::Args(args_view(a@)),
        }
    }
}

impl View for RouteError {
    type V = RouteErrorModel;

    open spec fn view(&self) -> RouteErrorModel {
        match self {
            RouteError::UnrecognizedSegment { segment } => RouteErrorModel::UnrecognizedSegment(
                segment@,
            ),
            RouteError::TrailingAddress => RouteErrorModel::TrailingAddress,
            RouteError::MissingPayloadElement => RouteErrorModel::MissingPayloadElement,
            RouteError::MismatchedArgument { position } => RouteErrorModel::MismatchedArgument(
                *position as nat,
            ),
        }
    }
}

/// The values of a list of arguments.
pub open spec fn args_view(a: Seq<OscArg>) -> Seq<ArgModel> {
    a.map_values(|x: OscArg| x@)
}

/// The type of an argument value.
pub open spec fn kind_of(a: ArgModel) -> ArgKind {
    match a {
        ArgModel::Int(_) => ArgKind::Int,
        ArgModel::Float(_) => ArgKind::Float,
        ArgModel::Str(_) => ArgKind::Str,
        ArgModel::Blob(_) => ArgKind::Blob,
    }
}

/// Whether argument values have, one for one, the declared types.
pub open spec fn args_fit(kinds: Seq<ArgKind>, a: Seq<ArgModel>) -> bool {
    &&& a.len() == kinds.len()
    &&& forall|i: int| 0 <= i < a.len() ==> kind_of(#[trigger] a[i]) == kinds[i]
}

/// Whether a path argument belongs to a segment: none for a literal, one of
/// the declared kind otherwise.
pub open spec fn path_fits(seg: Segment, p: PathModel) -> bool {
    match seg {
        Segment::Literal(_) => p is Unit,
        Segment::Parsed(PathKind::U32) => p is U32,
        Segment::Parsed(PathKind::I32) => p is I32,
        Segment::Parsed(PathKind::Text) => p is Text,
    }
}

/// Whether a message value is of the given shape.
pub open spec fn conforms(shape: Shape, m: MessageModel) -> bool
    decreases shape,
{
    match shape {
        Shape::Record(kinds) => m matches MessageModel::Args(a) && args_fit(kinds@, a),
        Shape::Branch(vs) => match m {
            MessageModel::Branch { variant, path, body } => {
                &&& variant < vs.len()
                &&& path_fits(vs[variant as int].segment, path)
                &&& match vs[variant as int].payload {
                    Payload::Sequence(kinds) => *body matches MessageModel::Args(a) && args_fit(
                        kinds@,
                        a,
                    ),
                    Payload::Nested(inner) => conforms(*inner, *body),
                }
            },
            MessageModel::Args(_) => false,
        },
    }
}

/// The text a path argument renders to.
pub open spec fn path_text(p: PathModel) -> Seq<char> {
    match p {
        PathModel::Unit => Seq::empty(),
        PathModel::U32(n) => decimal(n as nat),
        PathModel::I32(n) => signed_decimal(n as int),
        PathModel::Text(s) => s,
    }
}

/// The text of a variant's segment: its literal, or its path argument.
pub open spec fn segment_text(seg: Segment, p: PathModel) -> Seq<char> {
    match seg {
        Segment::Literal(l) => l@,
        Segment::Parsed(_) => path_text(p),
    }
}

/// The address of a message: `/` and the segment of each branch level, top
/// down. A record, and whatever follows a sequence payload, adds nothing.
pub open spec fn render(shape: Shape, m: MessageModel) -> Seq<char>
    decreases shape,
{
    match shape {
        Shape::Record(_) => Seq::empty(),
        Shape::Branch(vs) => match m {
            MessageModel::Branch { variant, path, body } => if variant < vs.len() {
                let v = vs[variant as int];
                seq!['/'] + segment_text(v.segment, path) + match v.payload {
                    Payload::Sequence(_) => Seq::empty(),
                    Payload::Nested(inner) => render(*inner, *body),
                }
            } else {
                Seq::empty()
            },
            MessageModel::Args(_) => Seq::empty(),
        },
    }
}

/// The arguments a message carries: those of its innermost payload.
pub open spec fn leaf_args(m: MessageModel) -> Seq<ArgModel>
    decreases m,
{
    match m {
        MessageModel::Branch { body, .. } => leaf_args(*body),
        MessageModel::Args(a) => a,
    }
}

/// The position of the first `/` in `s` at or after `i`, or the length of
/// `s` where there is none.
pub open spec fn slash_from(s: Seq<char>, i: int) -> int
    decreases s.len() - i,
{
    if i >= s.len() {
        s.len() as int
    } else if s[i] == '/' {
        i
    } else {
        slash_from(s, i + 1)
    }
}

/// The address without its leading `/`, where it has one.
pub open spec fn strip_slash(addr: Seq<char>) -> Seq<char> {
    if addr.len() > 0 && addr[0] == '/' {
        addr.drop_first()
    } else {
        addr
    }
}

/// The current segment of an address: the text after the leading `/` up to
/// the next `/`.
pub open spec fn head_segment(addr: Seq<char>) -> Seq<char> {
    let rest = strip_slash(addr);
    rest.subrange(0, slash_from(rest, 0))
}

/// The downstream address: from the `/` that ends the current segment on,
/// or empty where the segment is the last.
pub open spec fn downstream(addr: Seq<char>) -> Seq<char> {
    let rest = strip_slash(addr);
    rest.subrange(slash_from(rest, 0), rest.len() as int)
}

/// The path argument with which a variant accepts a segment, if it does. A
/// literal with a sequence payload also needs the address to end there.
pub open spec fn accepts(v: VariantShape, seg: Seq<char>, down: Seq<char>) -> Option<PathModel> {
    match v.segment {
        Segment::Literal(l) => if seg == l@ && (v.payload is Nested || down.len() == 0) {
            Some(PathModel::Unit)
        } else {
            None
        },
        Segment::Parsed(PathKind::U32) => match parse_u32_spec(seg) {
            Some(n) => Some(PathModel::U32(n)),
            None => None,
        },
        Segment::Parsed(PathKind::I32) => match parse_i32_spec(seg) {
            Some(n) => Some(PathModel::I32(n)),
            None => None,
        },
        Segment::Parsed(PathKind::Text) => Some(PathModel::Text(seg)),
    }
}

/// The first variant at or after position `i` that accepts the segment,
/// with its path argument.
pub open spec fn first_accepting(
    vs: Seq<VariantShape>,
    i: int,
    seg: Seq<char>,
    down: Seq<char>,
) -> Option<(nat, PathModel)>
    decreases vs.len() - i,
{
    if i < 0 || i >= vs.len() {
        None
    } else {
        match accepts(vs[i], seg, down) {
            Some(p) => Some((i as nat, p)),
            None => first_accepting(vs, i + 1, seg, down),
        }
    }
}

/// Reading arguments of the declared types from position `pos` on: the
/// first failure, if any.
pub open spec fn args_failure(kinds: Seq<ArgKind>, args: Seq<ArgModel>, pos: int) -> Option<
    RouteErrorModel,
>
    decreases kinds.len(),
{
    if kinds.len() == 0 {
        None
    } else if pos < 0 || pos >= args.len() {
        Some(RouteErrorModel::MissingPayloadElement)
    } else if kind_of(args[pos]) != kinds[0] {
        Some(RouteErrorModel::MismatchedArgument(pos as nat))
    } else {
        args_failure(kinds.drop_first(), args, pos + 1)
    }
}

/// Reading a payload of the declared types from position `pos`: the
/// arguments read and the position after them.
pub open spec fn read_args(kinds: Seq<ArgKind>, args: Seq<ArgModel>, pos: int) -> Result<
    (Seq<ArgModel>, int),
    RouteErrorModel,
> {
    match args_failure(kinds, args, pos) {
        Some(e) => Err(e),
        None => Ok((Seq::new(kinds.len(), |k: int| args[pos + k]), pos + kinds.len())),
    }
}

/// Decoding `addr` as a message of `shape`, reading arguments from position
/// `pos`: the message and the position after what it read.
pub open spec fn decode_spec(shape: Shape, addr: Seq<char>, args: Seq<ArgModel>, pos: int) -> Result<
    (MessageModel, int),
    RouteErrorModel,
>
    decreases shape,
{
    match shape {
        Shape::Record(kinds) => if addr.len() == 0 || addr == seq!['/'] {
            match read_args(kinds@, args, pos) {
                Ok((a, next)) => Ok((MessageModel::Args(a), next)),
                Err(e) => Err(e),
            }
        } else {
            Err(RouteErrorModel::TrailingAddress)
        },
        Shape::Branch(vs) => {
            let seg = head_segment(addr);
            let down = downstream(addr);
            match first_accepting(vs@, 0, seg, down) {
                None => Err(RouteErrorModel::UnrecognizedSegment(seg)),
                Some((i, path)) => if i < vs.len() {
                    match vs[i as int].payload {
                        Payload::Sequence(kinds) => match read_args(kinds@, args, pos) {
                            Ok((a, next)) => Ok(
                                (
                                    MessageModel::Branch {
                                        variant: i,
                                        path,
                                        body: Box::new(MessageModel::Args(a)),
                                    },
                                    next,
                                ),
                            ),
                            Err(e) => Err(e),
                        },
                        Payload::Nested(inner) => match decode_spec(*inner, down, args, pos) {
                            Ok((body, next)) => Ok(
                                (MessageModel::Branch { variant: i, path, body: Box::new(body) }, next),
                            ),
                            Err(e) => Err(e),
                        },
                    }
                } else {
                    Err(RouteErrorModel::UnrecognizedSegment(seg))
                },
            }
        },
    }
}

} // verus!
