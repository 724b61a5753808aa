//! Rendering the address of a message, and decoding an address and its
//! arguments into a message, for a given [`Shape`].
use vstd::prelude::*;

use crate::decimal::{parse_i32, parse_u32, push_i32, push_u32};
use crate::shape::{
    accepts, args_failure, args_view, decode_spec, first_accepting, head_segment, downstream,
    kind_of, leaf_args, ArgModel, read_args, render, slash_from, strip_slash, ArgKind, OscMessage, MessageModel,
    OscArg, PathArg, PathKind, Payload, RouteError, RouteErrorModel, Segment, Shape, VariantShape,
};

verus! {

/// A message as it travels: its address and its flattened arguments.
#[derive(Debug, PartialEq, Eq)]
pub struct WireMessage {
    pub address: String,
    pub args: Vec<OscArg>,
}

/// The value of a decode result.
pub open spec fn decoded_view(r: Result<(OscMessage, usize), RouteError>) -> Result<
    (MessageModel, int),
    RouteErrorModel,
> {
    match r {
        Ok((m, p)) => Ok((m@, p as int)),
        Err(e) => Err(e@),
    }
}

fn copy_bytes(b: &Vec<u8>) -> (r: Vec<u8>)
    ensures
        r@ == b@,
{
    let mut r: Vec<u8> = Vec::new();
    let mut i: usize = 0;
    while i < b.len()
        invariant
            i <= b.len(),
            r@ == b@.subrange(0, i as int),
        decreases b.len() - i,
    {
        r.push(b[i]);
        i = i + 1;
        assert(r@ =~= b@.subrange(0, i as int));
    }
    assert(b@.subrange(0, i as int) =~= b@);
    r
}

impl OscArg {
    /// A copy of this argument with the same value.
    pub fn duplicate(&self) -> (r: OscArg)
        ensures
            r@ == self@,
    {
        match self {
            OscArg::Int(v) => OscArg::Int(*v),
            OscArg::Float(v) => OscArg::Float(*v),
            OscArg::Str(s) => OscArg::Str(s.clone()),
            OscArg::Blob(b) => OscArg::Blob(copy_bytes(b)),
        }
    }

    /// The type of this argument.
    pub fn kind(&self) -> (r: ArgKind)
        ensures
            r == kind_of(self@),
    {
        match self {
            OscArg::Int(_) => ArgKind::Int,
            OscArg::Float(_) => ArgKind::Float,
            OscArg::Str(_) => ArgKind::Str,
            OscArg::Blob(_) => ArgKind::Blob,
        }
    }
}

impl OscMessage {
    /// Appends the arguments of this message's innermost payload to `out`.
    pub fn serialize_body(&self, out: &mut Vec<OscArg>)
        ensures
            args_view(final(out)@) == args_view(old(out)@) + leaf_args(self@),
        decreases self,
    {
        match self {
            OscMessage::Branch { body, .. } => body.serialize_body(out),
            OscMessage::Args(a) => {
                let mut i: usize = 0;
                while i < a.len()
                    invariant
                        i <= a.len(),
                        args_view(out@) == args_view(old(out)@) + args_view(a@.subrange(0, i as int)),
                    decreases a.len() - i,
                {
                    let x = a[i].duplicate();
                    let ghost prev = out@;
                    out.push(x);
                    assert(out@ == prev.push(x));
                    assert(args_view(out@) =~= args_view(prev).push(x@));
                    assert(args_view(a@.subrange(0, i + 1)) =~= args_view(a@.subrange(0, i as int)).push(
                        a@[i as int]@,
                    ));
                    i = i + 1;
                    assert(args_view(out@) =~= args_view(old(out)@) + args_view(
                        a@.subrange(0, i as int),
                    ));
                }
                assert(a@.subrange(0, i as int) =~= a@);
            },
        }
    }
}

/// Splits an address into its current segment and the downstream address.
fn split_address(addr: &str) -> (r: (String, String))
    ensures
        r.0@ == head_segment(addr@),
        r.1@ == downstream(addr@),
{
    let len = addr.unicode_len();
    let start: usize = if len > 0 && addr.get_char(0) == '/' {
        1
    } else {
        0
    };
    let ghost rest = strip_slash(addr@);
    assert(rest =~= addr@.subrange(start as int, len as int));
    let mut i: usize = start;
    while i < len && addr.get_char(i) != '/'
        invariant
            start <= i <= len,
            len == addr@.len(),
            rest == addr@.subrange(start as int, len as int),
            slash_from(rest, 0) == slash_from(rest, i - start),
        decreases len - i,
    {
        i = i + 1;
    }
    assert(slash_from(rest, i - start) == i - start);
    let seg = String::from_str(addr.substring_char(start, i));
    let down = String::from_str(addr.substring_char(i, len));
    assert(seg@ =~= head_segment(addr@));
    assert(down@ =~= downstream(addr@));
    (seg, down)
}

/// The path argument with which variant `v` accepts the segment, if any.
fn accept_variant(v: &VariantShape, seg: &String, down: &String) -> (r: Option<PathArg>)
    ensures
        match r {
            Some(p) => accepts(*v, seg@, down@) == Some(p@),
            None => accepts(*v, seg@, down@) is None,
        },
{
    match &v.segment {
        Segment::Literal(l) => {
            let ends_here = match &v.payload {
                Payload::Nested(_) => true,
                Payload::Sequence(_) => down.unicode_len() == 0,
            };
            if *seg == *l && ends_here {
                Some(PathArg::Unit)
            } else {
                None
            }
        },
        Segment::Parsed(PathKind::U32) => match parse_u32(seg.as_str()) {
            Some(n) => Some(PathArg::U32(n)),
            None => None,
        },
        Segment::Parsed(PathKind::I32) => match parse_i32(seg.as_str()) {
            Some(n) => Some(PathArg::I32(n)),
            None => None,
        },
        Segment::Parsed(PathKind::Text) => Some(PathArg::Text(seg.clone())),
    }
}

/// Reads a payload of the declared types from position `pos`.
fn read_payload(kinds: &Vec<ArgKind>, args: &Vec<OscArg>, pos: usize) -> (r: Result<
    (Vec<OscArg>, usize),
    RouteError,
>)
    ensures
        match (r, read_args(kinds@, args_view(args@), pos as int)) {
            (Ok((a, next)), Ok((sa, snext))) => args_view(a@) == sa && next == snext,
            (Err(e), Err(se)) => e@ == se,
            _ => false,
        },
{
    let ghost av = args_view(args@);
    let mut out: Vec<OscArg> = Vec::new();
    let mut j: usize = 0;
    assert(kinds@.subrange(0, kinds.len() as int) =~= kinds@);
    assert(args_view(out@) =~= Seq::new(0, |k: int| av[pos + k]));
    while j < kinds.len()
        invariant
            j <= kinds.len(),
            av == args_view(args@),
            j == 0 || pos + j <= args.len(),
            args_failure(kinds@, av, pos as int) == args_failure(
                kinds@.subrange(j as int, kinds.len() as int),
                av,
                pos + j,
            ),
            args_view(out@) == Seq::new(j as nat, |k: int| av[pos + k]),
        decreases kinds.len() - j,
    {
        let ghost ks = kinds@.subrange(j as int, kinds.len() as int);
        if j >= args.len() || pos >= args.len() - j {
            return Err(RouteError::MissingPayloadElement);
        }
        let a = &args[pos + j];
        assert(av[pos + j] == a@);
        assert(ks[0] == kinds@[j as int]);
        if a.kind() != kinds[j] {
            return Err(RouteError::MismatchedArgument { position: pos + j });
        }
        let ghost prev = out@;
        let d = a.duplicate();
        out.push(d);
        assert(args_view(out@) =~= args_view(prev).push(d@));
        assert(ks.drop_first() =~= kinds@.subrange(j + 1, kinds.len() as int));
        j = j + 1;
        assert(args_view(out@) =~= Seq::new(j as nat, |k: int| av[pos + k]));
    }
    assert(kinds@.subrange(j as int, kinds.len() as int) =~= Seq::<ArgKind>::empty());
    Ok((out, pos + j))
}

impl OscMessage {
    /// Appends the address of this message to `out`: `/` and the segment of
    /// each branch level, top down. A level whose variant index lies outside
    /// the shape adds nothing. A text path argument is written as it is: one
    /// that holds a `/` gives an address that decodes otherwise.
    pub fn build_address(&self, shape: &Shape, out: &mut String)
        ensures
            final(out)@ == old(out)@ + render(*shape, self@),
        decreases shape,
    {
        match shape {
            Shape::Record(_) => {
                assert(out@ =~= old(out)@ + render(*shape, self@));
            },
            Shape::Branch(vs) => match self {
                OscMessage::Branch { variant, path, body } => {
                    if *variant >= vs.len() {
                        assert(out@ =~= old(out)@ + render(*shape, self@));
                        return;
                    }
                    let v = &vs[*variant];
                    proof {
                        reveal_strlit("/");
                    }
                    out.append("/");
                    match &v.segment {
                        Segment::Literal(l) => out.append(l.as_str()),
                        Segment::Parsed(_) => match path {
                            PathArg::Unit => {},
                            PathArg::U32(n) => push_u32(out, *n),
                            PathArg::I32(n) => push_i32(out, *n),
                            PathArg::Text(s) => out.append(s.as_str()),
                        },
                    }
                    match &v.payload {
                        Payload::Sequence(_) => {},
                        Payload::Nested(inner) => body.build_address(inner, out),
                    }
                    assert(out@ =~= old(out)@ + render(*shape, self@));
                },
                OscMessage::Args(_) => {
                    assert(out@ =~= old(out)@ + render(*shape, self@));
                },
            },
        }
    }

    /// The address of this message; empty for a record shape.
    pub fn get_address(&self, shape: &Shape) -> (r: String)
        ensures
            r@ == render(*shape, self@),
    {
        let mut s = String::new();
        self.build_address(shape, &mut s);
        assert(s@ =~= render(*shape, self@));
        s
    }

    /// Decodes `address` as a message of `shape`, reading its payload
    /// from `args` at position `pos`. Returns the message and the position
    /// after the arguments it read.
    pub fn deserialize_body(shape: &Shape, address: &str, args: &Vec<OscArg>, pos: usize) -> (r: Result<
        (OscMessage, usize),
        RouteError,
    >)
        ensures
            decoded_view(r) == decode_spec(*shape, address@, args_view(args@), pos as int),
        decreases shape,
    {
        match shape {
            Shape::Record(kinds) => {
                let len = address.unicode_len();
                proof {
                    reveal_strlit("/");
                }
                if !(len == 0 || (len == 1 && address.get_char(0) == '/')) {
                    assert(!(address@ =~= seq!['/']));
                    return Err(RouteError::TrailingAddress);
                }
                assert(len == 0 || address@ =~= seq!['/']);
                match read_payload(kinds, args, pos) {
                    Ok((a, next)) => Ok((OscMessage::Args(a), next)),
                    Err(e) => Err(e),
                }
            },
            Shape::Branch(vs) => {
                let (seg, down) = split_address(address);
                let mut i: usize = 0;
                while i < vs.len()
                    invariant
                        i <= vs.len(),
                        *shape == Shape::Branch(*vs),
                        seg@ == head_segment(address@),
                        down@ == downstream(address@),
                        first_accepting(vs@, 0, seg@, down@) == first_accepting(
                            vs@,
                            i as int,
                            seg@,
                            down@,
                        ),
                    decreases vs.len() - i,
                {
                    let v = &vs[i];
                    match accept_variant(v, &seg, &down) {
                        Some(path) => {
                            assert(first_accepting(vs@, i as int, seg@, down@) == Some(
                                (i as nat, path@),
                            ));
                            match &v.payload {
                                Payload::Sequence(kinds) => {
                                    return match read_payload(kinds, args, pos) {
                                        Ok((a, next)) => {
                                            let leaf = OscMessage::Args(a);
                                            assert(leaf@ == MessageModel::Args(args_view(a@)));
                                            Ok(
                                            (
                                                OscMessage::Branch {
                                                    variant: i,
                                                    path,
                                                    body: Box::new(leaf),
                                                },
                                                next,
                                            ),
                                        )
                                        },
                                        Err(e) => Err(e),
                                    };
                                },
                                Payload::Nested(inner) => {
                                    assert(decreases_to!(vs => vs[i as int]));
                                    return match OscMessage::deserialize_body(inner, down.as_str(), args, pos) {
                                        Ok((body, next)) => Ok(
                                            (
                                                OscMessage::Branch {
                                                    variant: i,
                                                    path,
                                                    body: Box::new(body),
                                                },
                                                next,
                                            ),
                                        ),
                                        Err(e) => Err(e),
                                    };
                                },
                            }
                        },
                        None => {
                            assert(first_accepting(vs@, i as int, seg@, down@) == first_accepting(
                                vs@,
                                i + 1,
                                seg@,
                                down@,
                            ));
                        },
                    }
                    i = i + 1;
                }
                Err(RouteError::UnrecognizedSegment { segment: seg })
            },
        }
    }
}

impl Shape {
    /// The wire form of `msg`: its address and its innermost arguments.
    pub fn encode(&self, msg: &OscMessage) -> (r: WireMessage)
        ensures
            r.address@ == render(*self, msg@),
            args_view(r.args@) == leaf_args(msg@),
    {
        let address = msg.get_address(self);
        let mut args: Vec<OscArg> = Vec::new();
        msg.serialize_body(&mut args);
        assert(args_view(args@) =~= leaf_args(msg@));
        WireMessage { address, args }
    }

    /// Decodes a message from its wire form, reading its arguments from the
    /// start of the list.
    pub fn decode(&self, wire: &WireMessage) -> (r: Result<OscMessage, RouteError>)
        ensures
            match (r, decode_spec(*self, wire.address@, args_view(wire.args@), 0)) {
                (Ok(m), Ok((sm, _))) => m@ == sm,
                (Err(e), Err(se)) => e@ == se,
                _ => false,
            },
    {
        match OscMessage::deserialize_body(self, wire.address.as_str(), &wire.args, 0) {
            Ok((m, _)) => Ok(m),
            Err(e) => Err(e),
        }
    }
}

} // verus!
