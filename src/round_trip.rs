//! Decoding the address and arguments that a message encodes to gives the
//! message back, wherever no earlier variant captures one of its segments.
use vstd::prelude::*;

use crate::decimal::{lemma_i32_round_trip, lemma_u32_round_trip};
use crate::shape::{
    accepts, args_failure, args_fit, conforms, decode_spec, downstream, first_accepting,
    head_segment, leaf_args, read_args, render, segment_text, slash_from, strip_slash, ArgKind,
    ArgModel, MessageModel, PathKind, PathModel, Payload, RouteErrorModel, Segment, Shape, VariantShape,
};

verus! {

/// The address that follows a variant's segment: nothing after a sequence
/// payload, the nested message's address otherwise.
pub open spec fn tail_address(v: VariantShape, body: MessageModel) -> Seq<char> {
    match v.payload {
        Payload::Sequence(_) => Seq::empty(),
        Payload::Nested(inner) => render(*inner, body),
    }
}

/// Whether decoding finds the way back to `m` at every branch level: each
/// segment holds no `/`, and no variant declared before the chosen one
/// accepts the segment.
pub open spec fn routable(shape: Shape, m: MessageModel) -> bool
    decreases shape,
{
    match shape {
        Shape::Record(_) => true,
        Shape::Branch(vs) => match m {
            MessageModel::Branch { variant, path, body } => variant < vs.len() && {
                let v = vs[variant as int];
                let seg = segment_text(v.segment, path);
                &&& !seg.contains('/')
                &&& forall|j: int|
                    0 <= j < variant ==> (#[trigger] accepts(vs[j], seg, tail_address(v, *body)))
                        is None
                &&& match v.payload {
                    Payload::Nested(inner) => routable(*inner, *body),
                    Payload::Sequence(_) => true,
                }
            },
            MessageModel::Args(_) => true,
        },
    }
}

/// Round trip of the wire form: for a message of the shape, decoding the
/// address it renders to, with its own arguments, gives the same message
/// and reads all of the arguments, provided no earlier variant captures one
/// of its segments and no segment holds a `/`.
pub proof fn lemma_round_trip(shape: Shape, m: MessageModel)
    requires
        conforms(shape, m),
        routable(shape, m),
    ensures
        decode_spec(shape, render(shape, m), leaf_args(m), 0) == Ok::<_, RouteErrorModel>(
            (m, leaf_args(m).len() as int),
        ),
{
    lemma_decode_render(shape, m, leaf_args(m), 0);
}

/// The general form: the message's arguments may sit anywhere in a longer
/// list.
pub proof fn lemma_decode_render(shape: Shape, m: MessageModel, args: Seq<ArgModel>, pos: int)
    requires
        conforms(shape, m),
        routable(shape, m),
        0 <= pos,
        pos + leaf_args(m).len() <= args.len(),
        forall|k: int| 0 <= k < leaf_args(m).len() ==> args[pos + k] == #[trigger] leaf_args(m)[k],
    ensures
        decode_spec(shape, render(shape, m), args, pos) == Ok::<_, RouteErrorModel>(
            (m, pos + leaf_args(m).len()),
        ),
    decreases shape,
{
    match shape {
        Shape::Record(kinds) => {
            let a = leaf_args(m);
            lemma_read_fitting(kinds@, args, pos, a);
        },
        Shape::Branch(vs) => {
            if let MessageModel::Branch { variant, path, body } = m {
                let v = vs[variant as int];
                let seg = segment_text(v.segment, path);
                let down = tail_address(v, *body);
                let addr = render(shape, m);
                assert(addr == seq!['/'] + seg + down);
                lemma_render_starts_with_slash(v, *body);
                lemma_split_rendered(seg, down);
                assert(strip_slash(addr) =~= seg + down);
                assert(head_segment(addr) == seg);
                assert(downstream(addr) == down);
                lemma_accepts_own(v, path, *body);
                lemma_first_accepting(vs@, variant as int, seg, down);
                assert(first_accepting(vs@, 0, seg, down) == Some((variant, path)));
                match v.payload {
                    Payload::Sequence(kinds) => {
                        if let MessageModel::Args(a) = *body {
                            assert(leaf_args(*body) == a);
                            assert(leaf_args(m) == a);
                            lemma_read_fitting(kinds@, args, pos, a);
                        }
                    },
                    Payload::Nested(inner) => {
                        assert(leaf_args(m) == leaf_args(*body));
                        lemma_decode_render(*inner, *body, args, pos);
                    },
                }
            }
        },
    }
}

/// Reading a payload whose arguments fit their declared types gives those
/// arguments.
proof fn lemma_read_fitting(kinds: Seq<ArgKind>, args: Seq<ArgModel>, pos: int, a: Seq<ArgModel>)
    requires
        args_fit(kinds, a),
        0 <= pos,
        pos + a.len() <= args.len(),
        forall|k: int| 0 <= k < a.len() ==> args[pos + k] == #[trigger] a[k],
    ensures
        read_args(kinds, args, pos) == Ok::<_, RouteErrorModel>((a, pos + a.len())),
    decreases kinds.len(),
{
    lemma_no_failure(kinds, args, pos, a);
    assert(Seq::new(kinds.len(), |k: int| args[pos + k]) =~= a);
}

proof fn lemma_no_failure(kinds: Seq<ArgKind>, args: Seq<ArgModel>, pos: int, a: Seq<ArgModel>)
    requires
        args_fit(kinds, a),
        0 <= pos,
        pos + a.len() <= args.len(),
        forall|k: int| 0 <= k < a.len() ==> args[pos + k] == #[trigger] a[k],
    ensures
        args_failure(kinds, args, pos) is None,
    decreases kinds.len(),
{
    if kinds.len() > 0 {
        assert(args[pos] == a[0]);
        let rest = a.drop_first();
        assert forall|k: int| 0 <= k < rest.len() implies args[pos + 1 + k] == #[trigger] rest[k] by {
            assert(args[pos + (k + 1)] == a[k + 1]);
        }
        assert forall|i: int| 0 <= i < rest.len() implies kind_of_fits(kinds.drop_first(), rest, i) by {
            assert(kind_of_fits(kinds, a, i + 1));
        }
        lemma_no_failure(kinds.drop_first(), args, pos + 1, rest);
    }
}

spec fn kind_of_fits(kinds: Seq<ArgKind>, a: Seq<ArgModel>, i: int) -> bool {
    crate::shape::kind_of(a[i]) == kinds[i]
}

/// What a nested message renders to is empty or starts with `/`.
proof fn lemma_render_starts_with_slash(v: VariantShape, body: MessageModel)
    ensures
        tail_address(v, body).len() == 0 || tail_address(v, body)[0] == '/',
{
    match v.payload {
        Payload::Sequence(_) => {},
        Payload::Nested(inner) => {
            match *inner {
                Shape::Record(_) => {},
                Shape::Branch(ws) => {
                    match body {
                        MessageModel::Branch { variant, path, body: b } => {
                            if variant < ws.len() {
                                let w = ws[variant as int];
                                let r = seq!['/'] + segment_text(w.segment, path) + tail_address(w, *b);
                                assert(render(*inner, body) == r);
                                assert(r[0] == '/');
                            }
                        },
                        MessageModel::Args(_) => {},
                    }
                },
            }
        },
    }
}

/// A segment without `/` followed by an address that is empty or starts
/// with `/` splits back into the two.
proof fn lemma_split_rendered(seg: Seq<char>, down: Seq<char>)
    requires
        !seg.contains('/'),
        down.len() == 0 || down[0] == '/',
    ensures
        slash_from(seg + down, 0) == seg.len(),
        (seg + down).subrange(0, seg.len() as int) == seg,
        (seg + down).subrange(seg.len() as int, (seg + down).len() as int) == down,
{
    lemma_slash_scan(seg, down, 0);
    assert((seg + down).subrange(0, seg.len() as int) =~= seg);
    assert((seg + down).subrange(seg.len() as int, (seg + down).len() as int) =~= down);
}

proof fn lemma_slash_scan(seg: Seq<char>, down: Seq<char>, i: int)
    requires
        !seg.contains('/'),
        down.len() == 0 || down[0] == '/',
        0 <= i <= seg.len(),
    ensures
        slash_from(seg + down, i) == seg.len(),
    decreases seg.len() - i,
{
    let s = seg + down;
    if i < seg.len() {
        assert(s[i] == seg[i]);
        if seg[i] == '/' {
            assert(seg.contains('/'));
        }
        lemma_slash_scan(seg, down, i + 1);
    }
}

/// The chosen variant accepts the segment it rendered, with the message's
/// own path argument.
proof fn lemma_accepts_own(v: VariantShape, path: PathModel, body: MessageModel)
    requires
        crate::shape::path_fits(v.segment, path),
        match v.payload {
            Payload::Sequence(_) => body is Args,
            Payload::Nested(_) => true,
        },
    ensures
        accepts(v, segment_text(v.segment, path), tail_address(v, body)) == Some(path),
{
    match v.segment {
        Segment::Literal(_) => {},
        Segment::Parsed(PathKind::U32) => {
            if let PathModel::U32(n) = path {
                lemma_u32_round_trip(n);
            }
        },
        Segment::Parsed(PathKind::I32) => {
            if let PathModel::I32(n) = path {
                lemma_i32_round_trip(n);
            }
        },
        Segment::Parsed(PathKind::Text) => {},
    }
}

/// Where no variant before position `i` accepts, the first to accept is
/// the first from `i` on.
proof fn lemma_first_accepting(vs: Seq<VariantShape>, i: int, seg: Seq<char>, down: Seq<char>)
    requires
        0 <= i < vs.len(),
        forall|j: int| 0 <= j < i ==> (#[trigger] accepts(vs[j], seg, down)) is None,
        accepts(vs[i], seg, down) is Some,
    ensures
        first_accepting(vs, 0, seg, down) == Some((i as nat, accepts(vs[i], seg, down)->Some_0)),
{
    lemma_skip_rejecting(vs, 0, i, seg, down);
}

proof fn lemma_skip_rejecting(vs: Seq<VariantShape>, j: int, i: int, seg: Seq<char>, down: Seq<char>)
    requires
        0 <= j <= i < vs.len(),
        forall|k: int| 0 <= k < i ==> (#[trigger] accepts(vs[k], seg, down)) is None,
    ensures
        first_accepting(vs, j, seg, down) == first_accepting(vs, i, seg, down),
    decreases i - j,
{
    if j < i {
        assert(accepts(vs[j], seg, down) is None);
        lemma_skip_rejecting(vs, j + 1, i, seg, down);
    }
}

} // verus!
