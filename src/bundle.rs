//! Bundles: time-tagged groups of packets, each a message or another bundle.
use vstd::prelude::*;

use crate::round_trip::{lemma_round_trip, routable};
use crate::router::WireMessage;
use crate::shape::{args_view, conforms, decode_spec, leaf_args, render, OscMessage, RouteError, Shape};
use crate::time::OscTime;

verus! {

/// Zero or more packets to be handled together, at the time its tag names.
#[derive(Debug, PartialEq, Eq)]
pub struct OscBundle<M> {
    /// Seconds and fraction of the time tag, as on the wire.
    pub time_tag: (u32, u32),
    pub messages: Vec<OscPacket<M>>,
}

/// A single message, or a bundle of further packets.
#[derive(Debug, PartialEq, Eq)]
pub enum OscPacket<M> {
    Message(M),
    Bundle(OscBundle<M>),
}

impl<M> OscBundle<M> {
    /// A bundle of the given packets with the time tag `(sec, frac)`.
    pub fn new(time_tag: (u32, u32), messages: Vec<OscPacket<M>>) -> (r: OscBundle<M>)
        ensures
            r.time_tag == time_tag,
            r.messages == messages,
    {
        OscBundle { time_tag, messages }
    }

    /// The time at which the bundle is to be handled; the tag `(0, 1)`
    /// means immediately.
    pub fn time_tag(&self) -> (r: OscTime)
        ensures
            r == OscTime::spec_new(self.time_tag.0, self.time_tag.1),
    {
        OscTime::new(self.time_tag.0, self.time_tag.1)
    }

    /// The packets of the bundle, in order.
    pub fn messages(&self) -> (r: &Vec<OscPacket<M>>)
        ensures
            *r == self.messages,
    {
        &self.messages
    }
}

/// Whether `w` is the wire form of `p`: the same nesting and time tags, with
/// each message replaced by its address and arguments.
pub open spec fn packet_encodes(shape: Shape, p: OscPacket<OscMessage>, w: OscPacket<WireMessage>) -> bool
    decreases p,
{
    match (p, w) {
        (OscPacket::Message(m), OscPacket::Message(x)) => {
            &&& x.address@ == render(shape, m@)
            &&& args_view(x.args@) == leaf_args(m@)
        },
        (OscPacket::Bundle(b), OscPacket::Bundle(c)) => {
            &&& c.time_tag == b.time_tag
            &&& c.messages.len() == b.messages.len()
            &&& forall|i: int|
                0 <= i < b.messages.len() ==> packet_encodes(
                    shape,
                    #[trigger] b.messages[i],
                    c.messages[i],
                )
        },
        _ => false,
    }
}

/// Whether `r` is what decoding `w` gives: the same nesting and time tags,
/// with each wire message replaced by its own decode result.
pub open spec fn packet_decodes(
    shape: Shape,
    w: OscPacket<WireMessage>,
    r: OscPacket<Result<OscMessage, RouteError>>,
) -> bool
    decreases w,
{
    match (w, r) {
        (OscPacket::Message(x), OscPacket::Message(res)) => match (
            res,
            decode_spec(shape, x.address@, args_view(x.args@), 0),
        ) {
            (Ok(m), Ok((sm, _))) => m@ == sm,
            (Err(e), Err(se)) => e@ == se,
            _ => false,
        },
        (OscPacket::Bundle(c), OscPacket::Bundle(d)) => {
            &&& d.time_tag == c.time_tag
            &&& d.messages.len() == c.messages.len()
            &&& forall|i: int|
                0 <= i < c.messages.len() ==> packet_decodes(
                    shape,
                    #[trigger] c.messages[i],
                    d.messages[i],
                )
        },
        _ => false,
    }
}

/// Whether every message in `p` is of the shape and finds its way back
/// through decoding.
pub open spec fn packet_routable(shape: Shape, p: OscPacket<OscMessage>) -> bool
    decreases p,
{
    match p {
        OscPacket::Message(m) => conforms(shape, m@) && routable(shape, m@),
        OscPacket::Bundle(b) => forall|i: int|
            0 <= i < b.messages.len() ==> packet_routable(shape, #[trigger] b.messages[i]),
    }
}

/// Whether `r` holds, in the same nesting and with the same time tags as
/// `p`, a successful decode of each of its messages.
pub open spec fn packet_restored(p: OscPacket<OscMessage>, r: OscPacket<Result<OscMessage, RouteError>>) -> bool
    decreases p,
{
    match (p, r) {
        (OscPacket::Message(m), OscPacket::Message(res)) => res matches Ok(x) && x@ == m@,
        (OscPacket::Bundle(b), OscPacket::Bundle(d)) => {
            &&& d.time_tag == b.time_tag
            &&& d.messages.len() == b.messages.len()
            &&& forall|i: int|
                0 <= i < b.messages.len() ==> packet_restored(#[trigger] b.messages[i], d.messages[i])
        },
        _ => false,
    }
}

/// Bundle round trip: decoding the wire form of a packet gives back the
/// same nesting of bundles, the same time tags, and each message as it was.
pub proof fn lemma_packet_round_trip(
    shape: Shape,
    p: OscPacket<OscMessage>,
    w: OscPacket<WireMessage>,
    r: OscPacket<Result<OscMessage, RouteError>>,
)
    requires
        packet_routable(shape, p),
        packet_encodes(shape, p, w),
        packet_decodes(shape, w, r),
    ensures
        packet_restored(p, r),
    decreases p,
{
    match (p, w, r) {
        (OscPacket::Message(m), OscPacket::Message(x), OscPacket::Message(res)) => {
            lemma_round_trip(shape, m@);
        },
        (OscPacket::Bundle(b), OscPacket::Bundle(c), OscPacket::Bundle(d)) => {
            assert forall|i: int| 0 <= i < b.messages.len() implies packet_restored(
                #[trigger] b.messages[i],
                d.messages[i],
            ) by {
                assert(packet_routable(shape, b.messages[i]));
                assert(packet_encodes(shape, b.messages[i], c.messages[i]));
                assert(packet_decodes(shape, c.messages[i], d.messages[i]));
                lemma_packet_round_trip(shape, b.messages[i], c.messages[i], d.messages[i]);
            }
        },
        _ => {},
    }
}

impl Shape {
    /// The wire form of a packet: each message by its address and arguments.
    pub fn encode_packet(&self, p: &OscPacket<OscMessage>) -> (r: OscPacket<WireMessage>)
        ensures
            packet_encodes(*self, *p, r),
        decreases p,
    {
        match p {
            OscPacket::Message(m) => OscPacket::Message(self.encode(m)),
            OscPacket::Bundle(b) => {
                let mut out: Vec<OscPacket<WireMessage>> = Vec::new();
                let mut i: usize = 0;
                while i < b.messages.len()
                    invariant
                        *p == OscPacket::Bundle(*b),
                        i <= b.messages.len(),
                        out.len() == i,
                        forall|k: int|
                            0 <= k < i ==> packet_encodes(*self, #[trigger] b.messages[k], out[k]),
                    decreases b.messages.len() - i,
                {
                    assert(decreases_to!(b.messages => b.messages[i as int]));
                    assert(decreases_to!(*b => b.messages));
                    assert(decreases_to!(*p => p->Bundle_0));
                    let q = self.encode_packet(&b.messages[i]);
                    out.push(q);
                    i = i + 1;
                }
                OscPacket::Bundle(OscBundle { time_tag: b.time_tag, messages: out })
            },
        }
    }

    /// Decodes every message of a wire packet on its own: one that fails
    /// leaves the others untouched.
    pub fn decode_packet(&self, w: &OscPacket<WireMessage>) -> (r: OscPacket<
        Result<OscMessage, RouteError>,
    >)
        ensures
            packet_decodes(*self, *w, r),
        decreases w,
    {
        match w {
            OscPacket::Message(x) => OscPacket::Message(self.decode(x)),
            OscPacket::Bundle(c) => {
                let mut out: Vec<OscPacket<Result<OscMessage, RouteError>>> = Vec::new();
                let mut i: usize = 0;
                while i < c.messages.len()
                    invariant
                        *w == OscPacket::Bundle(*c),
                        i <= c.messages.len(),
                        out.len() == i,
                        forall|k: int|
                            0 <= k < i ==> packet_decodes(*self, #[trigger] c.messages[k], out[k]),
                    decreases c.messages.len() - i,
                {
                    assert(decreases_to!(c.messages => c.messages[i as int]));
                    assert(decreases_to!(*c => c.messages));
                    assert(decreases_to!(*w => w->Bundle_0));
                    let q = self.decode_packet(&c.messages[i]);
                    out.push(q);
                    i = i + 1;
                }
                OscPacket::Bundle(OscBundle { time_tag: c.time_tag, messages: out })
            },
        }
    }

    /// The wire form of a bundle.
    pub fn encode_bundle(&self, b: &OscBundle<OscMessage>) -> (r: OscBundle<WireMessage>)
        ensures
            packet_encodes(*self, OscPacket::Bundle(*b), OscPacket::Bundle(r)),
    {
        let mut out: Vec<OscPacket<WireMessage>> = Vec::new();
        let mut i: usize = 0;
        while i < b.messages.len()
            invariant
                i <= b.messages.len(),
                out.len() == i,
                forall|k: int| 0 <= k < i ==> packet_encodes(*self, #[trigger] b.messages[k], out[k]),
            decreases b.messages.len() - i,
        {
            let q = self.encode_packet(&b.messages[i]);
            out.push(q);
            i = i + 1;
        }
        OscBundle { time_tag: b.time_tag, messages: out }
    }

    /// Decodes every message of a wire bundle on its own.
    pub fn decode_bundle(&self, c: &OscBundle<WireMessage>) -> (r: OscBundle<
        Result<OscMessage, RouteError>,
    >)
        ensures
            packet_decodes(*self, OscPacket::Bundle(*c), OscPacket::Bundle(r)),
    {
        let mut out: Vec<OscPacket<Result<OscMessage, RouteError>>> = Vec::new();
        let mut i: usize = 0;
        while i < c.messages.len()
            invariant
                i <= c.messages.len(),
                out.len() == i,
                forall|k: int| 0 <= k < i ==> packet_decodes(*self, #[trigger] c.messages[k], out[k]),
            decreases c.messages.len() - i,
        {
            let q = self.decode_packet(&c.messages[i]);
            out.push(q);
            i = i + 1;
        }
        OscBundle { time_tag: c.time_tag, messages: out }
    }
}

} // verus!
