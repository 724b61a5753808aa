//! Addressed message routing and time tags for Open Sound Control (OSC).
//!
//! A message type is described by a [`Shape`]: a tree of branches whose
//! variants either end in a fixed list of arguments or descend into another
//! shape. The router renders the address of an [`OscMessage`] and decodes an
//! address plus its argument list back into one, trying the variants of each
//! branch in order. Bundles group messages and further bundles under a time
//! tag, which converts between OSC's NTP fixed-point form and a calendar
//! reading.
use vstd::prelude::*;

pub mod bundle;
pub mod decimal;
pub mod round_trip;
pub mod router;
pub mod shape;
pub mod time;

pub use bundle::{OscBundle, OscPacket};
pub use decimal::{parse_i32, parse_u32};
pub use router::WireMessage;
pub use shape::{
    ArgKind, OscMessage, OscArg, PathArg, PathKind, Payload, RouteError, Segment, Shape, VariantShape,
};
pub use time::{AbsOscTime, CalendarTime, OscTime};
