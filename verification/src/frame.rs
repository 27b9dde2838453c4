//! Reading an MQTT 3.1.1 packet with the parser of the `mqtt-format` crate,
//! as far as the server and the client tester read it.

use mqtt_format::v3::packet::{mpacket, MPacket as M};
use nom::combinator::all_consuming;

use vstd::prelude::*;

use crate::frame::ParsedPacket as P;

verus! {

/// What is read of a packet, borrowing from its bytes. Delivery levels are
/// their numbers (0, 1 or 2).
#[derive(Debug)]
pub enum ParsedPacket<'a> {
    /// A CONNECT: client identifier, clean-session flag, keep-alive, user
    /// name, password, and will (topic, payload, level, retain flag).
    Connect(&'a str, bool, u16, Option<&'a str>, Option<&'a [u8]>, Option<(&'a str, &'a [u8], u8, bool)>),
    /// A PUBLISH: level, retain flag, topic, packet identifier, payload.
    Publish(u8, bool, &'a str, Option<u16>, &'a [u8]),
    /// A SUBSCRIBE: each topic filter with the level asked for.
    Subscribe(Vec<(&'a str, u8)>),
    /// Any other packet; what it is, its first byte tells.
    Other,
}

/// A packet as plain values, variant by variant as [`ParsedPacket`].
pub enum PacketView {
    Connect(Seq<char>, bool, u16, Option<Seq<char>>, Option<Seq<u8>>, Option<(Seq<char>, Seq<u8>, u8, bool)>),
    Publish(u8, bool, Seq<char>, Option<u16>, Seq<u8>),
    Subscribe(Seq<(Seq<char>, u8)>),
    Other,
}

/// The view of an optional text.
pub open spec fn text_view(s: Option<&str>) -> Option<Seq<char>> {
    match s {
        Some(t) => Some(t@),
        None => None,
    }
}

/// The view of optional bytes.
pub open spec fn bytes_view(b: Option<&[u8]>) -> Option<Seq<u8>> {
    match b {
        Some(v) => Some(v@),
        None => None,
    }
}

/// The view of an optional will.
pub open spec fn will_view(w: Option<(&str, &[u8], u8, bool)>) -> Option<(Seq<char>, Seq<u8>, u8, bool)> {
    match w {
        Some((topic, payload, qos, retain)) => Some((topic@, payload@, qos, retain)),
        None => None,
    }
}

/// The view of the requests of a SUBSCRIBE.
pub open spec fn requests_view(r: Seq<(&str, u8)>) -> Seq<(Seq<char>, u8)> {
    r.map_values(|e: (&str, u8)| (e.0@, e.1))
}

impl<'a> View for ParsedPacket<'a> {
    type V = PacketView;

    open spec fn view(&self) -> PacketView {
        match self {
            ParsedPacket::Connect(id, clean, keep_alive, username, password, will) => PacketView::Connect(
                id@,
                *clean,
                *keep_alive,
                text_view(*username),
                bytes_view(*password),
                will_view(*will),
            ),
            ParsedPacket::Publish(qos, retain, topic, id, payload) => PacketView::Publish(
                *qos,
                *retain,
                topic@,
                *id,
                payload@,
            ),
            ParsedPacket::Subscribe(requests) => PacketView::Subscribe(requests_view(requests@)),
            ParsedPacket::Other => PacketView::Other,
        }
    }
}

/// What the MQTT 3.1.1 packet parser makes of `bytes` when the packet must
/// take them all: `None` when they are not exactly one valid packet, else
/// the packet as [`ParsedPacket`] sees it.
pub uninterp spec fn v3_packet(bytes: Seq<u8>) -> Option<PacketView>;

/// `nom::combinator::all_consuming(mqtt_format::v3::packet::mpacket)`: reads
/// `bytes` as exactly one MQTT 3.1.1 packet. What it gives is stated only
/// through the name [`v3_packet`]: the parser's grammar is not restated here.
/// A delivery level is the number of `MQualityOfService`'s variant, in the
/// order the crate declares them (at most once, at least once, exactly once).
#[verifier::external_body]
fn parse_v3<'a>(bytes: &'a [u8]) -> (res: Option<ParsedPacket<'a>>)
    ensures
        v3_packet(bytes@) == match res {
            Some(p) => Some(p@),
            None => None,
        },
{
    Some(match all_consuming(mpacket)(bytes).ok()?.1 {
        M::Connect(c) => P::Connect(c.client_id.value, c.clean_session, c.keep_alive, c.username.map(|u| u.value), c.password, c.will.map(|w| (w.topic.value, w.payload, w.qos as u8, w.retain))),
        M::Publish(x) => P::Publish(x.qos as u8, x.retain, x.topic_name.value, x.id.map(|i| i.0), x.payload),
        M::Subscribe(s) => P::Subscribe(s.subscriptions.into_iter().map(|r| (r.topic.value, r.qos as u8)).collect()),
        _ => P::Other,
    })
}

/// Reads `bytes` as exactly one MQTT 3.1.1 packet; `None` when they are not.
pub fn parse_packet<'a>(bytes: &'a [u8]) -> (res: Option<ParsedPacket<'a>>)
    ensures
        v3_packet(bytes@) == match res {
            Some(p) => Some(p@),
            None => None,
        },
{
    parse_v3(bytes)
}

} // verus!
