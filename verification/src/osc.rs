//! Open Sound Control packets: building messages and encoding and decoding packets with `rosc`.
use vstd::prelude::*;

verus! {

/// An OSC message: an address and its arguments.
#[verifier::external_type_specification]
pub struct ExOscMessage(rosc::OscMessage);

/// An OSC bundle: a time tag and the packets that it carries.
#[verifier::external_type_specification]
#[verifier::external_body]
pub struct ExOscBundle(rosc::OscBundle);

/// An OSC argument.
#[verifier::external_type_specification]
#[verifier::external_body]
pub struct ExOscType(rosc::OscType);

/// The error that `rosc` returns for bytes that are no OSC packet.
#[verifier::external_type_specification]
#[verifier::external_body]
pub struct ExOscError(rosc::OscError);

/// An *OSC Packet* can contain an *OSC Message* or a bundle of nested messages which is called an
/// *OSC Bundle*.
#[derive(Debug, PartialEq)]
pub enum Packet {
    Message(rosc::OscMessage),
    Bundle(rosc::OscBundle),
}

/// Whether `rosc::decoder::decode_udp` decodes an OSC packet from the given bytes, which depends
/// on the bytes alone.
pub uninterp spec fn osc_decodes(bytes: Seq<u8>) -> bool;

/// The packet that `rosc::decoder::decode_udp` decodes from the given bytes, where it decodes
/// one, as a `Packet` of the same variant holding the same message or bundle; it depends on the
/// bytes alone.
pub uninterp spec fn osc_decoded(bytes: Seq<u8>) -> Packet;

/// The bytes that `rosc::encoder::encode` produces for the `rosc::OscPacket` of the same variant
/// holding the same message or bundle as `packet`; they depend on the packet alone.
pub uninterp spec fn osc_encoding(packet: Packet) -> Seq<u8>;

/// Calls `rosc::decoder::decode_udp` and keeps the packet it decodes, as a `Packet` of the same
/// variant holding the same message or bundle. It succeeds exactly where rosc's parser accepts
/// the bytes (`osc_decodes`), with the packet that `osc_decoded` names.
#[verifier::external_body]
fn decode_udp(bytes: &[u8]) -> (r: Result<Packet, rosc::OscError>)
    ensures
        r is Ok <==> osc_decodes(bytes@),
        r matches Ok(p) ==> p == osc_decoded(bytes@),
{
    match rosc::decoder::decode_udp(bytes) {
        Ok((_, rosc::OscPacket::Message(msg))) => Ok(Packet::Message(msg)),
        Ok((_, rosc::OscPacket::Bundle(bundle))) => Ok(Packet::Bundle(bundle)),
        Err(err) => Err(err),
    }
}

/// Calls `rosc::encoder::encode` on the `rosc::OscPacket` of the same variant holding the same
/// message or bundle. Its source returns `Ok` for every packet, with the bytes that the name
/// `osc_encoding` stands for.
#[verifier::external_body]
fn encode_packet(packet: Packet) -> (r: Result<Vec<u8>, rosc::OscError>)
    ensures
        match r {
            Ok(v) => v@ == osc_encoding(packet),
            Err(_) => false,
        },
{
    let packet = match packet {
        Packet::Message(msg) => rosc::OscPacket::Message(msg),
        Packet::Bundle(bundle) => rosc::OscPacket::Bundle(bundle),
    };
    rosc::encoder::encode(&packet)
}

/// A convenience constructor for an OSC message.
pub fn msg(addr: String, args: Vec<rosc::OscType>) -> (r: rosc::OscMessage)
    ensures
        r.addr == addr,
        r.args == args,
{
    rosc::OscMessage { addr, args }
}

/// Decodes the given slice of bytes into a `Packet`.
///
/// Returns an `Error` if the slice does not contain a valid OSC packet.
pub fn decode(bytes: &[u8]) -> (r: Result<Packet, rosc::OscError>)
    ensures
        r is Ok <==> osc_decodes(bytes@),
        r matches Ok(p) ==> p == osc_decoded(bytes@),
{
    decode_udp(bytes)
}

/// Encodes the given `Packet` into a `Vec` of bytes.
///
/// Encoding never fails.
pub fn encode(packet: Packet) -> (r: Result<Vec<u8>, rosc::OscError>)
    ensures
        match r {
            Ok(v) => v@ == osc_encoding(packet),
            Err(_) => false,
        },
{
    encode_packet(packet)
}

} // verus!
