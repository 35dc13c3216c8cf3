//! Extrinsics: the call, the data that travels with it, the data that is
//! only signed, and the envelope that a node accepts.

use crate::bytes::push_bytes;
use crate::codec::{conform_all, encode_all_into, encoding_all, have_shapes};
use crate::compact::{compact_bytes, push_compact};
use crate::error::EncodeError;
use crate::extensions::{AdditionalSigned, ExtensionKind, ExtraData};
use crate::hasher::{blake2_256, crypto256};
use crate::value::{models, shapes, TypeDescriptor, Value};
use vstd::prelude::*;

verus! {

/// The version of the extrinsic format.
pub const EXTRINSIC_VERSION: u8 = 4;

/// The longest payload that is signed as it stands; a longer one is signed
/// by its 256-bit digest.
pub const SIGNED_DIRECTLY: usize = 256;

/// A call into a pallet: which pallet, which of its calls, and the
/// arguments in declared order.
#[derive(Debug, PartialEq, Eq)]
pub struct UnsignedCall {
    pub pallet_index: u8,
    pub call_index: u8,
    pub args: Vec<Value>,
}

/// Who signed, the signature, and the data that travels with the call.
#[derive(Clone, Copy, Debug)]
pub struct SignaturePart {
    pub signer: [u8; 32],
    pub signature: [u8; 64],
    pub extra: ExtraData,
}

impl UnsignedCall {
    /// The bytes of the call: the two indices, then the arguments.
    pub open spec fn bytes(self) -> Seq<u8> {
        seq![self.pallet_index, self.call_index] + encoding_all(models(self.args@))
    }

    /// A call whose arguments are of the declared types, one for one, or
    /// the refusal to make one of arguments that are not.
    pub fn new(
        pallet_index: u8,
        call_index: u8,
        args: Vec<Value>,
        declared: &Vec<TypeDescriptor>,
    ) -> (r: Result<UnsignedCall, EncodeError>)
        ensures
            have_shapes(models(args@), shapes(declared@)) ==> r == Ok::<
                UnsignedCall,
                EncodeError,
            >(UnsignedCall { pallet_index, call_index, args }),
            !have_shapes(models(args@), shapes(declared@)) ==> r == Err::<
                UnsignedCall,
                EncodeError,
            >(EncodeError::ShapeMismatch),
    {
        if conform_all(&args, declared) {
            Ok(UnsignedCall { pallet_index, call_index, args })
        } else {
            Err(EncodeError::ShapeMismatch)
        }
    }

    /// Appends the bytes of the call.
    pub fn push_bytes(&self, out: &mut Vec<u8>)
        ensures
            final(out)@ == old(out)@ + self.bytes(),
    {
        out.push(self.pallet_index);
        out.push(self.call_index);
        encode_all_into(&self.args, out);
        assert(out@ =~= old(out)@ + self.bytes());
    }

    /// The bytes of the call.
    pub fn encode(&self) -> (out: Vec<u8>)
        ensures
            out@ == self.bytes(),
    {
        let mut out: Vec<u8> = Vec::new();
        self.push_bytes(&mut out);
        assert(out@ =~= self.bytes());
        out
    }
}

impl SignaturePart {
    /// The bytes of the signature part: the signer as an account address
    /// (tag 0), the signature as an sr25519 one (tag 1), then the data that
    /// travels with the call under the given extensions.
    pub open spec fn bytes(self, layout: Seq<ExtensionKind>) -> Seq<u8> {
        seq![0u8] + self.signer@ + seq![1u8] + self.signature@ + self.extra.bytes(layout)
    }

    /// Appends the bytes of the signature part.
    pub fn push_bytes(&self, layout: &Vec<ExtensionKind>, out: &mut Vec<u8>)
        requires
            self.extra.era.well_formed(),
        ensures
            final(out)@ == old(out)@ + self.bytes(layout@),
    {
        out.push(0u8);
        push_bytes(out, self.signer.as_slice());
        out.push(1u8);
        push_bytes(out, self.signature.as_slice());
        self.extra.push_bytes(layout, out);
        assert(out@ =~= old(out)@ + self.bytes(layout@));
    }

    /// The bytes of the signature part.
    pub fn encode(&self, layout: &Vec<ExtensionKind>) -> (out: Vec<u8>)
        requires
            self.extra.era.well_formed(),
        ensures
            out@ == self.bytes(layout@),
    {
        let mut out: Vec<u8> = Vec::new();
        self.push_bytes(layout, &mut out);
        assert(out@ =~= self.bytes(layout@));
        out
    }
}

/// What is signed over: the call, the data that travels with it, and the
/// data that is only signed.
pub open spec fn signing_payload(
    call: UnsignedCall,
    extra: ExtraData,
    additional: AdditionalSigned,
    layout: Seq<ExtensionKind>,
) -> Seq<u8> {
    call.bytes() + extra.bytes(layout) + additional.bytes(layout)
}

/// What the signature is made of: the payload itself, or its 256-bit digest
/// where the payload is longer than 256 bytes.
pub open spec fn signing_message(payload: Seq<u8>) -> Seq<u8> {
    if payload.len() > 256 {
        blake2_256(payload)@
    } else {
        payload
    }
}

/// The payload that is signed over.
pub fn build_signing_payload(
    call: &UnsignedCall,
    extra: &ExtraData,
    additional: &AdditionalSigned,
    layout: &Vec<ExtensionKind>,
) -> (out: Vec<u8>)
    requires
        extra.era.well_formed(),
    ensures
        out@ == signing_payload(*call, *extra, *additional, layout@),
{
    let mut out: Vec<u8> = Vec::new();
    call.push_bytes(&mut out);
    extra.push_bytes(layout, &mut out);
    additional.push_bytes(layout, &mut out);
    assert(out@ =~= signing_payload(*call, *extra, *additional, layout@));
    out
}

/// What the signature is made of, for a given payload.
pub fn signing_input(payload: Vec<u8>) -> (out: Vec<u8>)
    ensures
        out@ == signing_message(payload@),
{
    if payload.len() > SIGNED_DIRECTLY {
        crypto256(payload.as_slice())
    } else {
        payload
    }
}

/// The first byte of an extrinsic: the format version in the low seven
/// bits, the top bit set where a signature follows.
pub open spec fn version_byte(signed: bool) -> u8 {
    if signed {
        0x84
    } else {
        0x04
    }
}

/// What is sent, before its length is put in front: the version byte, the
/// signature part if there is one, the call.
pub open spec fn envelope_body(signature: Option<Seq<u8>>, call: Seq<u8>) -> Seq<u8> {
    match signature {
        Some(s) => seq![version_byte(true)] + s + call,
        None => seq![version_byte(false)] + call,
    }
}

/// The extrinsic: the compact length of the body, then the body.
pub open spec fn envelope(signature: Option<Seq<u8>>, call: Seq<u8>) -> Seq<u8> {
    compact_bytes(envelope_body(signature, call).len()) + envelope_body(signature, call)
}

/// The view of an optional byte string.
pub open spec fn optional_bytes(signature: Option<&[u8]>) -> Option<Seq<u8>> {
    match signature {
        Some(s) => Some(s@),
        None => None,
    }
}

/// Puts an extrinsic together from the bytes of its signature part, if it
/// has one, and the bytes of its call.
pub fn encode_extrinsic(signature: Option<&[u8]>, call: &[u8]) -> (out: Vec<u8>)
    ensures
        out@ == envelope(optional_bytes(signature), call@),
{
    let mut body: Vec<u8> = Vec::new();
    match signature {
        Some(s) => {
            let first: u8 = EXTRINSIC_VERSION | 0b1000_0000;
            assert(first == 0x84) by (bit_vector)
                requires
                    first == 4u8 | 0b1000_0000u8,
            ;
            body.push(first);
            push_bytes(&mut body, s);
        },
        None => {
            let first: u8 = EXTRINSIC_VERSION & 0b0111_1111;
            assert(first == 0x04) by (bit_vector)
                requires
                    first == 4u8 & 0b0111_1111u8,
            ;
            body.push(first);
        },
    }
    push_bytes(&mut body, call);
    assert(body@ =~= envelope_body(optional_bytes(signature), call@));
    let mut out: Vec<u8> = Vec::new();
    push_compact(&mut out, body.len() as u128);
    push_bytes(&mut out, body.as_slice());
    assert(out@ =~= envelope(optional_bytes(signature), call@));
    out
}

/// The signed extrinsic for a call and its signature part.
pub fn signed_extrinsic(
    signature: &SignaturePart,
    call: &UnsignedCall,
    layout: &Vec<ExtensionKind>,
) -> (out: Vec<u8>)
    requires
        signature.extra.era.well_formed(),
    ensures
        out@ == envelope(Some(signature.bytes(layout@)), call.bytes()),
{
    let s: Vec<u8> = signature.encode(layout);
    let c: Vec<u8> = call.encode();
    encode_extrinsic(Some(s.as_slice()), c.as_slice())
}

/// The unsigned extrinsic for a call.
pub fn unsigned_extrinsic(call: &UnsignedCall) -> (out: Vec<u8>)
    ensures
        out@ == envelope(None, call.bytes()),
{
    let c: Vec<u8> = call.encode();
    encode_extrinsic(None, c.as_slice())
}

/// Payloads of 256 bytes and fewer are signed as they stand.
pub proof fn lemma_short_payload_signed_directly(payload: Seq<u8>)
    requires
        payload.len() <= 256,
    ensures
        signing_message(payload) == payload,
{
}

/// Payloads of more than 256 bytes are signed by their digest, which is 32
/// bytes long: what is signed is never the payload itself.
pub proof fn lemma_long_payload_signed_by_digest(payload: Seq<u8>)
    requires
        payload.len() > 256,
    ensures
        signing_message(payload) == blake2_256(payload)@,
        signing_message(payload).len() == 32,
        signing_message(payload) != payload,
{
}

/// An extrinsic starts with the compact length of what follows, and what
/// follows starts with the version byte: `0x84` before a signature, `0x04`
/// before a bare call.
pub proof fn lemma_envelope_layout(signature: Option<Seq<u8>>, call: Seq<u8>)
    ensures
        ({
            let body = envelope_body(signature, call);
            let whole = envelope(signature, call);
            let head = compact_bytes(body.len());
            &&& whole.len() == head.len() + body.len()
            &&& whole.subrange(0, head.len() as int) == head
            &&& whole.subrange(head.len() as int, whole.len() as int) == body
            &&& body[0] == version_byte(signature is Some)
            &&& body.len() == 1 + (match signature {
                Some(s) => s.len(),
                None => 0,
            }) + call.len()
            &&& body.subrange(body.len() - call.len(), body.len() as int) == call
        }),
{
    let body = envelope_body(signature, call);
    let whole = envelope(signature, call);
    let head = compact_bytes(body.len());
    assert(whole.subrange(0, head.len() as int) =~= head);
    assert(whole.subrange(head.len() as int, whole.len() as int) =~= body);
    assert(body.subrange(body.len() - call.len(), body.len() as int) =~= call);
}

} // verus!
