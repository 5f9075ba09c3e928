//! The protocol envelope layer: structured request and response values
//! encoded into self-describing byte payloads on top of framed messages.
//!
//! A request is an operation name with its parameters; a response is a
//! closed tagged union of `Success`, `Error` and `Data`. Each encodes to a
//! one-byte tag followed by 16-bit-length-prefixed UTF-8 string fields, and
//! string lists carry a 16-bit count; the encoding is defined by the spec
//! functions here and the encoder and decoder are proved to be mutual
//! inverses of it. A decode failure is a channel-level fault: the frame has
//! already been consumed and cannot be replayed.

use crate::buffers::bytes_contents;
use crate::buffers::bytes_to_vec;
use crate::error::ChannelError;
use crate::error::Direction;
use crate::wire::be16_bytes;
use crate::wire::be16_value;
use crate::wire::lemma_be16_round_trip;
use crate::wire::lemma_frame_round_trip;
use crate::wire::len_prefixed;
use crate::wire::spec_extract;
use crate::wire::spec_frame;
use crate::wire::MAX_PAYLOAD_LEN;
use bytes::Bytes;
use vstd::prelude::*;
use vstd::string::StrSliceExecFns;
use vstd::utf8::decode_utf8;
use vstd::utf8::encode_utf8;
use vstd::utf8::encode_utf8_decode_utf8;
use vstd::utf8::encode_utf8_valid_utf8;
use vstd::utf8::valid_utf8;

verus! {

/// The longest byte form a single string field may have: its length prefix
/// is 16 bits.
pub const MAX_FIELD_LEN: usize = 65535;

/// The most strings a list may carry: its count field is 16 bits.
pub const MAX_ITEM_COUNT: usize = 65535;

/// Tag byte that opens an encoded request.
pub const REQUEST_TAG: u8 = 81;

/// Tag byte of a `Success` response.
pub const SUCCESS_TAG: u8 = 83;

/// Tag byte of an `Error` response.
pub const ERROR_TAG: u8 = 69;

/// Tag byte of a `Data` response.
pub const DATA_TAG: u8 = 68;

/// A structured request: an operation name and its parameters.
#[derive(Debug, Clone, PartialEq, Eq)]
pub struct ProtocolRequest {
    /// The operation requested of the peer.
    pub op: String,
    /// The operation's parameters, in order.
    pub params: Vec<String>,
}

/// A structured response: exactly one of the three variants is active, and
/// consumers must match exhaustively.
#[derive(Debug, Clone, PartialEq, Eq)]
pub enum ProtocolResponse {
    /// The operation succeeded and carries no payload.
    Success,
    /// The operation failed.
    Error {
        /// Why it failed.
        message: String,
    },
    /// The operation succeeded and returned items.
    Data {
        /// The returned items, in order.
        items: Vec<String>,
    },
}

/// The mathematical value of a request.
#[verifier::ext_equal]
pub struct RequestModel {
    /// The operation name.
    pub op: Seq<char>,
    /// The parameters, in order.
    pub params: Seq<Seq<char>>,
}

/// The mathematical value of a response.
#[verifier::ext_equal]
pub enum ResponseModel {
    /// Success without payload.
    Success,
    /// Failure with a message.
    Error { message: Seq<char> },
    /// Success with returned items.
    Data { items: Seq<Seq<char>> },
}

impl View for ProtocolRequest {
    type V = RequestModel;

    open spec fn view(&self) -> RequestModel {
        RequestModel { op: self.op@, params: self.params.deep_view() }
    }
}

impl View for ProtocolResponse {
    type V = ResponseModel;

    open spec fn view(&self) -> ResponseModel {
        match self {
            ProtocolResponse::Success => ResponseModel::Success,
            ProtocolResponse::Error { message } => (ResponseModel::Error { message: message@ }),
            ProtocolResponse::Data { items } => (ResponseModel::Data {
                items: items.deep_view(),
            }),
        }
    }
}

/// The byte form of one string field: its UTF-8 bytes behind their 16-bit
/// big-endian length.
pub open spec fn encoded_string(s: Seq<char>) -> Seq<u8> {
    len_prefixed(encode_utf8(s))
}

/// Whether a string's UTF-8 form fits one 16-bit length field.
pub open spec fn string_fits(s: Seq<char>) -> bool {
    encode_utf8(s).len() <= MAX_FIELD_LEN
}

/// The byte form of a string list: each string's field, in order.
pub open spec fn encoded_string_list(items: Seq<Seq<char>>) -> Seq<u8>
    decreases items.len(),
{
    if items.len() == 0 {
        Seq::empty()
    } else {
        encoded_string(items[0]) + encoded_string_list(items.drop_first())
    }
}

/// Whether a string list fits its 16-bit count and each member its length
/// field.
pub open spec fn list_fits(items: Seq<Seq<char>>) -> bool {
    items.len() <= MAX_ITEM_COUNT && (forall|i: int|
        0 <= i < items.len() ==> string_fits(#[trigger] items[i]))
}

/// Whether a request fits the encoding's length fields.
pub open spec fn request_encodable(m: RequestModel) -> bool {
    string_fits(m.op) && list_fits(m.params)
}

/// The byte form of a request: tag, operation, parameter count, parameters.
pub open spec fn spec_encode_request(m: RequestModel) -> Seq<u8> {
    seq![REQUEST_TAG] + encoded_string(m.op) + be16_bytes(m.params.len()) + encoded_string_list(
        m.params,
    )
}

/// Whether a response fits the encoding's length fields.
pub open spec fn response_encodable(m: ResponseModel) -> bool {
    match m {
        ResponseModel::Success => true,
        ResponseModel::Error { message } => string_fits(message),
        ResponseModel::Data { items } => list_fits(items),
    }
}

/// The byte form of a response: a tag, then the variant's fields.
pub open spec fn spec_encode_response(m: ResponseModel) -> Seq<u8> {
    match m {
        ResponseModel::Success => seq![SUCCESS_TAG],
        ResponseModel::Error { message } => seq![ERROR_TAG] + encoded_string(message),
        ResponseModel::Data { items } => seq![DATA_TAG] + be16_bytes(items.len())
            + encoded_string_list(items),
    }
}

/// Read one string field off the front of a byte sequence: `None` when the
/// field is incomplete or its bytes are not valid UTF-8.
pub open spec fn take_string(b: Seq<u8>) -> Option<(Seq<char>, Seq<u8>)> {
    match spec_extract(b) {
        Some(fr) => if valid_utf8(fr.0) {
            Some((decode_utf8(fr.0), fr.1))
        } else {
            None
        },
        None => None,
    }
}

/// Read `n` string fields off the front of a byte sequence.
pub open spec fn take_string_list(b: Seq<u8>, n: nat) -> Option<(Seq<Seq<char>>, Seq<u8>)>
    decreases n,
{
    if n == 0 {
        Some((Seq::empty(), b))
    } else {
        match take_string(b) {
            Some(sr) => match take_string_list(sr.1, (n - 1) as nat) {
                Some(lr) => Some((seq![sr.0] + lr.0, lr.1)),
                None => None,
            },
            None => None,
        }
    }
}

/// The value a request payload denotes, or `None` when the payload is not
/// exactly the encoding of one request.
pub open spec fn spec_decode_request(b: Seq<u8>) -> Option<RequestModel> {
    if b.len() < 1 || b[0] != REQUEST_TAG {
        None
    } else {
        match take_string(b.skip(1)) {
            Some(opr) => if opr.1.len() >= 2 {
                match take_string_list(opr.1.skip(2), be16_value(opr.1[0], opr.1[1])) {
                    Some(lr) => if lr.1.len() == 0 {
                        Some(RequestModel { op: opr.0, params: lr.0 })
                    } else {
                        None
                    },
                    None => None,
                }
            } else {
                None
            },
            None => None,
        }
    }
}

/// The value a response payload denotes, or `None` when the payload is not
/// exactly the encoding of one response.
pub open spec fn spec_decode_response(b: Seq<u8>) -> Option<ResponseModel> {
    if b.len() < 1 {
        None
    } else if b[0] == SUCCESS_TAG {
        if b.len() == 1 {
            Some(ResponseModel::Success)
        } else {
            None
        }
    } else if b[0] == ERROR_TAG {
        match take_string(b.skip(1)) {
            Some(sr) => if sr.1.len() == 0 {
                Some(ResponseModel::Error { message: sr.0 })
            } else {
                None
            },
            None => None,
        }
    } else if b[0] == DATA_TAG {
        if b.len() >= 3 {
            match take_string_list(b.skip(3), be16_value(b[1], b[2])) {
                Some(lr) => if lr.1.len() == 0 {
                    Some(ResponseModel::Data { items: lr.0 })
                } else {
                    None
                },
                None => None,
            }
        } else {
            None
        }
    } else {
        None
    }
}

/// A string field read back from its encoding is the original string, and
/// exactly the following bytes remain.
pub proof fn lemma_take_string_round_trip(s: Seq<char>, rest: Seq<u8>)
    requires
        string_fits(s),
    ensures
        take_string(encoded_string(s) + rest) == Some((s, rest)),
{
    encode_utf8_valid_utf8(s);
    encode_utf8_decode_utf8(s);
    lemma_frame_round_trip(encode_utf8(s), rest);
}

/// A string list read back from its encoding is the original list, and
/// exactly the following bytes remain.
pub proof fn lemma_take_string_list_round_trip(items: Seq<Seq<char>>, rest: Seq<u8>)
    requires
        forall|i: int| 0 <= i < items.len() ==> string_fits(#[trigger] items[i]),
    ensures
        take_string_list(encoded_string_list(items) + rest, items.len()) == Some((items, rest)),
    decreases items.len(),
{
    if items.len() == 0 {
        assert(encoded_string_list(items) + rest =~= rest);
        assert(items =~= Seq::<Seq<char>>::empty());
    } else {
        let tail = items.drop_first();
        let tail_bytes = encoded_string_list(tail) + rest;
        assert(encoded_string_list(items) + rest =~= encoded_string(items[0]) + tail_bytes);
        lemma_take_string_round_trip(items[0], tail_bytes);
        assert(forall|i: int| 0 <= i < tail.len() ==> string_fits(#[trigger] tail[i]));
        lemma_take_string_list_round_trip(tail, rest);
        assert(seq![items[0]] + tail =~= items);
    }
}

/// Envelope round trip for requests: decoding the encoding of any encodable
/// request yields exactly that request.
pub proof fn lemma_request_round_trip(m: RequestModel)
    requires
        request_encodable(m),
    ensures
        spec_decode_request(spec_encode_request(m)) == Some(m),
{
    let b = spec_encode_request(m);
    let rest1 = be16_bytes(m.params.len()) + encoded_string_list(m.params);
    assert(b[0] == REQUEST_TAG);
    assert(b.skip(1) =~= encoded_string(m.op) + rest1);
    lemma_take_string_round_trip(m.op, rest1);
    lemma_be16_round_trip(m.params.len());
    assert(rest1[0] == be16_bytes(m.params.len())[0] && rest1[1] == be16_bytes(m.params.len())[1]);
    assert(be16_value(rest1[0], rest1[1]) == m.params.len());
    assert(rest1.skip(2) =~= encoded_string_list(m.params) + Seq::<u8>::empty());
    lemma_take_string_list_round_trip(m.params, Seq::<u8>::empty());
}

/// Envelope round trip for responses: decoding the encoding of any encodable
/// response yields exactly that response.
pub proof fn lemma_response_round_trip(m: ResponseModel)
    requires
        response_encodable(m),
    ensures
        spec_decode_response(spec_encode_response(m)) == Some(m),
{
    let b = spec_encode_response(m);
    match m {
        ResponseModel::Success => {
            assert(b =~= seq![SUCCESS_TAG]);
        },
        ResponseModel::Error { message } => {
            assert(b[0] == ERROR_TAG);
            assert(b[0] != SUCCESS_TAG);
            assert(b.skip(1) =~= encoded_string(message) + Seq::<u8>::empty());
            lemma_take_string_round_trip(message, Seq::<u8>::empty());
        },
        ResponseModel::Data { items } => {
            assert(b[0] == DATA_TAG);
            assert(b[0] != SUCCESS_TAG && b[0] != ERROR_TAG);
            lemma_be16_round_trip(items.len());
            assert(b[1] == be16_bytes(items.len())[0] && b[2] == be16_bytes(items.len())[1]);
            assert(be16_value(b[1], b[2]) == items.len());
            assert(b.skip(3) =~= encoded_string_list(items) + Seq::<u8>::empty());
            lemma_take_string_list_round_trip(items, Seq::<u8>::empty());
        },
    }
}

/// The envelope and framing layers compose: an encodable request whose
/// encoding fits one frame, framed and delivered ahead of any further
/// stream bytes, is extracted and decoded back to exactly itself.
pub proof fn lemma_request_frame_round_trip(m: RequestModel, rest: Seq<u8>)
    requires
        request_encodable(m),
        spec_encode_request(m).len() <= MAX_PAYLOAD_LEN,
    ensures
        spec_extract(spec_frame(spec_encode_request(m)) + rest) matches Some(pr)
            && spec_decode_request(pr.0) == Some(m) && pr.1 == rest,
{
    lemma_frame_round_trip(spec_encode_request(m), rest);
    lemma_request_round_trip(m);
}

/// The envelope and framing layers compose: an encodable response whose
/// encoding fits one frame, framed and delivered ahead of any further
/// stream bytes, is extracted and decoded back to exactly itself.
pub proof fn lemma_response_frame_round_trip(m: ResponseModel, rest: Seq<u8>)
    requires
        response_encodable(m),
        spec_encode_response(m).len() <= MAX_PAYLOAD_LEN,
    ensures
        spec_extract(spec_frame(spec_encode_response(m)) + rest) matches Some(pr)
            && spec_decode_response(pr.0) == Some(m) && pr.1 == rest,
{
    lemma_frame_round_trip(spec_encode_response(m), rest);
    lemma_response_round_trip(m);
}

/// Reading a 16-bit length and encoding it again gives back the same two
/// bytes.
proof fn lemma_be16_bytes_of_value(b0: u8, b1: u8)
    ensures
        be16_bytes(be16_value(b0, b1)) == seq![b0, b1],
{
    let n = be16_value(b0, b1);
    vstd::arithmetic::div_mod::lemma_fundamental_div_mod_converse(
        n as int,
        256,
        b0 as int,
        b1 as int,
    );
    assert(be16_bytes(n) =~= seq![b0, b1]);
}

/// The string reader is sound: whatever it reads off a byte sequence was
/// the encoding of exactly that string, followed by exactly the rest.
pub proof fn lemma_take_string_sound(b: Seq<u8>)
    requires
        take_string(b) is Some,
    ensures
        ({
            let (s, rest) = take_string(b)->Some_0;
            string_fits(s) && b == encoded_string(s) + rest
        }),
{
    let (s, rest) = take_string(b)->Some_0;
    let l = be16_value(b[0], b[1]) as int;
    let field = b.subrange(2, 2 + l);
    vstd::utf8::decode_utf8_encode_utf8(field);
    lemma_be16_bytes_of_value(b[0], b[1]);
    assert(b =~= encoded_string(s) + rest);
}

/// The list reader is sound: whatever it reads was the encoding of exactly
/// that list, followed by exactly the rest.
pub proof fn lemma_take_string_list_sound(b: Seq<u8>, n: nat)
    requires
        take_string_list(b, n) is Some,
    ensures
        ({
            let (items, rest) = take_string_list(b, n)->Some_0;
            &&& items.len() == n
            &&& forall|i: int| 0 <= i < items.len() ==> string_fits(#[trigger] items[i])
            &&& b == encoded_string_list(items) + rest
        }),
    decreases n,
{
    let (items, rest) = take_string_list(b, n)->Some_0;
    if n == 0 {
        assert(b =~= encoded_string_list(items) + rest);
    } else {
        let (s, r1) = take_string(b)->Some_0;
        let (tail, _) = take_string_list(r1, (n - 1) as nat)->Some_0;
        lemma_take_string_sound(b);
        lemma_take_string_list_sound(r1, (n - 1) as nat);
        assert(items[0] == s);
        assert(items.drop_first() =~= tail);
        assert(encoded_string_list(items) == encoded_string(s) + encoded_string_list(tail));
        assert(b =~= encoded_string_list(items) + rest);
    }
}

/// The request decoder accepts only encodings: any payload it decodes is
/// the encoding of exactly the request it decodes to. Together with
/// [`lemma_request_round_trip`] this makes decoding the exact partial
/// inverse of encoding.
pub proof fn lemma_decode_request_sound(b: Seq<u8>)
    requires
        spec_decode_request(b) is Some,
    ensures
        ({
            let m = spec_decode_request(b)->Some_0;
            request_encodable(m) && b == spec_encode_request(m)
        }),
{
    let m = spec_decode_request(b)->Some_0;
    let (op, r1) = take_string(b.skip(1))->Some_0;
    let n = be16_value(r1[0], r1[1]);
    lemma_take_string_sound(b.skip(1));
    lemma_take_string_list_sound(r1.skip(2), n);
    lemma_be16_bytes_of_value(r1[0], r1[1]);
    let (params, r2) = take_string_list(r1.skip(2), n)->Some_0;
    assert(r2 =~= Seq::<u8>::empty());
    assert(r1.skip(2) =~= encoded_string_list(params));
    assert(r1 =~= seq![r1[0], r1[1]] + r1.skip(2));
    assert(b =~= seq![REQUEST_TAG] + b.skip(1));
    assert(b =~= spec_encode_request(m));
}

/// The response decoder accepts only encodings: any payload it decodes is
/// the encoding of exactly the response it decodes to. Together with
/// [`lemma_response_round_trip`] this makes decoding the exact partial
/// inverse of encoding.
pub proof fn lemma_decode_response_sound(b: Seq<u8>)
    requires
        spec_decode_response(b) is Some,
    ensures
        ({
            let m = spec_decode_response(b)->Some_0;
            response_encodable(m) && b == spec_encode_response(m)
        }),
{
    let m = spec_decode_response(b)->Some_0;
    if b[0] == SUCCESS_TAG {
        assert(b =~= seq![SUCCESS_TAG]);
    } else if b[0] == ERROR_TAG {
        let (message, r1) = take_string(b.skip(1))->Some_0;
        lemma_take_string_sound(b.skip(1));
        assert(r1 =~= Seq::<u8>::empty());
        assert(b.skip(1) =~= encoded_string(message));
        assert(b =~= seq![ERROR_TAG] + b.skip(1));
        assert(b =~= spec_encode_response(m));
    } else {
        let n = be16_value(b[1], b[2]);
        let (items, r2) = take_string_list(b.skip(3), n)->Some_0;
        lemma_take_string_list_sound(b.skip(3), n);
        lemma_be16_bytes_of_value(b[1], b[2]);
        assert(r2 =~= Seq::<u8>::empty());
        assert(b.skip(3) =~= encoded_string_list(items));
        assert(b =~= seq![DATA_TAG, b[1], b[2]] + b.skip(3));
        assert(b =~= spec_encode_response(m));
    }
}

/// Appending one element encodes as the list followed by that element's
/// field.
proof fn lemma_encoded_list_snoc(items: Seq<Seq<char>>, s: Seq<char>)
    ensures
        encoded_string_list(items.push(s)) == encoded_string_list(items) + encoded_string(s),
    decreases items.len(),
{
    if items.len() == 0 {
        assert(items =~= Seq::<Seq<char>>::empty());
        assert(items.push(s)[0] == s);
        assert(items.push(s).drop_first() =~= items);
        assert(encoded_string_list(items.push(s)) == encoded_string(s) + encoded_string_list(
            items,
        ));
        assert(encoded_string_list(items.push(s)) =~= encoded_string_list(items) + encoded_string(
            s,
        ));
    } else {
        let t = items.drop_first();
        assert(items.push(s)[0] == items[0]);
        assert(items.push(s).drop_first() =~= t.push(s));
        assert(encoded_string_list(items.push(s)) == encoded_string(items[0])
            + encoded_string_list(t.push(s)));
        lemma_encoded_list_snoc(t, s);
        assert(encoded_string(items[0]) + (encoded_string_list(t) + encoded_string(s)) =~= (
        encoded_string(items[0]) + encoded_string_list(t)) + encoded_string(s));
        assert(encoded_string_list(items) == encoded_string(items[0]) + encoded_string_list(t));
    }
}

/// A decode failure in the given direction; the reason describes the fault.
fn decode_error(direction: Direction) -> (r: ChannelError)
    ensures
        r matches ChannelError::Serialization { direction: d, .. } && d == direction,
{
    ChannelError::Serialization {
        direction,
        reason: "payload is not a well-formed envelope".to_owned(),
    }
}

/// An encode failure in the given direction; the reason describes the fault.
fn encode_error(direction: Direction) -> (r: ChannelError)
    ensures
        r matches ChannelError::Serialization { direction: d, .. } && d == direction,
{
    ChannelError::Serialization {
        direction,
        reason: "a field exceeds the 16-bit length of the envelope encoding".to_owned(),
    }
}

/// Append one 16-bit-length-prefixed field.
fn append_len_prefixed(out: &mut Vec<u8>, field: &Vec<u8>)
    requires
        field@.len() <= MAX_FIELD_LEN,
    ensures
        final(out)@ == old(out)@ + len_prefixed(field@),
{
    let n = field.len();
    out.push((n / 256) as u8);
    out.push((n % 256) as u8);
    let mut body = field.clone();
    out.append(&mut body);
    proof {
        assert(final(out)@ =~= old(out)@ + len_prefixed(field@));
    }
}

/// Append one string's field; false (and nothing appended) when the string
/// does not fit its length field.
fn append_string_field(out: &mut Vec<u8>, s: &String) -> (ok: bool)
    ensures
        ok ==> string_fits(s@) && final(out)@ == old(out)@ + encoded_string(s@),
        !ok ==> !string_fits(s@) && final(out)@ == old(out)@,
{
    let bytes = s.as_str().as_bytes_vec();
    if bytes.len() > MAX_FIELD_LEN {
        return false;
    }
    append_len_prefixed(out, &bytes);
    true
}

/// Append a string list: its 16-bit count, then each member's field. False
/// when the count or some member exceeds its field.
fn append_string_list(out: &mut Vec<u8>, items: &Vec<String>) -> (ok: bool)
    ensures
        ok ==> list_fits(items.deep_view()) && final(out)@ == old(out)@ + be16_bytes(
            items.deep_view().len(),
        ) + encoded_string_list(items.deep_view()),
        !ok ==> !list_fits(items.deep_view()),
{
    let count = items.len();
    if count > MAX_ITEM_COUNT {
        return false;
    }
    out.push((count / 256) as u8);
    out.push((count % 256) as u8);
    let ghost base = out@;
    proof {
        assert(base =~= old(out)@ + be16_bytes(items.deep_view().len()));
        assert(items.deep_view().take(0) =~= Seq::<Seq<char>>::empty());
    }
    let mut i: usize = 0;
    while i < count
        invariant
            i <= count,
            count == items@.len(),
            count <= MAX_ITEM_COUNT,
            forall|j: int| 0 <= j < i ==> string_fits(#[trigger] items.deep_view()[j]),
            out@ == base + encoded_string_list(items.deep_view().take(i as int)),
        decreases count - i,
    {
        proof {
            assert(items.deep_view()[i as int] == items@[i as int]@);
        }
        if !append_string_field(out, &items[i]) {
            return false;
        }
        proof {
            lemma_encoded_list_snoc(items.deep_view().take(i as int), items.deep_view()[i as int]);
            assert(items.deep_view().take(i + 1) =~= items.deep_view().take(i as int).push(
                items.deep_view()[i as int],
            ));
            assert(out@ =~= base + encoded_string_list(items.deep_view().take(i + 1)));
        }
        i += 1;
    }
    proof {
        assert(items.deep_view().take(count as int) =~= items.deep_view());
        assert(out@ =~= old(out)@ + be16_bytes(items.deep_view().len()) + encoded_string_list(
            items.deep_view(),
        ));
    }
    true
}

/// Encode a request into the payload of one frame. Fails with a
/// `Serialization` error naming the request direction, and writes nothing,
/// exactly when some field exceeds the encoding's 16-bit lengths.
pub fn encode_request(req: &ProtocolRequest) -> (r: Result<Vec<u8>, ChannelError>)
    ensures
        match r {
            Ok(bytes) => request_encodable(req@) && bytes@ == spec_encode_request(req@),
            Err(e) => !request_encodable(req@) && (e matches ChannelError::Serialization {
                direction,
                ..
            } && direction == Direction::Request),
        },
{
    let mut out: Vec<u8> = Vec::new();
    out.push(REQUEST_TAG);
    if !append_string_field(&mut out, &req.op) {
        return Err(encode_error(Direction::Request));
    }
    if !append_string_list(&mut out, &req.params) {
        return Err(encode_error(Direction::Request));
    }
    proof {
        assert(out@ =~= spec_encode_request(req@));
    }
    Ok(out)
}

/// Encode a response into the payload of one frame. Fails with a
/// `Serialization` error naming the response direction, and writes nothing,
/// exactly when some field exceeds the encoding's 16-bit lengths.
pub fn encode_response(resp: &ProtocolResponse) -> (r: Result<Vec<u8>, ChannelError>)
    ensures
        match r {
            Ok(bytes) => response_encodable(resp@) && bytes@ == spec_encode_response(resp@),
            Err(e) => !response_encodable(resp@) && (e matches ChannelError::Serialization {
                direction,
                ..
            } && direction == Direction::Response),
        },
{
    match resp {
        ProtocolResponse::Success => {
            let mut out: Vec<u8> = Vec::new();
            out.push(SUCCESS_TAG);
            proof {
                assert(out@ =~= spec_encode_response(resp@));
            }
            Ok(out)
        },
        ProtocolResponse::Error { message } => {
            let mut out: Vec<u8> = Vec::new();
            out.push(ERROR_TAG);
            if !append_string_field(&mut out, message) {
                return Err(encode_error(Direction::Response));
            }
            proof {
                assert(out@ =~= spec_encode_response(resp@));
            }
            Ok(out)
        },
        ProtocolResponse::Data { items } => {
            let mut out: Vec<u8> = Vec::new();
            out.push(DATA_TAG);
            if !append_string_list(&mut out, items) {
                return Err(encode_error(Direction::Response));
            }
            proof {
                assert(out@ =~= spec_encode_response(resp@));
            }
            Ok(out)
        },
    }
}

/// Relies on `String::from_utf8`: succeeds exactly on valid UTF-8, and then
/// returns the string those bytes encode.
#[verifier::external_body]
fn string_from_utf8(v: Vec<u8>) -> (r: Option<String>)
    ensures
        r is Some <==> valid_utf8(v@),
        r matches Some(s) ==> s@ == decode_utf8(v@),
{
    String::from_utf8(v).ok()
}

/// Read one string field at offset `i`: the string and the offset after it,
/// or `None` when the field is incomplete or not valid UTF-8.
fn read_string(b: &Vec<u8>, i: usize) -> (r: Option<(String, usize)>)
    requires
        i <= b@.len(),
    ensures
        match r {
            Some(sj) => take_string(b@.skip(i as int)) == Some((sj.0@, b@.skip(sj.1 as int)))
                && i + 2 <= sj.1 <= b@.len(),
            None => take_string(b@.skip(i as int)) is None,
        },
{
    let remaining = b.len() - i;
    if remaining < 2 {
        return None;
    }
    let l: usize = (b[i] as usize) * 256 + (b[i + 1] as usize);
    proof {
        assert(b@.skip(i as int)[0] == b@[i as int] && b@.skip(i as int)[1] == b@[i as int + 1]);
        assert(l == be16_value(b@[i as int], b@[i as int + 1]));
    }
    if remaining - 2 < l {
        return None;
    }
    let end = i + 2 + l;
    let mut field: Vec<u8> = Vec::new();
    let mut k: usize = i + 2;
    while k < end
        invariant
            end == i + 2 + l,
            i + 2 <= k <= end,
            end <= b@.len(),
            field@ == b@.subrange(i as int + 2, k as int),
        decreases end - k,
    {
        field.push(b[k]);
        proof {
            assert(field@ =~= b@.subrange(i as int + 2, k as int + 1));
        }
        k += 1;
    }
    proof {
        assert(field@ =~= b@.skip(i as int).subrange(2, 2 + l as int));
    }
    match string_from_utf8(field) {
        Some(s) => {
            proof {
                assert(b@.skip(i as int + 2 + l as int) =~= b@.skip(i as int).skip(2 + l as int));
            }
            Some((s, i + 2 + l))
        },
        None => None,
    }
}

/// Read a list of `n` string fields at offset `i`: the strings and the
/// offset after them, or `None` when some field is incomplete or invalid.
fn read_string_list(b: &Vec<u8>, i: usize, n: usize) -> (r: Option<(Vec<String>, usize)>)
    requires
        i <= b@.len(),
    ensures
        match r {
            Some(lr) => take_string_list(b@.skip(i as int), n as nat) == Some((
                lr.0.deep_view(),
                b@.skip(lr.1 as int),
            )) && i <= lr.1 <= b@.len(),
            None => take_string_list(b@.skip(i as int), n as nat) is None,
        },
{
    let mut items: Vec<String> = Vec::new();
    let mut cur = i;
    let mut k: usize = 0;
    proof {
        assert(items.deep_view() =~= Seq::<Seq<char>>::empty());
    }
    while k < n
        invariant
            k <= n,
            i <= cur <= b@.len(),
            ({
                let whole = take_string_list(b@.skip(i as int), n as nat);
                match take_string_list(b@.skip(cur as int), (n - k) as nat) {
                    Some(lr) => whole == Some::<(Seq<Seq<char>>, Seq<u8>)>(
                        (items.deep_view() + lr.0, lr.1),
                    ),
                    None => whole is None,
                }
            }),
        decreases n - k,
    {
        let ghost pre_items = items.deep_view();
        match read_string(b, cur) {
            Some((s, nx)) => {
                proof {
                    let step = take_string_list(b@.skip(cur as int), (n - k) as nat);
                    assert(take_string(b@.skip(cur as int)) == Some((s@, b@.skip(nx as int))));
                    match take_string_list(b@.skip(nx as int), (n - k - 1) as nat) {
                        Some(lr2) => {
                            assert(step == Some::<(Seq<Seq<char>>, Seq<u8>)>(
                                (seq![s@] + lr2.0, lr2.1),
                            ));
                            assert(pre_items + (seq![s@] + lr2.0) =~= pre_items.push(s@) + lr2.0);
                        },
                        None => {
                            assert(step is None);
                        },
                    }
                }
                items.push(s);
                proof {
                    assert(items.deep_view() =~= pre_items.push(s@));
                }
                cur = nx;
                k += 1;
            },
            None => {
                return None;
            },
        }
    }
    Some((items, cur))
}

/// Decode one received payload as a request. Fails with a `Serialization`
/// error naming the request direction exactly when the payload is not the
/// encoding of any request.
pub fn decode_request(payload: &Bytes) -> (r: Result<ProtocolRequest, ChannelError>)
    ensures
        match r {
            Ok(req) => spec_decode_request(bytes_contents(*payload)) == Some(req@),
            Err(e) => spec_decode_request(bytes_contents(*payload)) is None && (e
                matches ChannelError::Serialization { direction, .. } && direction
                == Direction::Request),
        },
{
    let b = bytes_to_vec(payload);
    if b.len() < 1 {
        return Err(decode_error(Direction::Request));
    }
    if b[0] != REQUEST_TAG {
        return Err(decode_error(Direction::Request));
    }
    match read_string(&b, 1) {
        None => Err(decode_error(Direction::Request)),
        Some((op, j)) => {
            if b.len() - j < 2 {
                return Err(decode_error(Direction::Request));
            }
            let n: usize = (b[j] as usize) * 256 + (b[j + 1] as usize);
            proof {
                let rest = b@.skip(j as int);
                assert(rest[0] == b@[j as int] && rest[1] == b@[j as int + 1]);
                assert(n == be16_value(rest[0], rest[1]));
                assert(rest.skip(2) =~= b@.skip(j as int + 2));
            }
            match read_string_list(&b, j + 2, n) {
                None => Err(decode_error(Direction::Request)),
                Some((params, end)) => {
                    if end != b.len() {
                        proof {
                            assert(b@.skip(end as int).len() > 0);
                        }
                        return Err(decode_error(Direction::Request));
                    }
                    proof {
                        assert(b@.skip(end as int).len() == 0);
                    }
                    Ok(ProtocolRequest { op, params })
                },
            }
        },
    }
}

/// Decode one received payload as a response. Fails with a `Serialization`
/// error naming the response direction exactly when the payload is not the
/// encoding of any response.
pub fn decode_response(payload: &Bytes) -> (r: Result<ProtocolResponse, ChannelError>)
    ensures
        match r {
            Ok(resp) => spec_decode_response(bytes_contents(*payload)) == Some(resp@),
            Err(e) => spec_decode_response(bytes_contents(*payload)) is None && (e
                matches ChannelError::Serialization { direction, .. } && direction
                == Direction::Response),
        },
{
    let b = bytes_to_vec(payload);
    if b.len() < 1 {
        return Err(decode_error(Direction::Response));
    }
    let tag = b[0];
    if tag == SUCCESS_TAG {
        if b.len() == 1 {
            Ok(ProtocolResponse::Success)
        } else {
            Err(decode_error(Direction::Response))
        }
    } else if tag == ERROR_TAG {
        match read_string(&b, 1) {
            None => Err(decode_error(Direction::Response)),
            Some((message, j)) => {
                if j != b.len() {
                    proof {
                        assert(b@.skip(j as int).len() > 0);
                    }
                    return Err(decode_error(Direction::Response));
                }
                proof {
                    assert(b@.skip(j as int).len() == 0);
                }
                Ok(ProtocolResponse::Error { message })
            },
        }
    } else if tag == DATA_TAG {
        if b.len() < 3 {
            return Err(decode_error(Direction::Response));
        }
        let n: usize = (b[1] as usize) * 256 + (b[2] as usize);
        proof {
            assert(n == be16_value(b@[1], b@[2]));
        }
        match read_string_list(&b, 3, n) {
            None => Err(decode_error(Direction::Response)),
            Some((items, end)) => {
                if end != b.len() {
                    proof {
                        assert(b@.skip(end as int).len() > 0);
                    }
                    return Err(decode_error(Direction::Response));
                }
                proof {
                    assert(b@.skip(end as int).len() == 0);
                }
                Ok(ProtocolResponse::Data { items })
            },
        }
    } else {
        Err(decode_error(Direction::Response))
    }
}

} // verus!
