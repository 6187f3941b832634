//! The frames that requests and responses travel in.
//!
//! A request is one byte with the length of its key, the key in ASCII, four bytes with the
//! length of its body (big-endian), and the body. A response is one status byte, four bytes
//! with the length of its body (big-endian), and the body.
use vstd::prelude::*;

use crate::error;
use crate::error::{ErrorView, ScaffoldingError};
use crate::models::protocol::{ProtocolRequest, ProtocolResponse, RequestView, ResponseView};
use crate::text;

verus! {

// ---------------------------------------------------------------------------------------
// The format
// ---------------------------------------------------------------------------------------
/// A character as one ASCII byte; a question mark stands in for what is not ASCII.
pub open spec fn ascii_byte(c: char) -> u8 {
    if c <= '\u{7f}' {
        c as u8
    } else {
        63u8
    }
}

/// A text as ASCII bytes, one for each character.
pub open spec fn ascii(s: Seq<char>) -> Seq<u8> {
    s.map_values(|c: char| ascii_byte(c))
}

/// A number as four bytes, most significant first; what does not fit is cut off.
pub open spec fn big_endian(n: nat) -> Seq<u8> {
    seq![
        (n / 0x100_0000 % 0x100) as u8,
        (n / 0x1_0000 % 0x100) as u8,
        (n / 0x100 % 0x100) as u8,
        (n % 0x100) as u8,
    ]
}

/// The number that four bytes stand for, most significant first.
pub open spec fn big_endian_value(bytes: Seq<u8>) -> nat {
    (bytes[0] as nat) * 0x100_0000 + (bytes[1] as nat) * 0x1_0000 + (bytes[2] as nat) * 0x100 + (
    bytes[3] as nat)
}

/// The frame of a request.
pub open spec fn request_frame(request: RequestView) -> Seq<u8> {
    let key = ascii(request.key());
    seq![(key.len() % 0x100) as u8] + key + big_endian(request.body.len()) + request.body
}

/// The frame of a response.
pub open spec fn response_frame(response: ResponseView) -> Seq<u8> {
    seq![response.status] + big_endian(response.body.len()) + response.body
}

/// The error for bytes that end before `count` more could be read.
pub open spec fn ended_early(count: nat, left: nat) -> ErrorView {
    ErrorView::Protocol(
        "流提前结束: 期望读取 "@ + text::decimal(count) + " 字节，实际读取 "@ + text::decimal(left)
            + " 字节"@,
    )
}

/// The two halves of a key, split at its first colon.
pub open spec fn split_key(key: Seq<char>) -> Result<(Seq<char>, Seq<char>), ErrorView> {
    let colon = text::first_from(key, ':', 0);
    if colon < key.len() {
        Ok((key.subrange(0, colon), key.skip(colon + 1)))
    } else {
        Err(ErrorView::Protocol("无效的请求类型格式: "@ + key))
    }
}

/// What a sequence of bytes holds that begins with a request frame. Bytes behind the frame
/// are not looked at.
pub open spec fn parsed_request(bytes: Seq<u8>) -> Result<RequestView, ErrorView> {
    let size = bytes.len();
    if size < 1 {
        Err(ended_early(1, 0))
    } else {
        let key_size = bytes[0] as nat;
        if size < 1 + key_size {
            Err(ended_early(key_size, (size - 1) as nat))
        } else if size < 5 + key_size {
            Err(ended_early(4, (size - 1 - key_size) as nat))
        } else {
            let body_at = 5 + key_size as int;
            let body_size = big_endian_value(bytes.subrange(body_at - 4, body_at));
            if size < body_at + body_size {
                Err(ended_early(body_size, (size - body_at) as nat))
            } else {
                match split_key(text::lossy_text(bytes.subrange(1, 1 + key_size as int))) {
                    Ok((namespace, request_type)) => Ok(
                        RequestView {
                            namespace,
                            request_type,
                            body: bytes.subrange(body_at, body_at + body_size),
                        },
                    ),
                    Err(error) => Err(error),
                }
            }
        }
    }
}

/// What a sequence of bytes holds that begins with a response frame. Bytes behind the frame
/// are not looked at.
pub open spec fn parsed_response(bytes: Seq<u8>) -> Result<ResponseView, ErrorView> {
    let size = bytes.len();
    if size < 1 {
        Err(ended_early(1, 0))
    } else if size < 5 {
        Err(ended_early(4, (size - 1) as nat))
    } else {
        let body_size = big_endian_value(bytes.subrange(1, 5));
        if size < 5 + body_size {
            Err(ended_early(body_size, (size - 5) as nat))
        } else {
            Ok(ResponseView { status: bytes[0], body: bytes.subrange(5, 5 + body_size as int) })
        }
    }
}

// ---------------------------------------------------------------------------------------
// Writing frames
// ---------------------------------------------------------------------------------------
fn ascii_bytes(chars: &Vec<char>) -> (bytes: Vec<u8>)
    ensures
        bytes@ == ascii(chars@),
{
    let mut bytes: Vec<u8> = Vec::new();
    for i in 0..chars.len()
        invariant
            bytes@ == ascii(chars@.take(i as int)),
    {
        let c = chars[i];
        if c <= '\u{7f}' {
            bytes.push(c as u8);
        } else {
            bytes.push(63u8);
        }
        assert(bytes@ =~= ascii(chars@.take(i + 1)));
    }
    assert(chars@.take(chars@.len() as int) =~= chars@);
    bytes
}

fn push_size(frame: &mut Vec<u8>, size: usize)
    ensures
        final(frame)@ == old(frame)@ + big_endian(size as nat),
{
    let n: u64 = size as u64;
    frame.push((n / 0x100_0000 % 0x100) as u8);
    frame.push((n / 0x1_0000 % 0x100) as u8);
    frame.push((n / 0x100 % 0x100) as u8);
    frame.push((n % 0x100) as u8);
    assert(frame@ =~= old(frame)@ + big_endian(size as nat));
}

/// The frame of a request.
pub fn serialize_request(request: &ProtocolRequest) -> (frame: Vec<u8>)
    ensures
        frame@ == request_frame(request@),
{
    let key = ascii_bytes(&text::chars_of(request.key().as_str()));
    let mut frame: Vec<u8> = Vec::new();
    frame.push((key.len() % 0x100) as u8);
    frame.extend_from_slice(key.as_slice());
    push_size(&mut frame, request.body.len());
    frame.extend_from_slice(request.body.as_slice());
    assert(frame@ =~= request_frame(request@));
    frame
}

/// The frame of a response.
pub fn serialize_response(response: &ProtocolResponse) -> (frame: Vec<u8>)
    ensures
        frame@ == response_frame(response@),
{
    let mut frame: Vec<u8> = Vec::new();
    frame.push(response.status);
    push_size(&mut frame, response.body.len());
    frame.extend_from_slice(response.body.as_slice());
    assert(frame@ =~= response_frame(response@));
    frame
}

// ---------------------------------------------------------------------------------------
// Reading frames
// ---------------------------------------------------------------------------------------
fn ended_early_error(count: u64, left: usize) -> (error: ScaffoldingError)
    ensures
        error@ == ended_early(count as nat, left as nat),
{
    let mut message = text::concat("流提前结束: 期望读取 ", text::decimal_text(count).as_str());
    message.append(" 字节，实际读取 ");
    message.append(text::decimal_text(left as u64).as_str());
    message.append(" 字节");
    ScaffoldingError::Protocol(message)
}

/// Reads `count` bytes at `offset` and moves the offset behind them.
fn read_exact(bytes: &[u8], offset: &mut usize, count: u64) -> (read: Result<
    Vec<u8>,
    ScaffoldingError,
>)
    requires
        *old(offset) <= bytes@.len(),
    ensures
        match read {
            Ok(part) => {
                &&& *old(offset) + count <= bytes@.len()
                &&& part@ == bytes@.subrange(*old(offset) as int, *old(offset) + count)
                &&& *final(offset) == *old(offset) + count
            },
            Err(error) => {
                &&& *old(offset) + count > bytes@.len()
                &&& error@ == ended_early(count as nat, (bytes@.len() - *old(offset)) as nat)
                &&& *final(offset) == *old(offset)
            },
        },
{
    let size: usize = bytes.len();
    let start: usize = *offset;
    if ((size - start) as u64) < count {
        return Err(ended_early_error(count, size - start));
    }
    let end: usize = start + count as usize;
    let mut part: Vec<u8> = Vec::new();
    let mut i: usize = start;
    while i < end
        invariant
            start <= i <= end <= bytes@.len(),
            part@ == bytes@.subrange(start as int, i as int),
        decreases end - i,
    {
        part.push(bytes[i]);
        i += 1;
    }
    *offset = end;
    Ok(part)
}

fn size_at(received: &[u8], at: usize) -> (size: u32)
    requires
        at + 4 <= received@.len(),
    ensures
        size == big_endian_value(received@.subrange(at as int, at + 4)),
{
    (received[at] as u32) * 0x100_0000 + (received[at + 1] as u32) * 0x1_0000 + (received[at
        + 2] as u32) * 0x100 + (received[at + 3] as u32)
}

/// Splits a key at its first colon.
fn split_type_str(key: &str) -> (halves: Result<(String, String), ScaffoldingError>)
    ensures
        match halves {
            Ok(pair) => split_key(key@) == Ok::<(Seq<char>, Seq<char>), ErrorView>((pair.0@, pair.1@)),
            Err(error) => split_key(key@) == Err::<(Seq<char>, Seq<char>), ErrorView>(error@),
        },
{
    let chars = text::chars_of(key);
    let colon: usize = text::find_from(&chars, ':', 0);
    if colon < chars.len() {
        let namespace = text::string_between(&chars, 0, colon);
        let request_type = text::string_between(&chars, colon + 1, chars.len());
        assert(request_type@ =~= key@.skip(colon + 1));
        Ok((namespace, request_type))
    } else {
        Err(ScaffoldingError::Protocol(text::concat("无效的请求类型格式: ", key)))
    }
}

/// The request at the beginning of `bytes`. A complete frame is accepted exactly where its key
/// holds the byte of a colon, whatever else the key holds.
pub fn parse_request(bytes: &[u8]) -> (request: Result<ProtocolRequest, ScaffoldingError>)
    ensures
        error::outcome(request) == parsed_request(bytes@),
        request_wants(bytes@) == 0 ==> (request is Ok <==> bytes@.subrange(
            1,
            1 + bytes@[0] as int,
        ).contains(58u8)),
{
    let mut offset: usize = 0;
    let key_size: u8 = match read_exact(bytes, &mut offset, 1) {
        Ok(part) => part[0],
        Err(error) => return Err(error),
    };
    let key_bytes = match read_exact(bytes, &mut offset, key_size as u64) {
        Ok(part) => part,
        Err(error) => return Err(error),
    };
    let size_bytes = match read_exact(bytes, &mut offset, 4) {
        Ok(part) => part,
        Err(error) => return Err(error),
    };
    let body_size: u32 = size_at(size_bytes.as_slice(), 0);
    assert(size_bytes@.subrange(0, 4) =~= size_bytes@);
    let body = match read_exact(bytes, &mut offset, body_size as u64) {
        Ok(part) => part,
        Err(error) => return Err(error),
    };
    let key = text::lossy_string(key_bytes.as_slice());
    proof {
        text::ascii_is_kept(key@, key_bytes@, 58u8);
        text::first_is_a_place(key@, ':', 0);
        assert(58u8 as char == ':');
    }
    match split_type_str(key.as_str()) {
        Ok((namespace, request_type)) => Ok(ProtocolRequest { namespace, request_type, body }),
        Err(error) => Err(error),
    }
}

/// The response at the beginning of `bytes`.
pub fn parse_response(bytes: &[u8]) -> (response: Result<ProtocolResponse, ScaffoldingError>)
    ensures
        error::outcome(response) == parsed_response(bytes@),
{
    let mut offset: usize = 0;
    let status: u8 = match read_exact(bytes, &mut offset, 1) {
        Ok(part) => part[0],
        Err(error) => return Err(error),
    };
    let size_bytes = match read_exact(bytes, &mut offset, 4) {
        Ok(part) => part,
        Err(error) => return Err(error),
    };
    let body_size: u32 = size_at(size_bytes.as_slice(), 0);
    assert(size_bytes@.subrange(0, 4) =~= size_bytes@);
    let body = match read_exact(bytes, &mut offset, body_size as u64) {
        Ok(part) => part,
        Err(error) => return Err(error),
    };
    Ok(ProtocolResponse { status, body })
}

// ---------------------------------------------------------------------------------------
// Reading frames from a stream
// ---------------------------------------------------------------------------------------
/// How many more bytes a stream has to deliver before the next decision on a request can be
/// made: the key's length first, then the key, the body's length and the body. Zero once the
/// frame is complete.
pub open spec fn request_wants(received: Seq<u8>) -> nat {
    let size = received.len();
    if size < 1 {
        1
    } else {
        let key_end = 1 + received[0] as nat;
        if size < key_end {
            (key_end - size) as nat
        } else if size < key_end + 4 {
            (key_end + 4 - size) as nat
        } else {
            let frame_end = key_end + 4 + big_endian_value(
                received.subrange(key_end as int, key_end as int + 4),
            );
            if size < frame_end {
                (frame_end - size) as nat
            } else {
                0
            }
        }
    }
}

/// How many more bytes a stream has to deliver before the next decision on a response can be
/// made: the status first, then the body's length and the body. Zero once the frame is
/// complete.
pub open spec fn response_wants(received: Seq<u8>) -> nat {
    let size = received.len();
    if size < 1 {
        1
    } else if size < 5 {
        (5 - size) as nat
    } else {
        let frame_end = 5 + big_endian_value(received.subrange(1, 5));
        if size < frame_end {
            (frame_end - size) as nat
        } else {
            0
        }
    }
}

fn wants_up_to(received: &[u8], end: u64) -> (count: u64)
    ensures
        count == (if received@.len() < end {
            end - received@.len()
        } else {
            0
        }),
{
    let size: u64 = received.len() as u64;
    if size < end {
        end - size
    } else {
        0
    }
}

/// How many bytes to read next from a stream that delivers a request, given what it has
/// delivered so far. Zero says that the request is complete.
pub fn request_bytes_wanted(received: &[u8]) -> (count: u64)
    ensures
        count == request_wants(received@),
{
    if received.len() == 0 {
        return 1;
    }
    let key_end: usize = 1 + received[0] as usize;
    if received.len() < key_end {
        return wants_up_to(received, key_end as u64);
    }
    if received.len() < key_end + 4 {
        return wants_up_to(received, key_end as u64 + 4);
    }
    wants_up_to(received, key_end as u64 + 4 + size_at(received, key_end) as u64)
}

/// How many bytes to read next from a stream that delivers a response, given what it has
/// delivered so far. Zero says that the response is complete.
pub fn response_bytes_wanted(received: &[u8]) -> (count: u64)
    ensures
        count == response_wants(received@),
{
    if received.len() == 0 {
        return 1;
    }
    if received.len() < 5 {
        return wants_up_to(received, 5);
    }
    wants_up_to(received, 5 + size_at(received, 1) as u64)
}

/// The error for a stream that ended where `count` more bytes were wanted.
pub fn stream_ended(count: u64) -> (error: ScaffoldingError)
    ensures
        error@ == ErrorView::Protocol(
            "流提前结束: 期望读取 "@ + text::decimal(count as nat) + " 字节"@,
        ),
{
    let mut message = text::concat("流提前结束: 期望读取 ", text::decimal_text(count).as_str());
    message.append(" 字节");
    ScaffoldingError::Protocol(message)
}

/// The error for a stream that could not be read, with the reason.
pub fn stream_failed(reason: &str) -> (error: ScaffoldingError)
    ensures
        error@ == ErrorView::Protocol("读取流失败: "@ + reason@),
{
    ScaffoldingError::Protocol(text::concat("读取流失败: ", reason))
}

// ---------------------------------------------------------------------------------------
// Laws
// ---------------------------------------------------------------------------------------
/// Whether the header of a request's frame can describe the request: the key is at most 255
/// characters and the body at most `u32::MAX` bytes long.
pub open spec fn request_fits(request: RequestView) -> bool {
    request.key().len() <= u8::MAX && request.body.len() <= u32::MAX
}

/// A length survives its four bytes.
proof fn big_endian_roundtrip(n: nat)
    requires
        n <= u32::MAX,
    ensures
        big_endian_value(big_endian(n)) == n,
{
    let high = n / 0x1_0000;
    let low = n % 0x1_0000;
    assert(n == high * 0x1_0000 + low && high < 0x1_0000 && low < 0x1_0000);
    assert(n / 0x100_0000 == high / 0x100);
    assert(high / 0x100 < 0x100 && high == high / 0x100 * 0x100 + high % 0x100);
    assert(n / 0x100 == high * 0x100 + low / 0x100);
    assert((high * 0x100 + low / 0x100) % 0x100 == low / 0x100);
    assert(n % 0x100 == low % 0x100);
    assert(low == low / 0x100 * 0x100 + low % 0x100);
}

/// The places of a request's frame.
proof fn request_frame_parts(request: RequestView)
    requires
        request_fits(request),
    ensures
        ({
            let frame = request_frame(request);
            let key_end = 1 + request.key().len() as int;
            &&& frame.len() == key_end + 4 + request.body.len()
            &&& frame[0] == request.key().len()
            &&& frame.subrange(1, key_end) == ascii(request.key())
            &&& frame.subrange(key_end, key_end + 4) == big_endian(request.body.len())
            &&& frame.subrange(key_end + 4, frame.len() as int) == request.body
            &&& big_endian_value(big_endian(request.body.len())) == request.body.len()
        }),
{
    let frame = request_frame(request);
    let key_end = 1 + request.key().len() as int;
    big_endian_roundtrip(request.body.len());
    assert(frame.subrange(1, key_end) =~= ascii(request.key()));
    assert(frame.subrange(key_end, key_end + 4) =~= big_endian(request.body.len()));
    assert(frame.subrange(key_end + 4, frame.len() as int) =~= request.body);
}

/// Reading a request's frame gives the request back, whatever follows the frame, where the
/// frame's header can describe it, its key is ASCII and its namespace holds no colon.
pub proof fn request_roundtrip(request: RequestView, rest: Seq<u8>)
    requires
        request_fits(request),
        vstd::utf8::is_ascii_chars(request.key()),
        !request.namespace.contains(':'),
    ensures
        parsed_request(request_frame(request) + rest) == Ok::<RequestView, ErrorView>(request),
{
    let frame = request_frame(request);
    let bytes = frame + rest;
    let key = request.key();
    let key_end = 1 + key.len() as int;
    request_frame_parts(request);
    assert(bytes.subrange(1, key_end) =~= frame.subrange(1, key_end));
    assert(bytes.subrange(key_end, key_end + 4) =~= frame.subrange(key_end, key_end + 4));
    assert(bytes.subrange(key_end + 4, frame.len() as int) =~= request.body);
    vstd::utf8::is_ascii_chars_encode_utf8(key);
    assert(ascii(key) =~= vstd::utf8::encode_utf8(key)) by {
        assert forall|i: int| 0 <= i < key.len() implies ascii(key)[i] == vstd::utf8::encode_utf8(
            key,
        )[i] by {
            assert('\0' <= key[i] <= '\u{7f}');
        }
    }
    vstd::utf8::encode_utf8_valid_utf8(key);
    vstd::utf8::encode_utf8_decode_utf8(key);
    let colon = request.namespace.len() as int;
    assert forall|j: int| 0 <= j < colon implies key[j] != ':' by {
        assert(request.namespace.contains(request.namespace[j]));
    }
    text::first_is(key, ':', 0, colon);
    assert(key.subrange(0, colon) =~= request.namespace);
    assert(key.skip(colon + 1) =~= request.request_type);
}

/// Reading a response's frame gives the response back, whatever follows the frame, where four
/// bytes can hold the length of its body.
pub proof fn response_roundtrip(response: ResponseView, rest: Seq<u8>)
    requires
        response.body.len() <= u32::MAX,
    ensures
        parsed_response(response_frame(response) + rest) == Ok::<ResponseView, ErrorView>(response),
{
    let bytes = response_frame(response) + rest;
    let size = response.body.len();
    big_endian_roundtrip(size);
    assert(bytes.subrange(1, 5) =~= big_endian(size));
    assert(bytes.subrange(5, 5 + size as int) =~= response.body);
}

/// Whoever reads a request from a stream never asks for a byte behind the frame, and is done
/// exactly at the frame's end.
pub proof fn request_reader_keeps_to_the_frame(request: RequestView, received: nat)
    requires
        request_fits(request),
        received <= request_frame(request).len(),
    ensures
        ({
            let frame = request_frame(request);
            let wants = request_wants(frame.take(received as int));
            &&& received + wants <= frame.len()
            &&& wants == 0 <==> received == frame.len()
        }),
{
    let frame = request_frame(request);
    let part = frame.take(received as int);
    let key_end = 1 + request.key().len() as int;
    request_frame_parts(request);
    if received >= 1 {
        assert(part[0] == frame[0]);
    }
    if received >= key_end + 4 {
        assert(part.subrange(key_end, key_end + 4) =~= frame.subrange(key_end, key_end + 4));
    }
}

/// Whoever reads a response from a stream never asks for a byte behind the frame, and is done
/// exactly at the frame's end.
pub proof fn response_reader_keeps_to_the_frame(response: ResponseView, received: nat)
    requires
        response.body.len() <= u32::MAX,
        received <= response_frame(response).len(),
    ensures
        ({
            let frame = response_frame(response);
            let wants = response_wants(frame.take(received as int));
            &&& received + wants <= frame.len()
            &&& wants == 0 <==> received == frame.len()
        }),
{
    let frame = response_frame(response);
    let part = frame.take(received as int);
    big_endian_roundtrip(response.body.len());
    if received >= 5 {
        assert(part.subrange(1, 5) =~= big_endian(response.body.len()));
    }
}

/// Bytes hold a whole request exactly when no more are wanted: then further bytes change
/// nothing, and before that reading them reports that they ended early.
pub proof fn request_is_read_when_complete(received: Seq<u8>, more: Seq<u8>)
    ensures
        request_wants(received) == 0 ==> parsed_request(received + more) == parsed_request(
            received,
        ),
        request_wants(received) > 0 ==> exists|count: nat, left: nat|
            left < count && parsed_request(received) == Err::<RequestView, ErrorView>(
                #[trigger] ended_early(count, left),
            ),
{
    let size = received.len();
    if request_wants(received) == 0 {
        let key_end = 1 + received[0] as int;
        let all = received + more;
        assert(all[0] == received[0]);
        assert(all.subrange(1, key_end) =~= received.subrange(1, key_end));
        assert(all.subrange(key_end, key_end + 4) =~= received.subrange(key_end, key_end + 4));
        let frame_end = key_end + 4 + big_endian_value(received.subrange(key_end, key_end + 4));
        assert(all.subrange(key_end + 4, frame_end) =~= received.subrange(key_end + 4, frame_end));
    } else if size < 1 {
        assert(parsed_request(received) == Err::<RequestView, ErrorView>(ended_early(1, 0)));
    } else {
        let key_end = 1 + received[0] as int;
        if size < key_end {
            assert(parsed_request(received) == Err::<RequestView, ErrorView>(
                ended_early(received[0] as nat, (size - 1) as nat),
            ));
        } else if size < key_end + 4 {
            assert(parsed_request(received) == Err::<RequestView, ErrorView>(
                ended_early(4, (size - key_end) as nat),
            ));
        } else {
            let body_size = big_endian_value(received.subrange(key_end, key_end + 4));
            assert(parsed_request(received) == Err::<RequestView, ErrorView>(
                ended_early(body_size, (size - key_end - 4) as nat),
            ));
        }
    }
}

/// Bytes hold a whole response exactly when no more are wanted: then reading them succeeds and
/// further bytes change nothing, and before that reading them reports that they ended early.
pub proof fn response_is_read_when_complete(received: Seq<u8>, more: Seq<u8>)
    ensures
        response_wants(received) == 0 <==> parsed_response(received) is Ok,
        response_wants(received) == 0 ==> parsed_response(received + more) == parsed_response(
            received,
        ),
{
    if response_wants(received) == 0 {
        let all = received + more;
        let frame_end = 5 + big_endian_value(received.subrange(1, 5)) as int;
        assert(all.subrange(1, 5) =~= received.subrange(1, 5));
        assert(all.subrange(5, frame_end) =~= received.subrange(5, frame_end));
    }
}

/// How a request travels, byte by byte: the length of the key, the key with a question mark in
/// place of what is not ASCII, the length of the body in four bytes of which the first counts
/// most, and the body.
pub proof fn request_travels_byte_by_byte(request: RequestView)
    requires
        request_fits(request),
    ensures
        ({
            let frame = request_frame(request);
            let key = request.key();
            let at = 1 + key.len() as int;
            &&& frame.len() == at + 4 + request.body.len()
            &&& frame[0] == key.len()
            &&& forall|i: int|
                0 <= i < key.len() ==> frame[1 + i] == if (#[trigger] key[i]) <= '\u{7f}' {
                    key[i] as u8
                } else {
                    63u8
                }
            &&& frame[at] * 0x100_0000 + frame[at + 1] * 0x1_0000 + frame[at + 2] * 0x100 + frame[at
                + 3] == request.body.len()
            &&& forall|i: int|
                0 <= i < request.body.len() ==> frame[at + 4 + i] == #[trigger] request.body[i]
        }),
{
    let frame = request_frame(request);
    let key = request.key();
    let at = 1 + key.len() as int;
    request_frame_parts(request);
    let size = frame.subrange(at, at + 4);
    assert(size[0] == frame[at] && size[1] == frame[at + 1] && size[2] == frame[at + 2] && size[3]
        == frame[at + 3]);
    assert forall|i: int| 0 <= i < key.len() implies frame[1 + i] == if (#[trigger] key[i])
        <= '\u{7f}' {
        key[i] as u8
    } else {
        63u8
    } by {
        assert(frame.subrange(1, at)[i] == ascii(key)[i]);
    }
}

/// How a response travels, byte by byte: its status, the length of its body in four bytes of
/// which the first counts most, and the body.
pub proof fn response_travels_byte_by_byte(response: ResponseView)
    requires
        response.body.len() <= u32::MAX,
    ensures
        ({
            let frame = response_frame(response);
            &&& frame.len() == 5 + response.body.len()
            &&& frame[0] == response.status
            &&& frame[1] * 0x100_0000 + frame[2] * 0x1_0000 + frame[3] * 0x100 + frame[4]
                == response.body.len()
            &&& forall|i: int|
                0 <= i < response.body.len() ==> frame[5 + i] == #[trigger] response.body[i]
        }),
{
    let frame = response_frame(response);
    big_endian_roundtrip(response.body.len());
    assert(frame.subrange(1, 5) =~= big_endian(response.body.len()));
}

/// What is read from bytes as a request stands there, byte by byte: behind the first byte as many
/// bytes of the key as it says, then the length of the body in four bytes, and the body. The
/// key is cut at its first colon.
pub proof fn request_is_read_byte_by_byte(bytes: Seq<u8>)
    ensures
        parsed_request(bytes) matches Ok(request) ==> {
            let at = 1 + bytes[0] as int;
            &&& bytes.len() >= at + 4 + request.body.len()
            &&& request.body.len() == bytes[at] * 0x100_0000 + bytes[at + 1] * 0x1_0000 + bytes[at
                + 2] * 0x100 + bytes[at + 3]
            &&& forall|i: int|
                0 <= i < request.body.len() ==> #[trigger] request.body[i] == bytes[at + 4 + i]
            &&& request.key() == text::lossy_text(bytes.subrange(1, at))
            &&& !request.namespace.contains(':')
        },
{
    if let Ok(request) = parsed_request(bytes) {
        let at = 1 + bytes[0] as int;
        let size = bytes.subrange(at, at + 4);
        assert(size[0] == bytes[at] && size[1] == bytes[at + 1] && size[2] == bytes[at + 2]
            && size[3] == bytes[at + 3]);
        let key = text::lossy_text(bytes.subrange(1, at));
        text::first_is_a_place(key, ':', 0);
        let colon = text::first_from(key, ':', 0);
        assert(request.namespace =~= key.take(colon));
        assert(request.key() =~= key);
        assert forall|i: int| 0 <= i < request.namespace.len() implies request.namespace[i] != ':'
            by {
            assert(request.namespace[i] == key[i]);
        }
    }
}

/// What is read from bytes as a response stands there, byte by byte: the status, the length of
/// the body in four bytes, and the body.
pub proof fn response_is_read_byte_by_byte(bytes: Seq<u8>)
    ensures
        parsed_response(bytes) matches Ok(response) ==> {
            &&& bytes.len() >= 5 + response.body.len()
            &&& response.status == bytes[0]
            &&& response.body.len() == bytes[1] * 0x100_0000 + bytes[2] * 0x1_0000 + bytes[3]
                * 0x100 + bytes[4]
            &&& forall|i: int|
                0 <= i < response.body.len() ==> #[trigger] response.body[i] == bytes[5 + i]
        },
{
    if let Ok(response) = parsed_response(bytes) {
        let size = bytes.subrange(1, 5);
        assert(size[0] == bytes[1] && size[1] == bytes[2] && size[2] == bytes[3] && size[3]
            == bytes[4]);
    }
}

/// Where bytes end too early, the error says how many were expected next and how many of those
/// are there: the difference is what a reader still wants.
pub proof fn missing_bytes_are_counted(bytes: Seq<u8>)
    ensures
        request_wants(bytes) > 0 ==> exists|count: nat, left: nat|
            count - left == request_wants(bytes) && parsed_request(bytes) == Err::<
                RequestView,
                ErrorView,
            >(#[trigger] ended_early(count, left)),
        response_wants(bytes) > 0 ==> exists|count: nat, left: nat|
            count - left == response_wants(bytes) && parsed_response(bytes) == Err::<
                ResponseView,
                ErrorView,
            >(#[trigger] ended_early(count, left)),
{
    let size = bytes.len();
    if request_wants(bytes) > 0 {
        if size < 1 {
            assert(parsed_request(bytes) == Err::<RequestView, ErrorView>(ended_early(1, 0)));
        } else {
            let key_end = 1 + bytes[0] as int;
            if size < key_end {
                assert(parsed_request(bytes) == Err::<RequestView, ErrorView>(
                    ended_early(bytes[0] as nat, (size - 1) as nat),
                ));
            } else if size < key_end + 4 {
                assert(parsed_request(bytes) == Err::<RequestView, ErrorView>(
                    ended_early(4, (size - key_end) as nat),
                ));
            } else {
                let body_size = big_endian_value(bytes.subrange(key_end, key_end + 4));
                assert(parsed_request(bytes) == Err::<RequestView, ErrorView>(
                    ended_early(body_size, (size - key_end - 4) as nat),
                ));
            }
        }
    }
    if response_wants(bytes) > 0 {
        if size < 1 {
            assert(parsed_response(bytes) == Err::<ResponseView, ErrorView>(ended_early(1, 0)));
        } else if size < 5 {
            assert(parsed_response(bytes) == Err::<ResponseView, ErrorView>(
                ended_early(4, (size - 1) as nat),
            ));
        } else {
            let body_size = big_endian_value(bytes.subrange(1, 5));
            assert(parsed_response(bytes) == Err::<ResponseView, ErrorView>(
                ended_early(body_size, (size - 5) as nat),
            ));
        }
    }
}

/// A key is cut at its first colon: what stands before it and behind it are the halves, whatever
/// they are. A key without a colon is refused.
pub proof fn key_is_cut_at_its_first_colon(head: Seq<char>, tail: Seq<char>)
    requires
        !head.contains(':'),
    ensures
        split_key(head.push(':') + tail) == Ok::<(Seq<char>, Seq<char>), ErrorView>((head, tail)),
        split_key(head) == Err::<(Seq<char>, Seq<char>), ErrorView>(
            ErrorView::Protocol("无效的请求类型格式: "@ + head),
        ),
{
    let key = head.push(':') + tail;
    assert forall|i: int| 0 <= i < head.len() implies head[i] != ':' by {
        assert(head.contains(head[i]));
    }
    assert forall|i: int| 0 <= i < head.len() implies key[i] != ':' by {
        assert(key[i] == head[i]);
    }
    text::first_is(key, ':', 0, head.len() as int);
    text::first_is(head, ':', 0, head.len() as int);
    assert(key.subrange(0, head.len() as int) =~= head);
    assert(key.skip(head.len() as int + 1) =~= tail);
}

} // verus!
