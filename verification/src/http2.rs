//! HTTP/2: connection settings, the nine-byte frame format, stream states,
//! and the literal header-field coding of HPACK.

use vstd::prelude::*;
use vstd::utf8::{encode_utf8, valid_utf8, decode_utf8};
use crate::error::{Error, Result};
use crate::headers::{HttpHeaders, HeaderList, set_field, distinct_names, key_index, lemma_key_index};
use crate::http::append_bytes;
use crate::text::{utf8_str, byte_range, str_to_string, concat_str};

verus! {

/// HTTP/2 specific structures
#[derive(Debug, Clone)]
pub struct Http2Settings {
    /// Header table size
    pub header_table_size: u32,
    /// Enable push
    pub enable_push: bool,
    /// Max concurrent streams
    pub max_concurrent_streams: u32,
    /// Initial window size
    pub initial_window_size: u32,
    /// Max frame size
    pub max_frame_size: u32,
    /// Max header list size
    pub max_header_list_size: u32,
}

/// HTTP/2 frame types
#[derive(Debug, Clone, Copy, PartialEq, Eq, Structural)]
pub enum Http2FrameType {
    Data,
    Headers,
    Priority,
    RstStream,
    Settings,
    PushPromise,
    Ping,
    Goaway,
    WindowUpdate,
    Continuation,
}

/// HTTP/2 frame
#[derive(Debug, Clone)]
pub struct Http2Frame {
    /// Frame length
    pub length: u32,
    /// Frame type
    pub frame_type: Http2FrameType,
    /// Frame flags
    pub flags: u8,
    /// Stream identifier
    pub stream_id: u32,
    /// Frame payload
    pub payload: Vec<u8>,
}

/// HTTP/2 stream
#[derive(Debug)]
pub struct Http2Stream {
    /// Stream ID
    pub id: u32,
    /// Stream state
    pub state: Http2StreamState,
    /// Stream priority
    pub priority: u8,
    /// Stream window size
    pub window_size: u32,
    /// Stream headers
    pub headers: HttpHeaders,
    /// Stream data
    pub data: Vec<u8>,
}

/// HTTP/2 stream states
#[derive(Debug, Clone, Copy, PartialEq, Eq, Structural)]
pub enum Http2StreamState {
    Idle,
    ReservedLocal,
    ReservedRemote,
    Open,
    HalfClosedLocal,
    HalfClosedRemote,
    Closed,
}

/// HPACK encoder/decoder
pub struct HpackCodec {
    /// Dynamic table
    pub dynamic_table: Vec<(String, String)>,
    /// Maximum table size
    pub max_table_size: usize,
    /// Current table size
    pub current_table_size: usize,
}

/// The code of a frame type on the wire.
pub open spec fn frame_type_code(t: Http2FrameType) -> u8 {
    match t {
        Http2FrameType::Data => 0,
        Http2FrameType::Headers => 1,
        Http2FrameType::Priority => 2,
        Http2FrameType::RstStream => 3,
        Http2FrameType::Settings => 4,
        Http2FrameType::PushPromise => 5,
        Http2FrameType::Ping => 6,
        Http2FrameType::Goaway => 7,
        Http2FrameType::WindowUpdate => 8,
        Http2FrameType::Continuation => 9,
    }
}

/// The frame type with a given code, if any.
pub open spec fn frame_type_from_code(c: u8) -> Option<Http2FrameType> {
    if c == 0 {
        Some(Http2FrameType::Data)
    } else if c == 1 {
        Some(Http2FrameType::Headers)
    } else if c == 2 {
        Some(Http2FrameType::Priority)
    } else if c == 3 {
        Some(Http2FrameType::RstStream)
    } else if c == 4 {
        Some(Http2FrameType::Settings)
    } else if c == 5 {
        Some(Http2FrameType::PushPromise)
    } else if c == 6 {
        Some(Http2FrameType::Ping)
    } else if c == 7 {
        Some(Http2FrameType::Goaway)
    } else if c == 8 {
        Some(Http2FrameType::WindowUpdate)
    } else if c == 9 {
        Some(Http2FrameType::Continuation)
    } else {
        None
    }
}

impl Http2FrameType {
    /// The code of this frame type on the wire.
    pub fn value(&self) -> (r: u8)
        ensures
            r == frame_type_code(*self),
    {
        match self {
            Http2FrameType::Data => 0,
            Http2FrameType::Headers => 1,
            Http2FrameType::Priority => 2,
            Http2FrameType::RstStream => 3,
            Http2FrameType::Settings => 4,
            Http2FrameType::PushPromise => 5,
            Http2FrameType::Ping => 6,
            Http2FrameType::Goaway => 7,
            Http2FrameType::WindowUpdate => 8,
            Http2FrameType::Continuation => 9,
        }
    }

    /// The frame type with a given code.
    pub fn from_value(c: u8) -> (r: Option<Http2FrameType>)
        ensures
            r == frame_type_from_code(c),
    {
        if c == 0 {
            Some(Http2FrameType::Data)
        } else if c == 1 {
            Some(Http2FrameType::Headers)
        } else if c == 2 {
            Some(Http2FrameType::Priority)
        } else if c == 3 {
            Some(Http2FrameType::RstStream)
        } else if c == 4 {
            Some(Http2FrameType::Settings)
        } else if c == 5 {
            Some(Http2FrameType::PushPromise)
        } else if c == 6 {
            Some(Http2FrameType::Ping)
        } else if c == 7 {
            Some(Http2FrameType::Goaway)
        } else if c == 8 {
            Some(Http2FrameType::WindowUpdate)
        } else if c == 9 {
            Some(Http2FrameType::Continuation)
        } else {
            None
        }
    }
}

impl Http2Settings {
    /// Create default HTTP/2 settings
    pub fn default() -> (r: Self)
        ensures
            r.header_table_size == 4096,
            r.enable_push,
            r.max_concurrent_streams == 100,
            r.initial_window_size == 65535,
            r.max_frame_size == 16384,
            r.max_header_list_size == 262144,
    {
        Self {
            header_table_size: 4096,
            enable_push: true,
            max_concurrent_streams: 100,
            initial_window_size: 65535,
            max_frame_size: 16384,
            max_header_list_size: 262144,
        }
    }
}

/// The nine header bytes of a frame: 24-bit length, type, flags, and the
/// 32-bit stream identifier, most significant byte first.
pub open spec fn frame_header_bytes(length: u32, t: Http2FrameType, flags: u8, stream_id: u32) -> Seq<u8> {
    seq![
        (length >> 16u32) as u8,
        (length >> 8u32) as u8,
        length as u8,
        frame_type_code(t),
        flags,
        (stream_id >> 24u32) as u8,
        (stream_id >> 16u32) as u8,
        (stream_id >> 8u32) as u8,
        stream_id as u8,
    ]
}

/// The 24-bit big-endian number in three bytes.
pub open spec fn be24(a: u8, b: u8, c: u8) -> u32 {
    ((a as u32) << 16u32) | ((b as u32) << 8u32) | (c as u32)
}

/// The 32-bit big-endian number in four bytes.
pub open spec fn be32(a: u8, b: u8, c: u8, d: u8) -> u32 {
    ((a as u32) << 24u32) | ((b as u32) << 16u32) | ((c as u32) << 8u32) | (d as u32)
}

/// Parsing a serialized frame gives back its length, type, flags, stream
/// identifier and payload, where the length fits the 24-bit field.
pub proof fn lemma_frame_roundtrip(length: u32, t: Http2FrameType, flags: u8, stream_id: u32, payload: Seq<u8>)
    requires
        length < 0x100_0000,
    ensures
        ({
            let d = frame_header_bytes(length, t, flags, stream_id) + payload;
            &&& d.len() >= 9
            &&& be24(d[0], d[1], d[2]) == length
            &&& frame_type_from_code(d[3]) == Some(t)
            &&& d[4] == flags
            &&& be32(d[5], d[6], d[7], d[8]) == stream_id
            &&& d.subrange(9, d.len() as int) == payload
        }),
{
    let h = frame_header_bytes(length, t, flags, stream_id);
    let d = h + payload;
    assert(d[0] == (length >> 16u32) as u8);
    assert(d[1] == (length >> 8u32) as u8);
    assert(d[2] == length as u8);
    assert(d[3] == frame_type_code(t));
    assert(d[5] == (stream_id >> 24u32) as u8);
    assert(d[6] == (stream_id >> 16u32) as u8);
    assert(d[7] == (stream_id >> 8u32) as u8);
    assert(d[8] == stream_id as u8);
    assert(be24((length >> 16u32) as u8, (length >> 8u32) as u8, length as u8) == length) by (bit_vector)
        requires
            length < 0x100_0000u32,
    ;
    assert(be32((stream_id >> 24u32) as u8, (stream_id >> 16u32) as u8, (stream_id >> 8u32) as u8, stream_id as u8)
        == stream_id) by (bit_vector);
    assert(d.subrange(9, d.len() as int) =~= payload);
}

impl Http2Frame {
    /// Create new frame; the length field is the payload's length (kept to 32 bits).
    pub fn new(frame_type: Http2FrameType, stream_id: u32, payload: Vec<u8>) -> (r: Self)
        ensures
            r.length == payload@.len() as u32,
            r.frame_type == frame_type,
            r.flags == 0,
            r.stream_id == stream_id,
            r.payload == payload,
    {
        Self { length: payload.len() as u32, frame_type, flags: 0, stream_id, payload }
    }

    /// Serialize frame
    pub fn serialize(&self) -> (r: Vec<u8>)
        ensures
            r@ == frame_header_bytes(self.length, self.frame_type, self.flags, self.stream_id)
                + self.payload@,
    {
        let mut frame: Vec<u8> = Vec::new();
        frame.push((self.length >> 16) as u8);
        frame.push((self.length >> 8) as u8);
        frame.push(self.length as u8);
        frame.push(self.frame_type.value());
        frame.push(self.flags);
        frame.push((self.stream_id >> 24) as u8);
        frame.push((self.stream_id >> 16) as u8);
        frame.push((self.stream_id >> 8) as u8);
        frame.push(self.stream_id as u8);
        assert(frame@ =~= frame_header_bytes(self.length, self.frame_type, self.flags, self.stream_id));
        append_bytes(&mut frame, self.payload.as_slice());
        frame
    }

    /// Parse frame from bytes: the nine header bytes, then the rest as payload.
    pub fn parse(data: &[u8]) -> (r: Result<Self>)
        ensures
            data@.len() < 9 ==> (r matches Err(e) && e is Parsing),
            data@.len() >= 9 ==> match frame_type_from_code(data@[3]) {
                None => (r matches Err(e) && e is Parsing),
                Some(t) => r matches Ok(f) && f.length == be24(data@[0], data@[1], data@[2])
                    && f.frame_type == t && f.flags == data@[4] && f.stream_id == be32(
                    data@[5],
                    data@[6],
                    data@[7],
                    data@[8],
                ) && f.payload@ == data@.subrange(9, data@.len() as int),
            },
    {
        if data.len() < 9 {
            return Err(Error::parsing(str_to_string("Frame too short")));
        }
        let length = ((data[0] as u32) << 16) | ((data[1] as u32) << 8) | (data[2] as u32);
        let flags = data[4];
        let stream_id = ((data[5] as u32) << 24) | ((data[6] as u32) << 16) | ((data[7] as u32)
            << 8) | (data[8] as u32);
        let frame_type = match Http2FrameType::from_value(data[3]) {
            Some(t) => t,
            None => return Err(Error::parsing(str_to_string("Unknown frame type"))),
        };
        let payload = byte_range(data, 9, data.len());
        Ok(Http2Frame { length, frame_type, flags, stream_id, payload })
    }
}

/// One header field in literal form: the byte 0x40, the name's length in one
/// byte, the name, the value's length in one byte, the value.
pub open spec fn hpack_field_bytes(p: (Seq<char>, Seq<char>)) -> Seq<u8> {
    seq![0x40u8, encode_utf8(p.0).len() as u8] + encode_utf8(p.0) + seq![
        encode_utf8(p.1).len() as u8,
    ] + encode_utf8(p.1)
}

/// All header fields in literal form, in order.
pub open spec fn hpack_block(h: HeaderList) -> Seq<u8>
    decreases h.len(),
{
    if h.len() == 0 {
        Seq::empty()
    } else {
        hpack_block(h.drop_last()) + hpack_field_bytes(h.last())
    }
}

/// Decodes header fields from position `i` on, on top of the fields `h`
/// already read. An indexed field (high bit set) is skipped; any other
/// byte starts a literal field: a name and a value, each preceded by its
/// length in one byte. `None` where a field runs past the end of the data or
/// is not valid UTF-8.
pub open spec fn hpack_decode_from(data: Seq<u8>, i: int, h: HeaderList) -> Option<HeaderList>
    decreases data.len() - i,
{
    if i < 0 || i >= data.len() {
        Some(h)
    } else if data[i] & 0x80u8 != 0 {
        hpack_decode_from(data, i + 1, h)
    } else {
        let j = i + 1;
        if j >= data.len() {
            None
        } else {
            let name_end = j + 1 + data[j];
            if name_end > data.len() {
                None
            } else {
                let name = data.subrange(j + 1, name_end);
                if !valid_utf8(name) || name_end >= data.len() {
                    None
                } else {
                    let value_end = name_end + 1 + data[name_end];
                    if value_end > data.len() {
                        None
                    } else {
                        let value = data.subrange(name_end + 1, value_end);
                        if !valid_utf8(value) {
                            None
                        } else {
                            hpack_decode_from(
                                data,
                                value_end,
                                set_field(h, decode_utf8(name), decode_utf8(value)),
                            )
                        }
                    }
                }
            }
        }
    }
}

/// Each name and value of the list takes fewer than 256 bytes in UTF-8, so
/// that its length fits the one-byte length field.
pub open spec fn fields_fit(h: HeaderList) -> bool {
    forall|i: int|
        0 <= i < h.len() ==> encode_utf8(#[trigger] h[i].0).len() < 256 && encode_utf8(h[i].1).len() < 256
}

/// The block of a non-empty list is its first field followed by the block of the rest.
proof fn lemma_block_front(h: HeaderList)
    requires
        h.len() > 0,
    ensures
        hpack_block(h) == hpack_field_bytes(h[0]) + hpack_block(h.drop_first()),
    decreases h.len(),
{
    if h.len() == 1 {
        assert(h.drop_last() =~= Seq::<(Seq<char>, Seq<char>)>::empty());
        assert(h.drop_first() =~= Seq::<(Seq<char>, Seq<char>)>::empty());
        assert(hpack_block(h.drop_last()) == Seq::<u8>::empty());
        assert(hpack_block(h.drop_first()) == Seq::<u8>::empty());
        assert(h.last() == h[0]);
        assert(hpack_block(h) =~= hpack_field_bytes(h[0]));
    } else {
        let t = h.drop_last();
        lemma_block_front(t);
        assert(t.drop_first() =~= h.drop_first().drop_last());
        assert(h.drop_first().last() == h.last());
        assert(hpack_block(h) =~= hpack_field_bytes(h[0]) + hpack_block(h.drop_first()));
    }
}

/// Decoding from the start of a field reads that field and goes on after it.
proof fn lemma_decode_field(data: Seq<u8>, i: int, acc: HeaderList, p: (Seq<char>, Seq<char>))
    requires
        0 <= i,
        i + hpack_field_bytes(p).len() <= data.len(),
        data.subrange(i, i + hpack_field_bytes(p).len()) == hpack_field_bytes(p),
        encode_utf8(p.0).len() < 256,
        encode_utf8(p.1).len() < 256,
    ensures
        hpack_decode_from(data, i, acc) == hpack_decode_from(
            data,
            i + hpack_field_bytes(p).len(),
            set_field(acc, p.0, p.1),
        ),
{
    broadcast use vstd::utf8::encode_utf8_valid_utf8, vstd::utf8::encode_utf8_decode_utf8;

    let f = hpack_field_bytes(p);
    let n = encode_utf8(p.0);
    let v = encode_utf8(p.1);
    let nl = n.len() as int;
    let vl = v.len() as int;
    assert(f[0] == 0x40u8);
    assert(data[i] == f[0]);
    assert(0x40u8 & 0x80u8 == 0u8) by (bit_vector);
    assert(data[i + 1] == f[1]);
    assert(f[1] == n.len() as u8);
    let name_end = i + 2 + nl;
    assert(data.subrange(i + 2, name_end) =~= f.subrange(2, 2 + nl));
    assert(f.subrange(2, 2 + nl) =~= n);
    assert(data[name_end] == f[2 + nl]);
    assert(f[2 + nl] == v.len() as u8);
    let value_end = name_end + 1 + vl;
    assert(data.subrange(name_end + 1, value_end) =~= f.subrange(3 + nl, 3 + nl + vl));
    assert(f.subrange(3 + nl, 3 + nl + vl) =~= v);
    assert(value_end == i + f.len());
}

/// Decoding a block that runs to the end of the data sets each of its
/// fields in turn on top of what was already read.
proof fn lemma_decode_block(data: Seq<u8>, i: int, acc: HeaderList, h: HeaderList)
    requires
        0 <= i <= data.len(),
        data.subrange(i, data.len() as int) == hpack_block(h),
        fields_fit(h),
    ensures
        hpack_decode_from(data, i, acc) == Some(set_all(acc, h)),
    decreases h.len(),
{
    if h.len() == 0 {
        assert(data.subrange(i, data.len() as int).len() == 0);
    } else {
        lemma_block_front(h);
        let f = hpack_field_bytes(h[0]);
        let rest = h.drop_first();
        let whole = data.subrange(i, data.len() as int);
        assert(whole == f + hpack_block(rest));
        assert(whole.len() == f.len() + hpack_block(rest).len());
        assert(i + f.len() <= data.len());
        assert forall|k: int| 0 <= k < f.len() implies #[trigger] data[i + k] == f[k] by {
            assert(data[i + k] == whole[k]);
        }
        assert(data.subrange(i, i + f.len()) =~= f);
        let tail = data.subrange(i + f.len(), data.len() as int);
        assert(tail.len() == hpack_block(rest).len());
        assert forall|k: int| 0 <= k < tail.len() implies #[trigger] tail[k] == hpack_block(rest)[k] by {
            assert(tail[k] == data[i + f.len() + k]);
            assert(data[i + f.len() + k] == whole[f.len() + k]);
        }
        assert(fields_fit(h) ==> encode_utf8(h[0].0).len() < 256 && encode_utf8(h[0].1).len() < 256);
        lemma_decode_field(data, i, acc, h[0]);
        assert(data.subrange(i + f.len(), data.len() as int) =~= hpack_block(rest));
        assert forall|k: int| 0 <= k < rest.len() implies encode_utf8(#[trigger] rest[k].0).len() < 256
            && encode_utf8(rest[k].1).len() < 256 by {
            assert(rest[k] == h[k + 1]);
        }
        lemma_decode_block(data, i + f.len(), set_field(acc, h[0].0, h[0].1), rest);
    }
}

/// The fields with their names in lower case.
pub open spec fn lowered_names(h: HeaderList) -> HeaderList {
    h.map_values(|p: (Seq<char>, Seq<char>)| (crate::text::lowercase(p.0), p.1))
}

/// The fields set one after another on top of `acc`.
pub open spec fn set_all(acc: HeaderList, h: HeaderList) -> HeaderList
    decreases h.len(),
{
    if h.len() == 0 {
        acc
    } else {
        set_all(set_field(acc, h[0].0, h[0].1), h.drop_first())
    }
}

/// Setting the remaining fields of a list with distinct names on top of its
/// first ones gives the list back.
proof fn lemma_set_all_distinct(h: HeaderList, k: int)
    requires
        distinct_names(h),
        0 <= k <= h.len(),
    ensures
        set_all(h.take(k), h.skip(k)) == h,
    decreases h.len() - k,
{
    if k == h.len() {
        assert(h.take(k) =~= h);
    } else {
        let front = h.take(k);
        let name = h[k].0;
        lemma_key_index(front, crate::text::lowercase(name), k);
        assert(set_field(front, h[k].0, h[k].1) =~= h.take(k + 1));
        assert(h.skip(k).drop_first() =~= h.skip(k + 1));
        assert(h.skip(k)[0] == h[k]);
        lemma_set_all_distinct(h, k + 1);
    }
}

/// Decoding the literal form of headers with distinct names, each name and
/// value under 256 bytes, gives the headers back.
pub proof fn lemma_hpack_roundtrip(h: HeaderList)
    requires
        distinct_names(h),
        fields_fit(h),
    ensures
        hpack_decode_from(hpack_block(h), 0, Seq::empty()) == Some(h),
{
    let data = hpack_block(h);
    assert(data.subrange(0, data.len() as int) =~= data);
    lemma_decode_block(data, 0, Seq::empty(), h);
    lemma_set_all_distinct(h, 0);
    assert(h.take(0) =~= Seq::<(Seq<char>, Seq<char>)>::empty());
    assert(h.skip(0) =~= h);
}

impl HpackCodec {
    /// Create new HPACK codec
    pub fn new(max_table_size: usize) -> (r: Self)
        ensures
            r.dynamic_table@.len() == 0,
            r.max_table_size == max_table_size,
            r.current_table_size == 0,
    {
        Self { dynamic_table: Vec::new(), max_table_size, current_table_size: 0 }
    }

    /// Encode headers: every field in literal form, its name in lower case,
    /// in order.
    pub fn encode(&mut self, headers: &HttpHeaders) -> (r: Result<Vec<u8>>)
        ensures
            r matches Ok(bytes) && bytes@ == hpack_block(lowered_names(headers@)),
            final(self).dynamic_table == old(self).dynamic_table,
            final(self).max_table_size == old(self).max_table_size,
            final(self).current_table_size == old(self).current_table_size,
    {
        let mut encoded: Vec<u8> = Vec::new();
        let pairs = headers.lower_pairs();
        let mut i: usize = 0;
        let ghost lh = lowered_names(headers@);
        while i < pairs.len()
            invariant
                i <= pairs@.len(),
                pairs@.len() == headers@.len(),
                lh == lowered_names(headers@),
                lh.len() == headers@.len(),
                forall|k: int|
                    0 <= k < pairs@.len() ==> (#[trigger] pairs@[k]).0@ == lh[k].0 && pairs@[k].1@ == lh[k].1,
                encoded@ == hpack_block(lh.subrange(0, i as int)),
            decreases pairs@.len() - i,
        {
            let ghost before = encoded@;
            let name = pairs[i].0.as_str().as_bytes();
            let value = pairs[i].1.as_str().as_bytes();
            encoded.push(0x40u8);
            encoded.push(name.len() as u8);
            append_bytes(&mut encoded, name);
            encoded.push(value.len() as u8);
            append_bytes(&mut encoded, value);
            proof {
                let h = lh.subrange(0, i + 1);
                assert(h.drop_last() == lh.subrange(0, i as int));
                assert(h.last() == lh[i as int]);
                assert(encoded@ =~= before + hpack_field_bytes(h.last()));
            }
            i = i + 1;
        }
        assert(lh.subrange(0, lh.len() as int) == lh);
        Ok(encoded)
    }

    /// Decode headers from their literal form.
    pub fn decode(&mut self, data: &[u8]) -> (r: Result<HttpHeaders>)
        ensures
            match hpack_decode_from(data@, 0, Seq::empty()) {
                Some(h) => r matches Ok(hs) && hs@ == h,
                None => r matches Err(e) && e is Parsing,
            },
            final(self).dynamic_table == old(self).dynamic_table,
            final(self).max_table_size == old(self).max_table_size,
            final(self).current_table_size == old(self).current_table_size,
    {
        let mut headers = HttpHeaders::new();
        let mut i: usize = 0;
        while i < data.len()
            invariant
                i <= data@.len(),
                hpack_decode_from(data@, 0, Seq::empty()) == hpack_decode_from(data@, i as int, headers@),
            decreases data@.len() - i,
        {
            let byte = data[i];
            if byte & 0x80u8 != 0 {
                i = i + 1;
                continue;
            }
            let j = i + 1;
            if j >= data.len() {
                return Err(Error::parsing(str_to_string("Truncated header field")));
            }
            let name_len = data[j] as usize;
            if name_len > data.len() - (j + 1) {
                return Err(Error::parsing(str_to_string("Truncated header name")));
            }
            let name_end = j + 1 + name_len;
            let name_bytes = byte_range(data, j + 1, name_end);
            let name = match utf8_str(name_bytes.as_slice()) {
                Ok(n) => n,
                Err(e) => return Err(Error::parsing(concat_str("Invalid header name: ", e.as_str()))),
            };
            if name_end >= data.len() {
                return Err(Error::parsing(str_to_string("Truncated header field")));
            }
            let value_len = data[name_end] as usize;
            if value_len > data.len() - (name_end + 1) {
                return Err(Error::parsing(str_to_string("Truncated header value")));
            }
            let value_end = name_end + 1 + value_len;
            let value_bytes = byte_range(data, name_end + 1, value_end);
            let value = match utf8_str(value_bytes.as_slice()) {
                Ok(v) => v,
                Err(e) => return Err(Error::parsing(concat_str("Invalid header value: ", e.as_str()))),
            };
            headers.set(name, value);
            i = value_end;
        }
        Ok(headers)
    }
}

} // verus!
