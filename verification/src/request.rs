//! The common request header and the per-API request decoders.

use vstd::prelude::*;
use vstd::string::StrSliceExecFns;
use vstd::utf8::{valid_utf8, decode_utf8, encode_utf8};
use crate::ProtocolError;
use crate::wire::{
    be2, be4, be4i, spec_u16_at, spec_u32_at, spec_i32_at, read_u16, read_u32, read_i32,
    subvec, utf8_to_string, put_u8, put_u16, put_u32, put_i32, append_bytes,
    lemma_be2_read, lemma_be4_read, lemma_be4i_read, lemma_u16_at_subrange,
    lemma_u32_at_subrange,
};

verus! {

/// The fields that precede every API-specific request payload.
#[derive(Debug)]
pub struct RequestHeaderV2 {
    pub message_size: u32,
    pub request_api_key: u16,
    pub request_api_version: u16,
    pub correlation_id: i32,
    pub client_id: Option<String>,
}

/// The UTF-8 bytes of the header's client id (empty when absent).
pub open spec fn spec_client_id_utf8(h: RequestHeaderV2) -> Seq<u8> {
    match h.client_id {
        Some(s) => encode_utf8(s@),
        None => seq![],
    }
}

/// The wire encoding of the common request header: message_size, api_key,
/// api_version, correlation_id, length-prefixed client id, one reserved byte.
pub open spec fn spec_header_bytes(h: RequestHeaderV2) -> Seq<u8> {
    be4(h.message_size) + be2(h.request_api_key) + be2(h.request_api_version) + be4i(
        h.correlation_id,
    ) + be2(spec_client_id_utf8(h).len() as u16) + spec_client_id_utf8(h) + seq![0u8]
}

/// The client id fits its two-byte length field.
pub open spec fn header_encodable(h: RequestHeaderV2) -> bool {
    spec_client_id_utf8(h).len() <= u16::MAX
}

/// The client-id length a raw buffer declares.
pub open spec fn header_cid_len(b: Seq<u8>) -> int {
    spec_u16_at(b, 12) as int
}

/// The raw client-id bytes of a raw buffer.
pub open spec fn header_cid_bytes(b: Seq<u8>) -> Seq<u8> {
    b.subrange(14, 14 + header_cid_len(b))
}

/// The buffer holds a complete common header: the twelve fixed bytes, the
/// two-byte client-id length, the declared client-id bytes and the reserved byte.
pub open spec fn header_ok(b: Seq<u8>) -> bool {
    b.len() >= 14 && b.len() >= 15 + header_cid_len(b)
}

/// What a successfully decoded header, consuming `n` bytes of `b`, holds.
pub open spec fn header_decoded(h: RequestHeaderV2, n: int, b: Seq<u8>) -> bool {
    &&& h.message_size == spec_u32_at(b, 0)
    &&& h.request_api_key == spec_u16_at(b, 4)
    &&& h.request_api_version == spec_u16_at(b, 6)
    &&& h.correlation_id == spec_i32_at(b, 8)
    &&& n == 15 + header_cid_len(b)
    &&& valid_utf8(header_cid_bytes(b)) ==> (h.client_id matches Some(s) && s@ == decode_utf8(
        header_cid_bytes(b),
    ))
    &&& !valid_utf8(header_cid_bytes(b)) ==> h.client_id is None
}

impl RequestHeaderV2 {
    /// Decodes the common request header from the start of `data`; returns the
    /// header and the number of bytes consumed.
    pub fn from_bytes(data: &Vec<u8>) -> (r: Result<(RequestHeaderV2, usize), ProtocolError>)
        ensures
            r is Ok <==> header_ok(data@),
            r matches Ok(p) ==> header_decoded(p.0, p.1 as int, data@),
            r matches Err(e) ==> e == ProtocolError::MalformedHeader,
    {
        let n = data.len();
        if n < 14 {
            return Err(ProtocolError::MalformedHeader);
        }
        let message_size = read_u32(data, 0);
        let request_api_key = read_u16(data, 4);
        let request_api_version = read_u16(data, 6);
        let correlation_id = read_i32(data, 8);
        let cid_len = read_u16(data, 12) as usize;
        if n - 14 < cid_len + 1 {
            return Err(ProtocolError::MalformedHeader);
        }
        let cid_bytes = subvec(data, 14, 14 + cid_len);
        let client_id = utf8_to_string(cid_bytes);
        let h = RequestHeaderV2 {
            message_size,
            request_api_key,
            request_api_version,
            correlation_id,
            client_id,
        };
        Ok((h, 15 + cid_len))
    }

    /// Encodes the header in the fixed wire order; an absent client id is
    /// written as a zero-length one.
    pub fn to_bytes(&self) -> (r: Result<Vec<u8>, ProtocolError>)
        ensures
            r is Ok <==> header_encodable(*self),
            r matches Ok(v) ==> v@ == spec_header_bytes(*self),
            r matches Err(e) ==> e == ProtocolError::EncodingOverflow,
    {
        let cid: Vec<u8> = match &self.client_id {
            Some(s) => s.as_str().as_bytes_vec(),
            None => Vec::new(),
        };
        if cid.len() > u16::MAX as usize {
            return Err(ProtocolError::EncodingOverflow);
        }
        let mut buf: Vec<u8> = Vec::new();
        put_u32(&mut buf, self.message_size);
        put_u16(&mut buf, self.request_api_key);
        put_u16(&mut buf, self.request_api_version);
        put_i32(&mut buf, self.correlation_id);
        put_u16(&mut buf, cid.len() as u16);
        append_bytes(&mut buf, &cid);
        put_u8(&mut buf, 0);
        proof {
            assert(buf@ =~= spec_header_bytes(*self));
        }
        Ok(buf)
    }
}

/// Law: a header whose client id fits its length field has an encoding that
/// `from_bytes` accepts, and the declared client-id bytes are the encoded ones.
pub proof fn lemma_header_encode_ok(h: RequestHeaderV2)
    requires
        header_encodable(h),
    ensures
        header_ok(spec_header_bytes(h)),
        header_cid_len(spec_header_bytes(h)) == spec_client_id_utf8(h).len(),
        header_cid_bytes(spec_header_bytes(h)) == spec_client_id_utf8(h),
{
    let b = spec_header_bytes(h);
    let cid = spec_client_id_utf8(h);
    let l = cid.len() as u16;
    assert(b.len() == 15 + cid.len());
    assert(b.subrange(12, 14) =~= be2(l));
    lemma_u16_at_subrange(b, 12, be2(l), 0);
    lemma_be2_read(l);
    assert(header_cid_len(b) == cid.len());
    assert(header_cid_bytes(b) =~= cid);
}

/// Law: decoding an encoded header yields the original field values, for any
/// client id whose UTF-8 byte length fits the two-byte length field.
#[verifier::rlimit(50)]
pub proof fn lemma_header_round_trip(h: RequestHeaderV2, h2: RequestHeaderV2, n: int)
    requires
        h.client_id is Some,
        header_encodable(h),
        header_decoded(h2, n, spec_header_bytes(h)),
    ensures
        h2.message_size == h.message_size,
        h2.request_api_key == h.request_api_key,
        h2.request_api_version == h.request_api_version,
        h2.correlation_id == h.correlation_id,
        n == spec_header_bytes(h).len(),
        h2.client_id matches Some(s2) && s2@ == h.client_id->Some_0@,
{
    let b = spec_header_bytes(h);
    lemma_header_encode_ok(h);
    assert(b.subrange(0, 4) =~= be4(h.message_size));
    lemma_u32_at_subrange(b, 0, be4(h.message_size), 0);
    lemma_be4_read(h.message_size);
    assert(b.subrange(4, 6) =~= be2(h.request_api_key));
    lemma_u16_at_subrange(b, 4, be2(h.request_api_key), 0);
    lemma_be2_read(h.request_api_key);
    assert(b.subrange(6, 8) =~= be2(h.request_api_version));
    lemma_u16_at_subrange(b, 6, be2(h.request_api_version), 0);
    lemma_be2_read(h.request_api_version);
    assert(b.subrange(8, 12) =~= be4i(h.correlation_id));
    lemma_u32_at_subrange(b, 8, be4i(h.correlation_id), 0);
    lemma_be4i_read(h.correlation_id);
    let s = h.client_id->Some_0;
    assert(header_cid_bytes(b) == encode_utf8(s@));
    vstd::utf8::encode_utf8_valid_utf8(s@);
    vstd::utf8::encode_utf8_decode_utf8(s@);
}

/// A capability-discovery request: the client advertises its own id and version.
#[derive(Debug)]
pub struct ReqApiVersionsV4 {
    pub header: RequestHeaderV2,
    pub client_id: String,
    pub client_version: String,
}

/// The declared length of the first string field of a capabilities body.
pub open spec fn av_len1(b: Seq<u8>, pos: int) -> int {
    spec_u16_at(b, pos) as int
}

/// The position of the second string field's length prefix.
pub open spec fn av_p2(b: Seq<u8>, pos: int) -> int {
    pos + 2 + av_len1(b, pos)
}

/// The declared length of the second string field.
pub open spec fn av_len2(b: Seq<u8>, pos: int) -> int {
    spec_u16_at(b, av_p2(b, pos)) as int
}

/// The position just past the capabilities body.
pub open spec fn av_end(b: Seq<u8>, pos: int) -> int {
    av_p2(b, pos) + 2 + av_len2(b, pos)
}

/// The raw bytes of the body's client-id field.
pub open spec fn av_cid_bytes(b: Seq<u8>, pos: int) -> Seq<u8> {
    b.subrange(pos + 2, av_p2(b, pos))
}

/// The raw bytes of the body's client-version field.
pub open spec fn av_cver_bytes(b: Seq<u8>, pos: int) -> Seq<u8> {
    b.subrange(av_p2(b, pos) + 2, av_end(b, pos))
}

/// The outcome of scanning a capabilities body at `pos`: each field is checked
/// for room first and for UTF-8 validity second, in wire order.
pub open spec fn av_scan(b: Seq<u8>, pos: int) -> Result<(), ProtocolError> {
    if !(pos + 2 <= b.len() && av_p2(b, pos) <= b.len()) {
        Err(ProtocolError::Truncated)
    } else if !valid_utf8(av_cid_bytes(b, pos)) {
        Err(ProtocolError::MalformedHeader)
    } else if !(av_p2(b, pos) + 2 <= b.len() && av_end(b, pos) <= b.len()) {
        Err(ProtocolError::Truncated)
    } else if !valid_utf8(av_cver_bytes(b, pos)) {
        Err(ProtocolError::MalformedHeader)
    } else {
        Ok(())
    }
}

/// What a successfully decoded capabilities request, ending at `n`, holds.
pub open spec fn av_decoded(
    q: ReqApiVersionsV4,
    h: RequestHeaderV2,
    b: Seq<u8>,
    pos: int,
    n: int,
) -> bool {
    &&& q.header == h
    &&& q.client_id@ == decode_utf8(av_cid_bytes(b, pos))
    &&& q.client_version@ == decode_utf8(av_cver_bytes(b, pos))
    &&& n == av_end(b, pos)
}

impl ReqApiVersionsV4 {
    /// Decodes a capabilities request body at `pos`; returns the request and
    /// the position just past it.
    pub fn from_bytes(header: RequestHeaderV2, data: &Vec<u8>, pos: usize) -> (r: Result<
        (ReqApiVersionsV4, usize),
        ProtocolError,
    >)
        requires
            pos <= data@.len(),
        ensures
            r is Ok <==> av_scan(data@, pos as int) is Ok,
            r matches Ok(p) ==> av_decoded(p.0, header, data@, pos as int, p.1 as int),
            r matches Err(e) ==> av_scan(data@, pos as int) == Err::<(), ProtocolError>(e),
    {
        let n = data.len();
        if n - pos < 2 {
            return Err(ProtocolError::Truncated);
        }
        let len1 = read_u16(data, pos) as usize;
        if n - (pos + 2) < len1 {
            return Err(ProtocolError::Truncated);
        }
        let cid_bytes = subvec(data, pos + 2, pos + 2 + len1);
        let client_id = match utf8_to_string(cid_bytes) {
            Some(s) => s,
            None => {
                return Err(ProtocolError::MalformedHeader);
            },
        };
        let p2 = pos + 2 + len1;
        if n - p2 < 2 {
            return Err(ProtocolError::Truncated);
        }
        let len2 = read_u16(data, p2) as usize;
        if n - (p2 + 2) < len2 {
            return Err(ProtocolError::Truncated);
        }
        let cver_bytes = subvec(data, p2 + 2, p2 + 2 + len2);
        let client_version = match utf8_to_string(cver_bytes) {
            Some(s) => s,
            None => {
                return Err(ProtocolError::MalformedHeader);
            },
        };
        let req = ReqApiVersionsV4 { header, client_id, client_version };
        Ok((req, p2 + 2 + len2))
    }
}

/// A topic-description request: the topics to describe, a partition limit and
/// an opaque cursor.
#[derive(Debug)]
pub struct ReqDescTopicPartitionV0 {
    pub header: RequestHeaderV2,
    pub topics: Vec<String>,
    pub res_partition_limit: u32,
    pub cursor: u8,
}

/// Scans `count` topic entries at `pos`, each a one-byte length, the name
/// bytes and one reserved byte; yields the decoded names and the end position.
/// Room is checked before UTF-8 validity, entry by entry, in wire order.
pub open spec fn spec_parse_topics(b: Seq<u8>, pos: int, count: nat) -> Result<
    (Seq<Seq<char>>, int),
    ProtocolError,
>
    decreases count,
{
    if count == 0 {
        Ok((seq![], pos))
    } else if !(pos + 1 <= b.len() && pos + 2 + b[pos] <= b.len()) {
        Err(ProtocolError::Truncated)
    } else if !valid_utf8(b.subrange(pos + 1, pos + 1 + b[pos])) {
        Err(ProtocolError::MalformedHeader)
    } else {
        match spec_parse_topics(b, pos + 2 + b[pos], (count - 1) as nat) {
            Ok(p) => Ok((seq![decode_utf8(b.subrange(pos + 1, pos + 1 + b[pos]))] + p.0, p.1)),
            Err(e) => Err(e),
        }
    }
}

/// The outcome of scanning a whole topic-description body at `pos`: the topic
/// names, the partition limit, the cursor, and the position just past the body.
pub open spec fn spec_desc_body(b: Seq<u8>, pos: int) -> Result<
    (Seq<Seq<char>>, u32, u8, int),
    ProtocolError,
> {
    if !(pos + 1 <= b.len()) {
        Err(ProtocolError::Truncated)
    } else if b[pos] == 0 {
        Err(ProtocolError::MalformedHeader)
    } else {
        match spec_parse_topics(b, pos + 1, (b[pos] - 1) as nat) {
            Ok(p) => if p.1 + 5 <= b.len() {
                Ok((p.0, spec_u32_at(b, p.1), b[p.1 + 4], p.1 + 5))
            } else {
                Err(ProtocolError::Truncated)
            },
            Err(e) => Err(e),
        }
    }
}

/// What a successfully decoded topic-description request, ending at `n`, holds.
pub open spec fn dt_decoded(
    q: ReqDescTopicPartitionV0,
    h: RequestHeaderV2,
    b: Seq<u8>,
    pos: int,
    n: int,
) -> bool {
    match spec_desc_body(b, pos) {
        Ok(p) => {
            &&& q.header == h
            &&& q.topics@.map_values(|s: String| s@) == p.0
            &&& q.res_partition_limit == p.1
            &&& q.cursor == p.2
            &&& n == p.3
        },
        Err(_) => false,
    }
}

/// A successful topic scan yields exactly `count` names, and each re-encodes
/// to the at most 255 bytes its one-byte length field declared.
pub proof fn lemma_parse_topics_props(b: Seq<u8>, pos: int, count: nat)
    requires
        0 <= pos,
        spec_parse_topics(b, pos, count) is Ok,
    ensures
        spec_parse_topics(b, pos, count)->Ok_0.0.len() == count,
        forall|i: int|
            0 <= i < count ==> encode_utf8(
                #[trigger] spec_parse_topics(b, pos, count)->Ok_0.0[i],
            ).len() <= 255,
    decreases count,
{
    if count != 0 {
        reveal_with_fuel(spec_parse_topics, 2);
        assert(pos + 1 <= b.len() && pos + 2 + b[pos] <= b.len());
        let chunk = b.subrange(pos + 1, pos + 1 + b[pos]);
        assert(valid_utf8(chunk));
        vstd::utf8::decode_utf8_encode_utf8(chunk);
        let rest_pos = pos + 2 + b[pos];
        lemma_parse_topics_props(b, rest_pos, (count - 1) as nat);
        let names = spec_parse_topics(b, pos, count)->Ok_0.0;
        let rest = spec_parse_topics(b, rest_pos, (count - 1) as nat)->Ok_0.0;
        assert(names == seq![decode_utf8(chunk)] + rest);
        assert forall|i: int| 0 <= i < count implies encode_utf8(#[trigger] names[i]).len()
            <= 255 by {
            if i == 0 {
                assert(names[0] == decode_utf8(chunk));
                assert(encode_utf8(decode_utf8(chunk)) == chunk);
                assert(chunk.len() == b[pos]);
            } else {
                assert(names[i] == rest[i - 1]);
                assert(encode_utf8(rest[i - 1]).len() <= 255);
            }
        }
    }
}

/// Law (count-plus-one convention, decoding side): a topic list whose count
/// byte is n + 1 decodes to exactly n topic names.
pub proof fn lemma_count_plus_one_decode(b: Seq<u8>, pos: int)
    requires
        0 <= pos < b.len(),
        spec_desc_body(b, pos) is Ok,
    ensures
        b[pos] >= 1,
        spec_desc_body(b, pos)->Ok_0.0.len() == b[pos] - 1,
{
    lemma_parse_topics_props(b, pos + 1, (b[pos] - 1) as nat);
}

impl ReqDescTopicPartitionV0 {
    /// Decodes a topic-description request body at `pos`; returns the request
    /// and the position just past it.
    pub fn from_bytes(header: RequestHeaderV2, data: &Vec<u8>, pos: usize) -> (r: Result<
        (ReqDescTopicPartitionV0, usize),
        ProtocolError,
    >)
        requires
            pos <= data@.len(),
        ensures
            r is Ok <==> spec_desc_body(data@, pos as int) is Ok,
            r matches Ok(p) ==> dt_decoded(p.0, header, data@, pos as int, p.1 as int),
            r matches Err(e) ==> spec_desc_body(data@, pos as int) matches Err(e2) && e2 == e,
    {
        let n = data.len();
        if n - pos < 1 {
            return Err(ProtocolError::Truncated);
        }
        let count_byte = data[pos];
        if count_byte == 0 {
            return Err(ProtocolError::MalformedHeader);
        }
        let count = (count_byte - 1) as usize;
        let ghost whole = spec_parse_topics(data@, pos as int + 1, count as nat);
        let mut topics: Vec<String> = Vec::new();
        let mut p: usize = pos + 1;
        let mut i: usize = 0;
        while i < count
            invariant
                i <= count,
                pos + 1 <= p <= n,
                n == data@.len(),
                pos < n,
                topics@.len() == i,
                count == count_byte - 1,
                data@[pos as int] == count_byte,
                count_byte != 0,
                whole == spec_parse_topics(data@, pos as int + 1, count as nat),
                (match spec_parse_topics(data@, p as int, (count - i) as nat) {
                    Ok(rest) => whole == Ok::<(Seq<Seq<char>>, int), ProtocolError>(
                        (topics@.map_values(|s: String| s@) + rest.0, rest.1),
                    ),
                    Err(e) => whole == Err::<(Seq<Seq<char>>, int), ProtocolError>(e),
                }),
            decreases count - i,
        {
            let ghost rem = (count - i) as nat;
            if n - p < 1 {
                proof {
                    assert(spec_parse_topics(data@, p as int, rem) == Err::<
                        (Seq<Seq<char>>, int),
                        ProtocolError,
                    >(ProtocolError::Truncated));
                }
                return Err(ProtocolError::Truncated);
            }
            let tlen = data[p] as usize;
            if n - (p + 1) < tlen + 1 {
                proof {
                    assert(spec_parse_topics(data@, p as int, rem) == Err::<
                        (Seq<Seq<char>>, int),
                        ProtocolError,
                    >(ProtocolError::Truncated));
                }
                return Err(ProtocolError::Truncated);
            }
            let name_bytes = subvec(data, p + 1, p + 1 + tlen);
            let name = match utf8_to_string(name_bytes) {
                Some(s) => s,
                None => {
                    proof {
                        assert(spec_parse_topics(data@, p as int, rem) == Err::<
                            (Seq<Seq<char>>, int),
                            ProtocolError,
                        >(ProtocolError::MalformedHeader));
                    }
                    return Err(ProtocolError::MalformedHeader);
                },
            };
            let ghost old_topics = topics@;
            topics.push(name);
            p = p + 2 + tlen;
            i = i + 1;
            proof {
                assert(topics@.map_values(|s: String| s@) =~= old_topics.map_values(
                    |s: String| s@,
                ) + seq![name@]);
                match spec_parse_topics(data@, p as int, (count - i) as nat) {
                    Ok(rest) => {
                        assert(old_topics.map_values(|s: String| s@) + (seq![name@] + rest.0)
                            =~= topics@.map_values(|s: String| s@) + rest.0);
                    },
                    Err(_) => {},
                }
            }
        }
        proof {
            assert(spec_parse_topics(data@, p as int, 0) == Ok::<
                (Seq<Seq<char>>, int),
                ProtocolError,
            >((seq![], p as int)));
            assert(topics@.map_values(|s: String| s@) + seq![] =~= topics@.map_values(
                |s: String| s@,
            ));
        }
        if n - p < 5 {
            return Err(ProtocolError::Truncated);
        }
        let res_partition_limit = read_u32(data, p);
        let cursor = data[p + 4];
        let req = ReqDescTopicPartitionV0 { header, topics, res_partition_limit, cursor };
        Ok((req, p + 5))
    }
}

} // verus!
