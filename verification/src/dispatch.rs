//! Dispatch: maps an API key to the matching decoder/encoder pair, builds the
//! response for one raw frame, and decides the connection's next step.

use vstd::prelude::*;
use vstd::utf8::encode_utf8;
use crate::ProtocolError;
use crate::request::{
    RequestHeaderV2, ReqApiVersionsV4, ReqDescTopicPartitionV0, header_ok, header_cid_len,
    av_scan, av_decoded, spec_desc_body, dt_decoded, lemma_parse_topics_props,
};
use crate::response::{
    ApiVersion, ResApiVersionsV4, ResDescTopicPartitionV0, Topic, spec_api_versions_seq,
    spec_res_api_versions_bytes, spec_res_desc_bytes, spec_topics_seq, spec_topic_bytes,
    spec_topic_name_bytes, is_unknown_topic, desc_encodable, lemma_api_versions_seq_len,
    lemma_topics_seq_len,
};
use crate::wire::{
    be4, be2i, be4i, be16, spec_u16_at, spec_u32_at, spec_i32_at, read_u32, put_u32,
    append_bytes,
};

verus! {

/// A decoded request of one of the supported APIs.
#[derive(Debug)]
pub enum Request {
    ApiVersions(ReqApiVersionsV4),
    DescTopicPartition(ReqDescTopicPartitionV0),
}

impl Request {
    /// Dispatches on the header's API key to the matching body decoder; any
    /// other key is unsupported and must be skipped, not fatal.
    pub fn from_bytes(header: RequestHeaderV2, data: &Vec<u8>, pos: usize) -> (r: Result<
        (Request, usize),
        ProtocolError,
    >)
        requires
            pos <= data@.len(),
        ensures
            header.request_api_key == 18 ==> {
                &&& r is Ok <==> av_scan(data@, pos as int) is Ok
                &&& (r matches Ok(p) ==> p.0 matches Request::ApiVersions(q) && av_decoded(
                    q,
                    header,
                    data@,
                    pos as int,
                    p.1 as int,
                ))
                &&& (r matches Err(e) ==> av_scan(data@, pos as int) == Err::<(), ProtocolError>(
                    e,
                ))
            },
            header.request_api_key == 0 ==> {
                &&& r is Ok <==> spec_desc_body(data@, pos as int) is Ok
                &&& (r matches Ok(p) ==> p.0 matches Request::DescTopicPartition(q)
                    && dt_decoded(q, header, data@, pos as int, p.1 as int))
                &&& (r matches Err(e) ==> spec_desc_body(data@, pos as int) matches Err(e2)
                    && e2 == e)
            },
            header.request_api_key != 18 && header.request_api_key != 0 ==> r == Err::<
                (Request, usize),
                ProtocolError,
            >(ProtocolError::UnsupportedApi),
    {
        match header.request_api_key {
            18 => match ReqApiVersionsV4::from_bytes(header, data, pos) {
                Ok(p) => Ok((Request::ApiVersions(p.0), p.1)),
                Err(e) => Err(e),
            },
            0 => match ReqDescTopicPartitionV0::from_bytes(header, data, pos) {
                Ok(p) => Ok((Request::DescTopicPartition(p.0), p.1)),
                Err(e) => Err(e),
            },
            _ => Err(ProtocolError::UnsupportedApi),
        }
    }
}

/// A response of one of the supported APIs.
#[derive(Debug)]
pub enum Response {
    ApiVersions(ResApiVersionsV4),
    DescTopicPartition(ResDescTopicPartitionV0),
}

/// Every collection in the response fits its one-byte count encoding.
pub open spec fn response_encodable(r: Response) -> bool {
    match r {
        Response::ApiVersions(res) => res.api_versions@.len() <= 254,
        Response::DescTopicPartition(res) => desc_encodable(res),
    }
}

/// The wire encoding of a response, excluding the outer length prefix.
pub open spec fn spec_response_bytes(r: Response) -> Seq<u8> {
    match r {
        Response::ApiVersions(res) => spec_res_api_versions_bytes(res),
        Response::DescTopicPartition(res) => spec_res_desc_bytes(res),
    }
}

impl Response {
    /// Encodes the response per its API's layout.
    pub fn to_bytes(&self) -> (r: Result<Vec<u8>, ProtocolError>)
        ensures
            r is Ok <==> response_encodable(*self),
            r matches Ok(v) ==> v@ == spec_response_bytes(*self),
            r matches Err(e) ==> e == ProtocolError::EncodingOverflow,
    {
        match self {
            Response::ApiVersions(res) => res.to_bytes(),
            Response::DescTopicPartition(res) => res.to_bytes(),
        }
    }
}

/// The fixed capability set this server advertises.
pub open spec fn spec_fixed_api_versions() -> Seq<ApiVersion> {
    seq![
        ApiVersion { api_key: 18, min_version: 0, max_version: 4 },
        ApiVersion { api_key: 75, min_version: 0, max_version: 0 },
    ]
}

/// The body of the capabilities reply for a correlation id: no error, the
/// fixed capability set, no throttle.
pub open spec fn spec_capabilities_reply(corr: i32) -> Seq<u8> {
    be4i(corr) + be2i(0) + seq![3u8] + spec_api_versions_seq(spec_fixed_api_versions()) + be4(0u32)
        + seq![0u8]
}

/// The encoding of one unknown-topic descriptor for a requested name.
pub open spec fn spec_unknown_topic_bytes(name: Seq<char>) -> Seq<u8> {
    be2i(3) + seq![encode_utf8(name).len() as u8] + encode_utf8(name) + be16(0u128) + seq![0u8]
        + seq![1u8] + be4(0u32)
}

/// The concatenated unknown-topic descriptors, one reserved byte after each.
pub open spec fn spec_unknown_topics_seq(names: Seq<Seq<char>>) -> Seq<u8>
    decreases names.len(),
{
    if names.len() == 0 {
        seq![]
    } else {
        spec_unknown_topic_bytes(names[0]) + seq![0u8] + spec_unknown_topics_seq(
            names.drop_first(),
        )
    }
}

/// The body of the topic-description reply: every requested topic reported
/// unknown, the request's cursor echoed, no throttle.
pub open spec fn spec_desc_reply(corr: i32, names: Seq<Seq<char>>, cursor: u8) -> Seq<u8> {
    be4i(corr) + seq![0u8] + be4(0u32) + seq![(names.len() + 1) as u8] + spec_unknown_topics_seq(
        names,
    ) + seq![cursor, 0u8]
}

/// An unknown-topic descriptor encodes as `spec_unknown_topic_bytes` of its name.
pub proof fn lemma_unknown_topic_bytes(t: Topic, name: Seq<char>)
    requires
        is_unknown_topic(t, name),
    ensures
        spec_topic_bytes(t) == spec_unknown_topic_bytes(name),
{
    assert(spec_topic_bytes(t) =~= spec_unknown_topic_bytes(name));
}

/// A list of unknown-topic descriptors encodes as the unknown-topic reply list.
pub proof fn lemma_unknown_topics_seq(ts: Seq<Topic>, names: Seq<Seq<char>>)
    requires
        ts.len() == names.len(),
        forall|i: int| 0 <= i < names.len() ==> is_unknown_topic(#[trigger] ts[i], names[i]),
    ensures
        spec_topics_seq(ts) == spec_unknown_topics_seq(names),
    decreases ts.len(),
{
    if ts.len() != 0 {
        assert(is_unknown_topic(ts[0], names[0]));
        lemma_unknown_topic_bytes(ts[0], names[0]);
        assert forall|i: int| 0 <= i < names.drop_first().len() implies is_unknown_topic(
            #[trigger] ts.drop_first()[i],
            names.drop_first()[i],
        ) by {
            assert(ts.drop_first()[i] == ts[i + 1]);
            assert(is_unknown_topic(ts[i + 1], names[i + 1]));
        }
        lemma_unknown_topics_seq(ts.drop_first(), names.drop_first());
        assert(spec_topics_seq(ts) =~= spec_unknown_topics_seq(names));
    }
}

/// What the connection handler should do with one raw frame.
#[derive(Debug)]
pub enum FrameOutcome {
    /// Write these bytes (length prefix included) and keep reading.
    Respond(Vec<u8>),
    /// Write nothing and keep reading.
    Skip,
    /// Write nothing and drop the connection.
    Close,
}

/// The position of the API-specific body inside a raw frame.
pub open spec fn spec_body_pos(b: Seq<u8>) -> int {
    15 + header_cid_len(b)
}

impl FrameOutcome {
    /// True for `Respond`; a test hook, since the payload itself is checked
    /// through `respond_bytes`.
    pub fn is_respond(&self) -> (r: bool)
        ensures
            r == (self is Respond),
    {
        match self {
            FrameOutcome::Respond(_) => true,
            _ => false,
        }
    }

    /// True for `Skip`.
    pub fn is_skip(&self) -> (r: bool)
        ensures
            r == (self is Skip),
    {
        match self {
            FrameOutcome::Skip => true,
            _ => false,
        }
    }

    /// True for `Close`.
    pub fn is_close(&self) -> (r: bool)
        ensures
            r == (self is Close),
    {
        match self {
            FrameOutcome::Close => true,
            _ => false,
        }
    }

    /// The bytes to write back, for `Respond`.
    pub fn respond_bytes(self) -> (r: Option<Vec<u8>>)
        ensures
            self is Respond ==> (r matches Some(v) && v == self->Respond_0),
            !(self is Respond) ==> r is None,
    {
        match self {
            FrameOutcome::Respond(v) => Some(v),
            _ => None,
        }
    }
}

/// Length-prefixed framing: when the buffer already holds the four-byte
/// big-endian length and the payload it declares, returns the whole frame's
/// size (prefix included), so a reader can accumulate bytes until then.
pub fn frame_size(data: &Vec<u8>) -> (r: Option<usize>)
    ensures
        r matches Some(n) ==> data@.len() >= 4 && n == 4 + spec_u32_at(data@, 0) && n
            <= data@.len(),
        r is None <==> (data@.len() < 4 || data@.len() < 4 + spec_u32_at(data@, 0)),
{
    if data.len() < 4 {
        return None;
    }
    let len = read_u32(data, 0) as usize;
    if data.len() - 4 < len {
        return None;
    }
    Some(4 + len)
}

/// Handles one raw frame, as read from the socket: decodes the header and the
/// body, builds and encodes the response, and prefixes its four-byte length.
/// An empty read means the peer closed; an unknown API key is skipped; any
/// decode failure is fatal for the connection.
pub fn process_frame(data: &Vec<u8>) -> (r: FrameOutcome)
    ensures
        data@.len() == 0 ==> r is Close,
        data@.len() > 0 && !header_ok(data@) ==> r is Close,
        header_ok(data@) && spec_u16_at(data@, 4) == 18 ==> {
            &&& av_scan(data@, spec_body_pos(data@)) is Ok ==> (r matches FrameOutcome::Respond(v)
                && v@ == be4(spec_capabilities_reply(spec_i32_at(data@, 8)).len() as u32)
                + spec_capabilities_reply(spec_i32_at(data@, 8)))
            &&& av_scan(data@, spec_body_pos(data@)) is Err ==> r is Close
        },
        header_ok(data@) && spec_u16_at(data@, 4) == 0 ==> {
            &&& spec_desc_body(data@, spec_body_pos(data@)) matches Ok(p) ==> (r matches
                FrameOutcome::Respond(v) && v@ == be4(
                spec_desc_reply(spec_i32_at(data@, 8), p.0, p.2).len() as u32,
            ) + spec_desc_reply(spec_i32_at(data@, 8), p.0, p.2))
            &&& spec_desc_body(data@, spec_body_pos(data@)) is Err ==> r is Close
        },
        header_ok(data@) && spec_u16_at(data@, 4) != 18 && spec_u16_at(data@, 4) != 0 ==> r
            is Skip,
{
    if data.len() == 0 {
        return FrameOutcome::Close;
    }
    let (header, body_pos) = match RequestHeaderV2::from_bytes(data) {
        Ok(p) => p,
        Err(_) => {
            return FrameOutcome::Close;
        },
    };
    let ghost b = data@;
    let ghost corr = spec_i32_at(b, 8);
    let body = if header.request_api_key == 18 {
        let req = match ReqApiVersionsV4::from_bytes(header, data, body_pos) {
            Ok(p) => p.0,
            Err(_) => {
                return FrameOutcome::Close;
            },
        };
        let res = ResApiVersionsV4::from_request(&req);
        let encoded = match res.to_bytes() {
            Ok(v) => v,
            Err(_) => {
                return FrameOutcome::Skip;
            },
        };
        proof {
            lemma_api_versions_seq_len(res.api_versions@);
            assert(res.api_versions@ == spec_fixed_api_versions());
            assert(spec_res_api_versions_bytes(res) =~= spec_capabilities_reply(corr));
        }
        encoded
    } else if header.request_api_key == 0 {
        let req = match ReqDescTopicPartitionV0::from_bytes(header, data, body_pos) {
            Ok(p) => p.0,
            Err(_) => {
                return FrameOutcome::Close;
            },
        };
        let ghost names = spec_desc_body(b, body_pos as int)->Ok_0.0;
        proof {
            lemma_parse_topics_props(b, body_pos as int + 1, (b[body_pos as int] - 1) as nat);
        }
        let res = ResDescTopicPartitionV0::from_request(&req);
        proof {
            assert(req.topics@.map_values(|s: String| s@) == names);
            assert forall|i: int| 0 <= i < res.topics@.len() implies spec_topic_name_bytes(
                #[trigger] res.topics@[i],
            ).len() <= 255 by {
                assert(is_unknown_topic(res.topics@[i], names[i]));
                assert(encode_utf8(names[i]).len() <= 255);
            }
            assert forall|i: int| 0 <= i < res.topics@.len() implies (#[trigger] res.topics@[i])
                .partitions is None by {
                assert(is_unknown_topic(res.topics@[i], names[i]));
            }
            lemma_topics_seq_len(res.topics@);
            assert(desc_encodable(res)) by {
                assert forall|i: int| 0 <= i < res.topics@.len() implies
                    crate::response::topic_encodable(#[trigger] res.topics@[i]) by {
                    assert(is_unknown_topic(res.topics@[i], names[i]));
                }
            }
        }
        let encoded = match res.to_bytes() {
            Ok(v) => v,
            Err(_) => {
                return FrameOutcome::Skip;
            },
        };
        proof {
            lemma_unknown_topics_seq(res.topics@, names);
            assert(spec_res_desc_bytes(res) =~= spec_desc_reply(corr, names, req.cursor));
        }
        encoded
    } else {
        return FrameOutcome::Skip;
    };
    let mut out: Vec<u8> = Vec::new();
    put_u32(&mut out, body.len() as u32);
    append_bytes(&mut out, &body);
    FrameOutcome::Respond(out)
}

} // verus!
