//! The per-API response values, their wire encoders, and the builders that
//! synthesize a response from a decoded request.

use vstd::prelude::*;
use vstd::string::StrSliceExecFns;
use vstd::utf8::encode_utf8;
use crate::ProtocolError;
use crate::request::{ReqApiVersionsV4, ReqDescTopicPartitionV0};
use crate::wire::{
    be2, be4, be2i, be4i, be16, put_u8, put_u16, put_u32, put_i16, put_i32, put_u128,
    append_bytes,
};

verus! {

/// One advertised capability entry: an API key with its supported version range.
#[derive(Debug, Clone, Copy, PartialEq, Eq, Structural)]
pub struct ApiVersion {
    pub api_key: u16,
    pub min_version: u16,
    pub max_version: u16,
}

/// The capability-discovery response.
#[derive(Debug)]
pub struct ResApiVersionsV4 {
    pub correlation_id: i32,
    pub error_code: i16,
    pub api_versions: Vec<ApiVersion>,
    pub throttle_time_ms: u32,
}

/// The wire encoding of one capability entry: three u16 fields and a reserved byte.
pub open spec fn spec_api_version_bytes(a: ApiVersion) -> Seq<u8> {
    be2(a.api_key) + be2(a.min_version) + be2(a.max_version) + seq![0u8]
}

/// The concatenated encodings of a list of capability entries.
pub open spec fn spec_api_versions_seq(vs: Seq<ApiVersion>) -> Seq<u8>
    decreases vs.len(),
{
    if vs.len() == 0 {
        seq![]
    } else {
        spec_api_version_bytes(vs[0]) + spec_api_versions_seq(vs.drop_first())
    }
}

pub proof fn lemma_api_versions_seq_push(s: Seq<ApiVersion>, x: ApiVersion)
    ensures
        spec_api_versions_seq(s.push(x)) == spec_api_versions_seq(s) + spec_api_version_bytes(x),
    decreases s.len(),
{
    if s.len() == 0 {
        reveal_with_fuel(spec_api_versions_seq, 3);
        assert(s.push(x).drop_first() =~= seq![]);
        assert(spec_api_versions_seq(s.push(x)) =~= spec_api_versions_seq(s)
            + spec_api_version_bytes(x));
    } else {
        assert(s.push(x).drop_first() =~= s.drop_first().push(x));
        lemma_api_versions_seq_push(s.drop_first(), x);
        assert(spec_api_versions_seq(s.push(x)) =~= spec_api_versions_seq(s)
            + spec_api_version_bytes(x));
    }
}

/// The encoded length of a capability list: seven bytes per entry.
pub proof fn lemma_api_versions_seq_len(vs: Seq<ApiVersion>)
    ensures
        spec_api_versions_seq(vs).len() == 7 * vs.len(),
    decreases vs.len(),
{
    if vs.len() != 0 {
        lemma_api_versions_seq_len(vs.drop_first());
    }
}

/// The wire encoding of the whole capabilities response: correlation id, error
/// code, count-plus-one byte, the entries, throttle time, one reserved byte.
pub open spec fn spec_res_api_versions_bytes(r: ResApiVersionsV4) -> Seq<u8> {
    be4i(r.correlation_id) + be2i(r.error_code) + seq![(r.api_versions@.len() + 1) as u8]
        + spec_api_versions_seq(r.api_versions@) + be4(r.throttle_time_ms) + seq![0u8]
}

/// What the capability response for a request with the given correlation id
/// holds: the fixed advertised list, no error, no throttle.
pub open spec fn is_capabilities_response_for(r: ResApiVersionsV4, corr: i32) -> bool {
    &&& r.correlation_id == corr
    &&& r.error_code == 0
    &&& r.throttle_time_ms == 0
    &&& r.api_versions@ == seq![
        ApiVersion { api_key: 18, min_version: 0, max_version: 4 },
        ApiVersion { api_key: 75, min_version: 0, max_version: 0 },
    ]
}

impl ResApiVersionsV4 {
    /// Encodes the response; fails only when the capability list cannot be
    /// counted by the count-plus-one byte.
    pub fn to_bytes(&self) -> (r: Result<Vec<u8>, ProtocolError>)
        ensures
            r is Ok <==> self.api_versions@.len() <= 254,
            r matches Ok(v) ==> v@ == spec_res_api_versions_bytes(*self),
            r matches Err(e) ==> e == ProtocolError::EncodingOverflow,
    {
        if self.api_versions.len() > 254 {
            return Err(ProtocolError::EncodingOverflow);
        }
        let mut buf: Vec<u8> = Vec::new();
        put_i32(&mut buf, self.correlation_id);
        put_i16(&mut buf, self.error_code);
        put_u8(&mut buf, (self.api_versions.len() + 1) as u8);
        let ghost prefix = buf@;
        let mut i: usize = 0;
        while i < self.api_versions.len()
            invariant
                i <= self.api_versions@.len(),
                self.api_versions@.len() <= 254,
                prefix == be4i(self.correlation_id) + be2i(self.error_code) + seq![(
                self.api_versions@.len() + 1) as u8],
                buf@ == prefix + spec_api_versions_seq(self.api_versions@.take(i as int)),
            decreases self.api_versions@.len() - i,
        {
            let a = self.api_versions[i];
            put_u16(&mut buf, a.api_key);
            put_u16(&mut buf, a.min_version);
            put_u16(&mut buf, a.max_version);
            put_u8(&mut buf, 0);
            proof {
                assert(self.api_versions@.take(i as int + 1) =~= self.api_versions@.take(
                    i as int,
                ).push(self.api_versions@[i as int]));
                lemma_api_versions_seq_push(
                    self.api_versions@.take(i as int),
                    self.api_versions@[i as int],
                );
                assert(buf@ =~= prefix + spec_api_versions_seq(
                    self.api_versions@.take(i as int + 1),
                ));
            }
            i = i + 1;
        }
        proof {
            assert(self.api_versions@.take(self.api_versions@.len() as int)
                =~= self.api_versions@);
        }
        put_u32(&mut buf, self.throttle_time_ms);
        put_u8(&mut buf, 0);
        proof {
            assert(buf@ =~= spec_res_api_versions_bytes(*self));
        }
        Ok(buf)
    }

    /// Builds the capability response: the server's fixed capability set and
    /// the request's correlation id echoed.
    pub fn from_request(request: &ReqApiVersionsV4) -> (r: ResApiVersionsV4)
        ensures
            is_capabilities_response_for(r, request.header.correlation_id),
    {
        let mut api_versions: Vec<ApiVersion> = Vec::new();
        api_versions.push(ApiVersion { api_key: 18, min_version: 0, max_version: 4 });
        api_versions.push(ApiVersion { api_key: 75, min_version: 0, max_version: 0 });
        let r = ResApiVersionsV4 {
            correlation_id: request.header.correlation_id,
            error_code: 0,
            api_versions,
            throttle_time_ms: 0,
        };
        proof {
            assert(r.api_versions@ =~= seq![
                ApiVersion { api_key: 18, min_version: 0, max_version: 4 },
                ApiVersion { api_key: 75, min_version: 0, max_version: 0 },
            ]);
        }
        r
    }
}

/// Law: the capabilities response depends on the request only through its
/// correlation id. Two responses built for equal correlation ids encode to
/// equal bytes; for any correlation ids they agree past the first four bytes.
pub proof fn lemma_capabilities_independent(
    r1: ResApiVersionsV4,
    r2: ResApiVersionsV4,
    c1: i32,
    c2: i32,
)
    requires
        is_capabilities_response_for(r1, c1),
        is_capabilities_response_for(r2, c2),
    ensures
        spec_res_api_versions_bytes(r1).skip(4) == spec_res_api_versions_bytes(r2).skip(4),
        c1 == c2 ==> spec_res_api_versions_bytes(r1) == spec_res_api_versions_bytes(r2),
{
    assert(spec_res_api_versions_bytes(r1).skip(4) =~= spec_res_api_versions_bytes(r2).skip(4));
    if c1 == c2 {
        assert(spec_res_api_versions_bytes(r1) =~= spec_res_api_versions_bytes(r2));
    }
}

/// Law (count-plus-one convention, encoding side): for a capability list of any
/// length n with 0 <= n <= 254, the count byte of the encoding is n + 1.
pub proof fn lemma_count_plus_one_encode(r: ResApiVersionsV4)
    requires
        r.api_versions@.len() <= 254,
    ensures
        spec_res_api_versions_bytes(r)[6] == r.api_versions@.len() + 1,
{
}

/// Law (count-plus-one convention, encoding side): the same holds of the
/// topic-description response's topic count byte.
pub proof fn lemma_count_plus_one_encode_desc(r: ResDescTopicPartitionV0)
    requires
        r.topics@.len() <= 254,
    ensures
        spec_res_desc_bytes(r)[9] == r.topics@.len() + 1,
{
}

/// Placeholder partition metadata of one topic partition.
#[derive(Debug)]
pub struct Partition {
    pub partition_id: i32,
    pub leader_id: i32,
    pub replica_nodes: Vec<i32>,
    pub isr_nodes: Vec<i32>,
    pub offline_replicas: Vec<i32>,
    pub partition_error_code: i16,
}

/// The concatenated four-byte encodings of a node-id list.
pub open spec fn spec_i32_list(ns: Seq<i32>) -> Seq<u8>
    decreases ns.len(),
{
    if ns.len() == 0 {
        seq![]
    } else {
        be4i(ns[0]) + spec_i32_list(ns.drop_first())
    }
}

pub proof fn lemma_i32_list_push(s: Seq<i32>, x: i32)
    ensures
        spec_i32_list(s.push(x)) == spec_i32_list(s) + be4i(x),
    decreases s.len(),
{
    if s.len() == 0 {
        reveal_with_fuel(spec_i32_list, 3);
        assert(s.push(x).drop_first() =~= seq![]);
        assert(spec_i32_list(s.push(x)) =~= spec_i32_list(s) + be4i(x));
    } else {
        assert(s.push(x).drop_first() =~= s.drop_first().push(x));
        lemma_i32_list_push(s.drop_first(), x);
        assert(spec_i32_list(s.push(x)) =~= spec_i32_list(s) + be4i(x));
    }
}

/// The wire encoding of one partition: the two ids, three counted node-id
/// lists (plain counts, no off-by-one), and the partition error code.
pub open spec fn spec_partition_bytes(p: Partition) -> Seq<u8> {
    be4i(p.partition_id) + be4i(p.leader_id) + seq![p.replica_nodes@.len() as u8] + spec_i32_list(
        p.replica_nodes@,
    ) + seq![p.isr_nodes@.len() as u8] + spec_i32_list(p.isr_nodes@) + seq![
        p.offline_replicas@.len() as u8,
    ] + spec_i32_list(p.offline_replicas@) + be2i(p.partition_error_code)
}

/// Each node-id list fits its one-byte plain count.
pub open spec fn partition_encodable(p: Partition) -> bool {
    &&& p.replica_nodes@.len() <= 255
    &&& p.isr_nodes@.len() <= 255
    &&& p.offline_replicas@.len() <= 255
}

/// The concatenated encodings of a partition list.
pub open spec fn spec_partitions_seq(ps: Seq<Partition>) -> Seq<u8>
    decreases ps.len(),
{
    if ps.len() == 0 {
        seq![]
    } else {
        spec_partition_bytes(ps[0]) + spec_partitions_seq(ps.drop_first())
    }
}

pub proof fn lemma_partitions_seq_push(s: Seq<Partition>, x: Partition)
    ensures
        spec_partitions_seq(s.push(x)) == spec_partitions_seq(s) + spec_partition_bytes(x),
    decreases s.len(),
{
    if s.len() == 0 {
        reveal_with_fuel(spec_partitions_seq, 3);
        assert(s.push(x).drop_first() =~= seq![]);
        assert(spec_partitions_seq(s.push(x)) =~= spec_partitions_seq(s)
            + spec_partition_bytes(x));
    } else {
        assert(s.push(x).drop_first() =~= s.drop_first().push(x));
        lemma_partitions_seq_push(s.drop_first(), x);
        assert(spec_partitions_seq(s.push(x)) =~= spec_partitions_seq(s)
            + spec_partition_bytes(x));
    }
}

/// Appends a node-id list as a one-byte plain count followed by the ids.
fn put_i32_list(buf: &mut Vec<u8>, ns: &Vec<i32>)
    requires
        ns@.len() <= 255,
    ensures
        final(buf)@ == old(buf)@ + seq![ns@.len() as u8] + spec_i32_list(ns@),
{
    put_u8(buf, ns.len() as u8);
    let mut i: usize = 0;
    while i < ns.len()
        invariant
            i <= ns@.len(),
            ns@.len() <= 255,
            buf@ == old(buf)@ + seq![ns@.len() as u8] + spec_i32_list(ns@.take(i as int)),
        decreases ns@.len() - i,
    {
        put_i32(buf, ns[i]);
        proof {
            assert(ns@.take(i as int + 1) =~= ns@.take(i as int).push(ns@[i as int]));
            lemma_i32_list_push(ns@.take(i as int), ns@[i as int]);
            assert(buf@ =~= old(buf)@ + seq![ns@.len() as u8] + spec_i32_list(
                ns@.take(i as int + 1),
            ));
        }
        i = i + 1;
    }
    proof {
        assert(ns@.take(ns@.len() as int) =~= ns@);
    }
}

/// Appends one partition's encoding; reports failure, writing nothing, when a
/// node-id list cannot be counted by one byte.
fn put_partition(buf: &mut Vec<u8>, p: &Partition) -> (ok: bool)
    ensures
        ok <==> partition_encodable(*p),
        ok ==> final(buf)@ == old(buf)@ + spec_partition_bytes(*p),
        !ok ==> final(buf)@ == old(buf)@,
{
    if p.replica_nodes.len() > 255 || p.isr_nodes.len() > 255 || p.offline_replicas.len() > 255 {
        return false;
    }
    put_i32(buf, p.partition_id);
    put_i32(buf, p.leader_id);
    put_i32_list(buf, &p.replica_nodes);
    put_i32_list(buf, &p.isr_nodes);
    put_i32_list(buf, &p.offline_replicas);
    put_i16(buf, p.partition_error_code);
    proof {
        assert(buf@ =~= old(buf)@ + spec_partition_bytes(*p));
    }
    true
}

/// One topic's placeholder metadata in a topic-description response.
#[derive(Debug)]
pub struct Topic {
    pub error_code: i16,
    pub topic_name: String,
    pub topic_id: u128,
    pub is_internal: bool,
    pub partitions: Option<Vec<Partition>>,
    pub topic_operations: u32,
}

/// The UTF-8 bytes of the topic's name.
pub open spec fn spec_topic_name_bytes(t: Topic) -> Seq<u8> {
    encode_utf8(t.topic_name@)
}

/// The wire encoding of one topic: error code, one-byte-length-prefixed name,
/// topic id, internal flag, the partition list under the count-plus-one
/// convention (a lone 1 when absent), and the authorized operations.
pub open spec fn spec_topic_bytes(t: Topic) -> Seq<u8> {
    be2i(t.error_code) + seq![spec_topic_name_bytes(t).len() as u8] + spec_topic_name_bytes(t)
        + be16(t.topic_id) + seq![if t.is_internal { 1u8 } else { 0u8 }] + (match t.partitions {
        Some(ps) => seq![(ps@.len() + 1) as u8] + spec_partitions_seq(ps@),
        None => seq![1u8],
    }) + be4(t.topic_operations)
}

/// The name fits its one-byte length, the partition list its count-plus-one
/// byte, and each partition its own counts.
pub open spec fn topic_encodable(t: Topic) -> bool {
    &&& spec_topic_name_bytes(t).len() <= 255
    &&& match t.partitions {
        Some(ps) => ps@.len() <= 254 && forall|i: int|
            0 <= i < ps@.len() ==> partition_encodable(#[trigger] ps@[i]),
        None => true,
    }
}

impl Topic {
    /// Encodes one topic; fails only when a collection in it cannot be counted
    /// by its one-byte count.
    pub fn to_bytes(&self) -> (r: Result<Vec<u8>, ProtocolError>)
        ensures
            r is Ok <==> topic_encodable(*self),
            r matches Ok(v) ==> v@ == spec_topic_bytes(*self),
            r matches Err(e) ==> e == ProtocolError::EncodingOverflow,
    {
        let name_bytes = self.topic_name.as_str().as_bytes_vec();
        if name_bytes.len() > 255 {
            return Err(ProtocolError::EncodingOverflow);
        }
        let mut buf: Vec<u8> = Vec::new();
        put_i16(&mut buf, self.error_code);
        put_u8(&mut buf, name_bytes.len() as u8);
        append_bytes(&mut buf, &name_bytes);
        put_u128(&mut buf, self.topic_id);
        put_u8(&mut buf, if self.is_internal { 1 } else { 0 });
        match &self.partitions {
            Some(partitions) => {
                if partitions.len() > 254 {
                    return Err(ProtocolError::EncodingOverflow);
                }
                put_u8(&mut buf, (partitions.len() + 1) as u8);
                let ghost prefix = buf@;
                let mut i: usize = 0;
                while i < partitions.len()
                    invariant
                        self.partitions == Some(*partitions),
                        i <= partitions@.len(),
                        partitions@.len() <= 254,
                        spec_topic_name_bytes(*self).len() <= 255,
                        buf@ == prefix + spec_partitions_seq(partitions@.take(i as int)),
                        forall|k: int| 0 <= k < i ==> partition_encodable(#[trigger] partitions@[k]),
                    decreases partitions@.len() - i,
                {
                    let ok = put_partition(&mut buf, &partitions[i]);
                    if !ok {
                        proof {
                            assert(!partition_encodable(partitions@[i as int]));
                        }
                        return Err(ProtocolError::EncodingOverflow);
                    }
                    proof {
                        assert(partitions@.take(i as int + 1) =~= partitions@.take(i as int).push(
                            partitions@[i as int],
                        ));
                        lemma_partitions_seq_push(
                            partitions@.take(i as int),
                            partitions@[i as int],
                        );
                        assert(buf@ =~= prefix + spec_partitions_seq(
                            partitions@.take(i as int + 1),
                        ));
                    }
                    i = i + 1;
                }
                proof {
                    assert(partitions@.take(partitions@.len() as int) =~= partitions@);
                }
            },
            None => {
                put_u8(&mut buf, 1);
            },
        }
        put_u32(&mut buf, self.topic_operations);
        proof {
            assert(buf@ =~= spec_topic_bytes(*self));
        }
        Ok(buf)
    }
}

/// The topic-description response.
#[derive(Debug)]
pub struct ResDescTopicPartitionV0 {
    pub correlation_id: i32,
    pub throttle_time_ms: u32,
    pub topics: Vec<Topic>,
    pub cursor: u8,
}

/// The concatenated encodings of a topic list, one reserved byte after each.
pub open spec fn spec_topics_seq(ts: Seq<Topic>) -> Seq<u8>
    decreases ts.len(),
{
    if ts.len() == 0 {
        seq![]
    } else {
        spec_topic_bytes(ts[0]) + seq![0u8] + spec_topics_seq(ts.drop_first())
    }
}

pub proof fn lemma_topics_seq_push(s: Seq<Topic>, x: Topic)
    ensures
        spec_topics_seq(s.push(x)) == spec_topics_seq(s) + spec_topic_bytes(x) + seq![0u8],
    decreases s.len(),
{
    if s.len() == 0 {
        reveal_with_fuel(spec_topics_seq, 3);
        assert(s.push(x).drop_first() =~= seq![]);
        assert(spec_topics_seq(s.push(x)) =~= spec_topics_seq(s) + spec_topic_bytes(x)
            + seq![0u8]);
    } else {
        assert(s.push(x).drop_first() =~= s.drop_first().push(x));
        lemma_topics_seq_push(s.drop_first(), x);
        assert(spec_topics_seq(s.push(x)) =~= spec_topics_seq(s) + spec_topic_bytes(x)
            + seq![0u8]);
    }
}

/// The wire encoding of the whole topic-description response: correlation id,
/// a reserved byte, throttle time, count-plus-one byte, the topics, the
/// cursor, one final reserved byte.
pub open spec fn spec_res_desc_bytes(r: ResDescTopicPartitionV0) -> Seq<u8> {
    be4i(r.correlation_id) + seq![0u8] + be4(r.throttle_time_ms) + seq![(r.topics@.len()
        + 1) as u8] + spec_topics_seq(r.topics@) + seq![r.cursor, 0u8]
}

/// The topic list fits its count-plus-one byte and every topic is encodable.
pub open spec fn desc_encodable(r: ResDescTopicPartitionV0) -> bool {
    &&& r.topics@.len() <= 254
    &&& forall|i: int| 0 <= i < r.topics@.len() ==> topic_encodable(#[trigger] r.topics@[i])
}

/// A placeholder descriptor for a topic this broker does not know: unknown-topic
/// error, zero id, not internal, no partitions, no authorized operations.
pub open spec fn is_unknown_topic(t: Topic, name: Seq<char>) -> bool {
    &&& t.error_code == 3
    &&& t.topic_name@ == name
    &&& t.topic_id == 0
    &&& t.is_internal == false
    &&& t.partitions is None
    &&& t.topic_operations == 0
}

/// What the topic-description response for a request holds: one unknown-topic
/// descriptor per requested name, in order, and the request's cursor echoed.
pub open spec fn is_desc_response_for(
    r: ResDescTopicPartitionV0,
    corr: i32,
    names: Seq<Seq<char>>,
    cursor: u8,
) -> bool {
    &&& r.correlation_id == corr
    &&& r.throttle_time_ms == 0
    &&& r.cursor == cursor
    &&& r.topics@.len() == names.len()
    &&& forall|i: int| 0 <= i < names.len() ==> is_unknown_topic(#[trigger] r.topics@[i], names[i])
}

impl ResDescTopicPartitionV0 {
    /// Encodes the response; fails only when the topic list cannot be counted
    /// by the count-plus-one byte or some topic is not encodable.
    pub fn to_bytes(&self) -> (r: Result<Vec<u8>, ProtocolError>)
        ensures
            r is Ok <==> desc_encodable(*self),
            r matches Ok(v) ==> v@ == spec_res_desc_bytes(*self),
            r matches Err(e) ==> e == ProtocolError::EncodingOverflow,
    {
        if self.topics.len() > 254 {
            return Err(ProtocolError::EncodingOverflow);
        }
        let mut buf: Vec<u8> = Vec::new();
        put_i32(&mut buf, self.correlation_id);
        put_u8(&mut buf, 0);
        put_u32(&mut buf, self.throttle_time_ms);
        put_u8(&mut buf, (self.topics.len() + 1) as u8);
        let ghost prefix = buf@;
        let mut i: usize = 0;
        while i < self.topics.len()
            invariant
                i <= self.topics@.len(),
                self.topics@.len() <= 254,
                prefix == be4i(self.correlation_id) + seq![0u8] + be4(self.throttle_time_ms)
                    + seq![(self.topics@.len() + 1) as u8],
                buf@ == prefix + spec_topics_seq(self.topics@.take(i as int)),
                forall|k: int| 0 <= k < i ==> topic_encodable(#[trigger] self.topics@[k]),
            decreases self.topics@.len() - i,
        {
            let topic_bytes = match self.topics[i].to_bytes() {
                Ok(v) => v,
                Err(e) => {
                    return Err(e);
                },
            };
            append_bytes(&mut buf, &topic_bytes);
            put_u8(&mut buf, 0);
            proof {
                assert(self.topics@.take(i as int + 1) =~= self.topics@.take(i as int).push(
                    self.topics@[i as int],
                ));
                lemma_topics_seq_push(self.topics@.take(i as int), self.topics@[i as int]);
                assert(buf@ =~= prefix + spec_topics_seq(self.topics@.take(i as int + 1)));
            }
            i = i + 1;
        }
        proof {
            assert(self.topics@.take(self.topics@.len() as int) =~= self.topics@);
        }
        put_u8(&mut buf, self.cursor);
        put_u8(&mut buf, 0);
        proof {
            assert(buf@ =~= spec_res_desc_bytes(*self));
        }
        Ok(buf)
    }

    /// Builds the topic-description response: every requested topic is reported
    /// as unknown, since this broker keeps no topic catalog.
    pub fn from_request(request: &ReqDescTopicPartitionV0) -> (r: ResDescTopicPartitionV0)
        ensures
            is_desc_response_for(
                r,
                request.header.correlation_id,
                request.topics@.map_values(|s: String| s@),
                request.cursor,
            ),
    {
        let mut topics: Vec<Topic> = Vec::new();
        let mut i: usize = 0;
        while i < request.topics.len()
            invariant
                i <= request.topics@.len(),
                topics@.len() == i,
                forall|k: int| 0 <= k < i ==> is_unknown_topic(
                    #[trigger] topics@[k],
                    request.topics@[k]@,
                ),
            decreases request.topics@.len() - i,
        {
            let name = request.topics[i].clone();
            topics.push(
                Topic {
                    error_code: 3,
                    topic_name: name,
                    topic_id: 0,
                    is_internal: false,
                    partitions: None,
                    topic_operations: 0,
                },
            );
            i = i + 1;
        }
        ResDescTopicPartitionV0 {
            correlation_id: request.header.correlation_id,
            throttle_time_ms: 0,
            topics,
            cursor: request.cursor,
        }
    }
}

/// The encoded length of a topic list of unknown-topic descriptors with short
/// names: at most 281 bytes per topic.
pub proof fn lemma_topics_seq_len(ts: Seq<Topic>)
    requires
        forall|i: int| 0 <= i < ts.len() ==> spec_topic_name_bytes(#[trigger] ts[i]).len() <= 255,
        forall|i: int| 0 <= i < ts.len() ==> (#[trigger] ts[i]).partitions is None,
    ensures
        spec_topics_seq(ts).len() <= 281 * ts.len(),
    decreases ts.len(),
{
    if ts.len() != 0 {
        assert(spec_topic_bytes(ts[0]).len() <= 280);
        lemma_topics_seq_len(ts.drop_first());
    }
}

} // verus!
