//! The protocol messages: handshake negotiation, the request envelope with
//! its op-specific bodies, and the response decoder.
//!
//! Every message type carries a spec function giving its exact wire image
//! (or, for responses, the exact conditions and field values of a decode),
//! and the executable encoders and decoders are verified against them.

use vstd::prelude::*;
use vstd::string::StringSliceAdditionalSpecFns;
use vstd::utf8::{valid_utf8, encode_utf8};
use crate::wire::{
    spec_i16_le, spec_i32_le, spec_i64_le, spec_i16_at, spec_i32_at, spec_i64_at,
    spec_bool_byte, spec_string_field, put_u8, put_bool, put_i16_le, put_i32_le, put_i64_le,
    put_str_raw, put_string_field, get_u8, get_i16_le, get_i32_le, get_i64_le, get_utf8,
    DecodeError, lemma_i16_le_round_trip, lemma_i32_le_round_trip, lemma_i64_le_round_trip,
};

verus! {

// ===========================================================================
// Handshake
// ===========================================================================

/// The client's opening message: protocol version and credentials.
pub struct HandshakeRequest {
    pub major_version: i16,
    pub minor_version: i16,
    pub patch_version: i16,
    pub username: String,
    pub password: String,
}

impl HandshakeRequest {
    /// Payload length: op marker, three version fields, client-type marker,
    /// and the two length-prefixed credential strings.
    pub open spec fn spec_payload_len(&self) -> int {
        16 + encode_utf8(self.username@).len() as int + encode_utf8(self.password@).len() as int
    }

    /// The payload length must itself fit in the i32 length prefix.
    pub open spec fn wf(&self) -> bool {
        self.spec_payload_len() <= i32::MAX
    }

    /// The full wire image: i32 payload length, op marker byte 1, the
    /// version triple, client-type marker byte 2, then username and
    /// password, each as an i32 byte length followed by raw UTF-8 bytes —
    /// with no leading type-marker byte, unlike general string fields.
    pub open spec fn spec_encode(&self) -> Seq<u8> {
        spec_i32_le(self.spec_payload_len() as i32) + seq![1u8] + spec_i16_le(self.major_version)
            + spec_i16_le(self.minor_version) + spec_i16_le(self.patch_version) + seq![2u8]
            + spec_i32_le(encode_utf8(self.username@).len() as i32) + encode_utf8(self.username@)
            + spec_i32_le(encode_utf8(self.password@).len() as i32) + encode_utf8(self.password@)
    }

    pub fn new(
        major_version: i16,
        minor_version: i16,
        patch_version: i16,
        username: String,
        password: String,
    ) -> (r: HandshakeRequest)
        ensures
            r.major_version == major_version,
            r.minor_version == minor_version,
            r.patch_version == patch_version,
            r.username@ == username@,
            r.password@ == password@,
    {
        HandshakeRequest { major_version, minor_version, patch_version, username, password }
    }

    /// The payload length that the length prefix will declare.
    pub fn length(&self) -> (r: usize)
        requires
            self.wf(),
        ensures
            r == self.spec_payload_len(),
    {
        1 + 2 + 2 + 2 + 1 + 4 + self.username.as_str().len() + 4 + self.password.as_str().len()
    }

    /// Serialize, length prefix included.
    pub fn encode(&self) -> (r: Vec<u8>)
        requires
            self.wf(),
        ensures
            r@ == self.spec_encode(),
            r@.len() == 4 + self.spec_payload_len(),
    {
        let payload_length = self.length();
        let mut buf: Vec<u8> = Vec::new();
        put_i32_le(&mut buf, payload_length as i32);
        put_u8(&mut buf, 1);
        put_i16_le(&mut buf, self.major_version);
        put_i16_le(&mut buf, self.minor_version);
        put_i16_le(&mut buf, self.patch_version);
        put_u8(&mut buf, 2);
        put_i32_le(&mut buf, self.username.as_str().len() as i32);
        put_str_raw(&mut buf, self.username.as_str());
        put_i32_le(&mut buf, self.password.as_str().len() as i32);
        put_str_raw(&mut buf, self.password.as_str());
        proof {
            lemma_i16_le_round_trip();
            lemma_i32_le_round_trip();
            assert(buf@ =~= self.spec_encode());
        }
        buf
    }
}

/// Whether a handshake-request buffer can be decoded: the fixed header and
/// both declared credential ranges lie within the buffer, the declared
/// lengths are non-negative, and both credential ranges are valid UTF-8.
pub open spec fn spec_handshake_request_decodable(d: Seq<u8>) -> bool {
    let ulen = spec_i32_at(d, 12) as int;
    let plen = spec_i32_at(d, 16 + ulen) as int;
    &&& d.len() >= 16
    &&& ulen >= 0
    &&& 20 + ulen <= d.len()
    &&& plen >= 0
    &&& 20 + ulen + plen <= d.len()
    &&& valid_utf8(d.subrange(16, 16 + ulen))
    &&& valid_utf8(d.subrange(20 + ulen, 20 + ulen + plen))
}

/// Which error a failed handshake-request decode reports.
pub open spec fn spec_handshake_request_decode_err(d: Seq<u8>) -> DecodeError {
    let ulen = spec_i32_at(d, 12) as int;
    let plen = spec_i32_at(d, 16 + ulen) as int;
    if d.len() < 16 {
        DecodeError::UnexpectedEnd
    } else if ulen < 0 {
        DecodeError::NegativeLength
    } else if 20 + ulen > d.len() {
        DecodeError::UnexpectedEnd
    } else if plen < 0 {
        DecodeError::NegativeLength
    } else if 20 + ulen + plen > d.len() {
        DecodeError::UnexpectedEnd
    } else {
        DecodeError::InvalidUtf8
    }
}

impl HandshakeRequest {
    /// Decode a handshake request back out of its wire image (the
    /// server-side read of the request layout). Marker bytes are skipped,
    /// not validated; trailing bytes are ignored.
    pub fn decode(data: &[u8]) -> (r: Result<HandshakeRequest, DecodeError>)
        ensures
            r is Ok <==> spec_handshake_request_decodable(data@),
            r matches Err(e) ==> e == spec_handshake_request_decode_err(data@),
            r matches Ok(h) ==> {
                let ulen = spec_i32_at(data@, 12) as int;
                let plen = spec_i32_at(data@, 16 + ulen) as int;
                &&& h.major_version == spec_i16_at(data@, 5)
                &&& h.minor_version == spec_i16_at(data@, 7)
                &&& h.patch_version == spec_i16_at(data@, 9)
                &&& encode_utf8(h.username@) == data@.subrange(16, 16 + ulen)
                &&& encode_utf8(h.password@) == data@.subrange(20 + ulen, 20 + ulen + plen)
            },
    {
        let dl: usize = data.len();
        if dl < 16 {
            return Err(DecodeError::UnexpectedEnd);
        }
        let major_version = get_i16_le(data, 5);
        let minor_version = get_i16_le(data, 7);
        let patch_version = get_i16_le(data, 9);
        let ulen_i = get_i32_le(data, 12);
        if ulen_i < 0 {
            return Err(DecodeError::NegativeLength);
        }
        let ulen = ulen_i as usize;
        if dl < 20 || dl - 20 < ulen {
            return Err(DecodeError::UnexpectedEnd);
        }
        let plen_i = get_i32_le(data, 16 + ulen);
        if plen_i < 0 {
            return Err(DecodeError::NegativeLength);
        }
        let plen = plen_i as usize;
        if dl - 20 - ulen < plen {
            return Err(DecodeError::UnexpectedEnd);
        }
        let username = match get_utf8(data, 16, ulen) {
            Ok(s) => s,
            Err(e) => {
                return Err(e);
            },
        };
        let password = match get_utf8(data, 20 + ulen, plen) {
            Ok(s) => s,
            Err(e) => {
                return Err(e);
            },
        };
        Ok(HandshakeRequest { major_version, minor_version, patch_version, username, password })
    }
}

/// Law: the handshake request round-trips through the request-side field
/// layout. The wire image of any well-formed request is decodable, its
/// length prefix declares exactly the payload length, and every field —
/// the version triple and both credential strings — reads back at its
/// layout offset exactly as written.
#[verifier::rlimit(100)]
pub proof fn lemma_handshake_request_round_trip(r: HandshakeRequest)
    requires
        r.wf(),
    ensures
        spec_handshake_request_decodable(r.spec_encode()),
        ({
            let d = r.spec_encode();
            let ulen = encode_utf8(r.username@).len() as int;
            let plen = encode_utf8(r.password@).len() as int;
            &&& d.len() == 4 + r.spec_payload_len()
            &&& spec_i32_at(d, 0) == r.spec_payload_len()
            &&& d[4] == 1
            &&& spec_i16_at(d, 5) == r.major_version
            &&& spec_i16_at(d, 7) == r.minor_version
            &&& spec_i16_at(d, 9) == r.patch_version
            &&& d[11] == 2
            &&& spec_i32_at(d, 12) == ulen
            &&& d.subrange(16, 16 + ulen) == encode_utf8(r.username@)
            &&& spec_i32_at(d, 16 + ulen) == plen
            &&& d.subrange(20 + ulen, 20 + ulen + plen) == encode_utf8(r.password@)
            &&& vstd::utf8::decode_utf8(d.subrange(16, 16 + ulen)) == r.username@
            &&& vstd::utf8::decode_utf8(d.subrange(20 + ulen, 20 + ulen + plen)) == r.password@
        }),
{
    broadcast use vstd::utf8::encode_utf8_valid_utf8;
    broadcast use vstd::utf8::encode_utf8_decode_utf8;

    lemma_i16_le_round_trip();
    lemma_i32_le_round_trip();
    let d = r.spec_encode();
    let ub = encode_utf8(r.username@);
    let pb = encode_utf8(r.password@);
    let ulen = ub.len() as int;
    let plen = pb.len() as int;
    assert(d.subrange(0, 4) =~= spec_i32_le(r.spec_payload_len() as i32));
    assert(d.subrange(5, 7) =~= spec_i16_le(r.major_version));
    assert(d.subrange(7, 9) =~= spec_i16_le(r.minor_version));
    assert(d.subrange(9, 11) =~= spec_i16_le(r.patch_version));
    assert(d.subrange(12, 16) =~= spec_i32_le(ulen as i32));
    assert(d.subrange(16, 16 + ulen) =~= ub);
    assert(d.subrange(16 + ulen, 20 + ulen) =~= spec_i32_le(plen as i32));
    assert(d.subrange(20 + ulen, 20 + ulen + plen) =~= pb);
}

/// The server's answer to a handshake: success, or the server's supported
/// version with a human-readable reason.
pub enum HandshakeResponse {
    Success,
    Failure {
        major_version: i16,
        minor_version: i16,
        patch_version: i16,
        error_message: String,
    },
}

impl HandshakeResponse {
    /// Decode rule: the first byte is the success flag. 1 means success
    /// (trailing bytes ignored); any other value means failure, with the
    /// next 6 bytes as three little-endian version fields and all remaining
    /// bytes as a UTF-8 error message.
    pub fn decode(data: &[u8]) -> (r: Result<HandshakeResponse, DecodeError>)
        ensures
            r is Ok <==> (data@.len() > 0 && (data@[0] == 1 || (data@.len() >= 7 && valid_utf8(
                data@.skip(7),
            )))),
            r matches Ok(h) ==> (match h {
                HandshakeResponse::Success => data@[0] == 1,
                HandshakeResponse::Failure {
                    major_version,
                    minor_version,
                    patch_version,
                    error_message,
                } => {
                    &&& data@[0] != 1
                    &&& major_version == spec_i16_at(data@, 1)
                    &&& minor_version == spec_i16_at(data@, 3)
                    &&& patch_version == spec_i16_at(data@, 5)
                    &&& encode_utf8(error_message@) == data@.skip(7)
                },
            }),
            r matches Err(e) ==> {
                &&& (e == DecodeError::UnexpectedEnd <==> (data@.len() == 0 || (data@[0] != 1
                    && data@.len() < 7)))
                &&& (e == DecodeError::InvalidUtf8 <==> (data@.len() >= 7 && data@[0] != 1
                    && !valid_utf8(data@.skip(7))))
            },
    {
        let dl: usize = data.len();
        if dl == 0 {
            return Err(DecodeError::UnexpectedEnd);
        }
        let success_flag = get_u8(data, 0);
        if success_flag == 1 {
            return Ok(HandshakeResponse::Success);
        }
        if dl < 7 {
            return Err(DecodeError::UnexpectedEnd);
        }
        let major_version = get_i16_le(data, 1);
        let minor_version = get_i16_le(data, 3);
        let patch_version = get_i16_le(data, 5);
        match get_utf8(data, 7, dl - 7) {
            Ok(error_message) => {
                proof {
                    assert(data@.subrange(7, 7 + (dl - 7)) =~= data@.skip(7));
                }
                Ok(
                    HandshakeResponse::Failure {
                        major_version,
                        minor_version,
                        patch_version,
                        error_message,
                    },
                )
            },
            Err(e) => {
                proof {
                    assert(data@.subrange(7, 7 + (dl - 7)) =~= data@.skip(7));
                }
                Err(e)
            },
        }
    }
}

// ===========================================================================
// Requests
// ===========================================================================

/// How a SQL statement is classified, encoded as one byte.
#[allow(non_camel_case_types)]
#[derive(Clone, Copy, Debug, PartialEq, Eq, Structural)]
pub enum StatementType {
    ANY,
    SELECT,
    UPDATE,
}

/// The one-byte image of a statement type.
pub open spec fn spec_statement_byte(t: StatementType) -> u8 {
    match t {
        StatementType::ANY => 0u8,
        StatementType::SELECT => 1u8,
        StatementType::UPDATE => 2u8,
    }
}

/// Encode a statement type as its wire byte.
pub fn statement_byte(t: StatementType) -> (r: u8)
    ensures
        r == spec_statement_byte(t),
{
    match t {
        StatementType::ANY => 0,
        StatementType::SELECT => 1,
        StatementType::UPDATE => 2,
    }
}

/// Body of a SQL query against one table.
///
/// Serialization of typed query-argument values is not part of this codec;
/// only the argument count is carried, and the count is written verbatim.
pub struct QuerySqlRequest {
    pub cache_id: i32,
    pub table: String,
    pub sql: String,
    pub query_arg_count: i32,
    pub distributed_join: bool,
    pub local_query: bool,
    pub replicated_only: bool,
    pub cursor_page_size: i32,
    pub timeout_milliseconds: i64,
}

impl QuerySqlRequest {
    /// Body length: every fixed-width field plus the two string fields.
    pub open spec fn spec_len(&self) -> int {
        34 + encode_utf8(self.table@).len() as int + encode_utf8(self.sql@).len() as int
    }

    /// The body, together with the envelope around it, must fit the i32
    /// payload-length prefix.
    pub open spec fn wf(&self) -> bool {
        10 + self.spec_len() <= i32::MAX
    }

    /// The body's wire image: cache id, reserved flag byte 0, table and sql
    /// as general string fields, argument count, three flag bytes, cursor
    /// page size, then the timeout.
    pub open spec fn spec_encode(&self) -> Seq<u8> {
        spec_i32_le(self.cache_id) + seq![0u8] + spec_string_field(encode_utf8(self.table@))
            + spec_string_field(encode_utf8(self.sql@)) + spec_i32_le(self.query_arg_count)
            + seq![
            spec_bool_byte(self.distributed_join),
            spec_bool_byte(self.local_query),
            spec_bool_byte(self.replicated_only),
        ] + spec_i32_le(self.cursor_page_size) + spec_i64_le(self.timeout_milliseconds)
    }

    pub fn new(
        cache_id: i32,
        table: String,
        sql: String,
        query_arg_count: i32,
        distributed_join: bool,
        local_query: bool,
        replicated_only: bool,
        cursor_page_size: i32,
        timeout_milliseconds: i64,
    ) -> (r: QuerySqlRequest)
        ensures
            r.cache_id == cache_id,
            r.table@ == table@,
            r.sql@ == sql@,
            r.query_arg_count == query_arg_count,
            r.distributed_join == distributed_join,
            r.local_query == local_query,
            r.replicated_only == replicated_only,
            r.cursor_page_size == cursor_page_size,
            r.timeout_milliseconds == timeout_milliseconds,
    {
        QuerySqlRequest {
            cache_id,
            table,
            sql,
            query_arg_count,
            distributed_join,
            local_query,
            replicated_only,
            cursor_page_size,
            timeout_milliseconds,
        }
    }

    /// The number of bytes the body serializes to.
    pub fn length(&self) -> (r: usize)
        requires
            self.wf(),
        ensures
            r == self.spec_len(),
    {
        let mut total_length: usize = 0;
        total_length += crate::len::CACHE_ID;
        total_length += 1;
        total_length += crate::len::str(self.table.as_str());
        total_length += crate::len::str(self.sql.as_str());
        total_length += crate::len::QUERY_ARG_COUNT;
        total_length += crate::len::DISTRIBUTED_JOIN;
        total_length += crate::len::LOCAL_QUERY;
        total_length += crate::len::REPLICATED_ONLY;
        total_length += crate::len::CURSOR_PAGE_SIZE;
        total_length += crate::len::TIMEOUT;
        total_length
    }

    /// Serialize the body (the envelope adds the length prefix).
    pub fn encode(&self) -> (r: Vec<u8>)
        requires
            self.wf(),
        ensures
            r@ == self.spec_encode(),
            r@.len() == self.spec_len(),
    {
        let mut buf: Vec<u8> = Vec::new();
        put_i32_le(&mut buf, self.cache_id);
        put_u8(&mut buf, 0);
        put_string_field(&mut buf, self.table.as_str());
        put_string_field(&mut buf, self.sql.as_str());
        put_i32_le(&mut buf, self.query_arg_count);
        put_bool(&mut buf, self.distributed_join);
        put_bool(&mut buf, self.local_query);
        put_bool(&mut buf, self.replicated_only);
        put_i32_le(&mut buf, self.cursor_page_size);
        put_i64_le(&mut buf, self.timeout_milliseconds);
        proof {
            lemma_i32_le_round_trip();
            lemma_i64_le_round_trip();
            assert(buf@ =~= self.spec_encode());
        }
        buf
    }
}

/// Body of a SQL fields query against a schema.
///
/// The include-field-names flag controls which response decode path applies;
/// the caller must hand the same intent to the response decoder.
pub struct QuerySqlFieldsRequest {
    pub cache_id: i32,
    pub schema: String,
    pub cursor_page_size: i32,
    pub max_rows: i32,
    pub sql: String,
    pub query_arg_count: i32,
    pub statement_type: StatementType,
    pub distributed_join: bool,
    pub local_query: bool,
    pub replicated_only: bool,
    pub enforce_join_order: bool,
    pub collocated: bool,
    pub lazy: bool,
    pub timeout_milliseconds: i64,
    pub include_field_names: bool,
}

impl QuerySqlFieldsRequest {
    /// Body length: every fixed-width field plus the two string fields.
    pub open spec fn spec_len(&self) -> int {
        43 + encode_utf8(self.schema@).len() as int + encode_utf8(self.sql@).len() as int
    }

    /// The body, together with the envelope around it, must fit the i32
    /// payload-length prefix.
    pub open spec fn wf(&self) -> bool {
        10 + self.spec_len() <= i32::MAX
    }

    /// The body's wire image: cache id, reserved flag byte 0, schema as a
    /// general string field, cursor page size, max rows, sql as a general
    /// string field, argument count, statement-type byte, five flag bytes,
    /// the lazy flag, the timeout, then the include-field-names flag.
    pub open spec fn spec_encode(&self) -> Seq<u8> {
        spec_i32_le(self.cache_id) + seq![0u8] + spec_string_field(encode_utf8(self.schema@))
            + spec_i32_le(self.cursor_page_size) + spec_i32_le(self.max_rows) + spec_string_field(
            encode_utf8(self.sql@),
        ) + spec_i32_le(self.query_arg_count) + seq![
            spec_statement_byte(self.statement_type),
            spec_bool_byte(self.distributed_join),
            spec_bool_byte(self.local_query),
            spec_bool_byte(self.replicated_only),
            spec_bool_byte(self.enforce_join_order),
            spec_bool_byte(self.collocated),
            spec_bool_byte(self.lazy),
        ] + spec_i64_le(self.timeout_milliseconds) + seq![
            spec_bool_byte(self.include_field_names),
        ]
    }

    pub fn new(
        cache_id: i32,
        schema: String,
        cursor_page_size: i32,
        max_rows: i32,
        sql: String,
        query_arg_count: i32,
        statement_type: StatementType,
        distributed_join: bool,
        local_query: bool,
        replicated_only: bool,
        enforce_join_order: bool,
        collocated: bool,
        lazy: bool,
        timeout_milliseconds: i64,
        include_field_names: bool,
    ) -> (r: QuerySqlFieldsRequest)
        ensures
            r.cache_id == cache_id,
            r.schema@ == schema@,
            r.cursor_page_size == cursor_page_size,
            r.max_rows == max_rows,
            r.sql@ == sql@,
            r.query_arg_count == query_arg_count,
            r.statement_type == statement_type,
            r.distributed_join == distributed_join,
            r.local_query == local_query,
            r.replicated_only == replicated_only,
            r.enforce_join_order == enforce_join_order,
            r.collocated == collocated,
            r.lazy == lazy,
            r.timeout_milliseconds == timeout_milliseconds,
            r.include_field_names == include_field_names,
    {
        QuerySqlFieldsRequest {
            cache_id,
            schema,
            cursor_page_size,
            max_rows,
            sql,
            query_arg_count,
            statement_type,
            distributed_join,
            local_query,
            replicated_only,
            enforce_join_order,
            collocated,
            lazy,
            timeout_milliseconds,
            include_field_names,
        }
    }

    /// The number of bytes the body serializes to.
    pub fn length(&self) -> (r: usize)
        requires
            self.wf(),
        ensures
            r == self.spec_len(),
    {
        let mut total_length: usize = 0;
        total_length += crate::len::CACHE_ID;
        total_length += 1;
        total_length += crate::len::str(self.schema.as_str());
        total_length += crate::len::CURSOR_PAGE_SIZE;
        total_length += crate::len::MAX_ROWS;
        total_length += crate::len::str(self.sql.as_str());
        total_length += crate::len::QUERY_ARG_COUNT;
        total_length += crate::len::STATEMENT_TYPE;
        total_length += crate::len::DISTRIBUTED_JOIN;
        total_length += crate::len::LOCAL_QUERY;
        total_length += crate::len::REPLICATED_ONLY;
        total_length += crate::len::ENFORCE_JOIN_ORDER;
        total_length += crate::len::COLLOCATED;
        total_length += crate::len::LAZY;
        total_length += crate::len::TIMEOUT;
        total_length += crate::len::INCLUDE_FIELD_NAMES;
        total_length
    }

    /// Serialize the body (the envelope adds the length prefix).
    #[verifier::rlimit(100)]
    pub fn encode(&self) -> (r: Vec<u8>)
        requires
            self.wf(),
        ensures
            r@ == self.spec_encode(),
            r@.len() == self.spec_len(),
    {
        let mut buf: Vec<u8> = Vec::new();
        put_i32_le(&mut buf, self.cache_id);
        put_u8(&mut buf, 0);
        put_string_field(&mut buf, self.schema.as_str());
        put_i32_le(&mut buf, self.cursor_page_size);
        put_i32_le(&mut buf, self.max_rows);
        put_string_field(&mut buf, self.sql.as_str());
        put_i32_le(&mut buf, self.query_arg_count);
        put_u8(&mut buf, statement_byte(self.statement_type));
        put_bool(&mut buf, self.distributed_join);
        put_bool(&mut buf, self.local_query);
        put_bool(&mut buf, self.replicated_only);
        put_bool(&mut buf, self.enforce_join_order);
        put_bool(&mut buf, self.collocated);
        put_bool(&mut buf, self.lazy);
        put_i64_le(&mut buf, self.timeout_milliseconds);
        put_bool(&mut buf, self.include_field_names);
        proof {
            lemma_i32_le_round_trip();
            lemma_i64_le_round_trip();
            assert(buf@ =~= self.spec_encode());
        }
        buf
    }
}

/// The operation a request carries.
pub enum RequestType {
    QuerySql(QuerySqlRequest),
    QuerySqlFields(QuerySqlFieldsRequest),
}

impl RequestType {
    /// The carried body's serialized length.
    pub open spec fn spec_len(&self) -> int {
        match self {
            RequestType::QuerySql(q) => q.spec_len(),
            RequestType::QuerySqlFields(q) => q.spec_len(),
        }
    }

    /// The carried body's wire image.
    pub open spec fn spec_encode(&self) -> Seq<u8> {
        match self {
            RequestType::QuerySql(q) => q.spec_encode(),
            RequestType::QuerySqlFields(q) => q.spec_encode(),
        }
    }

    pub open spec fn wf(&self) -> bool {
        match self {
            RequestType::QuerySql(q) => q.wf(),
            RequestType::QuerySqlFields(q) => q.wf(),
        }
    }
}

/// The common request envelope: op code, request id, then the body.
pub struct Request {
    pub op_code: i16,
    pub request_id: i64,
    pub body: RequestType,
}

impl Request {
    /// Payload length: op code, request id, then the body.
    pub open spec fn spec_payload_len(&self) -> int {
        10 + self.body.spec_len()
    }

    pub open spec fn wf(&self) -> bool {
        self.body.wf()
    }

    /// The full wire image: i32 payload length (not counting itself), i16
    /// op code, i64 request id, then the body. The request id appears
    /// verbatim in the outgoing bytes.
    pub open spec fn spec_encode(&self) -> Seq<u8> {
        spec_i32_le(self.spec_payload_len() as i32) + spec_i16_le(self.op_code) + spec_i64_le(
            self.request_id,
        ) + self.body.spec_encode()
    }

    pub fn new_query_sql(request_id: i64, query_sql_request: QuerySqlRequest) -> (r: Request)
        ensures
            r.op_code == crate::op_const::QUERY_SQL,
            r.request_id == request_id,
            r.body == RequestType::QuerySql(query_sql_request),
    {
        Request {
            op_code: crate::op_const::QUERY_SQL,
            request_id,
            body: RequestType::QuerySql(query_sql_request),
        }
    }

    pub fn new_query_sql_fields(
        request_id: i64,
        query_sql_fields_request: QuerySqlFieldsRequest,
    ) -> (r: Request)
        ensures
            r.op_code == crate::op_const::QUERY_SQL_FIELDS,
            r.request_id == request_id,
            r.body == RequestType::QuerySqlFields(query_sql_fields_request),
    {
        Request {
            op_code: crate::op_const::QUERY_SQL_FIELDS,
            request_id,
            body: RequestType::QuerySqlFields(query_sql_fields_request),
        }
    }

    /// The payload length that the length prefix will declare.
    pub fn length(&self) -> (r: usize)
        requires
            self.wf(),
        ensures
            r == self.spec_payload_len(),
    {
        2 + 8 + (match &self.body {
            RequestType::QuerySql(query_sql_request) => query_sql_request.length(),
            RequestType::QuerySqlFields(query_sql_fields_request) => {
                query_sql_fields_request.length()
            },
        })
    }

    /// Serialize, length prefix included.
    pub fn encode(&self) -> (r: Vec<u8>)
        requires
            self.wf(),
        ensures
            r@ == self.spec_encode(),
            r@.len() == 4 + self.spec_payload_len(),
    {
        let payload_length = self.length();
        let mut buf: Vec<u8> = Vec::new();
        put_i32_le(&mut buf, payload_length as i32);
        put_i16_le(&mut buf, self.op_code);
        put_i64_le(&mut buf, self.request_id);
        let mut body = match &self.body {
            RequestType::QuerySql(query_sql_request) => query_sql_request.encode(),
            RequestType::QuerySqlFields(query_sql_fields_request) => {
                query_sql_fields_request.encode()
            },
        };
        buf.append(&mut body);
        proof {
            lemma_i16_le_round_trip();
            lemma_i32_le_round_trip();
            lemma_i64_le_round_trip();
            assert(buf@ =~= self.spec_encode());
        }
        buf
    }
}

/// Law: the request envelope places every field where the wire format
/// says. The length prefix declares exactly the payload length, the op
/// code and the request id appear verbatim at their offsets, and the
/// body's bytes follow unchanged.
pub proof fn lemma_request_wire_layout(r: Request)
    requires
        r.wf(),
    ensures
        ({
            let d = r.spec_encode();
            &&& d.len() == 4 + r.spec_payload_len()
            &&& spec_i32_at(d, 0) == r.spec_payload_len()
            &&& spec_i16_at(d, 4) == r.op_code
            &&& spec_i64_at(d, 6) == r.request_id
            &&& d.subrange(14, d.len() as int) == r.body.spec_encode()
        }),
{
    lemma_i16_le_round_trip();
    lemma_i32_le_round_trip();
    lemma_i64_le_round_trip();
    let d = r.spec_encode();
    assert(d.subrange(0, 4) =~= spec_i32_le(r.spec_payload_len() as i32));
    assert(d.subrange(4, 6) =~= spec_i16_le(r.op_code));
    assert(d.subrange(6, 14) =~= spec_i64_le(r.request_id));
    assert(d.subrange(14, d.len() as int) =~= r.body.spec_encode());
}

// ===========================================================================
// Responses
// ===========================================================================

/// Result of a plain SQL query: a server-side cursor and its first page.
pub struct QuerySqlResponse {
    pub cursor_id: i64,
    pub row_count: i32,
    pub has_more: bool,
}

impl QuerySqlResponse {
    /// Decode the success body: cursor id, row count, has-more flag.
    pub fn decode(data: &[u8]) -> (r: Result<QuerySqlResponse, DecodeError>)
        ensures
            r is Ok <==> data@.len() >= 13,
            r matches Ok(q) ==> {
                &&& q.cursor_id == spec_i64_at(data@, 0)
                &&& q.row_count == spec_i32_at(data@, 8)
                &&& q.has_more == (data@[12] == 1)
            },
            r matches Err(e) ==> e == DecodeError::UnexpectedEnd,
    {
        let dl: usize = data.len();
        if dl < 13 {
            return Err(DecodeError::UnexpectedEnd);
        }
        let cursor_id = get_i64_le(data, 0);
        let row_count = get_i32_le(data, 8);
        let has_more = get_u8(data, 12) == 1;
        Ok(QuerySqlResponse { cursor_id, row_count, has_more })
    }
}

/// Whether the error envelope of a failed response — a skipped marker byte,
/// an i32 message length at offset 13, then that many UTF-8 bytes — can be
/// decoded out of the buffer.
pub open spec fn spec_error_envelope_ok(d: Seq<u8>) -> bool {
    let mlen = spec_i32_at(d, 13) as int;
    &&& d.len() >= 17
    &&& mlen >= 0
    &&& 17 + mlen <= d.len()
    &&& valid_utf8(d.subrange(17, 17 + mlen))
}

/// Which error a failed error-envelope read reports.
pub open spec fn spec_error_envelope_err(d: Seq<u8>) -> DecodeError {
    let mlen = spec_i32_at(d, 13) as int;
    if d.len() < 17 {
        DecodeError::UnexpectedEnd
    } else if mlen < 0 {
        DecodeError::NegativeLength
    } else if 17 + mlen > d.len() {
        DecodeError::UnexpectedEnd
    } else {
        DecodeError::InvalidUtf8
    }
}

/// Read the error message of a failed response.
fn read_error_envelope(data: &[u8]) -> (r: Result<String, DecodeError>)
    ensures
        r is Ok <==> spec_error_envelope_ok(data@),
        r matches Ok(s) ==> encode_utf8(s@) == data@.subrange(
            17,
            17 + spec_i32_at(data@, 13) as int,
        ),
        r matches Err(e) ==> e == spec_error_envelope_err(data@),
{
    let dl: usize = data.len();
    if dl < 17 {
        return Err(DecodeError::UnexpectedEnd);
    }
    let mlen_i = get_i32_le(data, 13);
    if mlen_i < 0 {
        return Err(DecodeError::NegativeLength);
    }
    let mlen = mlen_i as usize;
    if dl - 17 < mlen {
        return Err(DecodeError::UnexpectedEnd);
    }
    get_utf8(data, 17, mlen)
}

/// Result of a SQL fields query: a cursor, the column metadata, and the
/// first page.
pub struct QuerySqlFieldsResponse {
    pub cursor_id: i64,
    pub column_count: i32,
    pub column_names: Vec<String>,
    pub first_page_row_count: i32,
    pub has_more: bool,
}

/// The UTF-8 byte image of each column name in a decoded list.
pub open spec fn spec_column_names_bytes(v: Seq<String>) -> Seq<Seq<u8>> {
    v.map_values(|s: String| encode_utf8(s@))
}

/// Parse `n` column-name entries starting at `off`: each entry is one
/// skipped type-marker byte, an i32 name length, then that many UTF-8
/// bytes. Yields the names' byte ranges in order and the offset just past
/// the last entry, or the first entry's decode error.
pub open spec fn spec_parse_column_names(d: Seq<u8>, off: int, n: int) -> Result<
    (Seq<Seq<u8>>, int),
    DecodeError,
>
    decreases n,
{
    if n <= 0 {
        Ok((Seq::empty(), off))
    } else if off + 5 > d.len() {
        Err(DecodeError::UnexpectedEnd)
    } else {
        let nlen = spec_i32_at(d, off + 1) as int;
        if nlen < 0 {
            Err(DecodeError::NegativeLength)
        } else if off + 5 + nlen > d.len() {
            Err(DecodeError::UnexpectedEnd)
        } else if !valid_utf8(d.subrange(off + 5, off + 5 + nlen)) {
            Err(DecodeError::InvalidUtf8)
        } else {
            match spec_parse_column_names(d, off + 5 + nlen, n - 1) {
                Ok((names, end)) => Ok(
                    (seq![d.subrange(off + 5, off + 5 + nlen)] + names, end),
                ),
                Err(e) => Err(e),
            }
        }
    }
}

/// The column count a fields body declares, clamped below at zero: a
/// negative declared count means no column entries follow.
pub open spec fn spec_column_entry_count(d: Seq<u8>) -> int {
    if spec_i32_at(d, 8) < 0 {
        0int
    } else {
        spec_i32_at(d, 8) as int
    }
}

/// Whether a fields body can be decoded. With field names requested, the
/// header, every declared column-name entry, and the trailing row count and
/// has-more flag must lie within the buffer; without them, only the header
/// and the trailing fields.
pub open spec fn spec_fields_decodable(d: Seq<u8>, has_field_names: bool) -> bool {
    if has_field_names {
        &&& d.len() >= 12
        &&& (match spec_parse_column_names(d, 12, spec_column_entry_count(d)) {
            Ok((names, end)) => end + 5 <= d.len(),
            Err(e) => false,
        })
    } else {
        d.len() >= 17
    }
}

/// Which error a failed fields-body decode reports.
pub open spec fn spec_fields_decode_err(d: Seq<u8>, has_field_names: bool) -> DecodeError {
    if has_field_names {
        if d.len() < 12 {
            DecodeError::UnexpectedEnd
        } else {
            match spec_parse_column_names(d, 12, spec_column_entry_count(d)) {
                Ok(r) => DecodeError::UnexpectedEnd,
                Err(e) => e,
            }
        }
    } else {
        DecodeError::UnexpectedEnd
    }
}

/// What a decoded fields body holds. With field names requested, the names
/// are exactly the parsed entries and the trailing fields sit just past
/// them; without, the column-name bytes are ignored entirely, the name list
/// is empty, and the trailing fields follow the column count directly.
pub open spec fn spec_fields_response_matches(
    d: Seq<u8>,
    has_field_names: bool,
    q: QuerySqlFieldsResponse,
) -> bool {
    if has_field_names {
        match spec_parse_column_names(d, 12, spec_column_entry_count(d)) {
            Ok((names, end)) => {
                &&& q.cursor_id == spec_i64_at(d, 0)
                &&& q.column_count == spec_i32_at(d, 8)
                &&& q.column_names@.len() == names.len()
                &&& spec_column_names_bytes(q.column_names@) == names
                &&& q.first_page_row_count == spec_i32_at(d, end)
                &&& q.has_more == (d[end + 4] == 1)
            },
            Err(e) => false,
        }
    } else {
        &&& q.cursor_id == spec_i64_at(d, 0)
        &&& q.column_count == spec_i32_at(d, 8)
        &&& q.column_names@.len() == 0
        &&& q.first_page_row_count == spec_i32_at(d, 12)
        &&& q.has_more == (d[16] == 1)
    }
}

impl QuerySqlFieldsResponse {
    /// Decode the success body. `has_field_names` must repeat the intent of
    /// the request's include-field-names flag: it selects which of the two
    /// layouts the buffer is read under.
    pub fn decode(data: &[u8], has_field_names: bool) -> (r: Result<
        QuerySqlFieldsResponse,
        DecodeError,
    >)
        ensures
            r is Ok <==> spec_fields_decodable(data@, has_field_names),
            r matches Ok(q) ==> spec_fields_response_matches(data@, has_field_names, q),
            r matches Err(e) ==> e == spec_fields_decode_err(data@, has_field_names),
    {
        let dl: usize = data.len();
        if has_field_names {
            if dl < 12 {
                return Err(DecodeError::UnexpectedEnd);
            }
            let cursor_id = get_i64_le(data, 0);
            let column_count = get_i32_le(data, 8);
            let n: usize = if column_count < 0 {
                0
            } else {
                column_count as usize
            };
            let ghost total = spec_parse_column_names(data@, 12, n as int);
            let mut column_names: Vec<String> = Vec::new();
            let mut offset: usize = 12;
            let mut i: usize = 0;
            while i < n
                invariant
                    has_field_names,
                    dl == data@.len(),
                    12 <= offset <= dl,
                    i <= n,
                    n as int == spec_column_entry_count(data@),
                    total == spec_parse_column_names(data@, 12, n as int),
                    column_names@.len() == i,
                    total == (match spec_parse_column_names(
                        data@,
                        offset as int,
                        n - i,
                    ) {
                        Ok((names, end)) => Ok::<(Seq<Seq<u8>>, int), DecodeError>(
                            (spec_column_names_bytes(column_names@) + names, end),
                        ),
                        Err(e) => Err::<(Seq<Seq<u8>>, int), DecodeError>(e),
                    }),
                decreases n - i,
            {
                let ghost off0 = offset as int;
                let ghost k = (n - i) as int;
                if dl - offset < 5 {
                    proof {
                        assert(spec_parse_column_names(data@, off0, k) == Err::<
                            (Seq<Seq<u8>>, int),
                            DecodeError,
                        >(DecodeError::UnexpectedEnd));
                    }
                    return Err(DecodeError::UnexpectedEnd);
                }
                let name_len_i = get_i32_le(data, offset + 1);
                if name_len_i < 0 {
                    proof {
                        assert(spec_parse_column_names(data@, off0, k) == Err::<
                            (Seq<Seq<u8>>, int),
                            DecodeError,
                        >(DecodeError::NegativeLength));
                    }
                    return Err(DecodeError::NegativeLength);
                }
                let name_len = name_len_i as usize;
                if dl - offset - 5 < name_len {
                    proof {
                        assert(spec_parse_column_names(data@, off0, k) == Err::<
                            (Seq<Seq<u8>>, int),
                            DecodeError,
                        >(DecodeError::UnexpectedEnd));
                    }
                    return Err(DecodeError::UnexpectedEnd);
                }
                match get_utf8(data, offset + 5, name_len) {
                    Ok(column_name) => {
                        let ghost b = data@.subrange(off0 + 5, off0 + 5 + name_len as int);
                        let ghost prev = column_names@;
                        proof {
                            assert(spec_parse_column_names(data@, off0, k) == (
                            match spec_parse_column_names(
                                data@,
                                off0 + 5 + name_len as int,
                                k - 1,
                            ) {
                                Ok((names, end)) => Ok::<(Seq<Seq<u8>>, int), DecodeError>(
                                    (seq![b] + names, end),
                                ),
                                Err(e) => Err::<(Seq<Seq<u8>>, int), DecodeError>(e),
                            }));
                            assert(encode_utf8(column_name@) == b);
                        }
                        column_names.push(column_name);
                        offset = offset + 5 + name_len;
                        i = i + 1;
                        proof {
                            assert(spec_column_names_bytes(column_names@) =~= spec_column_names_bytes(
                                prev,
                            ).push(b));
                            match spec_parse_column_names(data@, offset as int, (n - i) as int) {
                                Ok((names, end)) => {
                                    assert(spec_column_names_bytes(prev) + (seq![b] + names)
                                        =~= spec_column_names_bytes(column_names@) + names);
                                },
                                Err(e) => {},
                            }
                        }
                    },
                    Err(e) => {
                        proof {
                            assert(spec_parse_column_names(data@, off0, k) == Err::<
                                (Seq<Seq<u8>>, int),
                                DecodeError,
                            >(DecodeError::InvalidUtf8));
                        }
                        return Err(e);
                    },
                }
            }
            proof {
                assert(spec_parse_column_names(data@, offset as int, 0) == Ok::<
                    (Seq<Seq<u8>>, int),
                    DecodeError,
                >((Seq::empty(), offset as int)));
                assert(spec_column_names_bytes(column_names@) + Seq::<Seq<u8>>::empty()
                    =~= spec_column_names_bytes(column_names@));
            }
            if dl - offset < 5 {
                return Err(DecodeError::UnexpectedEnd);
            }
            let first_page_row_count = get_i32_le(data, offset);
            let has_more = get_u8(data, offset + 4) == 1;
            Ok(
                QuerySqlFieldsResponse {
                    cursor_id,
                    column_count,
                    column_names,
                    first_page_row_count,
                    has_more,
                },
            )
        } else {
            if dl < 17 {
                return Err(DecodeError::UnexpectedEnd);
            }
            let cursor_id = get_i64_le(data, 0);
            let column_count = get_i32_le(data, 8);
            let first_page_row_count = get_i32_le(data, 12);
            let has_more = get_u8(data, 16) == 1;
            Ok(
                QuerySqlFieldsResponse {
                    cursor_id,
                    column_count,
                    column_names: Vec::new(),
                    first_page_row_count,
                    has_more,
                },
            )
        }
    }
}

/// The operation-specific body a response carries.
pub enum ResponseType {
    QuerySql(QuerySqlResponse),
    QuerySqlFields(QuerySqlFieldsResponse),
}

/// The common response envelope: request id, status code, and — depending
/// on the status — either the server's error message or the typed body.
pub struct Response {
    pub request_id: i64,
    pub status_code: i32,
    pub error_message: String,
    pub body: ResponseType,
}

impl Response {
    /// Decode a response to a plain SQL query. A nonzero status code
    /// carries the server's error message and a zero-valued placeholder
    /// body; a zero status code carries the typed body after the envelope.
    pub fn decode_query_sql(data: &[u8]) -> (r: Result<Response, DecodeError>)
        ensures
            r is Ok <==> (data@.len() >= 12 && (if spec_i32_at(data@, 8) != 0 {
                spec_error_envelope_ok(data@)
            } else {
                data@.len() >= 25
            })),
            r matches Ok(resp) ==> {
                &&& resp.request_id == spec_i64_at(data@, 0)
                &&& resp.status_code == spec_i32_at(data@, 8)
                &&& resp.body is QuerySql
            },
            r matches Ok(resp) ==> (spec_i32_at(data@, 8) != 0 ==> {
                &&& encode_utf8(resp.error_message@) == data@.subrange(
                    17,
                    17 + spec_i32_at(data@, 13) as int,
                )
                &&& resp.body matches ResponseType::QuerySql(q) && q.cursor_id == 0
                    && q.row_count == 0 && q.has_more == false
            }),
            r matches Ok(resp) ==> (spec_i32_at(data@, 8) == 0 ==> {
                &&& resp.error_message@.len() == 0
                &&& resp.body matches ResponseType::QuerySql(q) && q.cursor_id == spec_i64_at(
                    data@,
                    12,
                ) && q.row_count == spec_i32_at(data@, 20) && q.has_more == (data@[24] == 1)
            }),
            r matches Err(e) ==> e == (if data@.len() < 12 {
                DecodeError::UnexpectedEnd
            } else if spec_i32_at(data@, 8) != 0 {
                spec_error_envelope_err(data@)
            } else {
                DecodeError::UnexpectedEnd
            }),
    {
        let dl: usize = data.len();
        if dl < 12 {
            return Err(DecodeError::UnexpectedEnd);
        }
        let request_id = get_i64_le(data, 0);
        let status_code = get_i32_le(data, 8);
        if status_code != 0 {
            match read_error_envelope(data) {
                Ok(error_message) => Ok(
                    Response {
                        request_id,
                        status_code,
                        error_message,
                        body: ResponseType::QuerySql(
                            QuerySqlResponse { cursor_id: 0, row_count: 0, has_more: false },
                        ),
                    },
                ),
                Err(e) => Err(e),
            }
        } else {
            let tail = vstd::slice::slice_subrange(data, 12, dl);
            match QuerySqlResponse::decode(tail) {
                Ok(query_sql_response) => {
                    proof {
                        assert(tail@.subrange(0, 8) =~= data@.subrange(12, 20));
                        assert(tail@.subrange(8, 12) =~= data@.subrange(20, 24));
                    }
                    Ok(
                        Response {
                            request_id,
                            status_code,
                            error_message: String::new(),
                            body: ResponseType::QuerySql(query_sql_response),
                        },
                    )
                },
                Err(e) => Err(e),
            }
        }
    }
}

impl Response {
    /// Decode a response to a SQL fields query. A nonzero status code
    /// carries the server's error message and a zero-valued placeholder
    /// body; a zero status code carries the typed body after the envelope.
    /// `has_field_names` must repeat the request's include-field-names
    /// intent.
    pub fn decode_query_sql_fields(data: &[u8], has_field_names: bool) -> (r: Result<
        Response,
        DecodeError,
    >)
        ensures
            r is Ok <==> (data@.len() >= 12 && (if spec_i32_at(data@, 8) != 0 {
                spec_error_envelope_ok(data@)
            } else {
                spec_fields_decodable(data@.skip(12), has_field_names)
            })),
            r matches Ok(resp) ==> {
                &&& resp.request_id == spec_i64_at(data@, 0)
                &&& resp.status_code == spec_i32_at(data@, 8)
                &&& resp.body is QuerySqlFields
            },
            r matches Ok(resp) ==> (spec_i32_at(data@, 8) != 0 ==> {
                &&& encode_utf8(resp.error_message@) == data@.subrange(
                    17,
                    17 + spec_i32_at(data@, 13) as int,
                )
                &&& resp.body matches ResponseType::QuerySqlFields(q) && q.cursor_id == 0
                    && q.column_count == 0 && q.column_names@.len() == 0
                    && q.first_page_row_count == 0 && q.has_more == false
            }),
            r matches Ok(resp) ==> (spec_i32_at(data@, 8) == 0 ==> {
                &&& resp.error_message@.len() == 0
                &&& resp.body matches ResponseType::QuerySqlFields(q)
                    && spec_fields_response_matches(data@.skip(12), has_field_names, q)
            }),
            r matches Err(e) ==> e == (if data@.len() < 12 {
                DecodeError::UnexpectedEnd
            } else if spec_i32_at(data@, 8) != 0 {
                spec_error_envelope_err(data@)
            } else {
                spec_fields_decode_err(data@.skip(12), has_field_names)
            }),
    {
        let dl: usize = data.len();
        if dl < 12 {
            return Err(DecodeError::UnexpectedEnd);
        }
        let request_id = get_i64_le(data, 0);
        let status_code = get_i32_le(data, 8);
        if status_code != 0 {
            match read_error_envelope(data) {
                Ok(error_message) => Ok(
                    Response {
                        request_id,
                        status_code,
                        error_message,
                        body: ResponseType::QuerySqlFields(
                            QuerySqlFieldsResponse {
                                cursor_id: 0,
                                column_count: 0,
                                column_names: Vec::new(),
                                first_page_row_count: 0,
                                has_more: false,
                            },
                        ),
                    },
                ),
                Err(e) => Err(e),
            }
        } else {
            let tail = vstd::slice::slice_subrange(data, 12, dl);
            proof {
                assert(tail@ =~= data@.skip(12));
            }
            match QuerySqlFieldsResponse::decode(tail, has_field_names) {
                Ok(query_sql_fields_response) => Ok(
                    Response {
                        request_id,
                        status_code,
                        error_message: String::new(),
                        body: ResponseType::QuerySqlFields(query_sql_fields_response),
                    },
                ),
                Err(e) => Err(e),
            }
        }
    }
}

/// How a decoded response fails to yield its typed body: the server
/// reported a failure (recoverable at the application level, with the
/// server's message), or the body is of a different operation than asked
/// for.
#[derive(Debug)]
pub enum ResponseError {
    Server { status_code: i32, message: String },
    UnexpectedType,
}

impl Response {
    /// Yield the plain SQL body of a successful response, or the server's
    /// failure.
    pub fn into_query_sql(self) -> (r: Result<QuerySqlResponse, ResponseError>)
        ensures
            self.status_code != 0 ==> (r matches Err(ResponseError::Server {
                status_code,
                message,
            }) && status_code == self.status_code && message@ == self.error_message@),
            self.status_code == 0 ==> (match self.body {
                ResponseType::QuerySql(q) => r == Ok::<QuerySqlResponse, ResponseError>(q),
                _ => r == Err::<QuerySqlResponse, ResponseError>(ResponseError::UnexpectedType),
            }),
    {
        if self.status_code != 0 {
            return Err(
                ResponseError::Server { status_code: self.status_code, message: self.error_message },
            );
        }
        match self.body {
            ResponseType::QuerySql(q) => Ok(q),
            _ => Err(ResponseError::UnexpectedType),
        }
    }

    /// Yield the SQL fields body of a successful response, or the server's
    /// failure.
    pub fn into_query_sql_fields(self) -> (r: Result<QuerySqlFieldsResponse, ResponseError>)
        ensures
            self.status_code != 0 ==> (r matches Err(ResponseError::Server {
                status_code,
                message,
            }) && status_code == self.status_code && message@ == self.error_message@),
            self.status_code == 0 ==> (match self.body {
                ResponseType::QuerySqlFields(q) => r matches Ok(p) && p == q,
                _ => r matches Err(e) && e is UnexpectedType,
            }),
    {
        if self.status_code != 0 {
            return Err(
                ResponseError::Server { status_code: self.status_code, message: self.error_message },
            );
        }
        match self.body {
            ResponseType::QuerySqlFields(q) => Ok(q),
            _ => Err(ResponseError::UnexpectedType),
        }
    }
}

} // verus!
