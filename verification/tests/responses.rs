use ignite_client::protocol::{
    QuerySqlFieldsResponse, QuerySqlResponse, Response, ResponseError, ResponseType,
};
use ignite_client::wire::DecodeError;

fn envelope(request_id: i64, status_code: i32) -> Vec<u8> {
    let mut data = Vec::new();
    data.extend_from_slice(&request_id.to_le_bytes());
    data.extend_from_slice(&status_code.to_le_bytes());
    data
}

#[test]
fn test_query_sql_response_decode() {
    let mut data = Vec::new();
    data.extend_from_slice(&9i64.to_le_bytes());
    data.extend_from_slice(&3i32.to_le_bytes());
    data.push(1);
    let response = QuerySqlResponse::decode(&data).unwrap();
    assert_eq!(response.cursor_id, 9);
    assert_eq!(response.row_count, 3);
    assert!(response.has_more);
}

#[test]
fn test_query_sql_response_decode_short_buffer() {
    let data: Vec<u8> = vec![1, 2, 3];
    assert!(matches!(QuerySqlResponse::decode(&data), Err(DecodeError::UnexpectedEnd)));
}

#[test]
fn test_decode_query_sql_success() {
    let mut data = envelope(5, 0);
    data.extend_from_slice(&77i64.to_le_bytes());
    data.extend_from_slice(&12i32.to_le_bytes());
    data.push(0);
    let response = Response::decode_query_sql(&data).unwrap();
    assert_eq!(response.request_id, 5);
    assert_eq!(response.status_code, 0);
    assert_eq!(response.error_message, "");
    match response.body {
        ResponseType::QuerySql(q) => {
            assert_eq!(q.cursor_id, 77);
            assert_eq!(q.row_count, 12);
            assert!(!q.has_more);
        },
        _ => panic!("expected a plain SQL body"),
    }
}

#[test]
fn test_decode_query_sql_server_error() {
    let mut data = envelope(5, 7);
    data.push(9); // skipped type marker
    data.extend_from_slice(&6i32.to_le_bytes());
    data.extend_from_slice(b"denied");
    let response = Response::decode_query_sql(&data).unwrap();
    assert_eq!(response.request_id, 5);
    assert_eq!(response.status_code, 7);
    assert_eq!(response.error_message, "denied");
    match response.body {
        ResponseType::QuerySql(q) => {
            assert_eq!(q.cursor_id, 0);
            assert_eq!(q.row_count, 0);
            assert!(!q.has_more);
        },
        _ => panic!("expected a placeholder plain SQL body"),
    }
}

#[test]
fn test_decode_query_sql_error_message_truncated() {
    let mut data = envelope(5, 7);
    data.push(9);
    data.extend_from_slice(&100i32.to_le_bytes());
    data.extend_from_slice(b"short");
    assert!(matches!(Response::decode_query_sql(&data), Err(DecodeError::UnexpectedEnd)));
}

#[test]
fn test_decode_query_sql_error_message_negative_length() {
    let mut data = envelope(5, 7);
    data.push(9);
    data.extend_from_slice(&(-2i32).to_le_bytes());
    assert!(matches!(Response::decode_query_sql(&data), Err(DecodeError::NegativeLength)));
}

#[test]
fn test_decode_query_sql_error_message_invalid_utf8() {
    let mut data = envelope(5, 7);
    data.push(9);
    data.extend_from_slice(&2i32.to_le_bytes());
    data.extend_from_slice(&[0xC0, 0x00]);
    assert!(matches!(Response::decode_query_sql(&data), Err(DecodeError::InvalidUtf8)));
}

#[test]
fn test_decode_query_sql_fields_with_names() {
    let mut data = envelope(1, 0);
    data.extend_from_slice(&42i64.to_le_bytes()); // cursor id
    data.extend_from_slice(&2i32.to_le_bytes()); // column count
    data.push(9);
    data.extend_from_slice(&2i32.to_le_bytes());
    data.extend_from_slice(b"ID");
    data.push(9);
    data.extend_from_slice(&4i32.to_le_bytes());
    data.extend_from_slice(b"NAME");
    data.extend_from_slice(&10i32.to_le_bytes()); // first page row count
    data.push(1); // has more
    let response = Response::decode_query_sql_fields(&data, true).unwrap();
    assert_eq!(response.request_id, 1);
    assert_eq!(response.status_code, 0);
    match response.body {
        ResponseType::QuerySqlFields(q) => {
            assert_eq!(q.cursor_id, 42);
            assert_eq!(q.column_count, 2);
            assert_eq!(q.column_names, vec!["ID", "NAME"]);
            assert_eq!(q.first_page_row_count, 10);
            assert!(q.has_more);
        },
        _ => panic!("expected a SQL fields body"),
    }
}

#[test]
fn test_decode_query_sql_fields_without_names_ignores_name_bytes() {
    let mut body = Vec::new();
    body.extend_from_slice(&42i64.to_le_bytes()); // cursor id
    body.extend_from_slice(&2i32.to_le_bytes()); // column count
    // row count and has-more follow the column count directly; what would
    // be column-name bytes under the other layout must not be read at all
    body.extend_from_slice(&10i32.to_le_bytes());
    body.push(1);
    let q = QuerySqlFieldsResponse::decode(&body, false).unwrap();
    assert_eq!(q.cursor_id, 42);
    assert_eq!(q.column_count, 2);
    assert!(q.column_names.is_empty());
    assert_eq!(q.first_page_row_count, 10);
    assert!(q.has_more);
}

#[test]
fn test_decode_query_sql_fields_negative_column_count() {
    let mut body = Vec::new();
    body.extend_from_slice(&42i64.to_le_bytes());
    body.extend_from_slice(&(-3i32).to_le_bytes());
    body.extend_from_slice(&10i32.to_le_bytes());
    body.push(0);
    let q = QuerySqlFieldsResponse::decode(&body, true).unwrap();
    assert_eq!(q.column_count, -3);
    assert!(q.column_names.is_empty());
    assert_eq!(q.first_page_row_count, 10);
    assert!(!q.has_more);
}

#[test]
fn test_decode_query_sql_fields_truncated_name_entry() {
    let mut body = Vec::new();
    body.extend_from_slice(&42i64.to_le_bytes());
    body.extend_from_slice(&1i32.to_le_bytes());
    body.push(9);
    body.extend_from_slice(&50i32.to_le_bytes());
    body.extend_from_slice(b"ID");
    let r = QuerySqlFieldsResponse::decode(&body, true);
    assert!(matches!(r, Err(DecodeError::UnexpectedEnd)));
}

#[test]
fn test_decode_query_sql_fields_negative_name_length() {
    let mut body = Vec::new();
    body.extend_from_slice(&42i64.to_le_bytes());
    body.extend_from_slice(&1i32.to_le_bytes());
    body.push(9);
    body.extend_from_slice(&(-1i32).to_le_bytes());
    let r = QuerySqlFieldsResponse::decode(&body, true);
    assert!(matches!(r, Err(DecodeError::NegativeLength)));
}

#[test]
fn test_decode_query_sql_fields_invalid_utf8_name() {
    let mut body = Vec::new();
    body.extend_from_slice(&42i64.to_le_bytes());
    body.extend_from_slice(&1i32.to_le_bytes());
    body.push(9);
    body.extend_from_slice(&2i32.to_le_bytes());
    body.extend_from_slice(&[0xFF, 0xFF]);
    body.extend_from_slice(&10i32.to_le_bytes());
    body.push(0);
    let r = QuerySqlFieldsResponse::decode(&body, true);
    assert!(matches!(r, Err(DecodeError::InvalidUtf8)));
}

#[test]
fn test_decode_query_sql_fields_server_error() {
    let mut data = envelope(3, -1);
    data.push(9);
    data.extend_from_slice(&4i32.to_le_bytes());
    data.extend_from_slice(b"oops");
    let response = Response::decode_query_sql_fields(&data, true).unwrap();
    assert_eq!(response.status_code, -1);
    assert_eq!(response.error_message, "oops");
    match response.body {
        ResponseType::QuerySqlFields(q) => {
            assert_eq!(q.cursor_id, 0);
            assert_eq!(q.column_count, 0);
            assert!(q.column_names.is_empty());
            assert_eq!(q.first_page_row_count, 0);
            assert!(!q.has_more);
        },
        _ => panic!("expected a placeholder SQL fields body"),
    }
}

#[test]
fn test_into_query_sql_yields_body() {
    let response = Response {
        request_id: 1,
        status_code: 0,
        error_message: String::new(),
        body: ResponseType::QuerySql(QuerySqlResponse { cursor_id: 8, row_count: 2, has_more: true }),
    };
    let q = response.into_query_sql().unwrap();
    assert_eq!(q.cursor_id, 8);
}

#[test]
fn test_into_query_sql_surfaces_server_failure() {
    let response = Response {
        request_id: 1,
        status_code: 50,
        error_message: String::from("table missing"),
        body: ResponseType::QuerySql(QuerySqlResponse { cursor_id: 0, row_count: 0, has_more: false }),
    };
    match response.into_query_sql() {
        Err(ResponseError::Server { status_code, message }) => {
            assert_eq!(status_code, 50);
            assert_eq!(message, "table missing");
        },
        _ => panic!("expected a server failure"),
    }
}

#[test]
fn test_into_query_sql_fields_unexpected_type() {
    let response = Response {
        request_id: 1,
        status_code: 0,
        error_message: String::new(),
        body: ResponseType::QuerySql(QuerySqlResponse { cursor_id: 0, row_count: 0, has_more: false }),
    };
    assert!(matches!(response.into_query_sql_fields(), Err(ResponseError::UnexpectedType)));
}
