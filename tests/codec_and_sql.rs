use powersync_session::codec::{decode_column, sql_params_to_values, CellValue, ColumnValue, NativeValue, SqlParam};
use powersync_session::error::Error;
use powersync_session::sql::{is_query, validate_sql};
use rusqlite::types::{Value, ValueRef};
use rusqlite::Connection;

fn bind(v: &NativeValue) -> Value {
    match v {
        NativeValue::Null => Value::Null,
        NativeValue::Integer(i) => Value::Integer(*i),
        NativeValue::Real(bits) => Value::Real(f64::from_bits(*bits)),
        NativeValue::Text(s) => Value::Text(s.clone()),
        NativeValue::Blob(b) => Value::Blob(b.clone()),
    }
}

fn store_and_read(p: &SqlParam) -> CellValue {
    let conn = Connection::open_in_memory().unwrap();
    let v = bind(&p.to_sql_value());
    let raw = conn
        .query_row("SELECT ?", [v], |row| {
            Ok(match row.get_ref(0)? {
                ValueRef::Null => ColumnValue::Null,
                ValueRef::Integer(i) => ColumnValue::Integer(i),
                ValueRef::Real(f) => ColumnValue::Real(f.to_bits()),
                ValueRef::Text(t) => ColumnValue::Text(t.to_vec()),
                ValueRef::Blob(b) => ColumnValue::Blob(b.to_vec()),
            })
        })
        .unwrap();
    decode_column(&raw)
}

#[test]
fn int_param_binds_as_integer() {
    assert!(matches!(SqlParam::Int(42).to_sql_value(), NativeValue::Integer(42)));
}

#[test]
fn params_encode_by_tag() {
    let params = vec![
        SqlParam::Null,
        SqlParam::Bool(true),
        SqlParam::Bool(false),
        SqlParam::Int(-7),
        SqlParam::Real(1.5f64.to_bits()),
        SqlParam::Text("hello".to_string()),
        SqlParam::Blob(vec![1, 2, 3]),
    ];
    let v = sql_params_to_values(&params);
    assert_eq!(v.len(), 7);
    assert!(matches!(v[0], NativeValue::Null));
    assert!(matches!(v[1], NativeValue::Integer(1)));
    assert!(matches!(v[2], NativeValue::Integer(0)));
    assert!(matches!(v[3], NativeValue::Integer(-7)));
    assert!(matches!(v[4], NativeValue::Real(b) if f64::from_bits(b) == 1.5));
    assert!(matches!(&v[5], NativeValue::Text(s) if s == "hello"));
    assert!(matches!(&v[6], NativeValue::Blob(b) if b == &vec![1, 2, 3]));
}

#[test]
fn round_trip_through_the_engine() {
    assert!(matches!(store_and_read(&SqlParam::Null), CellValue::Null));
    assert!(matches!(store_and_read(&SqlParam::Int(42)), CellValue::Integer(42)));
    assert!(matches!(store_and_read(&SqlParam::Bool(true)), CellValue::Integer(1)));
    assert!(matches!(store_and_read(&SqlParam::Real(2.25f64.to_bits())),
        CellValue::Real(b) if f64::from_bits(b) == 2.25));
    assert!(matches!(store_and_read(&SqlParam::Text("héllo".to_string())),
        CellValue::Text(s) if s == "héllo"));
    assert!(matches!(store_and_read(&SqlParam::Blob(vec![1, 2, 3])),
        CellValue::Text(s) if s == "AQID"));
}

#[test]
fn decode_non_finite_reals_as_null() {
    assert!(matches!(decode_column(&ColumnValue::Real(f64::NAN.to_bits())), CellValue::Null));
    assert!(matches!(decode_column(&ColumnValue::Real(f64::INFINITY.to_bits())), CellValue::Null));
    assert!(matches!(decode_column(&ColumnValue::Real(f64::NEG_INFINITY.to_bits())), CellValue::Null));
    assert!(matches!(decode_column(&ColumnValue::Real(0.5f64.to_bits())),
        CellValue::Real(b) if f64::from_bits(b) == 0.5));
}

#[test]
fn decode_invalid_text_is_repaired() {
    let cell = decode_column(&ColumnValue::Text(vec![b'a', 0xff, b'b']));
    assert!(matches!(cell, CellValue::Text(s) if s == "a\u{fffd}b"));
}

#[test]
fn decode_blob_as_base64() {
    assert!(matches!(decode_column(&ColumnValue::Blob(vec![])), CellValue::Text(s) if s.is_empty()));
    assert!(matches!(decode_column(&ColumnValue::Blob(b"hello".to_vec())),
        CellValue::Text(s) if s == "aGVsbG8="));
    assert!(matches!(decode_column(&ColumnValue::Blob(vec![0xfb, 0xff])),
        CellValue::Text(s) if s == "+/8="));
}

#[test]
fn forbidden_sql_is_rejected_but_parameter_values_are_not() {
    let r = validate_sql("SELECT powersync_core_internal()");
    assert!(matches!(r, Err(Error::ForbiddenSql(m)) if m == "SQL must not reference powersync_core"));
    assert!(validate_sql("SELECT ?").is_ok());
    let params = vec![SqlParam::Text("powersync_core_internal()".to_string())];
    let v = sql_params_to_values(&params);
    assert!(matches!(&v[0], NativeValue::Text(s) if s == "powersync_core_internal()"));
    assert!(validate_sql("SELECT powersync_control(?, ?)").is_ok());
    assert!(validate_sql("").is_ok());
}

#[test]
fn query_statements_are_recognised() {
    assert!(is_query("SELECT 1"));
    assert!(is_query("  \n\tselect * from t"));
    assert!(is_query("PrAgMa journal_mode"));
    assert!(!is_query("INSERT INTO t VALUES (1)"));
    assert!(!is_query("SELEC"));
    assert!(!is_query(""));
    assert!(!is_query("WITH x AS (SELECT 1) SELECT * FROM x"));
}
