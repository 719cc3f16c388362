use schema_diff::compare::compare_db_schemas;
use schema_diff::diffs::diff_slices;
use schema_diff::records::{
    render_column, render_index, render_index_column, Column, Index, IndexColumn, SqlValue,
};
use schema_diff::schema::{DbSchema, TableDetail};

fn ix(seq_no: u32, name: &str) -> Index {
    Index {
        seq_no,
        name: name.to_string(),
        unique: false,
        origin: "c".to_string(),
        partial: false,
    }
}

fn ic(seqno: u32, cid: u32, name: &str) -> IndexColumn {
    IndexColumn { seqno, cid, name: name.to_string() }
}

fn one_column() -> Column {
    Column {
        cid: 0,
        name: "x".to_string(),
        type_: "INTEGER".to_string(),
        notnull: false,
        dflt_value: SqlValue::Null,
        pk: 0,
    }
}

#[test]
fn render_column_shows_every_field() {
    let c = Column {
        cid: 1,
        name: "ts".to_string(),
        type_: "INTEGER".to_string(),
        notnull: true,
        dflt_value: SqlValue::Integer(-7),
        pk: 2,
    };
    assert_eq!(
        render_column(&c),
        "Column { cid: 1, name: \"ts\", type_: \"INTEGER\", notnull: true, \
         dflt_value: Integer(-7), pk: 2 }"
    );
}

#[test]
fn render_escapes_quotes_and_backslashes() {
    let c = Column {
        cid: 0,
        name: "a\"b\\c".to_string(),
        type_: "TEXT".to_string(),
        notnull: false,
        dflt_value: SqlValue::Text("d\"e".to_string()),
        pk: 0,
    };
    let r = render_column(&c);
    assert!(r.contains("name: \"a\\\"b\\\\c\""));
    assert!(r.contains("dflt_value: Text(\"d\\\"e\")"));
}

#[test]
fn render_blob_and_bool_fields() {
    let c = Column {
        cid: 3,
        name: "b".to_string(),
        type_: "BLOB".to_string(),
        notnull: false,
        dflt_value: SqlValue::Blob(vec![1, 2, 255]),
        pk: 0,
    };
    assert!(render_column(&c).contains("dflt_value: Blob([1, 2, 255])"));
    let x = Index {
        seq_no: 0,
        name: "i".to_string(),
        unique: true,
        origin: "pk".to_string(),
        partial: false,
    };
    assert_eq!(
        render_index(&x),
        "Index { seq: 0, name: \"i\", unique: true, origin: \"pk\", partial: false }"
    );
    assert_eq!(
        render_index_column(&ic(1, 4, "z")),
        "IndexColumn { seqno: 1, cid: 4, name: \"z\" }"
    );
}

#[test]
fn diff_slices_absent_only_when_equal() {
    let a = vec!["x".to_string(), "y".to_string()];
    let b = vec!["x".to_string(), "y".to_string()];
    assert!(diff_slices("l", &a, "r", &b).is_none());
    let c = vec!["x".to_string(), "z".to_string()];
    let d = diff_slices("l", &a, "r", &c).unwrap();
    assert_eq!(d, "--- l\n+++ r\n x\n-y\n+z\n");
}

#[test]
fn diff_slices_empty_inputs_absent() {
    let a: Vec<String> = Vec::new();
    let b: Vec<String> = Vec::new();
    assert!(diff_slices("l", &a, "r", &b).is_none());
}

fn schema_with_indices(indices: Vec<Index>, icols: Vec<Vec<IndexColumn>>) -> DbSchema {
    DbSchema {
        table_names: vec!["t".to_string()],
        tables: vec![TableDetail { columns: vec![one_column()], indices, icols }],
    }
}

#[test]
fn index_enumeration_order_ignored_on_values() {
    let a = schema_with_indices(vec![ix(0, "ia"), ix(1, "ib")], vec![vec![ic(0, 0, "x")], vec![]]);
    let b = schema_with_indices(vec![ix(1, "ib"), ix(0, "ia")], vec![vec![], vec![ic(0, 0, "x")]]);
    assert!(compare_db_schemas("a", &a, "b", &b).is_none());
}

#[test]
fn index_column_order_detected_on_values() {
    let a = schema_with_indices(
        vec![ix(0, "ia")],
        vec![vec![ic(0, 0, "x"), ic(1, 1, "y")]],
    );
    let b = schema_with_indices(
        vec![ix(0, "ia")],
        vec![vec![ic(0, 1, "y"), ic(1, 0, "x")]],
    );
    let r = compare_db_schemas("a", &a, "b", &b).unwrap();
    assert!(r.contains(" columns a vs b:\n"));
    assert!(r.contains("-IndexColumn { seqno: 0, cid: 0, name: \"x\" }\n"));
    assert!(r.contains("+IndexColumn { seqno: 0, cid: 1, name: \"y\" }\n"));
}

#[test]
fn report_is_never_empty_string() {
    let a = schema_with_indices(vec![], vec![]);
    let mut b = schema_with_indices(vec![], vec![]);
    b.table_names = vec!["u".to_string()];
    let r = compare_db_schemas("a", &a, "b", &b);
    match r {
        Some(s) => assert!(!s.is_empty()),
        None => panic!("differing table lists must be reported"),
    }
}

#[test]
fn render_extreme_integers() {
    let mut c = one_column();
    c.dflt_value = SqlValue::Integer(i64::MIN);
    assert!(render_column(&c).contains("dflt_value: Integer(-9223372036854775808)"));
    c.dflt_value = SqlValue::Integer(i64::MAX);
    assert!(render_column(&c).contains("dflt_value: Integer(9223372036854775807)"));
    c.cid = u32::MAX;
    assert!(render_column(&c).contains("Column { cid: 4294967295, "));
}

#[test]
fn render_real_carries_its_text() {
    let mut c = one_column();
    c.dflt_value = SqlValue::Real("1.5".to_string());
    assert!(render_column(&c).contains("dflt_value: Real(1.5)"));
}
