use rusqlite::Connection;
use schema_diff::compare::get_diffs;

fn db(ddl: &str) -> Connection {
    let c = Connection::open_in_memory().unwrap();
    c.execute_batch(ddl).unwrap();
    c
}

const EVENTS_A: &str = "CREATE TABLE events (id INTEGER PRIMARY KEY, ts INTEGER NOT NULL);";
const EVENTS_B: &str = "CREATE TABLE events (id INTEGER PRIMARY KEY, ts INTEGER);";

#[test]
fn reflexive_same_connection() {
    let c = db("CREATE TABLE events (id INTEGER PRIMARY KEY, ts INTEGER NOT NULL);
                CREATE INDEX idx_ts ON events (ts);");
    let r = get_diffs("n", &c, "n", &c).unwrap();
    assert!(r.is_none());
}

#[test]
fn identical_schemas_report_absent() {
    let ddl = "CREATE TABLE events (id INTEGER PRIMARY KEY, ts INTEGER NOT NULL);
               CREATE INDEX idx_ts ON events (ts);";
    let ca = db(ddl);
    let cb = db(ddl);
    let r = get_diffs("a", &ca, "b", &cb).unwrap();
    assert!(r.is_none());
}

#[test]
fn empty_schemas_report_absent() {
    let ca = Connection::open_in_memory().unwrap();
    let cb = Connection::open_in_memory().unwrap();
    let r = get_diffs("a", &ca, "b", &cb).unwrap();
    assert!(r.is_none());
}

#[test]
fn notnull_difference_reported() {
    let ca = db(EVENTS_A);
    let cb = db(EVENTS_B);
    let r = get_diffs("a", &ca, "b", &cb).unwrap().unwrap();
    assert!(r.contains("table \"events\" column, a vs b:\n"));
    assert!(r.contains(
        "-Column { cid: 1, name: \"ts\", type_: \"INTEGER\", notnull: true, dflt_value: Null, pk: 0 }\n"
    ));
    assert!(r.contains(
        "+Column { cid: 1, name: \"ts\", type_: \"INTEGER\", notnull: false, dflt_value: Null, pk: 0 }\n"
    ));
    assert!(!r.contains("table list mismatch"));
    assert!(!r.contains(" indices, "));
    assert!(!r.contains(" index "));
}

#[test]
fn detection_symmetry() {
    let ca = db(EVENTS_A);
    let cb = db(EVENTS_B);
    let r1 = get_diffs("a", &ca, "b", &cb).unwrap().unwrap();
    let r2 = get_diffs("b", &cb, "a", &ca).unwrap().unwrap();
    let line =
        "Column { cid: 1, name: \"ts\", type_: \"INTEGER\", notnull: true, dflt_value: Null, pk: 0 }\n";
    let removed = format!("-{line}");
    let added = format!("+{line}");
    assert!(r1.contains(&removed));
    assert!(r2.contains(&added));
    assert!(r1.contains("table \"events\" column, a vs b:\n"));
    assert!(r2.contains("table \"events\" column, b vs a:\n"));
}

#[test]
fn index_column_order_reported() {
    let ca = db("CREATE TABLE events (id INTEGER PRIMARY KEY, ts INTEGER, kind INTEGER);
                 CREATE INDEX idx_ts ON events (ts, kind);");
    let cb = db("CREATE TABLE events (id INTEGER PRIMARY KEY, ts INTEGER, kind INTEGER);
                 CREATE INDEX idx_ts ON events (kind, ts);");
    let r = get_diffs("a", &ca, "b", &cb).unwrap().unwrap();
    assert!(r.contains("table \"events\" index "));
    assert!(r.contains("name: \"idx_ts\""));
    assert!(r.contains(" columns a vs b:\n"));
    assert!(!r.contains(" indices, "));
    assert!(!r.contains("table list mismatch"));
    assert!(r.contains("-IndexColumn { seqno: 0, cid: 1, name: \"ts\" }\n"));
    assert!(r.contains("+IndexColumn { seqno: 0, cid: 2, name: \"kind\" }\n"));
}

#[test]
fn added_column_reported() {
    let ca = db("CREATE TABLE events (id INTEGER PRIMARY KEY);");
    let cb = db("CREATE TABLE events (id INTEGER PRIMARY KEY, extra TEXT);");
    let r = get_diffs("a", &ca, "b", &cb).unwrap().unwrap();
    assert!(r.contains("table \"events\" column, a vs b:\n"));
    assert!(r.contains("+Column { cid: 1, name: \"extra\""));
}

#[test]
fn extra_table_reported() {
    let ca = db("CREATE TABLE events (id INTEGER PRIMARY KEY);");
    let cb = db("CREATE TABLE events (id INTEGER PRIMARY KEY);
                 CREATE TABLE extra (x INTEGER);");
    let r = get_diffs("a", &ca, "b", &cb).unwrap().unwrap();
    assert!(r.contains("table list mismatch, a vs b:\n"));
    assert!(r.contains("+extra\n"));
    assert!(r.contains(" events\n"));
}

#[test]
fn removed_table_reported() {
    let ca = db("CREATE TABLE events (id INTEGER PRIMARY KEY);
                 CREATE TABLE gone (x INTEGER);");
    let cb = db("CREATE TABLE events (id INTEGER PRIMARY KEY);");
    let r = get_diffs("a", &ca, "b", &cb).unwrap().unwrap();
    assert!(r.contains("table list mismatch, a vs b:\n"));
    assert!(r.contains("-gone\n"));
}

#[test]
fn renamed_index_reported() {
    let ca = db("CREATE TABLE events (id INTEGER PRIMARY KEY, ts INTEGER);
                 CREATE INDEX idx_a ON events (ts);");
    let cb = db("CREATE TABLE events (id INTEGER PRIMARY KEY, ts INTEGER);
                 CREATE INDEX idx_b ON events (ts);");
    let r = get_diffs("a", &ca, "b", &cb).unwrap().unwrap();
    assert!(r.contains("table \"events\" indices, a vs b:\n"));
    assert!(r.contains("name: \"idx_a\""));
    assert!(r.contains("name: \"idx_b\""));
}

#[test]
fn quoted_table_and_index_names() {
    let ddl = "CREATE TABLE \"wei\"\"rd\" (x INTEGER);
               CREATE INDEX \"id\"\"x\" ON \"wei\"\"rd\" (x);";
    let ca = db(ddl);
    let cb = db(ddl);
    assert!(get_diffs("a", &ca, "b", &cb).unwrap().is_none());
    assert!(get_diffs("a", &ca, "a", &ca).unwrap().is_none());
}

#[test]
fn default_value_difference_reported() {
    let ca = db("CREATE TABLE d (a INTEGER DEFAULT 5);");
    let cb = db("CREATE TABLE d (a INTEGER DEFAULT 6);");
    let r = get_diffs("a", &ca, "b", &cb).unwrap().unwrap();
    assert!(r.contains("table \"d\" column, a vs b:\n"));
    assert!(r.contains("dflt_value: Text(\"5\")"));
    assert!(r.contains("dflt_value: Text(\"6\")"));
}

#[test]
fn corrupt_catalog_is_an_error() {
    let c = db("CREATE TABLE t (x INTEGER);");
    let _ = c.execute_batch(
        "PRAGMA writable_schema=ON;
         UPDATE sqlite_master SET sql = 'CREATE TABLE t (' WHERE name = 't';
         PRAGMA writable_schema=RESET;",
    );
    let good = Connection::open_in_memory().unwrap();
    let r = get_diffs("bad", &c, "good", &good);
    assert!(r.is_err());
}

#[test]
fn unique_flag_difference_reported() {
    let ca = db("CREATE TABLE events (id INTEGER PRIMARY KEY, ts INTEGER);
                 CREATE UNIQUE INDEX idx_ts ON events (ts);");
    let cb = db("CREATE TABLE events (id INTEGER PRIMARY KEY, ts INTEGER);
                 CREATE INDEX idx_ts ON events (ts);");
    let r = get_diffs("a", &ca, "b", &cb).unwrap().unwrap();
    assert!(r.contains("table \"events\" indices, a vs b:\n"));
    assert!(r.contains("unique: true"));
    assert!(r.contains("unique: false"));
}

#[test]
fn partial_index_difference_reported() {
    let ca = db("CREATE TABLE events (id INTEGER PRIMARY KEY, ts INTEGER);
                 CREATE INDEX idx_ts ON events (ts) WHERE ts > 0;");
    let cb = db("CREATE TABLE events (id INTEGER PRIMARY KEY, ts INTEGER);
                 CREATE INDEX idx_ts ON events (ts);");
    let r = get_diffs("a", &ca, "b", &cb).unwrap().unwrap();
    assert!(r.contains("table \"events\" indices, a vs b:\n"));
    assert!(r.contains("partial: true"));
    assert!(r.contains("partial: false"));
}

#[test]
fn blocks_follow_table_order() {
    let ca = db("CREATE TABLE alpha (x INTEGER);
                 CREATE TABLE beta (y INTEGER);");
    let cb = db("CREATE TABLE alpha (x INTEGER, x2 INTEGER);
                 CREATE TABLE beta (y INTEGER, y2 INTEGER);");
    let r = get_diffs("a", &ca, "b", &cb).unwrap().unwrap();
    let pa = r.find("table \"alpha\" column").unwrap();
    let pb = r.find("table \"beta\" column").unwrap();
    assert!(pa < pb);
    assert!(!r.contains("table list mismatch"));
}
