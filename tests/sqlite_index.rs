use gulper_index::document::SqlValue;
use gulper_index::index::{card_ops, schema_ops, IndexOp, Statement};
use gulper_index::query::{count_statement, list_query, lookup, resolve_by_name, tag_filters, tag_lookup_statement, Lookup};
use gulper_index::error::Error;
use gulper_index::registry::CardType;
use gulper_index::watch::{action_ops, bulk_ops, event_actions, EventKind};
use rusqlite::types::Value;
use rusqlite::{params_from_iter, Connection};

fn value(v: &SqlValue) -> Value {
    match v {
        SqlValue::Null => Value::Null,
        SqlValue::Integer(i) => Value::Integer(*i),
        SqlValue::Unsigned(u) => Value::Integer(*u as i64),
        SqlValue::Text(s) => Value::Text(s.clone()),
        SqlValue::Bool(b) => Value::Integer(*b as i64),
    }
}

fn params(st: &Statement) -> Vec<Value> {
    st.params.iter().map(value).collect()
}

fn fresh() -> Connection {
    let db = Connection::open_in_memory().unwrap();
    run(&db, &schema_ops());
    db
}

fn indexed(typ: CardType, id: u64, text: &str) -> Vec<IndexOp> {
    let (ops, err) = card_ops(typ, id, text);
    assert!(err.is_none());
    ops
}

fn run(db: &Connection, ops: &[IndexOp]) {
    for op in ops {
        let st = op.statement();
        if st.params.is_empty() {
            db.execute_batch(&st.sql).unwrap();
        } else {
            db.execute(&st.sql, params_from_iter(params(&st))).unwrap();
        }
    }
}

fn ids(db: &Connection, st: &Statement) -> Vec<u64> {
    let mut stmt = db.prepare(&st.sql).unwrap();
    let rows = stmt.query_map(params_from_iter(params(st)), |r| r.get::<usize, i64>(0)).unwrap();
    rows.map(|r| r.unwrap() as u64).collect()
}

fn list(db: &Connection, typ: CardType, filters: &[(&str, &str)]) -> Vec<u64> {
    let f: Vec<(String, String)> = filters.iter().map(|(k, v)| (k.to_string(), v.to_string())).collect();
    let found: Vec<Option<u64>> = tag_filters(&f)
        .iter()
        .map(|t| {
            let st = tag_lookup_statement(t);
            ids(db, &st).first().copied()
        })
        .collect();
    match list_query(typ, &f, &found).unwrap() {
        None => Vec::new(),
        Some(q) => ids(db, &q.statement()),
    }
}

fn count(db: &Connection, typ: CardType) -> i64 {
    let st = count_statement(typ);
    db.query_row(&st.sql, [], |r| r.get(0)).unwrap()
}

fn task(title: &str, tags: &str, links: &str) -> String {
    format!(r#"{{"Title": "{}", "Created": "c", "Modified": "m", "Tags": [{}], "Links": [{}]}}"#, title, tags, links)
}

fn apply_event(db: &Connection, kind: EventKind, name: &str, text: Option<&str>) {
    for a in event_actions(kind, &vec![name.to_string()]) {
        let (ops, _) = action_ops(CardType::Task, a, text);
        run(db, &ops);
    }
}

#[test]
fn create_event_lists_card_and_counts_one_more() {
    let db = fresh();
    run(&db, &indexed(CardType::Task, 7, &task("other", "", "")));
    let before = count(&db, CardType::Task);
    apply_event(&db, EventKind::Create, "42.json", Some(&task("new", r#""urgent""#, r#""project/3""#)));
    assert!(list(&db, CardType::Task, &[]).contains(&42));
    assert_eq!(count(&db, CardType::Task), before + 1);
}

#[test]
fn remove_event_drops_row_links_and_taggings() {
    let db = fresh();
    run(&db, &indexed(CardType::Task, 42, &task("t", r#""urgent""#, r#""project/3""#)));
    run(&db, &indexed(CardType::Task, 5, &task("u", "", r#""task/42""#)));
    apply_event(&db, EventKind::Remove, "42.json", None);
    assert!(!list(&db, CardType::Task, &[]).contains(&42));
    let refs: i64 = db
        .query_row(
            "SELECT COUNT(*) FROM Links WHERE (from_type IS 2 AND from_id IS 42) OR (to_type IS 2 AND to_id IS 42)",
            [],
            |r| r.get(0),
        )
        .unwrap();
    assert_eq!(refs, 0);
    let tags: i64 = db
        .query_row("SELECT COUNT(*) FROM Taggings WHERE card_type IS 2 AND card_id IS 42", [], |r| r.get(0))
        .unwrap();
    assert_eq!(tags, 0);
}

#[test]
fn modify_event_keeps_incoming_links() {
    let db = fresh();
    run(&db, &indexed(CardType::Task, 42, &task("t", r#""urgent""#, "")));
    run(&db, &indexed(CardType::Task, 5, &task("u", "", r#""task/42""#)));
    apply_event(&db, EventKind::Modify, "42.json", Some(&task("t2", r#""later""#, "")));
    let incoming: i64 = db
        .query_row("SELECT COUNT(*) FROM Links WHERE to_type IS 2 AND to_id IS 42", [], |r| r.get(0))
        .unwrap();
    assert_eq!(incoming, 1);
    assert_eq!(list(&db, CardType::Task, &[("tag", "urgent")]), Vec::<u64>::new());
    assert_eq!(list(&db, CardType::Task, &[("tag", "later")]), vec![42]);
}

#[test]
fn tag_filter_lists_only_tagged_cards() {
    let db = fresh();
    run(&db, &indexed(CardType::Task, 1, &task("a", r#""urgent""#, "")));
    run(&db, &indexed(CardType::Task, 2, &task("b", r#""later""#, "")));
    run(&db, &indexed(CardType::Note, 1, r#"{"Title": "n", "Created": "c", "Modified": "m", "Tags": ["urgent"], "Text": "x"}"#));
    assert_eq!(list(&db, CardType::Task, &[("tag", "urgent")]), vec![1]);
}

#[test]
fn tag_filter_on_unknown_tag_is_empty() {
    let db = fresh();
    run(&db, &indexed(CardType::Task, 1, &task("a", r#""later""#, "")));
    assert_eq!(list(&db, CardType::Task, &[("tag", "urgent")]), Vec::<u64>::new());
}

#[test]
fn raw_predicate_and_equality_filters() {
    let db = fresh();
    run(&db, &indexed(CardType::Task, 1, &task("a", "", "")));
    run(&db, &indexed(CardType::Task, 2, &task("b", "", "")));
    assert_eq!(list(&db, CardType::Task, &[("_where", "id%20%3E%201")]), vec![2]);
    assert_eq!(list(&db, CardType::Task, &[("title", "'a'")]), vec![1]);
}

#[test]
fn title_search_detects_ambiguity() {
    let db = fresh();
    run(&db, &indexed(CardType::Task, 1, &task("plan trip", "", "")));
    run(&db, &indexed(CardType::Task, 2, &task("make a plan", "", "")));
    run(&db, &indexed(CardType::Task, 3, &task("shopping", "", "")));
    let found = match lookup(CardType::Task, "plan") {
        Lookup::Title(st) => ids(&db, &st),
        Lookup::Id(_) => panic!("not a number"),
    };
    assert!(matches!(resolve_by_name("plan", &found), Err(Error::AmbiguousName(_))));
    let found = match lookup(CardType::Task, "shop") {
        Lookup::Title(st) => ids(&db, &st),
        Lookup::Id(_) => panic!("not a number"),
    };
    assert_eq!(resolve_by_name("shop", &found).unwrap(), 3);
}

#[test]
fn rebuilding_twice_gives_the_same_index() {
    let docs = vec![
        (1u64, task("a", r#""x", "y""#, r#""book/2""#)),
        (2u64, "broken".to_string()),
        (3u64, task("c", r#""y""#, "")),
    ];
    let dump = |db: &Connection| -> Vec<String> {
        let mut out = Vec::new();
        for q in ["SELECT id, title FROM Tasks", "SELECT rowid, name FROM Tags", "SELECT * FROM Taggings", "SELECT * FROM Links"] {
            let mut stmt = db.prepare(q).unwrap();
            let n = stmt.column_count();
            let rows = stmt
                .query_map([], |r| Ok((0..n).map(|i| format!("{:?}", r.get::<usize, Value>(i).unwrap())).collect::<Vec<_>>().join("|")))
                .unwrap();
            out.extend(rows.map(|r| r.unwrap()));
        }
        out
    };
    let db = fresh();
    run(&db, &bulk_ops(CardType::Task, &docs).0);
    let first = dump(&db);
    run(&db, &schema_ops());
    run(&db, &bulk_ops(CardType::Task, &docs).0);
    assert_eq!(dump(&db), first);
    assert_eq!(first.len(), 2 + 2 + 3 + 1);
}

#[test]
fn card_with_malformed_link_keeps_its_row_and_earlier_edges() {
    let db = fresh();
    let (ops, err) = card_ops(CardType::Task, 42, &task("t", r#""urgent""#, r#""project/3", "nowhere", "book/1""#));
    assert!(matches!(err, Some(Error::DatabaseError(_))));
    run(&db, &ops);
    assert_eq!(list(&db, CardType::Task, &[]), vec![42]);
    let edges: i64 = db.query_row("SELECT COUNT(*) FROM Links WHERE from_id IS 42", [], |r| r.get(0)).unwrap();
    assert_eq!(edges, 1);
    apply_event(&db, EventKind::Modify, "42.json", Some(&task("t", "", r#""nowhere""#)));
    assert_eq!(list(&db, CardType::Task, &[]), vec![42]);
}

#[test]
fn schema_tables_have_the_written_columns() {
    let db = fresh();
    for t in CardType::all() {
        let st = gulper_index::index::sql_write_stmt(t);
        let n = t.properties().len() + 5;
        let row: Vec<Value> = (0..n).map(|i| if i == 0 { Value::Integer(1) } else { Value::Null }).collect();
        let _ = db.execute(&st, params_from_iter(row));
        let c: i64 = db.query_row(&count_statement(t).sql, [], |r| r.get(0)).unwrap();
        assert!(c <= 1);
    }
}

#[test]
fn raw_predicate_with_or_stays_a_conjunct() {
    let db = fresh();
    run(&db, &indexed(CardType::Task, 1, &task("a", r#""urgent""#, "")));
    run(&db, &indexed(CardType::Task, 2, &task("b", "", "")));
    assert_eq!(list(&db, CardType::Task, &[("_where", "0%20OR%201"), ("tag", "urgent")]), vec![1]);
}
