use gulper_index::cards::{Book, Metric, Notebook, Purchase, Task, Thought};
use gulper_index::document::SqlValue;
use gulper_index::error::Error;
use gulper_index::ident::{get_file_path_for_card, get_path_to_cards, parse_link, parse_qualified_id, qualified_id};
use gulper_index::index::{card_ops, remove_ops, sql_write_stmt, IndexOp};
use gulper_index::query::{
    count_statement, list_query, lookup, resolve_by_name, sql_find_id, tag_filters, tag_lookup_statement,
    title_search_statement, Condition, Lookup,
};
use gulper_index::record::CardRecord;
use gulper_index::registry::CardType;
use gulper_index::report::{report_step, ReportStep, ReportThreadCommand};
use gulper_index::text::{find_char, parse_bool, parse_i32, parse_u32, parse_u64, same_text};
use gulper_index::watch::{action_ops, bulk_ops, card_file_id, card_ids, event_actions, EventKind, WatchAction};

fn strings(v: &[&str]) -> Vec<String> {
    v.iter().map(|s| s.to_string()).collect()
}

fn filters(v: &[(&str, &str)]) -> Vec<(String, String)> {
    v.iter().map(|(k, x)| (k.to_string(), x.to_string())).collect()
}

const TASK: &str = r#"{"Title": "Write the plan", "Created": "2023-01-01", "Modified": "2023-01-02",
    "Tags": ["urgent", "work"], "Links": ["parent:project/3", "book/17"], "Completed": null, "Obsolete": "true"}"#;

#[test]
fn qualified_id_parses_type_and_number() {
    let (typ, id) = parse_qualified_id("book/17").unwrap();
    assert_eq!(typ, CardType::Book);
    assert_eq!(id, 17);
}

#[test]
fn qualified_id_without_slash_fails() {
    assert!(matches!(parse_qualified_id("book17"), Err(Error::DatabaseError(_))));
}

#[test]
fn qualified_id_with_non_numeric_id_fails() {
    assert!(matches!(parse_qualified_id("book/x"), Err(Error::DatabaseError(_))));
}

#[test]
fn qualified_id_with_unknown_type_fails() {
    assert!(matches!(parse_qualified_id("movie/3"), Err(Error::DatabaseError(_))));
    assert!(matches!(parse_qualified_id("invalid/3"), Err(Error::DatabaseError(_))));
    assert!(matches!(parse_qualified_id("book/"), Err(Error::DatabaseError(_))));
}

#[test]
fn qualified_id_round_trips() {
    assert_eq!(qualified_id(CardType::Notebook, 905), "notebook/905");
    let (typ, id) = parse_qualified_id(&qualified_id(CardType::Word, 0)).unwrap();
    assert_eq!((typ, id), (CardType::Word, 0));
}

#[test]
fn decimal_numbers_parse_as_std_does() {
    assert_eq!(parse_u64("0"), Some(0));
    assert_eq!(parse_u64("+42"), Some(42));
    assert_eq!(parse_u64("18446744073709551615"), Some(u64::MAX));
    assert_eq!(parse_u64("18446744073709551616"), None);
    assert_eq!(parse_u64(""), None);
    assert_eq!(parse_u64("+"), None);
    assert_eq!(parse_u64("-1"), None);
    assert_eq!(parse_u64(" 1"), None);
    assert_eq!(parse_u32("4294967295"), Some(u32::MAX));
    assert_eq!(parse_u32("4294967296"), None);
    assert_eq!(parse_i32("-2147483648"), Some(i32::MIN));
    assert_eq!(parse_i32("2147483647"), Some(i32::MAX));
    assert_eq!(parse_i32("2147483648"), None);
    assert_eq!(parse_i32("-"), None);
    assert_eq!(parse_i32("-+1"), None);
    assert_eq!(parse_bool("true"), Some(true));
    assert_eq!(parse_bool("false"), Some(false));
    assert_eq!(parse_bool("True"), None);
}

#[test]
fn text_helpers() {
    assert!(same_text("abc", "abc"));
    assert!(!same_text("abc", "abd"));
    assert_eq!(find_char("role:task/1", ':'), Some(4));
    assert_eq!(find_char("task/1", ':'), None);
}

#[test]
fn card_types_have_names_codes_and_tables() {
    assert_eq!(CardType::from_tag("task"), CardType::Task);
    assert_eq!(CardType::from_tag("Task"), CardType::Invalid);
    assert_eq!(CardType::Achievement.typ_str(), "achievement");
    assert_eq!(CardType::Notebook.to_string(), "notebook");
    assert_eq!(CardType::Invalid.discriminant(), 0);
    assert_eq!(CardType::Task.discriminant(), 2);
    assert_eq!(CardType::Book.discriminant(), 5);
    assert_eq!(CardType::Notebook.discriminant(), 12);
    assert_eq!(CardType::Status.sql_table(), "Statuses");
    assert_eq!(CardType::all().len(), 12);
    assert!(!CardType::all().contains(&CardType::Invalid));
    assert_eq!(
        CardType::Note.sql_schema(),
        "DROP TABLE IF EXISTS Notes; CREATE TABLE Notes (id INTEGER PRIMARY KEY, title VARCHAR NOT NULL, created DATETIME NOT NULL, modified DATETIME NOT NULL, source VARCHAR, text VARCHAR); CREATE INDEX NotesByTitle ON Notes (title);"
    );
    assert_eq!(Thought::sql_schema(), CardType::Thought.sql_schema());
    assert!(gulper_index::index::shared_schema().contains("CREATE TABLE Tags (name VARCHAR PRIMARY KEY UNIQUE)"));
}

#[test]
fn file_paths() {
    assert_eq!(get_path_to_cards(), "C:/Dropbox/Data/Cards");
    assert_eq!(get_file_path_for_card("task", 42), "C:/Dropbox/Data/Cards/task/42.json");
}

#[test]
fn links_parse_with_and_without_role() {
    let l = parse_link("parent:project/3").unwrap();
    assert_eq!(l.role, "parent");
    assert_eq!(l.target_type, CardType::Project);
    assert_eq!(l.target_id, 3);
    let l = parse_link("book/17").unwrap();
    assert_eq!(l.role, "");
    assert_eq!(l.target_type, CardType::Book);
    assert!(matches!(parse_link("parent:book"), Err(Error::DatabaseError(_))));
}

#[test]
fn task_loads_common_and_own_properties() {
    let t = Task::load(42, TASK).unwrap();
    assert_eq!(t.id, 42);
    assert_eq!(t.description, "Write the plan");
    assert_eq!(t.created, "2023-01-01");
    assert_eq!(t.modified, "2023-01-02");
    assert_eq!(t.source, None);
    assert_eq!(t.tags, strings(&["urgent", "work"]));
    assert_eq!(t.links, strings(&["parent:project/3", "book/17"]));
    assert_eq!(t.completed, None);
    assert!(t.obsolete);
}

#[test]
fn text_that_is_not_an_object_is_a_format_failure() {
    assert!(matches!(Task::load(1, "not json"), Err(Error::CantReadFormatOfCard)));
    assert!(matches!(Task::load(1, "[1, 2]"), Err(Error::CantReadFormatOfCard)));
}

#[test]
fn missing_required_property_is_a_property_failure() {
    let text = r#"{"Created": "a", "Modified": "b"}"#;
    assert!(matches!(Thought::load(1, text), Err(Error::CantReadProperty(k)) if k == "Title"));
}

#[test]
fn null_or_empty_required_values_take_the_default() {
    let text = r#"{"Title": null, "Created": "", "Modified": "m", "Authors": "A", "Year": ""}"#;
    let b = Book::load(3, text).unwrap();
    assert_eq!(b.title, "");
    assert_eq!(b.created, "");
    assert_eq!(b.year, 0);
    assert_eq!(b.cover, None);
}

#[test]
fn numbers_and_booleans_read_as_their_text() {
    let text = r#"{"Title": 7, "Created": "c", "Modified": "m", "Date": "d", "Price": 1999,
        "Currency": "EUR", "Used": true, "Store": "s"}"#;
    let p = Purchase::load(5, text).unwrap();
    assert_eq!(p.item, "7");
    assert_eq!(p.price, 1999);
    assert!(p.used);
    let text = r#"{"Title": "t", "Created": "c", "Modified": "m", "Date": "d", "Price": "12x",
        "Currency": "EUR", "Used": false, "Store": "s"}"#;
    assert!(matches!(Purchase::load(5, text), Err(Error::CantReadProperty(k)) if k == "Price"));
}

#[test]
fn optional_count_and_amount() {
    let text = r#"{"Title": "t", "Created": "c", "Modified": "m", "Description": "d", "Location": "l",
        "Format": "A5", "Pages": "120", "Started": 2020}"#;
    let n = Notebook::load(8, text).unwrap();
    assert_eq!(n.pages, Some(120));
    assert_eq!(n.started, Some("2020".to_string()));
    let text = r#"{"Title": "t", "Created": "c", "Modified": "m", "Description": "d", "Location": "l",
        "Format": "A5", "Pages": -3}"#;
    assert!(matches!(Notebook::load(8, text), Err(Error::CantReadProperty(k)) if k == "Pages"));
    let text = r#"{"Title": "w", "Created": "c", "Modified": "m", "Timestamp": "ts", "Amount": 2.5}"#;
    let m = Metric::load(2, text).unwrap();
    assert_eq!(m.amount, "2.5");
    let text = r#"{"Title": "w", "Created": "c", "Modified": "m", "Timestamp": "ts", "Amount": null}"#;
    assert_eq!(Metric::load(2, text).unwrap().amount, "0");
}

#[test]
fn tag_and_link_lists_must_be_arrays_of_strings() {
    let text = r#"{"Title": "t", "Created": "c", "Modified": "m", "Tags": "urgent"}"#;
    assert!(matches!(Thought::load(1, text), Err(Error::CantReadProperty(k)) if k == "Tags"));
    let text = r#"{"Title": "t", "Created": "c", "Modified": "m", "Links": ["task/1", 2]}"#;
    assert!(matches!(Thought::load(1, text), Err(Error::CantReadProperty(k)) if k == "Links"));
    let text = r#"{"Title": "t", "Created": "c", "Modified": "m", "Tags": null}"#;
    assert!(Thought::load(1, text).unwrap().tags.is_empty());
}

#[test]
fn switch_reads_false_when_absent_and_rejects_numbers() {
    let text = r#"{"Title": "t", "Created": "c", "Modified": "m"}"#;
    assert!(!Task::load(1, text).unwrap().obsolete);
    let text = r#"{"Title": "t", "Created": "c", "Modified": "m", "Obsolete": 1}"#;
    assert!(matches!(Task::load(1, text), Err(Error::CantReadProperty(k)) if k == "Obsolete"));
}

#[test]
fn typed_card_and_record_agree() {
    let t = Task::load(42, TASK).unwrap();
    let r = t.to_record();
    let g = CardRecord::load(CardType::Task, 42, TASK).unwrap();
    assert_eq!(r.title, g.title);
    assert_eq!(r.values.len(), 2);
    assert!(matches!(&g.values[0], SqlValue::Null));
    assert!(matches!(&g.values[1], SqlValue::Bool(true)));
    let row = g.row();
    assert_eq!(row.len(), 7);
    assert!(matches!(&row[0], SqlValue::Unsigned(42)));
}

#[test]
fn card_ops_write_row_links_and_tags() {
    let (ops, err) = card_ops(CardType::Task, 42, TASK);
    assert!(err.is_none());
    assert_eq!(ops.len(), 1 + 2 + 4);
    assert!(matches!(&ops[0], IndexOp::PutRow { typ: CardType::Task, id: 42, .. }));
    assert!(matches!(&ops[1], IndexOp::PutLink { role, from_type: CardType::Task, from_id: 42, to_type: CardType::Project, to_id: 3 } if role == "parent"));
    assert!(matches!(&ops[2], IndexOp::PutLink { to_type: CardType::Book, to_id: 17, .. }));
    assert!(matches!(&ops[3], IndexOp::PutTag { name } if name == "urgent"));
    assert!(matches!(&ops[4], IndexOp::PutTagging { tag, typ: CardType::Task, id: 42 } if tag == "urgent"));
    let st = ops[0].statement();
    assert_eq!(st.sql, "INSERT OR REPLACE INTO Tasks (id, title, created, modified, source, completed, obsolete) VALUES (?, ?, ?, ?, ?, ?, ?)");
    assert_eq!(st.params.len(), 7);
    let st = ops[1].statement();
    assert!(matches!(&st.params[1], SqlValue::Integer(2)));
    assert!(matches!(&st.params[3], SqlValue::Integer(1)));
}

#[test]
fn malformed_link_fails_the_card() {
    let text = r#"{"Title": "t", "Created": "c", "Modified": "m", "Links": ["task/1", "nowhere"]}"#;
    let (ops, err) = card_ops(CardType::Thought, 1, text);
    assert!(matches!(err, Some(Error::DatabaseError(_))));
    assert_eq!(ops.len(), 2);
    assert!(matches!(&ops[0], IndexOp::PutRow { typ: CardType::Thought, id: 1, .. }));
    assert!(matches!(&ops[1], IndexOp::PutLink { to_type: CardType::Task, to_id: 1, .. }));
}

#[test]
fn write_statement_lists_every_column() {
    assert_eq!(
        sql_write_stmt(CardType::Book),
        "INSERT OR REPLACE INTO Books (id, title, created, modified, source, authors, year, started, completed, cover, ident) VALUES (?, ?, ?, ?, ?, ?, ?, ?, ?, ?, ?)"
    );
    assert_eq!(
        sql_write_stmt(CardType::Thought),
        "INSERT OR REPLACE INTO Thoughts (id, title, created, modified, source) VALUES (?, ?, ?, ?, ?)"
    );
}

#[test]
fn removal_deletes_incoming_links_only_when_asked() {
    let ops = remove_ops(CardType::Task, 42, true);
    assert_eq!(ops.len(), 4);
    assert!(matches!(&ops[2], IndexOp::DeleteLinksTo { typ: CardType::Task, id: 42 }));
    let ops = remove_ops(CardType::Task, 42, false);
    assert_eq!(ops.len(), 3);
    assert!(!ops.iter().any(|o| matches!(o, IndexOp::DeleteLinksTo { .. })));
    assert_eq!(ops[0].statement().sql, "DELETE FROM Tasks WHERE id IS ?1");
}

#[test]
fn card_file_names() {
    assert_eq!(card_file_id("42.json"), Some(42));
    assert_eq!(card_file_id("42.txt"), None);
    assert_eq!(card_file_id("notes.json"), None);
    assert_eq!(card_file_id("4.2.json"), None);
    assert_eq!(card_file_id(".json"), None);
    assert_eq!(card_file_id("42"), None);
    assert_eq!(card_ids(&strings(&["3.json", "x.json", "10.json", "7.json~"])), vec![3, 10]);
}

#[test]
fn events_become_actions() {
    let names = strings(&["42.json", "readme.txt"]);
    assert_eq!(event_actions(EventKind::Create, &names), vec![WatchAction::Index(42)]);
    assert_eq!(event_actions(EventKind::Modify, &names), vec![WatchAction::Reindex(42)]);
    assert_eq!(event_actions(EventKind::Remove, &names), vec![WatchAction::Deindex(42)]);
    assert!(event_actions(EventKind::Other, &names).is_empty());
}

#[test]
fn actions_become_operations() {
    let (ops, err) = action_ops(CardType::Task, WatchAction::Index(42), Some(TASK));
    assert_eq!(ops.len(), 7);
    assert!(err.is_none());
    let (ops, err) = action_ops(CardType::Task, WatchAction::Reindex(42), Some(TASK));
    assert_eq!(ops.len(), 3 + 7);
    assert!(err.is_none());
    let (ops, err) = action_ops(CardType::Task, WatchAction::Reindex(42), Some("{"));
    assert_eq!(ops.len(), 3);
    assert!(matches!(err, Some(Error::CantReadFormatOfCard)));
    let (ops, err) = action_ops(CardType::Task, WatchAction::Index(42), None);
    assert!(ops.is_empty());
    assert!(matches!(err, Some(Error::CantAccessCard)));
    let (ops, err) = action_ops(CardType::Task, WatchAction::Deindex(42), None);
    assert_eq!(ops.len(), 4);
    assert!(err.is_none());
}

#[test]
fn bulk_sync_skips_cards_that_fail() {
    let docs = vec![(1u64, TASK.to_string()), (2u64, "oops".to_string()), (3u64, TASK.to_string())];
    let (ops, failed) = bulk_ops(CardType::Task, &docs);
    assert_eq!(ops.len(), 14);
    assert_eq!(failed.len(), 1);
    assert_eq!(failed[0].0, 2);
    assert!(matches!(failed[0].1, Error::CantReadFormatOfCard));
}

#[test]
fn list_query_with_unknown_tags_is_empty() {
    let f = filters(&[("tag", "urgent")]);
    assert_eq!(tag_filters(&f), strings(&["urgent"]));
    assert!(list_query(CardType::Task, &f, &vec![None]).unwrap().is_none());
}

#[test]
fn list_query_with_found_tag_joins_taggings() {
    let f = filters(&[("tag", "urgent")]);
    let q = list_query(CardType::Task, &f, &vec![Some(3)]).unwrap().unwrap();
    assert!(matches!(q.conditions.as_slice(), [Condition::Tagged(3)]));
    let st = q.statement();
    assert_eq!(st.sql, "SELECT id FROM Tasks WHERE (id IN (SELECT card_id FROM Taggings WHERE tag_id IS ? AND card_type IS ?))");
    assert!(matches!(st.params.as_slice(), [SqlValue::Unsigned(3), SqlValue::Integer(2)]));
}

#[test]
fn list_query_decodes_predicates_and_equalities() {
    let f = filters(&[("_where", "completed%20IS%20NULL"), ("obsolete", "0")]);
    let q = list_query(CardType::Task, &f, &vec![]).unwrap().unwrap();
    assert_eq!(q.statement().sql, "SELECT id FROM Tasks WHERE (completed IS NULL) AND (obsolete IS 0)");
    let q = list_query(CardType::Word, &vec![], &vec![]).unwrap().unwrap();
    assert_eq!(q.statement().sql, "SELECT id FROM Words");
    assert!(matches!(list_query(CardType::Task, &filters(&[("title", "%FF")]), &vec![]), Err(Error::DatabaseError(_))));
}

#[test]
fn lookup_statements() {
    let st = tag_lookup_statement("urgent");
    assert_eq!(st.sql, "SELECT rowid FROM Tags WHERE name LIKE ?1");
    assert_eq!(count_statement(CardType::Note).sql, "SELECT COUNT(*) FROM Notes");
    let st = title_search_statement(CardType::Task, "plan");
    assert_eq!(st.sql, "SELECT id FROM Tasks WHERE title LIKE ?1 LIMIT 2");
    assert!(matches!(st.params.as_slice(), [SqlValue::Text(p)] if p == "%plan%"));
    assert!(matches!(lookup(CardType::Task, "17"), Lookup::Id(17)));
    assert!(matches!(lookup(CardType::Task, "plan"), Lookup::Title(_)));
}

#[test]
fn name_that_matches_two_titles_is_ambiguous() {
    assert!(matches!(resolve_by_name("plan", &vec![4, 9]), Err(Error::AmbiguousName(n)) if n == "plan"));
    assert_eq!(resolve_by_name("plan", &vec![4]).unwrap(), 4);
    assert!(matches!(resolve_by_name("plan", &vec![]), Err(Error::CantFindCard(n)) if n == "plan"));
}

#[test]
fn numeric_name_is_the_identifier() {
    assert_eq!(sql_find_id("17", &vec![]).unwrap(), 17);
    assert!(matches!(sql_find_id("plan", &vec![1, 2]), Err(Error::AmbiguousName(_))));
}

#[test]
fn report_commands() {
    assert_eq!(report_step(ReportThreadCommand::Quit), ReportStep::Stop);
    assert_eq!(report_step(ReportThreadCommand::Refresh), ReportStep::Render);
    let (tx, rx) = std::sync::mpsc::channel();
    gulper_index::report::update_report(&tx);
    assert_eq!(rx.recv().unwrap(), ReportThreadCommand::Refresh);
}

#[test]
fn load_names_the_first_property_that_fails() {
    let text = r#"{"Created": "c", "Tags": 3}"#;
    assert!(matches!(Thought::load(1, text), Err(Error::CantReadProperty(k)) if k == "Title"));
    let text = r#"{"Title": "t", "Created": "c", "Modified": "m", "Tags": 3, "Links": 4}"#;
    assert!(matches!(Thought::load(1, text), Err(Error::CantReadProperty(k)) if k == "Tags"));
    let text = r#"{"Title": "t", "Created": "c", "Modified": "m", "Description": "d", "Location": "l",
        "Format": "A5", "Pages": "abc", "Started": [1]}"#;
    assert!(matches!(Notebook::load(8, text), Err(Error::CantReadProperty(k)) if k == "Pages"));
    let text = r#"{"Title": "t", "Created": "c", "Modified": "m", "Authors": ["a"], "Year": "x"}"#;
    assert!(matches!(Book::load(8, text), Err(Error::CantReadProperty(k)) if k == "Authors"));
}

#[test]
fn bulk_sync_reports_malformed_links_apart_from_load_failures() {
    let bad_link = r#"{"Title": "t", "Created": "c", "Modified": "m", "Links": ["x"]}"#;
    let docs = vec![(1u64, bad_link.to_string()), (2u64, "{}".to_string())];
    let (ops, failed) = bulk_ops(CardType::Thought, &docs);
    assert_eq!(ops.len(), 1);
    assert_eq!(failed.len(), 2);
    assert!(matches!(&failed[0], (1, Error::DatabaseError(_))));
    assert!(matches!(&failed[1], (2, Error::CantReadProperty(k)) if k == "Title"));
}

#[test]
fn decimal_writes_digits() {
    assert_eq!(gulper_index::ident::decimal(0), "0");
    assert_eq!(gulper_index::ident::decimal(907), "907");
    assert_eq!(gulper_index::ident::decimal(u64::MAX), "18446744073709551615");
}

#[test]
fn optional_text_reads_arrays_and_objects_as_json() {
    let text = r#"{"Title": "t", "Created": "c", "Modified": "m", "Authors": "a", "Year": 2001,
        "Cover": ["a", "b"], "Source": {"k": 1}}"#;
    let b = Book::load(4, text).unwrap();
    assert_eq!(b.cover, Some(r#"["a","b"]"#.to_string()));
    assert_eq!(b.source, Some(r#"{"k":1}"#.to_string()));
    let text = r#"{"Title": "t", "Created": "c", "Modified": "m", "Description": "d", "Location": "l",
        "Format": "A5", "Pages": [1]}"#;
    assert!(matches!(Notebook::load(8, text), Err(Error::CantReadProperty(k)) if k == "Pages"));
}
