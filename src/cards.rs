//! The cards of each type, with their properties as typed fields.
use vstd::prelude::*;
use crate::document::{json_document, opt_sql, opt_text_view, SqlValue, SqlView};
use crate::error::Error;
use crate::record::{fits, lemma_record_fits, load_spec, record_failure, texts_view, values_view, CardRecord, RecordView};
use crate::registry::CardType;

verus! {

pub open spec fn count_view(o: Option<u32>) -> SqlView {
    match o {
        Some(n) => SqlView::Integer(n as int),
        None => SqlView::Null,
    }
}

pub struct Project {
    pub id: u64,
    pub title: String,
    pub created: String,
    pub modified: String,
    pub source: Option<String>,
    pub tags: Vec<String>,
    pub links: Vec<String>,
    pub started: Option<String>,
    pub finished: Option<String>,
    pub active: bool,
}

impl Project {
    /// The card as a record of its type.
    pub open spec fn record_view(&self) -> RecordView {
        RecordView {
            typ: CardType::Project,
            id: self.id,
            title: self.title@,
            created: self.created@,
            modified: self.modified@,
            source: opt_text_view(self.source),
            tags: texts_view(self.tags@),
            links: texts_view(self.links@),
            values: seq![opt_sql(opt_text_view(self.started)), opt_sql(opt_text_view(self.finished)), SqlView::Bool(self.active)],
        }
    }

    pub fn typ() -> (r: CardType)
        ensures
            r == CardType::Project,
    {
        CardType::Project
    }

    pub fn typ_str() -> (r: &'static str)
        ensures
            r@ == CardType::Project.tag(),
    {
        CardType::Project.typ_str()
    }

    pub fn sql_table() -> (r: &'static str)
        ensures
            r@ == CardType::Project.table_name(),
    {
        CardType::Project.sql_table()
    }

    pub fn sql_schema() -> (r: String)
        ensures
            r@ == CardType::Project.schema_sql(),
    {
        CardType::Project.sql_schema()
    }

    /// Loads the card `id` from the text of its file.
    pub fn load(id: u64, text: &str) -> (r: Result<Project, Error>)
        ensures
            match r {
                Ok(c) => load_spec(CardType::Project, id, text@) == Some(Some(c.record_view())),
                Err(e) => match load_spec(CardType::Project, id, text@) {
                    None => e is CantReadFormatOfCard,
                    Some(o) => o is None && (e matches Error::CantReadProperty(k)
                        && record_failure(CardType::Project, json_document(text@)->0) == Some(k@)),
                },
            },
    {
        match CardRecord::load(CardType::Project, id, text) {
            Ok(rec) => {
                proof {
                    lemma_record_fits(CardType::Project, id, json_document(text@)->0);
                }
                Ok(Self::from_record(rec))
            },
            Err(e) => Err(e),
        }
    }

    fn from_record(rec: CardRecord) -> (r: Project)
        requires
            rec.typ == CardType::Project,
            fits(rec@),
        ensures
            r.record_view() == rec@,
    {
        assert(values_view(rec.values@)[0] == rec.values@[0]@);
        assert(values_view(rec.values@)[1] == rec.values@[1]@);
        assert(values_view(rec.values@)[2] == rec.values@[2]@);
        let started = match &rec.values[0] { SqlValue::Text(s) => Some(s.clone()), _ => None };
        let finished = match &rec.values[1] { SqlValue::Text(s) => Some(s.clone()), _ => None };
        let active = match &rec.values[2] { SqlValue::Bool(b) => *b, _ => false };
        let r = Project {
            id: rec.id,
            title: rec.title,
            created: rec.created,
            modified: rec.modified,
            source: rec.source,
            tags: rec.tags,
            links: rec.links,
            started,
            finished,
            active,
        };
        assert(r.record_view().values =~= rec@.values);
        r
    }

    /// The card as a record of its type.
    pub fn to_record(&self) -> (r: CardRecord)
        ensures
            r@ == self.record_view(),
    {
        let mut values: Vec<SqlValue> = Vec::new();
        values.push(match &self.started { Some(s) => SqlValue::Text(s.clone()), None => SqlValue::Null });
        values.push(match &self.finished { Some(s) => SqlValue::Text(s.clone()), None => SqlValue::Null });
        values.push(SqlValue::Bool(self.active));
        let r = CardRecord {
            typ: CardType::Project,
            id: self.id,
            title: self.title.clone(),
            created: self.created.clone(),
            modified: self.modified.clone(),
            source: self.source.clone(),
            tags: self.tags.clone(),
            links: self.links.clone(),
            values,
        };
        assert(r@.values =~= self.record_view().values);
        r
    }
}

pub struct Task {
    pub id: u64,
    pub description: String,
    pub created: String,
    pub modified: String,
    pub source: Option<String>,
    pub tags: Vec<String>,
    pub links: Vec<String>,
    pub completed: Option<String>,
    pub obsolete: bool,
}

impl Task {
    /// The card as a record of its type.
    pub open spec fn record_view(&self) -> RecordView {
        RecordView {
            typ: CardType::Task,
            id: self.id,
            title: self.description@,
            created: self.created@,
            modified: self.modified@,
            source: opt_text_view(self.source),
            tags: texts_view(self.tags@),
            links: texts_view(self.links@),
            values: seq![opt_sql(opt_text_view(self.completed)), SqlView::Bool(self.obsolete)],
        }
    }

    pub fn typ() -> (r: CardType)
        ensures
            r == CardType::Task,
    {
        CardType::Task
    }

    pub fn typ_str() -> (r: &'static str)
        ensures
            r@ == CardType::Task.tag(),
    {
        CardType::Task.typ_str()
    }

    pub fn sql_table() -> (r: &'static str)
        ensures
            r@ == CardType::Task.table_name(),
    {
        CardType::Task.sql_table()
    }

    pub fn sql_schema() -> (r: String)
        ensures
            r@ == CardType::Task.schema_sql(),
    {
        CardType::Task.sql_schema()
    }

    /// Loads the card `id` from the text of its file.
    pub fn load(id: u64, text: &str) -> (r: Result<Task, Error>)
        ensures
            match r {
                Ok(c) => load_spec(CardType::Task, id, text@) == Some(Some(c.record_view())),
                Err(e) => match load_spec(CardType::Task, id, text@) {
                    None => e is CantReadFormatOfCard,
                    Some(o) => o is None && (e matches Error::CantReadProperty(k)
                        && record_failure(CardType::Task, json_document(text@)->0) == Some(k@)),
                },
            },
    {
        match CardRecord::load(CardType::Task, id, text) {
            Ok(rec) => {
                proof {
                    lemma_record_fits(CardType::Task, id, json_document(text@)->0);
                }
                Ok(Self::from_record(rec))
            },
            Err(e) => Err(e),
        }
    }

    fn from_record(rec: CardRecord) -> (r: Task)
        requires
            rec.typ == CardType::Task,
            fits(rec@),
        ensures
            r.record_view() == rec@,
    {
        assert(values_view(rec.values@)[0] == rec.values@[0]@);
        assert(values_view(rec.values@)[1] == rec.values@[1]@);
        let completed = match &rec.values[0] { SqlValue::Text(s) => Some(s.clone()), _ => None };
        let obsolete = match &rec.values[1] { SqlValue::Bool(b) => *b, _ => false };
        let r = Task {
            id: rec.id,
            description: rec.title,
            created: rec.created,
            modified: rec.modified,
            source: rec.source,
            tags: rec.tags,
            links: rec.links,
            completed,
            obsolete,
        };
        assert(r.record_view().values =~= rec@.values);
        r
    }

    /// The card as a record of its type.
    pub fn to_record(&self) -> (r: CardRecord)
        ensures
            r@ == self.record_view(),
    {
        let mut values: Vec<SqlValue> = Vec::new();
        values.push(match &self.completed { Some(s) => SqlValue::Text(s.clone()), None => SqlValue::Null });
        values.push(SqlValue::Bool(self.obsolete));
        let r = CardRecord {
            typ: CardType::Task,
            id: self.id,
            title: self.description.clone(),
            created: self.created.clone(),
            modified: self.modified.clone(),
            source: self.source.clone(),
            tags: self.tags.clone(),
            links: self.links.clone(),
            values,
        };
        assert(r@.values =~= self.record_view().values);
        r
    }
}

pub struct Status {
    pub id: u64,
    pub message: String,
    pub created: String,
    pub modified: String,
    pub source: Option<String>,
    pub tags: Vec<String>,
    pub links: Vec<String>,
    pub began: Option<String>,
    pub ended: Option<String>,
}

impl Status {
    /// The card as a record of its type.
    pub open spec fn record_view(&self) -> RecordView {
        RecordView {
            typ: CardType::Status,
            id: self.id,
            title: self.message@,
            created: self.created@,
            modified: self.modified@,
            source: opt_text_view(self.source),
            tags: texts_view(self.tags@),
            links: texts_view(self.links@),
            values: seq![opt_sql(opt_text_view(self.began)), opt_sql(opt_text_view(self.ended))],
        }
    }

    pub fn typ() -> (r: CardType)
        ensures
            r == CardType::Status,
    {
        CardType::Status
    }

    pub fn typ_str() -> (r: &'static str)
        ensures
            r@ == CardType::Status.tag(),
    {
        CardType::Status.typ_str()
    }

    pub fn sql_table() -> (r: &'static str)
        ensures
            r@ == CardType::Status.table_name(),
    {
        CardType::Status.sql_table()
    }

    pub fn sql_schema() -> (r: String)
        ensures
            r@ == CardType::Status.schema_sql(),
    {
        CardType::Status.sql_schema()
    }

    /// Loads the card `id` from the text of its file.
    pub fn load(id: u64, text: &str) -> (r: Result<Status, Error>)
        ensures
            match r {
                Ok(c) => load_spec(CardType::Status, id, text@) == Some(Some(c.record_view())),
                Err(e) => match load_spec(CardType::Status, id, text@) {
                    None => e is CantReadFormatOfCard,
                    Some(o) => o is None && (e matches Error::CantReadProperty(k)
                        && record_failure(CardType::Status, json_document(text@)->0) == Some(k@)),
                },
            },
    {
        match CardRecord::load(CardType::Status, id, text) {
            Ok(rec) => {
                proof {
                    lemma_record_fits(CardType::Status, id, json_document(text@)->0);
                }
                Ok(Self::from_record(rec))
            },
            Err(e) => Err(e),
        }
    }

    fn from_record(rec: CardRecord) -> (r: Status)
        requires
            rec.typ == CardType::Status,
            fits(rec@),
        ensures
            r.record_view() == rec@,
    {
        assert(values_view(rec.values@)[0] == rec.values@[0]@);
        assert(values_view(rec.values@)[1] == rec.values@[1]@);
        let began = match &rec.values[0] { SqlValue::Text(s) => Some(s.clone()), _ => None };
        let ended = match &rec.values[1] { SqlValue::Text(s) => Some(s.clone()), _ => None };
        let r = Status {
            id: rec.id,
            message: rec.title,
            created: rec.created,
            modified: rec.modified,
            source: rec.source,
            tags: rec.tags,
            links: rec.links,
            began,
            ended,
        };
        assert(r.record_view().values =~= rec@.values);
        r
    }

    /// The card as a record of its type.
    pub fn to_record(&self) -> (r: CardRecord)
        ensures
            r@ == self.record_view(),
    {
        let mut values: Vec<SqlValue> = Vec::new();
        values.push(match &self.began { Some(s) => SqlValue::Text(s.clone()), None => SqlValue::Null });
        values.push(match &self.ended { Some(s) => SqlValue::Text(s.clone()), None => SqlValue::Null });
        let r = CardRecord {
            typ: CardType::Status,
            id: self.id,
            title: self.message.clone(),
            created: self.created.clone(),
            modified: self.modified.clone(),
            source: self.source.clone(),
            tags: self.tags.clone(),
            links: self.links.clone(),
            values,
        };
        assert(r@.values =~= self.record_view().values);
        r
    }
}

pub struct Timelog {
    pub id: u64,
    pub description: String,
    pub created: String,
    pub modified: String,
    pub source: Option<String>,
    pub tags: Vec<String>,
    pub links: Vec<String>,
    pub started: String,
    pub ended: Option<String>,
    pub category: Option<String>,
}

impl Timelog {
    /// The card as a record of its type.
    pub open spec fn record_view(&self) -> RecordView {
        RecordView {
            typ: CardType::Timelog,
            id: self.id,
            title: self.description@,
            created: self.created@,
            modified: self.modified@,
            source: opt_text_view(self.source),
            tags: texts_view(self.tags@),
            links: texts_view(self.links@),
            values: seq![SqlView::Text(self.started@), opt_sql(opt_text_view(self.ended)), opt_sql(opt_text_view(self.category))],
        }
    }

    pub fn typ() -> (r: CardType)
        ensures
            r == CardType::Timelog,
    {
        CardType::Timelog
    }

    pub fn typ_str() -> (r: &'static str)
        ensures
            r@ == CardType::Timelog.tag(),
    {
        CardType::Timelog.typ_str()
    }

    pub fn sql_table() -> (r: &'static str)
        ensures
            r@ == CardType::Timelog.table_name(),
    {
        CardType::Timelog.sql_table()
    }

    pub fn sql_schema() -> (r: String)
        ensures
            r@ == CardType::Timelog.schema_sql(),
    {
        CardType::Timelog.sql_schema()
    }

    /// Loads the card `id` from the text of its file.
    pub fn load(id: u64, text: &str) -> (r: Result<Timelog, Error>)
        ensures
            match r {
                Ok(c) => load_spec(CardType::Timelog, id, text@) == Some(Some(c.record_view())),
                Err(e) => match load_spec(CardType::Timelog, id, text@) {
                    None => e is CantReadFormatOfCard,
                    Some(o) => o is None && (e matches Error::CantReadProperty(k)
                        && record_failure(CardType::Timelog, json_document(text@)->0) == Some(k@)),
                },
            },
    {
        match CardRecord::load(CardType::Timelog, id, text) {
            Ok(rec) => {
                proof {
                    lemma_record_fits(CardType::Timelog, id, json_document(text@)->0);
                }
                Ok(Self::from_record(rec))
            },
            Err(e) => Err(e),
        }
    }

    fn from_record(rec: CardRecord) -> (r: Timelog)
        requires
            rec.typ == CardType::Timelog,
            fits(rec@),
        ensures
            r.record_view() == rec@,
    {
        assert(values_view(rec.values@)[0] == rec.values@[0]@);
        assert(values_view(rec.values@)[1] == rec.values@[1]@);
        assert(values_view(rec.values@)[2] == rec.values@[2]@);
        let started = match &rec.values[0] { SqlValue::Text(s) => s.clone(), _ => String::new() };
        let ended = match &rec.values[1] { SqlValue::Text(s) => Some(s.clone()), _ => None };
        let category = match &rec.values[2] { SqlValue::Text(s) => Some(s.clone()), _ => None };
        let r = Timelog {
            id: rec.id,
            description: rec.title,
            created: rec.created,
            modified: rec.modified,
            source: rec.source,
            tags: rec.tags,
            links: rec.links,
            started,
            ended,
            category,
        };
        assert(r.record_view().values =~= rec@.values);
        r
    }

    /// The card as a record of its type.
    pub fn to_record(&self) -> (r: CardRecord)
        ensures
            r@ == self.record_view(),
    {
        let mut values: Vec<SqlValue> = Vec::new();
        values.push(SqlValue::Text(self.started.clone()));
        values.push(match &self.ended { Some(s) => SqlValue::Text(s.clone()), None => SqlValue::Null });
        values.push(match &self.category { Some(s) => SqlValue::Text(s.clone()), None => SqlValue::Null });
        let r = CardRecord {
            typ: CardType::Timelog,
            id: self.id,
            title: self.description.clone(),
            created: self.created.clone(),
            modified: self.modified.clone(),
            source: self.source.clone(),
            tags: self.tags.clone(),
            links: self.links.clone(),
            values,
        };
        assert(r@.values =~= self.record_view().values);
        r
    }
}

pub struct Book {
    pub id: u64,
    pub title: String,
    pub created: String,
    pub modified: String,
    pub source: Option<String>,
    pub tags: Vec<String>,
    pub links: Vec<String>,
    pub authors: String,
    pub year: i32,
    pub started: Option<String>,
    pub completed: Option<String>,
    pub cover: Option<String>,
    pub ident_code: Option<String>,
}

impl Book {
    /// The card as a record of its type.
    pub open spec fn record_view(&self) -> RecordView {
        RecordView {
            typ: CardType::Book,
            id: self.id,
            title: self.title@,
            created: self.created@,
            modified: self.modified@,
            source: opt_text_view(self.source),
            tags: texts_view(self.tags@),
            links: texts_view(self.links@),
            values: seq![SqlView::Text(self.authors@), SqlView::Integer(self.year as int), opt_sql(opt_text_view(self.started)), opt_sql(opt_text_view(self.completed)), opt_sql(opt_text_view(self.cover)), opt_sql(opt_text_view(self.ident_code))],
        }
    }

    pub fn typ() -> (r: CardType)
        ensures
            r == CardType::Book,
    {
        CardType::Book
    }

    pub fn typ_str() -> (r: &'static str)
        ensures
            r@ == CardType::Book.tag(),
    {
        CardType::Book.typ_str()
    }

    pub fn sql_table() -> (r: &'static str)
        ensures
            r@ == CardType::Book.table_name(),
    {
        CardType::Book.sql_table()
    }

    pub fn sql_schema() -> (r: String)
        ensures
            r@ == CardType::Book.schema_sql(),
    {
        CardType::Book.sql_schema()
    }

    /// Loads the card `id` from the text of its file.
    pub fn load(id: u64, text: &str) -> (r: Result<Book, Error>)
        ensures
            match r {
                Ok(c) => load_spec(CardType::Book, id, text@) == Some(Some(c.record_view())),
                Err(e) => match load_spec(CardType::Book, id, text@) {
                    None => e is CantReadFormatOfCard,
                    Some(o) => o is None && (e matches Error::CantReadProperty(k)
                        && record_failure(CardType::Book, json_document(text@)->0) == Some(k@)),
                },
            },
    {
        match CardRecord::load(CardType::Book, id, text) {
            Ok(rec) => {
                proof {
                    lemma_record_fits(CardType::Book, id, json_document(text@)->0);
                }
                Ok(Self::from_record(rec))
            },
            Err(e) => Err(e),
        }
    }

    fn from_record(rec: CardRecord) -> (r: Book)
        requires
            rec.typ == CardType::Book,
            fits(rec@),
        ensures
            r.record_view() == rec@,
    {
        assert(values_view(rec.values@)[0] == rec.values@[0]@);
        assert(values_view(rec.values@)[1] == rec.values@[1]@);
        assert(values_view(rec.values@)[2] == rec.values@[2]@);
        assert(values_view(rec.values@)[3] == rec.values@[3]@);
        assert(values_view(rec.values@)[4] == rec.values@[4]@);
        assert(values_view(rec.values@)[5] == rec.values@[5]@);
        let authors = match &rec.values[0] { SqlValue::Text(s) => s.clone(), _ => String::new() };
        let year = match &rec.values[1] { SqlValue::Integer(n) => *n as i32, SqlValue::Unsigned(n) => *n as i32, _ => 0 };
        let started = match &rec.values[2] { SqlValue::Text(s) => Some(s.clone()), _ => None };
        let completed = match &rec.values[3] { SqlValue::Text(s) => Some(s.clone()), _ => None };
        let cover = match &rec.values[4] { SqlValue::Text(s) => Some(s.clone()), _ => None };
        let ident_code = match &rec.values[5] { SqlValue::Text(s) => Some(s.clone()), _ => None };
        let r = Book {
            id: rec.id,
            title: rec.title,
            created: rec.created,
            modified: rec.modified,
            source: rec.source,
            tags: rec.tags,
            links: rec.links,
            authors,
            year,
            started,
            completed,
            cover,
            ident_code,
        };
        assert(r.record_view().values =~= rec@.values);
        r
    }

    /// The card as a record of its type.
    pub fn to_record(&self) -> (r: CardRecord)
        ensures
            r@ == self.record_view(),
    {
        let mut values: Vec<SqlValue> = Vec::new();
        values.push(SqlValue::Text(self.authors.clone()));
        values.push(SqlValue::Integer(self.year as i64));
        values.push(match &self.started { Some(s) => SqlValue::Text(s.clone()), None => SqlValue::Null });
        values.push(match &self.completed { Some(s) => SqlValue::Text(s.clone()), None => SqlValue::Null });
        values.push(match &self.cover { Some(s) => SqlValue::Text(s.clone()), None => SqlValue::Null });
        values.push(match &self.ident_code { Some(s) => SqlValue::Text(s.clone()), None => SqlValue::Null });
        let r = CardRecord {
            typ: CardType::Book,
            id: self.id,
            title: self.title.clone(),
            created: self.created.clone(),
            modified: self.modified.clone(),
            source: self.source.clone(),
            tags: self.tags.clone(),
            links: self.links.clone(),
            values,
        };
        assert(r@.values =~= self.record_view().values);
        r
    }
}

pub struct Purchase {
    pub id: u64,
    pub item: String,
    pub created: String,
    pub modified: String,
    pub source: Option<String>,
    pub tags: Vec<String>,
    pub links: Vec<String>,
    pub date: String,
    pub price: i32,
    pub currency: String,
    pub used: bool,
    pub store: String,
}

impl Purchase {
    /// The card as a record of its type.
    pub open spec fn record_view(&self) -> RecordView {
        RecordView {
            typ: CardType::Purchase,
            id: self.id,
            title: self.item@,
            created: self.created@,
            modified: self.modified@,
            source: opt_text_view(self.source),
            tags: texts_view(self.tags@),
            links: texts_view(self.links@),
            values: seq![SqlView::Text(self.date@), SqlView::Integer(self.price as int), SqlView::Text(self.currency@), SqlView::Bool(self.used), SqlView::Text(self.store@)],
        }
    }

    pub fn typ() -> (r: CardType)
        ensures
            r == CardType::Purchase,
    {
        CardType::Purchase
    }

    pub fn typ_str() -> (r: &'static str)
        ensures
            r@ == CardType::Purchase.tag(),
    {
        CardType::Purchase.typ_str()
    }

    pub fn sql_table() -> (r: &'static str)
        ensures
            r@ == CardType::Purchase.table_name(),
    {
        CardType::Purchase.sql_table()
    }

    pub fn sql_schema() -> (r: String)
        ensures
            r@ == CardType::Purchase.schema_sql(),
    {
        CardType::Purchase.sql_schema()
    }

    /// Loads the card `id` from the text of its file.
    pub fn load(id: u64, text: &str) -> (r: Result<Purchase, Error>)
        ensures
            match r {
                Ok(c) => load_spec(CardType::Purchase, id, text@) == Some(Some(c.record_view())),
                Err(e) => match load_spec(CardType::Purchase, id, text@) {
                    None => e is CantReadFormatOfCard,
                    Some(o) => o is None && (e matches Error::CantReadProperty(k)
                        && record_failure(CardType::Purchase, json_document(text@)->0) == Some(k@)),
                },
            },
    {
        match CardRecord::load(CardType::Purchase, id, text) {
            Ok(rec) => {
                proof {
                    lemma_record_fits(CardType::Purchase, id, json_document(text@)->0);
                }
                Ok(Self::from_record(rec))
            },
            Err(e) => Err(e),
        }
    }

    fn from_record(rec: CardRecord) -> (r: Purchase)
        requires
            rec.typ == CardType::Purchase,
            fits(rec@),
        ensures
            r.record_view() == rec@,
    {
        assert(values_view(rec.values@)[0] == rec.values@[0]@);
        assert(values_view(rec.values@)[1] == rec.values@[1]@);
        assert(values_view(rec.values@)[2] == rec.values@[2]@);
        assert(values_view(rec.values@)[3] == rec.values@[3]@);
        assert(values_view(rec.values@)[4] == rec.values@[4]@);
        let date = match &rec.values[0] { SqlValue::Text(s) => s.clone(), _ => String::new() };
        let price = match &rec.values[1] { SqlValue::Integer(n) => *n as i32, SqlValue::Unsigned(n) => *n as i32, _ => 0 };
        let currency = match &rec.values[2] { SqlValue::Text(s) => s.clone(), _ => String::new() };
        let used = match &rec.values[3] { SqlValue::Bool(b) => *b, _ => false };
        let store = match &rec.values[4] { SqlValue::Text(s) => s.clone(), _ => String::new() };
        let r = Purchase {
            id: rec.id,
            item: rec.title,
            created: rec.created,
            modified: rec.modified,
            source: rec.source,
            tags: rec.tags,
            links: rec.links,
            date,
            price,
            currency,
            used,
            store,
        };
        assert(r.record_view().values =~= rec@.values);
        r
    }

    /// The card as a record of its type.
    pub fn to_record(&self) -> (r: CardRecord)
        ensures
            r@ == self.record_view(),
    {
        let mut values: Vec<SqlValue> = Vec::new();
        values.push(SqlValue::Text(self.date.clone()));
        values.push(SqlValue::Integer(self.price as i64));
        values.push(SqlValue::Text(self.currency.clone()));
        values.push(SqlValue::Bool(self.used));
        values.push(SqlValue::Text(self.store.clone()));
        let r = CardRecord {
            typ: CardType::Purchase,
            id: self.id,
            title: self.item.clone(),
            created: self.created.clone(),
            modified: self.modified.clone(),
            source: self.source.clone(),
            tags: self.tags.clone(),
            links: self.links.clone(),
            values,
        };
        assert(r@.values =~= self.record_view().values);
        r
    }
}

pub struct Metric {
    pub id: u64,
    pub name: String,
    pub created: String,
    pub modified: String,
    pub source: Option<String>,
    pub tags: Vec<String>,
    pub links: Vec<String>,
    pub timestamp: String,
    pub amount: String,
}

impl Metric {
    /// The card as a record of its type.
    pub open spec fn record_view(&self) -> RecordView {
        RecordView {
            typ: CardType::Metric,
            id: self.id,
            title: self.name@,
            created: self.created@,
            modified: self.modified@,
            source: opt_text_view(self.source),
            tags: texts_view(self.tags@),
            links: texts_view(self.links@),
            values: seq![SqlView::Text(self.timestamp@), SqlView::Text(self.amount@)],
        }
    }

    pub fn typ() -> (r: CardType)
        ensures
            r == CardType::Metric,
    {
        CardType::Metric
    }

    pub fn typ_str() -> (r: &'static str)
        ensures
            r@ == CardType::Metric.tag(),
    {
        CardType::Metric.typ_str()
    }

    pub fn sql_table() -> (r: &'static str)
        ensures
            r@ == CardType::Metric.table_name(),
    {
        CardType::Metric.sql_table()
    }

    pub fn sql_schema() -> (r: String)
        ensures
            r@ == CardType::Metric.schema_sql(),
    {
        CardType::Metric.sql_schema()
    }

    /// Loads the card `id` from the text of its file.
    pub fn load(id: u64, text: &str) -> (r: Result<Metric, Error>)
        ensures
            match r {
                Ok(c) => load_spec(CardType::Metric, id, text@) == Some(Some(c.record_view())),
                Err(e) => match load_spec(CardType::Metric, id, text@) {
                    None => e is CantReadFormatOfCard,
                    Some(o) => o is None && (e matches Error::CantReadProperty(k)
                        && record_failure(CardType::Metric, json_document(text@)->0) == Some(k@)),
                },
            },
    {
        match CardRecord::load(CardType::Metric, id, text) {
            Ok(rec) => {
                proof {
                    lemma_record_fits(CardType::Metric, id, json_document(text@)->0);
                }
                Ok(Self::from_record(rec))
            },
            Err(e) => Err(e),
        }
    }

    fn from_record(rec: CardRecord) -> (r: Metric)
        requires
            rec.typ == CardType::Metric,
            fits(rec@),
        ensures
            r.record_view() == rec@,
    {
        assert(values_view(rec.values@)[0] == rec.values@[0]@);
        assert(values_view(rec.values@)[1] == rec.values@[1]@);
        let timestamp = match &rec.values[0] { SqlValue::Text(s) => s.clone(), _ => String::new() };
        let amount = match &rec.values[1] { SqlValue::Text(s) => s.clone(), _ => String::new() };
        let r = Metric {
            id: rec.id,
            name: rec.title,
            created: rec.created,
            modified: rec.modified,
            source: rec.source,
            tags: rec.tags,
            links: rec.links,
            timestamp,
            amount,
        };
        assert(r.record_view().values =~= rec@.values);
        r
    }

    /// The card as a record of its type.
    pub fn to_record(&self) -> (r: CardRecord)
        ensures
            r@ == self.record_view(),
    {
        let mut values: Vec<SqlValue> = Vec::new();
        values.push(SqlValue::Text(self.timestamp.clone()));
        values.push(SqlValue::Text(self.amount.clone()));
        let r = CardRecord {
            typ: CardType::Metric,
            id: self.id,
            title: self.name.clone(),
            created: self.created.clone(),
            modified: self.modified.clone(),
            source: self.source.clone(),
            tags: self.tags.clone(),
            links: self.links.clone(),
            values,
        };
        assert(r@.values =~= self.record_view().values);
        r
    }
}

pub struct Word {
    pub id: u64,
    pub word: String,
    pub created: String,
    pub modified: String,
    pub source: Option<String>,
    pub tags: Vec<String>,
    pub links: Vec<String>,
    pub language: String,
    pub category: String,
    pub gender: Option<String>,
}

impl Word {
    /// The card as a record of its type.
    pub open spec fn record_view(&self) -> RecordView {
        RecordView {
            typ: CardType::Word,
            id: self.id,
            title: self.word@,
            created: self.created@,
            modified: self.modified@,
            source: opt_text_view(self.source),
            tags: texts_view(self.tags@),
            links: texts_view(self.links@),
            values: seq![SqlView::Text(self.language@), SqlView::Text(self.category@), opt_sql(opt_text_view(self.gender))],
        }
    }

    pub fn typ() -> (r: CardType)
        ensures
            r == CardType::Word,
    {
        CardType::Word
    }

    pub fn typ_str() -> (r: &'static str)
        ensures
            r@ == CardType::Word.tag(),
    {
        CardType::Word.typ_str()
    }

    pub fn sql_table() -> (r: &'static str)
        ensures
            r@ == CardType::Word.table_name(),
    {
        CardType::Word.sql_table()
    }

    pub fn sql_schema() -> (r: String)
        ensures
            r@ == CardType::Word.schema_sql(),
    {
        CardType::Word.sql_schema()
    }

    /// Loads the card `id` from the text of its file.
    pub fn load(id: u64, text: &str) -> (r: Result<Word, Error>)
        ensures
            match r {
                Ok(c) => load_spec(CardType::Word, id, text@) == Some(Some(c.record_view())),
                Err(e) => match load_spec(CardType::Word, id, text@) {
                    None => e is CantReadFormatOfCard,
                    Some(o) => o is None && (e matches Error::CantReadProperty(k)
                        && record_failure(CardType::Word, json_document(text@)->0) == Some(k@)),
                },
            },
    {
        match CardRecord::load(CardType::Word, id, text) {
            Ok(rec) => {
                proof {
                    lemma_record_fits(CardType::Word, id, json_document(text@)->0);
                }
                Ok(Self::from_record(rec))
            },
            Err(e) => Err(e),
        }
    }

    fn from_record(rec: CardRecord) -> (r: Word)
        requires
            rec.typ == CardType::Word,
            fits(rec@),
        ensures
            r.record_view() == rec@,
    {
        assert(values_view(rec.values@)[0] == rec.values@[0]@);
        assert(values_view(rec.values@)[1] == rec.values@[1]@);
        assert(values_view(rec.values@)[2] == rec.values@[2]@);
        let language = match &rec.values[0] { SqlValue::Text(s) => s.clone(), _ => String::new() };
        let category = match &rec.values[1] { SqlValue::Text(s) => s.clone(), _ => String::new() };
        let gender = match &rec.values[2] { SqlValue::Text(s) => Some(s.clone()), _ => None };
        let r = Word {
            id: rec.id,
            word: rec.title,
            created: rec.created,
            modified: rec.modified,
            source: rec.source,
            tags: rec.tags,
            links: rec.links,
            language,
            category,
            gender,
        };
        assert(r.record_view().values =~= rec@.values);
        r
    }

    /// The card as a record of its type.
    pub fn to_record(&self) -> (r: CardRecord)
        ensures
            r@ == self.record_view(),
    {
        let mut values: Vec<SqlValue> = Vec::new();
        values.push(SqlValue::Text(self.language.clone()));
        values.push(SqlValue::Text(self.category.clone()));
        values.push(match &self.gender { Some(s) => SqlValue::Text(s.clone()), None => SqlValue::Null });
        let r = CardRecord {
            typ: CardType::Word,
            id: self.id,
            title: self.word.clone(),
            created: self.created.clone(),
            modified: self.modified.clone(),
            source: self.source.clone(),
            tags: self.tags.clone(),
            links: self.links.clone(),
            values,
        };
        assert(r@.values =~= self.record_view().values);
        r
    }
}

pub struct Note {
    pub id: u64,
    pub title: String,
    pub created: String,
    pub modified: String,
    pub source: Option<String>,
    pub tags: Vec<String>,
    pub links: Vec<String>,
    pub text: String,
}

impl Note {
    /// The card as a record of its type.
    pub open spec fn record_view(&self) -> RecordView {
        RecordView {
            typ: CardType::Note,
            id: self.id,
            title: self.title@,
            created: self.created@,
            modified: self.modified@,
            source: opt_text_view(self.source),
            tags: texts_view(self.tags@),
            links: texts_view(self.links@),
            values: seq![SqlView::Text(self.text@)],
        }
    }

    pub fn typ() -> (r: CardType)
        ensures
            r == CardType::Note,
    {
        CardType::Note
    }

    pub fn typ_str() -> (r: &'static str)
        ensures
            r@ == CardType::Note.tag(),
    {
        CardType::Note.typ_str()
    }

    pub fn sql_table() -> (r: &'static str)
        ensures
            r@ == CardType::Note.table_name(),
    {
        CardType::Note.sql_table()
    }

    pub fn sql_schema() -> (r: String)
        ensures
            r@ == CardType::Note.schema_sql(),
    {
        CardType::Note.sql_schema()
    }

    /// Loads the card `id` from the text of its file.
    pub fn load(id: u64, text: &str) -> (r: Result<Note, Error>)
        ensures
            match r {
                Ok(c) => load_spec(CardType::Note, id, text@) == Some(Some(c.record_view())),
                Err(e) => match load_spec(CardType::Note, id, text@) {
                    None => e is CantReadFormatOfCard,
                    Some(o) => o is None && (e matches Error::CantReadProperty(k)
                        && record_failure(CardType::Note, json_document(text@)->0) == Some(k@)),
                },
            },
    {
        match CardRecord::load(CardType::Note, id, text) {
            Ok(rec) => {
                proof {
                    lemma_record_fits(CardType::Note, id, json_document(text@)->0);
                }
                Ok(Self::from_record(rec))
            },
            Err(e) => Err(e),
        }
    }

    fn from_record(rec: CardRecord) -> (r: Note)
        requires
            rec.typ == CardType::Note,
            fits(rec@),
        ensures
            r.record_view() == rec@,
    {
        assert(values_view(rec.values@)[0] == rec.values@[0]@);
        let text = match &rec.values[0] { SqlValue::Text(s) => s.clone(), _ => String::new() };
        let r = Note {
            id: rec.id,
            title: rec.title,
            created: rec.created,
            modified: rec.modified,
            source: rec.source,
            tags: rec.tags,
            links: rec.links,
            text,
        };
        assert(r.record_view().values =~= rec@.values);
        r
    }

    /// The card as a record of its type.
    pub fn to_record(&self) -> (r: CardRecord)
        ensures
            r@ == self.record_view(),
    {
        let mut values: Vec<SqlValue> = Vec::new();
        values.push(SqlValue::Text(self.text.clone()));
        let r = CardRecord {
            typ: CardType::Note,
            id: self.id,
            title: self.title.clone(),
            created: self.created.clone(),
            modified: self.modified.clone(),
            source: self.source.clone(),
            tags: self.tags.clone(),
            links: self.links.clone(),
            values,
        };
        assert(r@.values =~= self.record_view().values);
        r
    }
}

pub struct Thought {
    pub id: u64,
    pub description: String,
    pub created: String,
    pub modified: String,
    pub source: Option<String>,
    pub tags: Vec<String>,
    pub links: Vec<String>,
}

impl Thought {
    /// The card as a record of its type.
    pub open spec fn record_view(&self) -> RecordView {
        RecordView {
            typ: CardType::Thought,
            id: self.id,
            title: self.description@,
            created: self.created@,
            modified: self.modified@,
            source: opt_text_view(self.source),
            tags: texts_view(self.tags@),
            links: texts_view(self.links@),
            values: Seq::empty(),
        }
    }

    pub fn typ() -> (r: CardType)
        ensures
            r == CardType::Thought,
    {
        CardType::Thought
    }

    pub fn typ_str() -> (r: &'static str)
        ensures
            r@ == CardType::Thought.tag(),
    {
        CardType::Thought.typ_str()
    }

    pub fn sql_table() -> (r: &'static str)
        ensures
            r@ == CardType::Thought.table_name(),
    {
        CardType::Thought.sql_table()
    }

    pub fn sql_schema() -> (r: String)
        ensures
            r@ == CardType::Thought.schema_sql(),
    {
        CardType::Thought.sql_schema()
    }

    /// Loads the card `id` from the text of its file.
    pub fn load(id: u64, text: &str) -> (r: Result<Thought, Error>)
        ensures
            match r {
                Ok(c) => load_spec(CardType::Thought, id, text@) == Some(Some(c.record_view())),
                Err(e) => match load_spec(CardType::Thought, id, text@) {
                    None => e is CantReadFormatOfCard,
                    Some(o) => o is None && (e matches Error::CantReadProperty(k)
                        && record_failure(CardType::Thought, json_document(text@)->0) == Some(k@)),
                },
            },
    {
        match CardRecord::load(CardType::Thought, id, text) {
            Ok(rec) => {
                proof {
                    lemma_record_fits(CardType::Thought, id, json_document(text@)->0);
                }
                Ok(Self::from_record(rec))
            },
            Err(e) => Err(e),
        }
    }

    fn from_record(rec: CardRecord) -> (r: Thought)
        requires
            rec.typ == CardType::Thought,
            fits(rec@),
        ensures
            r.record_view() == rec@,
    {
        let r = Thought {
            id: rec.id,
            description: rec.title,
            created: rec.created,
            modified: rec.modified,
            source: rec.source,
            tags: rec.tags,
            links: rec.links,
        };
        assert(r.record_view().values =~= rec@.values);
        r
    }

    /// The card as a record of its type.
    pub fn to_record(&self) -> (r: CardRecord)
        ensures
            r@ == self.record_view(),
    {
        let mut values: Vec<SqlValue> = Vec::new();
        let r = CardRecord {
            typ: CardType::Thought,
            id: self.id,
            title: self.description.clone(),
            created: self.created.clone(),
            modified: self.modified.clone(),
            source: self.source.clone(),
            tags: self.tags.clone(),
            links: self.links.clone(),
            values,
        };
        assert(r@.values =~= self.record_view().values);
        r
    }
}

pub struct Achievement {
    pub id: u64,
    pub description: String,
    pub created: String,
    pub modified: String,
    pub source: Option<String>,
    pub tags: Vec<String>,
    pub links: Vec<String>,
    pub date: Option<String>,
}

impl Achievement {
    /// The card as a record of its type.
    pub open spec fn record_view(&self) -> RecordView {
        RecordView {
            typ: CardType::Achievement,
            id: self.id,
            title: self.description@,
            created: self.created@,
            modified: self.modified@,
            source: opt_text_view(self.source),
            tags: texts_view(self.tags@),
            links: texts_view(self.links@),
            values: seq![opt_sql(opt_text_view(self.date))],
        }
    }

    pub fn typ() -> (r: CardType)
        ensures
            r == CardType::Achievement,
    {
        CardType::Achievement
    }

    pub fn typ_str() -> (r: &'static str)
        ensures
            r@ == CardType::Achievement.tag(),
    {
        CardType::Achievement.typ_str()
    }

    pub fn sql_table() -> (r: &'static str)
        ensures
            r@ == CardType::Achievement.table_name(),
    {
        CardType::Achievement.sql_table()
    }

    pub fn sql_schema() -> (r: String)
        ensures
            r@ == CardType::Achievement.schema_sql(),
    {
        CardType::Achievement.sql_schema()
    }

    /// Loads the card `id` from the text of its file.
    pub fn load(id: u64, text: &str) -> (r: Result<Achievement, Error>)
        ensures
            match r {
                Ok(c) => load_spec(CardType::Achievement, id, text@) == Some(Some(c.record_view())),
                Err(e) => match load_spec(CardType::Achievement, id, text@) {
                    None => e is CantReadFormatOfCard,
                    Some(o) => o is None && (e matches Error::CantReadProperty(k)
                        && record_failure(CardType::Achievement, json_document(text@)->0) == Some(k@)),
                },
            },
    {
        match CardRecord::load(CardType::Achievement, id, text) {
            Ok(rec) => {
                proof {
                    lemma_record_fits(CardType::Achievement, id, json_document(text@)->0);
                }
                Ok(Self::from_record(rec))
            },
            Err(e) => Err(e),
        }
    }

    fn from_record(rec: CardRecord) -> (r: Achievement)
        requires
            rec.typ == CardType::Achievement,
            fits(rec@),
        ensures
            r.record_view() == rec@,
    {
        assert(values_view(rec.values@)[0] == rec.values@[0]@);
        let date = match &rec.values[0] { SqlValue::Text(s) => Some(s.clone()), _ => None };
        let r = Achievement {
            id: rec.id,
            description: rec.title,
            created: rec.created,
            modified: rec.modified,
            source: rec.source,
            tags: rec.tags,
            links: rec.links,
            date,
        };
        assert(r.record_view().values =~= rec@.values);
        r
    }

    /// The card as a record of its type.
    pub fn to_record(&self) -> (r: CardRecord)
        ensures
            r@ == self.record_view(),
    {
        let mut values: Vec<SqlValue> = Vec::new();
        values.push(match &self.date { Some(s) => SqlValue::Text(s.clone()), None => SqlValue::Null });
        let r = CardRecord {
            typ: CardType::Achievement,
            id: self.id,
            title: self.description.clone(),
            created: self.created.clone(),
            modified: self.modified.clone(),
            source: self.source.clone(),
            tags: self.tags.clone(),
            links: self.links.clone(),
            values,
        };
        assert(r@.values =~= self.record_view().values);
        r
    }
}

pub struct Notebook {
    pub id: u64,
    pub title: String,
    pub created: String,
    pub modified: String,
    pub source: Option<String>,
    pub tags: Vec<String>,
    pub links: Vec<String>,
    pub description: String,
    pub location: String,
    pub format: String,
    pub pages: Option<u32>,
    pub started: Option<String>,
    pub ended: Option<String>,
}

impl Notebook {
    /// The card as a record of its type.
    pub open spec fn record_view(&self) -> RecordView {
        RecordView {
            typ: CardType::Notebook,
            id: self.id,
            title: self.title@,
            created: self.created@,
            modified: self.modified@,
            source: opt_text_view(self.source),
            tags: texts_view(self.tags@),
            links: texts_view(self.links@),
            values: seq![SqlView::Text(self.description@), SqlView::Text(self.location@), SqlView::Text(self.format@), count_view(self.pages), opt_sql(opt_text_view(self.started)), opt_sql(opt_text_view(self.ended))],
        }
    }

    pub fn typ() -> (r: CardType)
        ensures
            r == CardType::Notebook,
    {
        CardType::Notebook
    }

    pub fn typ_str() -> (r: &'static str)
        ensures
            r@ == CardType::Notebook.tag(),
    {
        CardType::Notebook.typ_str()
    }

    pub fn sql_table() -> (r: &'static str)
        ensures
            r@ == CardType::Notebook.table_name(),
    {
        CardType::Notebook.sql_table()
    }

    pub fn sql_schema() -> (r: String)
        ensures
            r@ == CardType::Notebook.schema_sql(),
    {
        CardType::Notebook.sql_schema()
    }

    /// Loads the card `id` from the text of its file.
    pub fn load(id: u64, text: &str) -> (r: Result<Notebook, Error>)
        ensures
            match r {
                Ok(c) => load_spec(CardType::Notebook, id, text@) == Some(Some(c.record_view())),
                Err(e) => match load_spec(CardType::Notebook, id, text@) {
                    None => e is CantReadFormatOfCard,
                    Some(o) => o is None && (e matches Error::CantReadProperty(k)
                        && record_failure(CardType::Notebook, json_document(text@)->0) == Some(k@)),
                },
            },
    {
        match CardRecord::load(CardType::Notebook, id, text) {
            Ok(rec) => {
                proof {
                    lemma_record_fits(CardType::Notebook, id, json_document(text@)->0);
                }
                Ok(Self::from_record(rec))
            },
            Err(e) => Err(e),
        }
    }

    fn from_record(rec: CardRecord) -> (r: Notebook)
        requires
            rec.typ == CardType::Notebook,
            fits(rec@),
        ensures
            r.record_view() == rec@,
    {
        assert(values_view(rec.values@)[0] == rec.values@[0]@);
        assert(values_view(rec.values@)[1] == rec.values@[1]@);
        assert(values_view(rec.values@)[2] == rec.values@[2]@);
        assert(values_view(rec.values@)[3] == rec.values@[3]@);
        assert(values_view(rec.values@)[4] == rec.values@[4]@);
        assert(values_view(rec.values@)[5] == rec.values@[5]@);
        let description = match &rec.values[0] { SqlValue::Text(s) => s.clone(), _ => String::new() };
        let location = match &rec.values[1] { SqlValue::Text(s) => s.clone(), _ => String::new() };
        let format = match &rec.values[2] { SqlValue::Text(s) => s.clone(), _ => String::new() };
        let pages = match &rec.values[3] { SqlValue::Integer(n) => Some(*n as u32), SqlValue::Unsigned(n) => Some(*n as u32), _ => None };
        let started = match &rec.values[4] { SqlValue::Text(s) => Some(s.clone()), _ => None };
        let ended = match &rec.values[5] { SqlValue::Text(s) => Some(s.clone()), _ => None };
        let r = Notebook {
            id: rec.id,
            title: rec.title,
            created: rec.created,
            modified: rec.modified,
            source: rec.source,
            tags: rec.tags,
            links: rec.links,
            description,
            location,
            format,
            pages,
            started,
            ended,
        };
        assert(r.record_view().values =~= rec@.values);
        r
    }

    /// The card as a record of its type.
    pub fn to_record(&self) -> (r: CardRecord)
        ensures
            r@ == self.record_view(),
    {
        let mut values: Vec<SqlValue> = Vec::new();
        values.push(SqlValue::Text(self.description.clone()));
        values.push(SqlValue::Text(self.location.clone()));
        values.push(SqlValue::Text(self.format.clone()));
        values.push(match self.pages { Some(n) => SqlValue::Integer(n as i64), None => SqlValue::Null });
        values.push(match &self.started { Some(s) => SqlValue::Text(s.clone()), None => SqlValue::Null });
        values.push(match &self.ended { Some(s) => SqlValue::Text(s.clone()), None => SqlValue::Null });
        let r = CardRecord {
            typ: CardType::Notebook,
            id: self.id,
            title: self.title.clone(),
            created: self.created.clone(),
            modified: self.modified.clone(),
            source: self.source.clone(),
            tags: self.tags.clone(),
            links: self.links.clone(),
            values,
        };
        assert(r@.values =~= self.record_view().values);
        r
    }
}

} // verus!
