//! The card types: their names, codes, index tables and properties.
use vstd::prelude::*;
use crate::text::{join, join_strings, same_text};

verus! {

/// The kinds of card. `Invalid` stands for a name that is none of them.
#[derive(Clone, Copy, PartialEq, Eq, Structural, Debug, Hash)]
pub enum CardType {
    Invalid,
    Project,
    Task,
    Status,
    Timelog,
    Book,
    Purchase,
    Metric,
    Word,
    Note,
    Thought,
    Achievement,
    Notebook,
}

/// How a variant-specific property is read from a card document.
#[derive(Clone, Copy, PartialEq, Eq, Structural, Debug)]
pub enum PropKind {
    /// Required text.
    Text,
    /// Required 32-bit signed integer.
    Integer,
    /// Required boolean, read with the same leniency as required text.
    Flag,
    /// Boolean that is false when absent or null.
    Switch,
    /// Optional text.
    OptText,
    /// Optional 32-bit unsigned integer.
    OptCount,
    /// Required decimal amount, kept as the text of the number.
    Amount,
}

/// A variant-specific property: its key in the document, its column in the
/// index table, and how it is read.
pub struct Property {
    pub key: &'static str,
    pub column: &'static str,
    /// The column's type and constraints in the table's definition.
    pub sql_type: &'static str,
    pub kind: PropKind,
}

pub ghost struct PropertySpec {
    pub key: Seq<char>,
    pub column: Seq<char>,
    pub sql_type: Seq<char>,
    pub kind: PropKind,
}

impl View for Property {
    type V = PropertySpec;

    open spec fn view(&self) -> PropertySpec {
        PropertySpec { key: self.key@, column: self.column@, sql_type: self.sql_type@, kind: self.kind }
    }
}

/// The definitions of the columns that every index table starts with.
pub open spec fn common_column_defs() -> Seq<Seq<char>> {
    seq!["id INTEGER PRIMARY KEY"@, "title VARCHAR NOT NULL"@, "created DATETIME NOT NULL"@, "modified DATETIME NOT NULL"@, "source VARCHAR"@]
}

/// The columns that every index table starts with, in the order rows are written.
pub open spec fn common_columns() -> Seq<Seq<char>> {
    seq!["id"@, "title"@, "created"@, "modified"@, "source"@]
}

impl CardType {
    /// The name of the type, used for its directory and in qualified identifiers.
    pub open spec fn tag(self) -> Seq<char> {
        match self {
            CardType::Invalid => "invalid"@,
            CardType::Project => "project"@,
            CardType::Task => "task"@,
            CardType::Status => "status"@,
            CardType::Timelog => "timelog"@,
            CardType::Book => "book"@,
            CardType::Purchase => "purchase"@,
            CardType::Metric => "metric"@,
            CardType::Word => "word"@,
            CardType::Note => "note"@,
            CardType::Thought => "thought"@,
            CardType::Achievement => "achievement"@,
            CardType::Notebook => "notebook"@,
        }
    }

    pub fn typ_str(self) -> (r: &'static str)
        ensures
            r@ == self.tag(),
    {
        match self {
            CardType::Invalid => "invalid",
            CardType::Project => "project",
            CardType::Task => "task",
            CardType::Status => "status",
            CardType::Timelog => "timelog",
            CardType::Book => "book",
            CardType::Purchase => "purchase",
            CardType::Metric => "metric",
            CardType::Word => "word",
            CardType::Note => "note",
            CardType::Thought => "thought",
            CardType::Achievement => "achievement",
            CardType::Notebook => "notebook",
        }
    }

    pub fn to_string(&self) -> (r: String)
        ensures
            r@ == self.tag(),
    {
        String::from_str(self.typ_str())
    }

    /// The type that a name stands for; `Invalid` for any other text.
    pub open spec fn from_tag_spec(s: Seq<char>) -> CardType {
        if s == "project"@ {
            CardType::Project
        } else if s == "task"@ {
            CardType::Task
        } else if s == "status"@ {
            CardType::Status
        } else if s == "timelog"@ {
            CardType::Timelog
        } else if s == "book"@ {
            CardType::Book
        } else if s == "purchase"@ {
            CardType::Purchase
        } else if s == "metric"@ {
            CardType::Metric
        } else if s == "word"@ {
            CardType::Word
        } else if s == "note"@ {
            CardType::Note
        } else if s == "thought"@ {
            CardType::Thought
        } else if s == "achievement"@ {
            CardType::Achievement
        } else if s == "notebook"@ {
            CardType::Notebook
        } else {
            CardType::Invalid
        }
    }

    pub fn from_tag(s: &str) -> (r: CardType)
        ensures
            r == Self::from_tag_spec(s@),
    {
        if same_text(s, "project") {
            CardType::Project
        } else if same_text(s, "task") {
            CardType::Task
        } else if same_text(s, "status") {
            CardType::Status
        } else if same_text(s, "timelog") {
            CardType::Timelog
        } else if same_text(s, "book") {
            CardType::Book
        } else if same_text(s, "purchase") {
            CardType::Purchase
        } else if same_text(s, "metric") {
            CardType::Metric
        } else if same_text(s, "word") {
            CardType::Word
        } else if same_text(s, "note") {
            CardType::Note
        } else if same_text(s, "thought") {
            CardType::Thought
        } else if same_text(s, "achievement") {
            CardType::Achievement
        } else if same_text(s, "notebook") {
            CardType::Notebook
        } else {
            CardType::Invalid
        }
    }

    /// The number that stands for the type in link and tagging rows.
    pub open spec fn code(self) -> u32 {
        match self {
            CardType::Invalid => 0,
            CardType::Project => 1,
            CardType::Task => 2,
            CardType::Status => 3,
            CardType::Timelog => 4,
            CardType::Book => 5,
            CardType::Purchase => 6,
            CardType::Metric => 7,
            CardType::Word => 8,
            CardType::Note => 9,
            CardType::Thought => 10,
            CardType::Achievement => 11,
            CardType::Notebook => 12,
        }
    }

    pub fn discriminant(self) -> (r: u32)
        ensures
            r == self.code(),
    {
        match self {
            CardType::Invalid => 0,
            CardType::Project => 1,
            CardType::Task => 2,
            CardType::Status => 3,
            CardType::Timelog => 4,
            CardType::Book => 5,
            CardType::Purchase => 6,
            CardType::Metric => 7,
            CardType::Word => 8,
            CardType::Note => 9,
            CardType::Thought => 10,
            CardType::Achievement => 11,
            CardType::Notebook => 12,
        }
    }

    /// A type of card that has files and an index table.
    pub open spec fn is_card(self) -> bool {
        self != CardType::Invalid
    }

    pub open spec fn table_name(self) -> Seq<char> {
        match self {
            CardType::Invalid => Seq::empty(),
            CardType::Project => "Projects"@,
            CardType::Task => "Tasks"@,
            CardType::Status => "Statuses"@,
            CardType::Timelog => "Timelogs"@,
            CardType::Book => "Books"@,
            CardType::Purchase => "Purchases"@,
            CardType::Metric => "Metrics"@,
            CardType::Word => "Words"@,
            CardType::Note => "Notes"@,
            CardType::Thought => "Thoughts"@,
            CardType::Achievement => "Achievements"@,
            CardType::Notebook => "Notebooks"@,
        }
    }

    /// The index table of the type.
    pub fn sql_table(self) -> (r: &'static str)
        ensures
            r@ == self.table_name(),
    {
        proof {
            reveal_strlit("");
        }
        match self {
            CardType::Invalid => "",
            CardType::Project => "Projects",
            CardType::Task => "Tasks",
            CardType::Status => "Statuses",
            CardType::Timelog => "Timelogs",
            CardType::Book => "Books",
            CardType::Purchase => "Purchases",
            CardType::Metric => "Metrics",
            CardType::Word => "Words",
            CardType::Note => "Notes",
            CardType::Thought => "Thoughts",
            CardType::Achievement => "Achievements",
            CardType::Notebook => "Notebooks",
        }
    }

    /// The definitions of the columns of the index table, in column order: the
    /// identifier is the primary key.
    pub open spec fn column_defs(self) -> Seq<Seq<char>> {
        common_column_defs() + self.properties_spec().map_values(|p: PropertySpec| p.column + " "@ + p.sql_type)
    }

    /// The statements that drop the index table of the type, create it with its
    /// columns, and index it by title.
    pub open spec fn schema_sql(self) -> Seq<char> {
        "DROP TABLE IF EXISTS "@ + self.table_name() + "; CREATE TABLE "@ + self.table_name() + " ("@
            + join(self.column_defs(), ", "@) + "); CREATE INDEX "@ + self.table_name() + "ByTitle ON "@
            + self.table_name() + " (title);"@
    }

    /// The statements that drop and create the index table of the type.
    pub fn sql_schema(self) -> (r: String)
        ensures
            r@ == self.schema_sql(),
    {
        let mut defs: Vec<String> = Vec::new();
        defs.push(String::from_str("id INTEGER PRIMARY KEY"));
        defs.push(String::from_str("title VARCHAR NOT NULL"));
        defs.push(String::from_str("created DATETIME NOT NULL"));
        defs.push(String::from_str("modified DATETIME NOT NULL"));
        defs.push(String::from_str("source VARCHAR"));
        let ghost head = defs@.map_values(|d: String| d@);
        assert(head =~= common_column_defs());
        let props = self.properties();
        let ghost ps = self.properties_spec();
        let ghost tail = ps.map_values(|p: PropertySpec| p.column + " "@ + p.sql_type);
        let mut i: usize = 0;
        while i < props.len()
            invariant
                i <= props@.len(),
                props@.map_values(|p: Property| p@) == ps,
                ps == self.properties_spec(),
                tail == ps.map_values(|p: PropertySpec| p.column + " "@ + p.sql_type),
                defs@.map_values(|d: String| d@) == head + tail.take(i as int),
            decreases props@.len() - i,
        {
            assert(ps[i as int] == props@[i as int]@);
            let d = String::from_str(props[i].column).concat(" ").concat(props[i].sql_type);
            let ghost before = defs@;
            defs.push(d);
            assert(defs@.map_values(|d: String| d@) =~= before.map_values(|d: String| d@).push(tail[i as int]));
            assert(defs@.map_values(|d: String| d@) =~= head + tail.take(i + 1));
            i = i + 1;
        }
        assert(tail.take(i as int) =~= tail);
        let table = self.sql_table();
        String::from_str("DROP TABLE IF EXISTS ").concat(table).concat("; CREATE TABLE ").concat(table).concat(" (").concat(
            join_strings(&defs, ", ").as_str(),
        ).concat("); CREATE INDEX ").concat(table).concat("ByTitle ON ").concat(table).concat(" (title);")
    }

    /// The variant-specific properties of the type, in column order.
    pub open spec fn properties_spec(self) -> Seq<PropertySpec> {
        match self {
            CardType::Invalid => Seq::empty(),
            CardType::Project => seq![
                PropertySpec { key: "Started"@, column: "started"@, sql_type: "DATETIME"@, kind: PropKind::OptText },
                PropertySpec { key: "Finished"@, column: "finished"@, sql_type: "DATETIME"@, kind: PropKind::OptText },
                PropertySpec { key: "Active"@, column: "active"@, sql_type: "BOOLEAN DEFAULT 1"@, kind: PropKind::Switch },
            ],
            CardType::Task => seq![
                PropertySpec { key: "Completed"@, column: "completed"@, sql_type: "DATETIME"@, kind: PropKind::OptText },
                PropertySpec { key: "Obsolete"@, column: "obsolete"@, sql_type: "BOOLEAN"@, kind: PropKind::Switch },
            ],
            CardType::Status => seq![
                PropertySpec { key: "Began"@, column: "began"@, sql_type: "DATETIME"@, kind: PropKind::OptText },
                PropertySpec { key: "Ended"@, column: "ended"@, sql_type: "DATETIME"@, kind: PropKind::OptText },
            ],
            CardType::Timelog => seq![
                PropertySpec { key: "Started"@, column: "started"@, sql_type: "DATETIME NOT NULL"@, kind: PropKind::Text },
                PropertySpec { key: "Ended"@, column: "ended"@, sql_type: "DATETIME"@, kind: PropKind::OptText },
                PropertySpec { key: "Category"@, column: "category"@, sql_type: "VARCHAR"@, kind: PropKind::OptText },
            ],
            CardType::Book => seq![
                PropertySpec { key: "Authors"@, column: "authors"@, sql_type: "VARCHAR NOT NULL"@, kind: PropKind::Text },
                PropertySpec { key: "Year"@, column: "year"@, sql_type: "INTEGER"@, kind: PropKind::Integer },
                PropertySpec { key: "Started"@, column: "started"@, sql_type: "DATETIME"@, kind: PropKind::OptText },
                PropertySpec { key: "Completed"@, column: "completed"@, sql_type: "DATETIME"@, kind: PropKind::OptText },
                PropertySpec { key: "Cover"@, column: "cover"@, sql_type: "VARCHAR"@, kind: PropKind::OptText },
                PropertySpec { key: "IdentCode"@, column: "ident"@, sql_type: "VARCHAR"@, kind: PropKind::OptText },
            ],
            CardType::Purchase => seq![
                PropertySpec { key: "Date"@, column: "date"@, sql_type: "DATETIME"@, kind: PropKind::Text },
                PropertySpec { key: "Price"@, column: "price"@, sql_type: "REAL"@, kind: PropKind::Integer },
                PropertySpec { key: "Currency"@, column: "currency"@, sql_type: "CHAR(3)"@, kind: PropKind::Text },
                PropertySpec { key: "Used"@, column: "used"@, sql_type: "BOOLEAN"@, kind: PropKind::Flag },
                PropertySpec { key: "Store"@, column: "store"@, sql_type: "VARCHAR"@, kind: PropKind::Text },
            ],
            CardType::Metric => seq![
                PropertySpec { key: "Timestamp"@, column: "timestamp"@, sql_type: "DATETIME"@, kind: PropKind::Text },
                PropertySpec { key: "Amount"@, column: "amount"@, sql_type: "REAL"@, kind: PropKind::Amount },
            ],
            CardType::Word => seq![
                PropertySpec { key: "Language"@, column: "language"@, sql_type: "CHAR(3)"@, kind: PropKind::Text },
                PropertySpec { key: "Category"@, column: "category"@, sql_type: "VARCHAR"@, kind: PropKind::Text },
                PropertySpec { key: "Gender"@, column: "gender"@, sql_type: "CHAR(1)"@, kind: PropKind::OptText },
            ],
            CardType::Note => seq![
                PropertySpec { key: "Text"@, column: "text"@, sql_type: "VARCHAR"@, kind: PropKind::Text },
            ],
            CardType::Thought => Seq::empty(),
            CardType::Achievement => seq![
                PropertySpec { key: "Date"@, column: "date"@, sql_type: "VARCHAR"@, kind: PropKind::OptText },
            ],
            CardType::Notebook => seq![
                PropertySpec { key: "Description"@, column: "description"@, sql_type: "VARCHAR"@, kind: PropKind::Text },
                PropertySpec { key: "Location"@, column: "location"@, sql_type: "VARCHAR"@, kind: PropKind::Text },
                PropertySpec { key: "Format"@, column: "format"@, sql_type: "VARCHAR"@, kind: PropKind::Text },
                PropertySpec { key: "Pages"@, column: "pages"@, sql_type: "INTEGER"@, kind: PropKind::OptCount },
                PropertySpec { key: "Started"@, column: "started"@, sql_type: "VARCHAR"@, kind: PropKind::OptText },
                PropertySpec { key: "Ended"@, column: "ended"@, sql_type: "VARCHAR"@, kind: PropKind::OptText },
            ],
        }
    }

    pub fn properties(self) -> (r: Vec<Property>)
        ensures
            r@.map_values(|p: Property| p@) == self.properties_spec(),
    {
        let mut r: Vec<Property> = Vec::new();
        match self {
            CardType::Invalid => {},
            CardType::Project => {
                r.push(Property { key: "Started", column: "started", sql_type: "DATETIME", kind: PropKind::OptText });
                r.push(Property { key: "Finished", column: "finished", sql_type: "DATETIME", kind: PropKind::OptText });
                r.push(Property { key: "Active", column: "active", sql_type: "BOOLEAN DEFAULT 1", kind: PropKind::Switch });
            },
            CardType::Task => {
                r.push(Property { key: "Completed", column: "completed", sql_type: "DATETIME", kind: PropKind::OptText });
                r.push(Property { key: "Obsolete", column: "obsolete", sql_type: "BOOLEAN", kind: PropKind::Switch });
            },
            CardType::Status => {
                r.push(Property { key: "Began", column: "began", sql_type: "DATETIME", kind: PropKind::OptText });
                r.push(Property { key: "Ended", column: "ended", sql_type: "DATETIME", kind: PropKind::OptText });
            },
            CardType::Timelog => {
                r.push(Property { key: "Started", column: "started", sql_type: "DATETIME NOT NULL", kind: PropKind::Text });
                r.push(Property { key: "Ended", column: "ended", sql_type: "DATETIME", kind: PropKind::OptText });
                r.push(Property { key: "Category", column: "category", sql_type: "VARCHAR", kind: PropKind::OptText });
            },
            CardType::Book => {
                r.push(Property { key: "Authors", column: "authors", sql_type: "VARCHAR NOT NULL", kind: PropKind::Text });
                r.push(Property { key: "Year", column: "year", sql_type: "INTEGER", kind: PropKind::Integer });
                r.push(Property { key: "Started", column: "started", sql_type: "DATETIME", kind: PropKind::OptText });
                r.push(Property { key: "Completed", column: "completed", sql_type: "DATETIME", kind: PropKind::OptText });
                r.push(Property { key: "Cover", column: "cover", sql_type: "VARCHAR", kind: PropKind::OptText });
                r.push(Property { key: "IdentCode", column: "ident", sql_type: "VARCHAR", kind: PropKind::OptText });
            },
            CardType::Purchase => {
                r.push(Property { key: "Date", column: "date", sql_type: "DATETIME", kind: PropKind::Text });
                r.push(Property { key: "Price", column: "price", sql_type: "REAL", kind: PropKind::Integer });
                r.push(Property { key: "Currency", column: "currency", sql_type: "CHAR(3)", kind: PropKind::Text });
                r.push(Property { key: "Used", column: "used", sql_type: "BOOLEAN", kind: PropKind::Flag });
                r.push(Property { key: "Store", column: "store", sql_type: "VARCHAR", kind: PropKind::Text });
            },
            CardType::Metric => {
                r.push(Property { key: "Timestamp", column: "timestamp", sql_type: "DATETIME", kind: PropKind::Text });
                r.push(Property { key: "Amount", column: "amount", sql_type: "REAL", kind: PropKind::Amount });
            },
            CardType::Word => {
                r.push(Property { key: "Language", column: "language", sql_type: "CHAR(3)", kind: PropKind::Text });
                r.push(Property { key: "Category", column: "category", sql_type: "VARCHAR", kind: PropKind::Text });
                r.push(Property { key: "Gender", column: "gender", sql_type: "CHAR(1)", kind: PropKind::OptText });
            },
            CardType::Note => {
                r.push(Property { key: "Text", column: "text", sql_type: "VARCHAR", kind: PropKind::Text });
            },
            CardType::Thought => {},
            CardType::Achievement => {
                r.push(Property { key: "Date", column: "date", sql_type: "VARCHAR", kind: PropKind::OptText });
            },
            CardType::Notebook => {
                r.push(Property { key: "Description", column: "description", sql_type: "VARCHAR", kind: PropKind::Text });
                r.push(Property { key: "Location", column: "location", sql_type: "VARCHAR", kind: PropKind::Text });
                r.push(Property { key: "Format", column: "format", sql_type: "VARCHAR", kind: PropKind::Text });
                r.push(Property { key: "Pages", column: "pages", sql_type: "INTEGER", kind: PropKind::OptCount });
                r.push(Property { key: "Started", column: "started", sql_type: "VARCHAR", kind: PropKind::OptText });
                r.push(Property { key: "Ended", column: "ended", sql_type: "VARCHAR", kind: PropKind::OptText });
            },
        }
        assert(r@.map_values(|p: Property| p@) =~= self.properties_spec());
        r
    }

    /// The columns of the index table, in the order rows are written.
    pub open spec fn columns(self) -> Seq<Seq<char>> {
        common_columns() + self.properties_spec().map_values(|p: PropertySpec| p.column)
    }

    /// Every type that has files, in the order the index is rebuilt.
    pub open spec fn all_spec() -> Seq<CardType> {
        seq![CardType::Project, CardType::Task, CardType::Status, CardType::Timelog, CardType::Purchase, CardType::Metric, CardType::Word, CardType::Note, CardType::Thought, CardType::Achievement, CardType::Notebook, CardType::Book]
    }

    pub fn all() -> (r: Vec<CardType>)
        ensures
            r@ == Self::all_spec(),
    {
        let mut r: Vec<CardType> = Vec::new();
        r.push(CardType::Project);
        r.push(CardType::Task);
        r.push(CardType::Status);
        r.push(CardType::Timelog);
        r.push(CardType::Purchase);
        r.push(CardType::Metric);
        r.push(CardType::Word);
        r.push(CardType::Note);
        r.push(CardType::Thought);
        r.push(CardType::Achievement);
        r.push(CardType::Notebook);
        r.push(CardType::Book);
        assert(r@ =~= Self::all_spec());
        r
    }
}

} // verus!
