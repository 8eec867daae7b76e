//! A loaded card: the properties every card has, and those of its type in the
//! order of its index table's columns.
use vstd::prelude::*;
use crate::document::{
    json_document, opt_sql, opt_text_view, optional_text, parse_document, property_spec,
    required_text, string_list_spec, Document, JsonView, SqlValue, SqlView,
};
use crate::error::Error;
use crate::registry::{CardType, PropKind, PropertySpec};

verus! {

pub struct CardRecord {
    pub typ: CardType,
    pub id: u64,
    pub title: String,
    pub created: String,
    pub modified: String,
    pub source: Option<String>,
    pub tags: Vec<String>,
    pub links: Vec<String>,
    /// The variant-specific properties, one per entry of `typ.properties()`.
    pub values: Vec<SqlValue>,
}

pub ghost struct RecordView {
    pub typ: CardType,
    pub id: u64,
    pub title: Seq<char>,
    pub created: Seq<char>,
    pub modified: Seq<char>,
    pub source: Option<Seq<char>>,
    pub tags: Seq<Seq<char>>,
    pub links: Seq<Seq<char>>,
    pub values: Seq<SqlView>,
}

pub open spec fn texts_view(v: Seq<String>) -> Seq<Seq<char>> {
    v.map_values(|s: String| s@)
}

pub open spec fn values_view(v: Seq<SqlValue>) -> Seq<SqlView> {
    v.map_values(|x: SqlValue| x@)
}

impl View for CardRecord {
    type V = RecordView;

    open spec fn view(&self) -> RecordView {
        RecordView {
            typ: self.typ,
            id: self.id,
            title: self.title@,
            created: self.created@,
            modified: self.modified@,
            source: opt_text_view(self.source),
            tags: texts_view(self.tags@),
            links: texts_view(self.links@),
            values: values_view(self.values@),
        }
    }
}

/// The values of the listed properties, or `None` when one of them cannot be read.
pub open spec fn properties_spec(doc: Seq<(Seq<char>, JsonView)>, props: Seq<PropertySpec>) -> Option<Seq<SqlView>>
    decreases props.len(),
{
    if props.len() == 0 {
        Some(Seq::empty())
    } else {
        match (properties_spec(doc, props.drop_last()), property_spec(doc, props.last())) {
            (Some(vs), Some(v)) => Some(vs.push(v)),
            _ => None,
        }
    }
}

/// The key of the first of the listed properties that cannot be read.
pub open spec fn first_failing_property(doc: Seq<(Seq<char>, JsonView)>, props: Seq<PropertySpec>) -> Option<Seq<char>>
    decreases props.len(),
{
    if props.len() == 0 {
        None
    } else {
        match first_failing_property(doc, props.drop_last()) {
            Some(k) => Some(k),
            None => if property_spec(doc, props.last()) is None {
                Some(props.last().key)
            } else {
                None
            },
        }
    }
}

/// The key of the first property of a card of type `typ` that cannot be read,
/// in the order the loader reads them: title, created, modified, tags, links,
/// then the properties of the type.
pub open spec fn record_failure(typ: CardType, doc: Seq<(Seq<char>, JsonView)>) -> Option<Seq<char>> {
    if required_text(doc, "Title"@) is None {
        Some("Title"@)
    } else if required_text(doc, "Created"@) is None {
        Some("Created"@)
    } else if required_text(doc, "Modified"@) is None {
        Some("Modified"@)
    } else if string_list_spec(doc, "Tags"@) is None {
        Some("Tags"@)
    } else if string_list_spec(doc, "Links"@) is None {
        Some("Links"@)
    } else {
        first_failing_property(doc, typ.properties_spec())
    }
}

proof fn lemma_first_failing(doc: Seq<(Seq<char>, JsonView)>, props: Seq<PropertySpec>)
    ensures
        properties_spec(doc, props) is None <==> first_failing_property(doc, props) is Some,
    decreases props.len(),
{
    if props.len() > 0 {
        lemma_first_failing(doc, props.drop_last());
    }
}

proof fn lemma_first_failing_prefix(doc: Seq<(Seq<char>, JsonView)>, ps: Seq<PropertySpec>, k: int)
    requires
        0 <= k <= ps.len(),
        first_failing_property(doc, ps.take(k)) is Some,
    ensures
        first_failing_property(doc, ps) == first_failing_property(doc, ps.take(k)),
    decreases ps.len() - k,
{
    if k < ps.len() {
        assert(ps.take(k + 1).drop_last() =~= ps.take(k));
        lemma_first_failing_prefix(doc, ps, k + 1);
    } else {
        assert(ps.take(k) =~= ps);
    }
}

/// The card of type `typ` with identifier `id` that a document describes, or
/// `None` when one of its properties cannot be read.
pub open spec fn record_spec(typ: CardType, id: u64, doc: Seq<(Seq<char>, JsonView)>) -> Option<RecordView> {
    match (
        required_text(doc, "Title"@),
        required_text(doc, "Created"@),
        required_text(doc, "Modified"@),
        string_list_spec(doc, "Tags"@),
        string_list_spec(doc, "Links"@),
        properties_spec(doc, typ.properties_spec()),
    ) {
        (Some(title), Some(created), Some(modified), Some(tags), Some(links), Some(values)) => Some(
            RecordView { typ, id, title, created, modified, source: optional_text(doc, "Source"@), tags, links, values },
        ),
        _ => None,
    }
}

/// The outcome of loading a card from the text of its file.
pub open spec fn load_spec(typ: CardType, id: u64, text: Seq<char>) -> Option<Option<RecordView>> {
    match json_document(text) {
        None => None,
        Some(doc) => Some(record_spec(typ, id, doc)),
    }
}

/// The row that a card gives its index table, in column order.
pub open spec fn row_spec(r: RecordView) -> Seq<SqlView> {
    seq![SqlView::Integer(r.id as int), SqlView::Text(r.title), SqlView::Text(r.created), SqlView::Text(r.modified), opt_sql(r.source)] + r.values
}

impl CardRecord {
    /// Reads the card of type `typ` with identifier `id` from a document.
    pub fn from_document(typ: CardType, id: u64, doc: &Document) -> (r: Result<CardRecord, Error>)
        ensures
            match r {
                Ok(c) => record_spec(typ, id, doc@) == Some(c@) && record_failure(typ, doc@) is None,
                Err(e) => record_spec(typ, id, doc@) is None
                    && (e matches Error::CantReadProperty(k) && record_failure(typ, doc@) == Some(k@)),
            },
    {
        let title = match doc.required_text("Title") { Ok(t) => t, Err(e) => return Err(e) };
        let created = match doc.required_text("Created") { Ok(t) => t, Err(e) => return Err(e) };
        let modified = match doc.required_text("Modified") { Ok(t) => t, Err(e) => return Err(e) };
        let source = doc.optional_text("Source");
        let tags = match doc.string_list("Tags") { Ok(t) => t, Err(e) => return Err(e) };
        let links = match doc.string_list("Links") { Ok(t) => t, Err(e) => return Err(e) };
        let props = typ.properties();
        let ghost ps = typ.properties_spec();
        let mut values: Vec<SqlValue> = Vec::new();
        let mut i: usize = 0;
        assert(ps.take(0) =~= Seq::<PropertySpec>::empty());
        while i < props.len()
            invariant
                i <= props@.len(),
                props@.map_values(|p: crate::registry::Property| p@) == ps,
                ps == typ.properties_spec(),
                record_failure(typ, doc@) == first_failing_property(doc@, ps),
                properties_spec(doc@, ps.take(i as int)) == Some(values_view(values@)),
            decreases props@.len() - i,
        {
            assert(ps.take(i + 1).drop_last() =~= ps.take(i as int));
            assert(ps.take(i + 1).last() == props@[i as int]@);
            match doc.property(&props[i]) {
                Ok(v) => {
                    values.push(v);
                    assert(values_view(values@) =~= values_view(values@).drop_last().push(values@.last()@));
                    assert(values_view(values@).drop_last() =~= values_view(values@.drop_last()));
                },
                Err(e) => {
                    assert(properties_spec(doc@, ps.take(i + 1)) is None);
                    proof {
                        lemma_properties_prefix(doc@, ps, i + 1);
                        lemma_first_failing(doc@, ps.take(i as int));
                        assert(first_failing_property(doc@, ps.take(i + 1)) == Some(props@[i as int].key@));
                        lemma_first_failing_prefix(doc@, ps, i + 1);
                    }
                    return Err(e);
                },
            }
            i = i + 1;
        }
        assert(ps.take(i as int) =~= ps);
        proof {
            lemma_first_failing(doc@, ps);
        }
        Ok(CardRecord { typ, id, title, created, modified, source, tags, links, values })
    }

    /// Loads the card of type `typ` with identifier `id` from the text of its file.
    pub fn load(typ: CardType, id: u64, text: &str) -> (r: Result<CardRecord, Error>)
        ensures
            match r {
                Ok(c) => load_spec(typ, id, text@) == Some(Some(c@)),
                Err(e) => match load_spec(typ, id, text@) {
                    None => e is CantReadFormatOfCard,
                    Some(o) => o is None && (e matches Error::CantReadProperty(k)
                        && record_failure(typ, json_document(text@)->0) == Some(k@)),
                },
            },
    {
        match parse_document(text) {
            None => Err(Error::CantReadFormatOfCard),
            Some(doc) => Self::from_document(typ, id, &doc),
        }
    }

    /// The row that the card gives its index table, in column order.
    pub fn row(&self) -> (r: Vec<SqlValue>)
        ensures
            values_view(r@) == row_spec(self@),
    {
        let mut r: Vec<SqlValue> = Vec::new();
        r.push(SqlValue::Unsigned(self.id));
        r.push(SqlValue::Text(self.title.clone()));
        r.push(SqlValue::Text(self.created.clone()));
        r.push(SqlValue::Text(self.modified.clone()));
        match &self.source {
            Some(s) => r.push(SqlValue::Text(s.clone())),
            None => r.push(SqlValue::Null),
        }
        let ghost head = values_view(r@);
        let mut i: usize = 0;
        while i < self.values.len()
            invariant
                i <= self.values@.len(),
                values_view(r@) == head + values_view(self.values@).take(i as int),
            decreases self.values@.len() - i,
        {
            let ghost before = r@;
            r.push(self.values[i].clone_value());
            assert(r@ == before.push(r@.last()));
            assert(values_view(r@) =~= values_view(before).push(self.values@[i as int]@));
            assert(values_view(self.values@).take(i + 1) =~= values_view(self.values@).take(i as int).push(self.values@[i as int]@));
            assert(values_view(r@) =~= head + values_view(self.values@).take(i + 1));
            i = i + 1;
        }
        assert(values_view(self.values@).take(i as int) =~= values_view(self.values@));
        assert(head =~= seq![SqlView::Integer(self.id as int), SqlView::Text(self.title@), SqlView::Text(self.created@), SqlView::Text(self.modified@), opt_sql(opt_text_view(self.source))]);
        r
    }
}

proof fn lemma_properties_prefix(doc: Seq<(Seq<char>, JsonView)>, ps: Seq<PropertySpec>, k: int)
    requires
        0 <= k <= ps.len(),
        properties_spec(doc, ps.take(k)) is None,
    ensures
        properties_spec(doc, ps) is None,
    decreases ps.len() - k,
{
    if k < ps.len() {
        assert(ps.take(k + 1).drop_last() =~= ps.take(k));
        lemma_properties_prefix(doc, ps, k + 1);
    } else {
        assert(ps.take(k) =~= ps);
    }
}

/// Whether a value has the shape that a property of the given kind gives.
pub open spec fn value_fits(v: SqlView, kind: PropKind) -> bool {
    match kind {
        PropKind::Text | PropKind::Amount => v is Text,
        PropKind::Integer => v matches SqlView::Integer(n) && i32::MIN <= n <= i32::MAX,
        PropKind::Flag | PropKind::Switch => v is Bool,
        PropKind::OptText => v is Text || v is Null,
        PropKind::OptCount => v is Null || (v matches SqlView::Integer(n) && 0 <= n <= u32::MAX),
    }
}

/// The values of a card have the shapes of its type's properties.
pub open spec fn fits(r: RecordView) -> bool {
    &&& r.values.len() == r.typ.properties_spec().len()
    &&& forall|i: int| 0 <= i < r.values.len() ==> value_fits(#[trigger] r.values[i], r.typ.properties_spec()[i].kind)
}

proof fn lemma_properties_fit(doc: Seq<(Seq<char>, JsonView)>, props: Seq<PropertySpec>)
    requires
        properties_spec(doc, props) is Some,
    ensures
        properties_spec(doc, props)->0.len() == props.len(),
        forall|i: int| 0 <= i < props.len() ==> value_fits(#[trigger] properties_spec(doc, props)->0[i], props[i].kind),
    decreases props.len(),
{
    if props.len() > 0 {
        lemma_properties_fit(doc, props.drop_last());
        let vs = properties_spec(doc, props)->0;
        assert forall|i: int| 0 <= i < props.len() implies value_fits(#[trigger] vs[i], props[i].kind) by {
            if i < props.len() - 1 {
                assert(vs[i] == properties_spec(doc, props.drop_last())->0[i]);
                assert(props[i] == props.drop_last()[i]);
            }
        }
    }
}

/// A card read from a document fits its type.
pub proof fn lemma_record_fits(typ: CardType, id: u64, doc: Seq<(Seq<char>, JsonView)>)
    requires
        record_spec(typ, id, doc) is Some,
    ensures
        fits(record_spec(typ, id, doc)->0),
{
    lemma_properties_fit(doc, typ.properties_spec());
}

impl SqlValue {
    pub fn clone_value(&self) -> (r: SqlValue)
        ensures
            r@ == self@,
    {
        match self {
            SqlValue::Null => SqlValue::Null,
            SqlValue::Integer(i) => SqlValue::Integer(*i),
            SqlValue::Unsigned(u) => SqlValue::Unsigned(*u),
            SqlValue::Text(s) => SqlValue::Text(s.clone()),
            SqlValue::Bool(b) => SqlValue::Bool(*b),
        }
    }
}

} // verus!
