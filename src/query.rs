//! Requests on the index: listing the cards of a type that match filters,
//! counting them, and finding one by identifier or by a part of its title.
use vstd::prelude::*;
use crate::document::{opt_text_view, SqlValue, SqlView};
use crate::error::Error;
use crate::index::{code_view, id_view, IndexState, Statement, TaggingRow};
use crate::record::values_view;
use crate::registry::CardType;
use crate::text::{parse_u64, parse_u64_spec, same_text};
use crate::watch::{action_ops_spec, card_file_id_spec, law_create_event, law_remove_event, WatchAction};

verus! {

/// What `urlencoding::decode` makes of a text: `%XX` sequences become bytes
/// and the whole is read as UTF-8; nothing when that fails.
pub uninterp spec fn percent_decoded(s: Seq<char>) -> Option<Seq<char>>;

/// Relies on `urlencoding::decode` to undo percent-encoding; a text without
/// `%` comes back unchanged.
#[verifier::external_body]
fn decode_value(s: &str) -> (r: Option<String>)
    ensures
        opt_text_view(r) == percent_decoded(s@),
        (forall|i: int| 0 <= i < s@.len() ==> s@[i] != '%') ==> opt_text_view(r) == Some(s@),
{
    urlencoding::decode(s).ok().map(|d| d.into_owned())
}

/// One condition that a listed card must meet.
#[derive(Debug)]
pub enum Condition {
    /// A predicate given by the caller, used as it stands.
    Raw(String),
    /// The column named by the first text is the value that the second writes.
    Equals(String, String),
    /// The card is tagged with the tag of this row number.
    Tagged(u64),
}

pub ghost enum ConditionView {
    Raw(Seq<char>),
    Equals(Seq<char>, Seq<char>),
    Tagged(u64),
}

impl View for Condition {
    type V = ConditionView;

    open spec fn view(&self) -> ConditionView {
        match self {
            Condition::Raw(p) => ConditionView::Raw(p@),
            Condition::Equals(k, v) => ConditionView::Equals(k@, v@),
            Condition::Tagged(t) => ConditionView::Tagged(*t),
        }
    }
}

/// The cards of a type that meet every condition.
pub struct ListQuery {
    pub typ: CardType,
    pub conditions: Vec<Condition>,
}

pub ghost struct QueryView {
    pub typ: CardType,
    pub conditions: Seq<ConditionView>,
}

impl View for ListQuery {
    type V = QueryView;

    open spec fn view(&self) -> QueryView {
        QueryView { typ: self.typ, conditions: self.conditions@.map_values(|c: Condition| c@) }
    }
}

pub open spec fn filters_view(f: Seq<(String, String)>) -> Seq<(Seq<char>, Seq<char>)> {
    f.map_values(|p: (String, String)| (p.0@, p.1@))
}

/// The tags that the filters ask for, in order: the values of the `tag` keys.
pub open spec fn tag_names_spec(f: Seq<(Seq<char>, Seq<char>)>) -> Seq<Seq<char>>
    decreases f.len(),
{
    if f.len() == 0 {
        Seq::empty()
    } else if f.last().0 == "tag"@ {
        tag_names_spec(f.drop_last()).push(f.last().1)
    } else {
        tag_names_spec(f.drop_last())
    }
}

/// The conditions that the filters other than `tag` give: `_where` gives its
/// decoded value as a predicate, any other key an equality of that column with
/// the decoded value. `None` when a value cannot be decoded.
pub open spec fn filter_conditions_spec(f: Seq<(Seq<char>, Seq<char>)>) -> Option<Seq<ConditionView>>
    decreases f.len(),
{
    if f.len() == 0 {
        Some(Seq::empty())
    } else if f.last().0 == "tag"@ {
        filter_conditions_spec(f.drop_last())
    } else {
        match (filter_conditions_spec(f.drop_last()), percent_decoded(f.last().1)) {
            (Some(cs), Some(v)) => Some(cs.push(
                if f.last().0 == "_where"@ {
                    ConditionView::Raw(v)
                } else {
                    ConditionView::Equals(f.last().0, v)
                },
            )),
            _ => None,
        }
    }
}

/// One condition for each tag that was found.
pub open spec fn tag_conditions_spec(ids: Seq<Option<u64>>) -> Seq<ConditionView>
    decreases ids.len(),
{
    if ids.len() == 0 {
        Seq::empty()
    } else {
        match ids.last() {
            Some(t) => tag_conditions_spec(ids.drop_last()).push(ConditionView::Tagged(t)),
            None => tag_conditions_spec(ids.drop_last()),
        }
    }
}

/// The query that lists the cards of `typ` that the filters select, given the
/// row numbers found for the tags they ask for: `Some(None)` when tags were
/// asked for and none of them exists, so that nothing can match; `None` when a
/// filter value cannot be decoded.
pub open spec fn list_query_spec(typ: CardType, f: Seq<(Seq<char>, Seq<char>)>, tag_ids: Seq<Option<u64>>) -> Option<Option<QueryView>> {
    match filter_conditions_spec(f) {
        None => None,
        Some(cs) => if tag_names_spec(f).len() > 0 && tag_conditions_spec(tag_ids).len() == 0 {
            Some(None)
        } else {
            Some(Some(QueryView { typ, conditions: cs + tag_conditions_spec(tag_ids) }))
        },
    }
}

/// The tags that the filters ask for, to be looked up before the query is built.
pub fn tag_filters(filters: &Vec<(String, String)>) -> (r: Vec<String>)
    ensures
        r@.map_values(|s: String| s@) == tag_names_spec(filters_view(filters@)),
{
    let ghost fs = filters_view(filters@);
    let mut r: Vec<String> = Vec::new();
    let mut i: usize = 0;
    assert(fs.take(0) =~= Seq::<(Seq<char>, Seq<char>)>::empty());
    while i < filters.len()
        invariant
            i <= filters@.len(),
            fs == filters_view(filters@),
            r@.map_values(|s: String| s@) == tag_names_spec(fs.take(i as int)),
        decreases filters@.len() - i,
    {
        assert(fs.take(i + 1).drop_last() =~= fs.take(i as int));
        assert(fs.take(i + 1).last() == (filters@[i as int].0@, filters@[i as int].1@));
        if same_text(filters[i].0.as_str(), "tag") {
            let ghost before = r@;
            r.push(filters[i].1.clone());
            assert(r@.map_values(|s: String| s@) =~= before.map_values(|s: String| s@).push(filters@[i as int].1@));
        }
        i = i + 1;
    }
    assert(fs.take(i as int) =~= fs);
    r
}

/// The statement that finds the row number of a tag; names match as SQL's
/// `LIKE` matches them.
pub fn tag_lookup_statement(name: &str) -> (r: Statement)
    ensures
        r.sql@ == "SELECT rowid FROM Tags WHERE name LIKE ?1"@,
        values_view(r.params@) == seq![SqlView::Text(name@)],
{
    let mut params: Vec<SqlValue> = Vec::new();
    params.push(SqlValue::Text(String::from_str(name)));
    assert(values_view(params@) =~= seq![SqlView::Text(name@)]);
    Statement { sql: String::from_str("SELECT rowid FROM Tags WHERE name LIKE ?1"), params }
}

/// Builds the query that lists the cards of `typ` that the filters select,
/// given what the lookup of each tag they ask for found.
pub fn list_query(typ: CardType, filters: &Vec<(String, String)>, tag_ids: &Vec<Option<u64>>) -> (r: Result<Option<ListQuery>, Error>)
    ensures
        match r {
            Ok(Some(q)) => list_query_spec(typ, filters_view(filters@), tag_ids@) == Some(Some(q@)),
            Ok(None) => list_query_spec(typ, filters_view(filters@), tag_ids@) == Some(None::<QueryView>),
            Err(e) => list_query_spec(typ, filters_view(filters@), tag_ids@) is None && e is DatabaseError,
        },
{
    let ghost fs = filters_view(filters@);
    let mut conditions: Vec<Condition> = Vec::new();
    let mut asked: bool = false;
    let mut i: usize = 0;
    assert(fs.take(0) =~= Seq::<(Seq<char>, Seq<char>)>::empty());
    assert(conditions@.map_values(|c: Condition| c@) =~= Seq::<ConditionView>::empty());
    while i < filters.len()
        invariant
            i <= filters@.len(),
            fs == filters_view(filters@),
            filter_conditions_spec(fs.take(i as int)) == Some(conditions@.map_values(|c: Condition| c@)),
            asked == (tag_names_spec(fs.take(i as int)).len() > 0),
        decreases filters@.len() - i,
    {
        assert(fs.take(i + 1).drop_last() =~= fs.take(i as int));
        assert(fs.take(i + 1).last() == (filters@[i as int].0@, filters@[i as int].1@));
        let key = filters[i].0.as_str();
        if same_text(key, "tag") {
            asked = true;
        } else {
            match decode_value(filters[i].1.as_str()) {
                Some(v) => {
                    let ghost before = conditions@;
                    if same_text(key, "_where") {
                        conditions.push(Condition::Raw(v));
                    } else {
                        conditions.push(Condition::Equals(String::from_str(key), v));
                    }
                    assert(conditions@.map_values(|c: Condition| c@) =~= before.map_values(|c: Condition| c@).push(conditions@.last()@));
                },
                None => {
                    assert(filter_conditions_spec(fs.take(i + 1)) is None);
                    proof {
                        lemma_conditions_prefix(fs, i + 1);
                    }
                    return Err(Error::DatabaseError(String::from_str("cannot decode filter value")));
                },
            }
        }
        i = i + 1;
    }
    assert(fs.take(i as int) =~= fs);
    let ghost base = conditions@.map_values(|c: Condition| c@);
    let ghost ids = tag_ids@;
    let mut found: bool = false;
    let mut j: usize = 0;
    assert(ids.take(0) =~= Seq::<Option<u64>>::empty());
    assert(base =~= base + tag_conditions_spec(ids.take(0)));
    while j < tag_ids.len()
        invariant
            j <= tag_ids@.len(),
            ids == tag_ids@,
            conditions@.map_values(|c: Condition| c@) == base + tag_conditions_spec(ids.take(j as int)),
            found == (tag_conditions_spec(ids.take(j as int)).len() > 0),
        decreases tag_ids@.len() - j,
    {
        assert(ids.take(j + 1).drop_last() =~= ids.take(j as int));
        assert(ids.take(j + 1).last() == tag_ids@[j as int]);
        match tag_ids[j] {
            Some(t) => {
                let ghost before = conditions@;
                conditions.push(Condition::Tagged(t));
                assert(conditions@.map_values(|c: Condition| c@) =~= before.map_values(|c: Condition| c@).push(ConditionView::Tagged(t)));
                found = true;
            },
            None => {},
        }
        j = j + 1;
    }
    assert(ids.take(j as int) =~= ids);
    if asked && !found {
        return Ok(None);
    }
    Ok(Some(ListQuery { typ, conditions }))
}

proof fn lemma_conditions_prefix(f: Seq<(Seq<char>, Seq<char>)>, k: int)
    requires
        0 <= k <= f.len(),
        filter_conditions_spec(f.take(k)) is None,
    ensures
        filter_conditions_spec(f) is None,
    decreases f.len() - k,
{
    if k < f.len() {
        assert(f.take(k + 1).drop_last() =~= f.take(k));
        lemma_conditions_prefix(f, k + 1);
    } else {
        assert(f.take(k) =~= f);
    }
}

/// Whether a card is tagged with the tag of row number `tag`.
pub open spec fn tagged(s: IndexState, typ: CardType, id: u64, tag: int) -> bool {
    exists|k: int| 0 <= k < s.taggings.len() && s.taggings[k] == TaggingRow { tag, typ, id }
}

/// Whether the card `id` meets a condition. `holds` tells whether a predicate,
/// written in SQL, holds of the card's row.
pub open spec fn meets(
    s: IndexState,
    typ: CardType,
    id: u64,
    c: ConditionView,
    holds: spec_fn(Seq<char>, u64) -> bool,
) -> bool {
    match c {
        ConditionView::Raw(p) => holds(p, id),
        ConditionView::Equals(k, v) => holds(k + " IS "@ + v, id),
        ConditionView::Tagged(t) => tagged(s, typ, id, t as int),
    }
}

/// The cards that a query lists: those of its table that meet every condition.
pub open spec fn list_result(s: IndexState, q: Option<QueryView>, holds: spec_fn(Seq<char>, u64) -> bool) -> Set<u64> {
    match q {
        None => Set::empty(),
        Some(q) => Set::new(
            |id: u64|
                s.table(q.typ).contains_key(id) && forall|i: int|
                    0 <= i < q.conditions.len() ==> meets(s, q.typ, id, #[trigger] q.conditions[i], holds),
        ),
    }
}

proof fn lemma_tag_conditions(ids: Seq<Option<u64>>, t: u64)
    ensures
        tag_conditions_spec(ids).contains(ConditionView::Tagged(t)) <==> ids.contains(Some(t)),
        forall|i: int| 0 <= i < tag_conditions_spec(ids).len() ==> (#[trigger] tag_conditions_spec(ids)[i]) is Tagged,
    decreases ids.len(),
{
    if ids.len() > 0 {
        lemma_tag_conditions(ids.drop_last(), t);
        let prev = tag_conditions_spec(ids.drop_last());
        if ids.drop_last().contains(Some(t)) {
            let k = choose|k: int| 0 <= k < ids.drop_last().len() && ids.drop_last()[k] == Some(t);
            assert(ids[k] == Some(t));
        }
        if ids.contains(Some(t)) && ids.last() != Some(t) {
            let k = choose|k: int| 0 <= k < ids.len() && ids[k] == Some(t);
            assert(ids.drop_last()[k] == Some(t));
        }
        if let Some(u) = ids.last() {
            assert(prev.push(ConditionView::Tagged(u)).last() == ConditionView::Tagged(u));
            if prev.contains(ConditionView::Tagged(t)) {
                let k = choose|k: int| 0 <= k < prev.len() && prev[k] == ConditionView::Tagged(t);
                assert(prev.push(ConditionView::Tagged(u))[k] == ConditionView::Tagged(t));
            }
            if prev.push(ConditionView::Tagged(u)).contains(ConditionView::Tagged(t)) && u != t {
                let k = choose|k: int| 0 <= k < prev.len() + 1 && prev.push(ConditionView::Tagged(u))[k] == ConditionView::Tagged(t);
                assert(prev[k] == ConditionView::Tagged(t));
            }
            if ids.last() == Some(t) {
                assert(ids[ids.len() - 1] == Some(t));
            }
        }
    }
}

/// Tag filtering: every card that a list request yields is tagged with each tag
/// that the lookup found; and when tags were asked for and none of them exists,
/// the request yields nothing, without error.
pub proof fn law_tag_filter(
    s: IndexState,
    typ: CardType,
    f: Seq<(Seq<char>, Seq<char>)>,
    tag_ids: Seq<Option<u64>>,
    holds: spec_fn(Seq<char>, u64) -> bool,
)
    requires
        list_query_spec(typ, f, tag_ids) is Some,
    ensures
        forall|id: u64, t: u64|
            list_result(s, list_query_spec(typ, f, tag_ids)->0, holds).contains(id) && tag_ids.contains(Some(t))
                ==> tagged(s, typ, id, t as int),
        tag_names_spec(f).len() > 0 && (forall|i: int| 0 <= i < tag_ids.len() ==> tag_ids[i] is None)
            ==> list_result(s, list_query_spec(typ, f, tag_ids)->0, holds) == Set::<u64>::empty(),
{
    assert forall|id: u64, t: u64|
        list_result(s, list_query_spec(typ, f, tag_ids)->0, holds).contains(id) && tag_ids.contains(Some(t))
            implies tagged(s, typ, id, t as int) by {
        lemma_tag_conditions(tag_ids, t);
        let q = list_query_spec(typ, f, tag_ids)->0->0;
        let cs = filter_conditions_spec(f)->0;
        let tc = tag_conditions_spec(tag_ids);
        let k = choose|k: int| 0 <= k < tc.len() && tc[k] == ConditionView::Tagged(t);
        assert(q.conditions[cs.len() + k] == ConditionView::Tagged(t));
        assert(meets(s, typ, id, q.conditions[cs.len() + k], holds));
    }
    if tag_names_spec(f).len() > 0 && (forall|i: int| 0 <= i < tag_ids.len() ==> tag_ids[i] is None) {
        lemma_tag_conditions(tag_ids, 0);
        if tag_conditions_spec(tag_ids).len() > 0 {
            let c = tag_conditions_spec(tag_ids)[0];
            let t = c->Tagged_0;
            assert(tag_conditions_spec(tag_ids).contains(ConditionView::Tagged(t)));
            lemma_tag_conditions(tag_ids, t);
            let k = choose|k: int| 0 <= k < tag_ids.len() && tag_ids[k] == Some(t);
        }
        assert(list_result(s, list_query_spec(typ, f, tag_ids)->0, holds) =~= Set::<u64>::empty());
    }
}

/// With no filters, a list request yields every card of the type's table.
pub proof fn law_unfiltered_list(s: IndexState, typ: CardType, holds: spec_fn(Seq<char>, u64) -> bool)
    ensures
        list_query_spec(typ, Seq::empty(), Seq::empty()) matches Some(Some(q)) && q.conditions.len() == 0,
        list_result(s, list_query_spec(typ, Seq::empty(), Seq::empty())->0, holds) == s.table(typ).dom(),
{
    assert(list_result(s, list_query_spec(typ, Seq::empty(), Seq::empty())->0, holds) =~= s.table(typ).dom());
}

/// After a new card file `<id>.json` whose card can be loaded, the unfiltered
/// list of its type holds the card, and the count of its type grows by one
/// when the card was not indexed before.
pub proof fn law_create_then_list(
    s: IndexState,
    typ: CardType,
    name: Seq<char>,
    id: u64,
    text: Seq<char>,
    holds: spec_fn(Seq<char>, u64) -> bool,
)
    requires
        s.wf(),
        card_file_id_spec(name) == Some(id),
        crate::index::card_record(typ, id, text) is Some,
    ensures
        ({
            let s2 = s.apply_all(action_ops_spec(typ, WatchAction::Index(id), Some(text)));
            &&& list_result(s2, list_query_spec(typ, Seq::empty(), Seq::empty())->0, holds).contains(id)
            &&& s2.count(typ) == s.count(typ) + (if s.table(typ).contains_key(id) { 0nat } else { 1nat })
        }),
{
    law_create_event(s, typ, name, id, text);
    let s2 = s.apply_all(action_ops_spec(typ, WatchAction::Index(id), Some(text)));
    law_unfiltered_list(s2, typ, holds);
}

/// After a card file `<id>.json` is removed, the unfiltered list of its type no
/// longer holds the card.
pub proof fn law_remove_then_list(
    s: IndexState,
    typ: CardType,
    name: Seq<char>,
    id: u64,
    holds: spec_fn(Seq<char>, u64) -> bool,
)
    requires
        card_file_id_spec(name) == Some(id),
    ensures
        !list_result(
            s.apply_all(action_ops_spec(typ, WatchAction::Deindex(id), None)),
            list_query_spec(typ, Seq::empty(), Seq::empty())->0,
            holds,
        ).contains(id),
{
    law_remove_event(s, typ, name, id, None);
    let s2 = s.apply_all(action_ops_spec(typ, WatchAction::Deindex(id), None));
    law_unfiltered_list(s2, typ, holds);
}

/// The SQL of a condition, in parentheses so that the conditions of a query
/// are its conjuncts whatever a predicate or a value holds.
pub open spec fn condition_sql(c: ConditionView) -> Seq<char> {
    match c {
        ConditionView::Raw(p) => "("@ + p + ")"@,
        ConditionView::Equals(k, v) => "("@ + k + " IS "@ + v + ")"@,
        ConditionView::Tagged(_) => "(id IN (SELECT card_id FROM Taggings WHERE tag_id IS ? AND card_type IS ?))"@,
    }
}

/// The parameters of a condition.
pub open spec fn condition_params(typ: CardType, c: ConditionView) -> Seq<SqlView> {
    match c {
        ConditionView::Tagged(t) => seq![id_view(t), code_view(typ)],
        _ => Seq::empty(),
    }
}

/// `WHERE` and the conditions joined by `AND`, or nothing when there are none.
pub open spec fn where_clause(cs: Seq<ConditionView>) -> Seq<char>
    decreases cs.len(),
{
    if cs.len() == 0 {
        Seq::empty()
    } else if cs.len() == 1 {
        " WHERE "@ + condition_sql(cs[0])
    } else {
        where_clause(cs.drop_last()) + " AND "@ + condition_sql(cs.last())
    }
}

pub open spec fn where_params(typ: CardType, cs: Seq<ConditionView>) -> Seq<SqlView>
    decreases cs.len(),
{
    if cs.len() == 0 {
        Seq::empty()
    } else {
        where_params(typ, cs.drop_last()) + condition_params(typ, cs.last())
    }
}

impl ListQuery {
    /// The statement that lists the identifiers of the selected cards.
    pub fn statement(&self) -> (r: Statement)
        ensures
            r.sql@ == "SELECT id FROM "@ + self.typ.table_name() + where_clause(self@.conditions),
            values_view(r.params@) == where_params(self.typ, self@.conditions),
    {
        let ghost cs = self@.conditions;
        let mut sql = String::from_str("SELECT id FROM ").concat(self.typ.sql_table());
        let ghost head = sql@;
        let mut params: Vec<SqlValue> = Vec::new();
        let mut i: usize = 0;
        proof {
            reveal_strlit("");
        }
        assert(cs.take(0) =~= Seq::<ConditionView>::empty());
        assert(head =~= head + where_clause(cs.take(0)));
        assert(values_view(params@) =~= where_params(self.typ, cs.take(0)));
        while i < self.conditions.len()
            invariant
                i <= self.conditions@.len(),
                cs == self@.conditions,
                sql@ == head + where_clause(cs.take(i as int)),
                values_view(params@) == where_params(self.typ, cs.take(i as int)),
            decreases self.conditions@.len() - i,
        {
            assert(cs.take(i + 1).drop_last() =~= cs.take(i as int));
            assert(cs.take(i + 1).last() == self.conditions@[i as int]@);
            if i == 0 {
                sql = sql.concat(" WHERE ");
            } else {
                sql = sql.concat(" AND ");
            }
            let ghost before = params@;
            match &self.conditions[i] {
                Condition::Raw(p) => {
                    sql = sql.concat("(").concat(p.as_str()).concat(")");
                },
                Condition::Equals(k, v) => {
                    sql = sql.concat("(").concat(k.as_str()).concat(" IS ").concat(v.as_str()).concat(")");
                },
                Condition::Tagged(t) => {
                    sql = sql.concat("(id IN (SELECT card_id FROM Taggings WHERE tag_id IS ? AND card_type IS ?))");
                    params.push(SqlValue::Unsigned(*t));
                    params.push(SqlValue::Integer(self.typ.discriminant() as i64));
                },
            }
            assert(values_view(params@) =~= values_view(before) + condition_params(self.typ, cs[i as int]));
            assert(sql@ =~= head + where_clause(cs.take(i + 1)));
            i = i + 1;
        }
        assert(cs.take(i as int) =~= cs);
        Statement { sql, params }
    }
}

/// The statement that counts the cards of a type.
pub fn count_statement(typ: CardType) -> (r: Statement)
    ensures
        r.sql@ == "SELECT COUNT(*) FROM "@ + typ.table_name(),
        r.params@.len() == 0,
{
    Statement { sql: String::from_str("SELECT COUNT(*) FROM ").concat(typ.sql_table()), params: Vec::new() }
}

/// The statement that finds at most two cards of a type whose title contains
/// `name`, as SQL's `LIKE` matches it.
pub fn title_search_statement(typ: CardType, name: &str) -> (r: Statement)
    ensures
        r.sql@ == "SELECT id FROM "@ + typ.table_name() + " WHERE title LIKE ?1 LIMIT 2"@,
        values_view(r.params@) == seq![SqlView::Text("%"@ + name@ + "%"@)],
{
    let mut params: Vec<SqlValue> = Vec::new();
    params.push(SqlValue::Text(String::from_str("%").concat(name).concat("%")));
    assert(values_view(params@) =~= seq![SqlView::Text("%"@ + name@ + "%"@)]);
    Statement {
        sql: String::from_str("SELECT id FROM ").concat(typ.sql_table()).concat(" WHERE title LIKE ?1 LIMIT 2"),
        params,
    }
}

/// How a name or identifier is resolved: a decimal identifier stands for
/// itself; any other text is looked for in the titles.
pub enum Lookup {
    Id(u64),
    Title(Statement),
}

pub fn lookup(typ: CardType, name_or_id: &str) -> (r: Lookup)
    ensures
        match r {
            Lookup::Id(id) => parse_u64_spec(name_or_id@) == Some(id),
            Lookup::Title(st) => parse_u64_spec(name_or_id@) is None
                && st.sql@ == "SELECT id FROM "@ + typ.table_name() + " WHERE title LIKE ?1 LIMIT 2"@
                && values_view(st.params@) == seq![SqlView::Text("%"@ + name_or_id@ + "%"@)],
        },
{
    match parse_u64(name_or_id) {
        Some(id) => Lookup::Id(id),
        None => Lookup::Title(title_search_statement(typ, name_or_id)),
    }
}

/// Decides a title search from the cards it found, at most the first two: none
/// is not found, one is the card, two is ambiguous.
pub fn resolve_by_name(name: &str, found: &Vec<u64>) -> (r: Result<u64, Error>)
    ensures
        found@.len() == 0 ==> (r matches Err(Error::CantFindCard(n)) && n@ == name@),
        found@.len() == 1 ==> r == Ok::<u64, Error>(found@[0]),
        found@.len() >= 2 ==> (r matches Err(Error::AmbiguousName(n)) && n@ == name@),
{
    if found.len() == 0 {
        Err(Error::CantFindCard(String::from_str(name)))
    } else if found.len() == 1 {
        Ok(found[0])
    } else {
        Err(Error::AmbiguousName(String::from_str(name)))
    }
}

/// Resolves a name or identifier: a decimal identifier stands for itself,
/// without looking at the index; otherwise `found` holds the cards that the
/// title search found.
pub fn sql_find_id(name_or_id: &str, found: &Vec<u64>) -> (r: Result<u64, Error>)
    ensures
        parse_u64_spec(name_or_id@) matches Some(id) ==> r == Ok::<u64, Error>(id),
        parse_u64_spec(name_or_id@) is None ==> {
            &&& found@.len() == 0 ==> (r matches Err(Error::CantFindCard(n)) && n@ == name_or_id@)
            &&& found@.len() == 1 ==> r == Ok::<u64, Error>(found@[0])
            &&& found@.len() >= 2 ==> (r matches Err(Error::AmbiguousName(n)) && n@ == name_or_id@)
        },
{
    match parse_u64(name_or_id) {
        Some(id) => Ok(id),
        None => resolve_by_name(name_or_id, found),
    }
}

} // verus!
