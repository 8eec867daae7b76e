//! The index: the operations that keep it in step with the card files, the SQL
//! statements they stand for, and a model of the tables they act on.
use vstd::prelude::*;
use crate::document::{SqlValue, SqlView};
use crate::error::Error;
use crate::ident::{link_spec, parse_link};
use crate::document::json_document;
use crate::record::{load_spec, record_failure, row_spec, texts_view, values_view, CardRecord, RecordView};
use crate::registry::{common_columns, CardType};
use crate::text::join;

verus! {

/// One change to the index.
#[derive(Debug)]
pub enum IndexOp {
    /// Inserts or replaces the row of card `id` in the table of `typ`.
    PutRow { typ: CardType, id: u64, row: Vec<SqlValue> },
    /// Adds an edge from one card to another.
    PutLink { role: String, from_type: CardType, from_id: u64, to_type: CardType, to_id: u64 },
    /// Creates a tag unless it exists.
    PutTag { name: String },
    /// Tags a card with an existing tag; does nothing when the tag does not exist.
    PutTagging { tag: String, typ: CardType, id: u64 },
    /// Deletes the row of a card.
    DeleteRow { typ: CardType, id: u64 },
    /// Deletes the edges that start at a card.
    DeleteLinksFrom { typ: CardType, id: u64 },
    /// Deletes the edges that end at a card.
    DeleteLinksTo { typ: CardType, id: u64 },
    /// Deletes the taggings of a card.
    DeleteTaggings { typ: CardType, id: u64 },
    /// Drops and creates the tables shared by all card types, empty.
    ResetShared,
    /// Drops and creates the table of a card type, empty.
    ResetTable { typ: CardType },
}

pub ghost enum OpView {
    PutRow { typ: CardType, id: u64, row: Seq<SqlView> },
    PutLink { role: Seq<char>, from_type: CardType, from_id: u64, to_type: CardType, to_id: u64 },
    PutTag { name: Seq<char> },
    PutTagging { tag: Seq<char>, typ: CardType, id: u64 },
    DeleteRow { typ: CardType, id: u64 },
    DeleteLinksFrom { typ: CardType, id: u64 },
    DeleteLinksTo { typ: CardType, id: u64 },
    DeleteTaggings { typ: CardType, id: u64 },
    ResetShared,
    ResetTable { typ: CardType },
}

impl View for IndexOp {
    type V = OpView;

    open spec fn view(&self) -> OpView {
        match self {
            IndexOp::PutRow { typ, id, row } => OpView::PutRow { typ: *typ, id: *id, row: values_view(row@) },
            IndexOp::PutLink { role, from_type, from_id, to_type, to_id } => OpView::PutLink {
                role: role@,
                from_type: *from_type,
                from_id: *from_id,
                to_type: *to_type,
                to_id: *to_id,
            },
            IndexOp::PutTag { name } => OpView::PutTag { name: name@ },
            IndexOp::PutTagging { tag, typ, id } => OpView::PutTagging { tag: tag@, typ: *typ, id: *id },
            IndexOp::DeleteRow { typ, id } => OpView::DeleteRow { typ: *typ, id: *id },
            IndexOp::DeleteLinksFrom { typ, id } => OpView::DeleteLinksFrom { typ: *typ, id: *id },
            IndexOp::DeleteLinksTo { typ, id } => OpView::DeleteLinksTo { typ: *typ, id: *id },
            IndexOp::DeleteTaggings { typ, id } => OpView::DeleteTaggings { typ: *typ, id: *id },
            IndexOp::ResetShared => OpView::ResetShared,
            IndexOp::ResetTable { typ } => OpView::ResetTable { typ: *typ },
        }
    }
}

pub open spec fn ops_view(ops: Seq<IndexOp>) -> Seq<OpView> {
    ops.map_values(|o: IndexOp| o@)
}

pub ghost struct LinkRow {
    pub role: Seq<char>,
    pub from_type: CardType,
    pub from_id: u64,
    pub to_type: CardType,
    pub to_id: u64,
}

pub ghost struct TaggingRow {
    /// The row number of the tag in the tag table, counted from one.
    pub tag: int,
    pub typ: CardType,
    pub id: u64,
}

/// The contents of the index: one table of rows per card type, keyed by card
/// identifier; the edges; the tags in order of creation; the taggings.
pub ghost struct IndexState {
    pub tables: Map<CardType, Map<u64, Seq<SqlView>>>,
    pub links: Seq<LinkRow>,
    pub tags: Seq<Seq<char>>,
    pub taggings: Seq<TaggingRow>,
}

/// The position of the first `x` in `s`.
pub open spec fn position(s: Seq<Seq<char>>, x: Seq<char>) -> int
    decreases s.len(),
{
    if s.len() == 0 || s[0] == x {
        0
    } else {
        1 + position(s.skip(1), x)
    }
}

impl IndexState {
    pub open spec fn empty() -> IndexState {
        IndexState { tables: Map::empty(), links: Seq::empty(), tags: Seq::empty(), taggings: Seq::empty() }
    }

    /// The rows of the table of `typ`.
    pub open spec fn table(self, typ: CardType) -> Map<u64, Seq<SqlView>> {
        if self.tables.contains_key(typ) {
            self.tables[typ]
        } else {
            Map::empty()
        }
    }

    /// How many rows the table of `typ` holds.
    pub open spec fn count(self, typ: CardType) -> nat {
        self.table(typ).dom().len()
    }

    /// The row number of a tag, counted from one.
    pub open spec fn tag_id(self, name: Seq<char>) -> int {
        position(self.tags, name) + 1
    }

    /// Only card types have tables.
    pub open spec fn only_cards(self) -> bool {
        forall|t: CardType| #[trigger] self.tables.contains_key(t) ==> t.is_card()
    }

    /// The index right after its schema is created: every table empty.
    pub open spec fn fresh() -> IndexState {
        IndexState {
            tables: Map::new(|t: CardType| t.is_card(), |t: CardType| Map::<u64, Seq<SqlView>>::empty()),
            links: Seq::empty(),
            tags: Seq::empty(),
            taggings: Seq::empty(),
        }
    }

    /// Two indexes hold the same rows in the table of every card type, and the
    /// same edges, tags and taggings.
    pub open spec fn same_index(self, o: IndexState) -> bool {
        &&& forall|t: CardType| t.is_card() ==> #[trigger] self.table(t) == o.table(t)
        &&& self.links == o.links
        &&& self.tags == o.tags
        &&& self.taggings == o.taggings
    }

    /// Every table is finite.
    pub open spec fn wf(self) -> bool {
        forall|t: CardType| #[trigger] self.table(t).dom().finite()
    }

    /// What the index holds after one operation.
    pub open spec fn apply(self, op: OpView) -> IndexState {
        match op {
            OpView::PutRow { typ, id, row } => IndexState {
                tables: self.tables.insert(typ, self.table(typ).insert(id, row)),
                ..self
            },
            OpView::PutLink { role, from_type, from_id, to_type, to_id } => IndexState {
                links: self.links.push(LinkRow { role, from_type, from_id, to_type, to_id }),
                ..self
            },
            OpView::PutTag { name } => if self.tags.contains(name) {
                self
            } else {
                IndexState { tags: self.tags.push(name), ..self }
            },
            OpView::PutTagging { tag, typ, id } => if self.tags.contains(tag) {
                IndexState { taggings: self.taggings.push(TaggingRow { tag: self.tag_id(tag), typ, id }), ..self }
            } else {
                self
            },
            OpView::DeleteRow { typ, id } => IndexState {
                tables: self.tables.insert(typ, self.table(typ).remove(id)),
                ..self
            },
            OpView::DeleteLinksFrom { typ, id } => IndexState {
                links: self.links.filter(|l: LinkRow| !(l.from_type == typ && l.from_id == id)),
                ..self
            },
            OpView::DeleteLinksTo { typ, id } => IndexState {
                links: self.links.filter(|l: LinkRow| !(l.to_type == typ && l.to_id == id)),
                ..self
            },
            OpView::DeleteTaggings { typ, id } => IndexState {
                taggings: self.taggings.filter(|g: TaggingRow| !(g.typ == typ && g.id == id)),
                ..self
            },
            OpView::ResetShared => IndexState {
                links: Seq::empty(),
                tags: Seq::empty(),
                taggings: Seq::empty(),
                ..self
            },
            OpView::ResetTable { typ } => IndexState {
                tables: self.tables.insert(typ, Map::empty()),
                ..self
            },
        }
    }

    /// What the index holds after the operations, in order.
    pub open spec fn apply_all(self, ops: Seq<OpView>) -> IndexState
        decreases ops.len(),
    {
        if ops.len() == 0 {
            self
        } else {
            self.apply_all(ops.drop_last()).apply(ops.last())
        }
    }
}

pub proof fn lemma_apply_all_append(s: IndexState, a: Seq<OpView>, b: Seq<OpView>)
    ensures
        s.apply_all(a + b) == s.apply_all(a).apply_all(b),
    decreases b.len(),
{
    if b.len() == 0 {
        assert(a + b =~= a);
    } else {
        assert((a + b).drop_last() =~= a + b.drop_last());
        lemma_apply_all_append(s, a, b.drop_last());
    }
}

/// Whether an operation leaves the tables of rows alone.
pub open spec fn keeps_rows(op: OpView) -> bool {
    !(op is PutRow) && !(op is DeleteRow) && !(op is ResetTable)
}

/// Whether an operation touches tables of card types only.
pub open spec fn card_op(op: OpView) -> bool {
    match op {
        OpView::PutRow { typ, .. } => typ.is_card(),
        OpView::DeleteRow { typ, .. } => typ.is_card(),
        OpView::ResetTable { typ } => typ.is_card(),
        _ => true,
    }
}

pub open spec fn all_card_ops(ops: Seq<OpView>) -> bool {
    forall|i: int| 0 <= i < ops.len() ==> card_op(#[trigger] ops[i])
}

pub proof fn lemma_all_card_ops_concat(a: Seq<OpView>, b: Seq<OpView>)
    requires
        all_card_ops(a),
        all_card_ops(b),
    ensures
        all_card_ops(a + b),
{
    assert forall|i: int| 0 <= i < (a + b).len() implies card_op(#[trigger] (a + b)[i]) by {
        if i < a.len() {
            assert((a + b)[i] == a[i]);
        } else {
            assert((a + b)[i] == b[i - a.len()]);
        }
    }
}

pub proof fn lemma_only_cards_kept(s: IndexState, ops: Seq<OpView>)
    requires
        s.only_cards(),
        all_card_ops(ops),
    ensures
        s.apply_all(ops).only_cards(),
    decreases ops.len(),
{
    if ops.len() > 0 {
        assert(all_card_ops(ops.drop_last())) by {
            assert forall|i: int| 0 <= i < ops.drop_last().len() implies card_op(#[trigger] ops.drop_last()[i]) by {
                assert(ops.drop_last()[i] == ops[i]);
            }
        }
        lemma_only_cards_kept(s, ops.drop_last());
        assert(card_op(ops[ops.len() - 1]));
    }
}

/// The operations that create the schema of the index: the shared tables, then
/// the table of each card type.
pub open spec fn schema_ops_spec() -> Seq<OpView> {
    seq![OpView::ResetShared] + CardType::all_spec().map_values(|t: CardType| OpView::ResetTable { typ: t })
}

pub fn schema_ops() -> (r: Vec<IndexOp>)
    ensures
        ops_view(r@) == schema_ops_spec(),
{
    let mut r: Vec<IndexOp> = Vec::new();
    r.push(IndexOp::ResetShared);
    let types = CardType::all();
    let mut i: usize = 0;
    while i < types.len()
        invariant
            i <= types@.len(),
            types@ == CardType::all_spec(),
            ops_view(r@) == seq![OpView::ResetShared] + types@.take(i as int).map_values(|t: CardType| OpView::ResetTable { typ: t }),
        decreases types@.len() - i,
    {
        let ghost before = r@;
        r.push(IndexOp::ResetTable { typ: types[i] });
        assert(ops_view(r@) =~= ops_view(before).push(OpView::ResetTable { typ: types@[i as int] }));
        assert(types@.take(i + 1).map_values(|t: CardType| OpView::ResetTable { typ: t })
            =~= types@.take(i as int).map_values(|t: CardType| OpView::ResetTable { typ: t }).push(OpView::ResetTable { typ: types@[i as int] }));
        assert(ops_view(r@) =~= seq![OpView::ResetShared] + types@.take(i + 1).map_values(|t: CardType| OpView::ResetTable { typ: t }));
        i = i + 1;
    }
    assert(types@.take(i as int) =~= types@);
    r
}

proof fn lemma_resets(s: IndexState, ts: Seq<CardType>)
    ensures
        ({
            let s2 = s.apply_all(ts.map_values(|t: CardType| OpView::ResetTable { typ: t }));
            &&& s2.links == s.links && s2.tags == s.tags && s2.taggings == s.taggings
            &&& forall|t: CardType| #[trigger] s2.tables.contains_key(t) <==> s.tables.contains_key(t) || ts.contains(t)
            &&& forall|t: CardType| ts.contains(t) ==> #[trigger] s2.tables[t] == Map::<u64, Seq<SqlView>>::empty()
            &&& forall|t: CardType| !ts.contains(t) ==> #[trigger] s2.tables[t] == s.tables[t]
        }),
    decreases ts.len(),
{
    if ts.len() > 0 {
        let ops = ts.map_values(|t: CardType| OpView::ResetTable { typ: t });
        assert(ops.drop_last() =~= ts.drop_last().map_values(|t: CardType| OpView::ResetTable { typ: t }));
        lemma_resets(s, ts.drop_last());
        assert forall|t: CardType| ts.contains(t) <==> ts.drop_last().contains(t) || t == ts.last() by {
            if ts.contains(t) && t != ts.last() {
                let k = choose|k: int| 0 <= k < ts.len() && ts[k] == t;
                assert(ts.drop_last()[k] == t);
            }
            if ts.drop_last().contains(t) {
                let k = choose|k: int| 0 <= k < ts.drop_last().len() && ts.drop_last()[k] == t;
                assert(ts[k] == t);
            }
            if t == ts.last() {
                assert(ts[ts.len() - 1] == t);
            }
        }
    }
}

proof fn lemma_all_cards(t: CardType)
    ensures
        CardType::all_spec().contains(t) <==> t.is_card(),
{
    let a = CardType::all_spec();
    if t.is_card() {
        let k: int = match t {
            CardType::Project => 0,
            CardType::Task => 1,
            CardType::Status => 2,
            CardType::Timelog => 3,
            CardType::Purchase => 4,
            CardType::Metric => 5,
            CardType::Word => 6,
            CardType::Note => 7,
            CardType::Thought => 8,
            CardType::Achievement => 9,
            CardType::Notebook => 10,
            CardType::Book => 11,
            CardType::Invalid => 0,
        };
        assert(a[k] == t);
    } else {
        assert forall|k: int| 0 <= k < a.len() implies a[k] != t by {}
    }
}

proof fn lemma_same_apply(a: IndexState, b: IndexState, op: OpView)
    requires
        a.same_index(b),
    ensures
        a.apply(op).same_index(b.apply(op)),
{
    assert forall|t: CardType| t.is_card() implies #[trigger] a.apply(op).table(t) == b.apply(op).table(t) by {
        assert(a.table(t) == b.table(t));
    }
}

/// Indexes that hold the same rows still do after the same operations.
pub proof fn lemma_same_apply_all(a: IndexState, b: IndexState, ops: Seq<OpView>)
    requires
        a.same_index(b),
    ensures
        a.apply_all(ops).same_index(b.apply_all(ops)),
    decreases ops.len(),
{
    if ops.len() > 0 {
        lemma_same_apply_all(a, b, ops.drop_last());
        lemma_same_apply(a.apply_all(ops.drop_last()), b.apply_all(ops.drop_last()), ops.last());
    }
}

/// Creating the schema leaves the table of every card type empty, and no edge,
/// tag or tagging, whatever the index held.
pub proof fn lemma_schema_empties(s: IndexState)
    ensures
        s.apply_all(schema_ops_spec()).same_index(IndexState::fresh()),
{
    let resets = CardType::all_spec().map_values(|t: CardType| OpView::ResetTable { typ: t });
    let one = seq![OpView::ResetShared];
    lemma_apply_all_append(s, one, resets);
    assert(one.drop_last() =~= Seq::<OpView>::empty());
    assert(s.apply_all(one.drop_last()) == s);
    let s1 = s.apply_all(one);
    assert(s1 == s.apply(OpView::ResetShared));
    lemma_resets(s1, CardType::all_spec());
    let s2 = s1.apply_all(resets);
    assert forall|t: CardType| t.is_card() implies #[trigger] s2.table(t) == IndexState::fresh().table(t) by {
        lemma_all_cards(t);
    }
}

/// Creating the schema empties every table, whatever the index held, as long
/// as only card types had tables.
pub proof fn lemma_schema_resets(s: IndexState)
    requires
        s.only_cards(),
    ensures
        s.apply_all(schema_ops_spec()) == IndexState::fresh(),
{
    let resets = CardType::all_spec().map_values(|t: CardType| OpView::ResetTable { typ: t });
    let one = seq![OpView::ResetShared];
    lemma_apply_all_append(s, one, resets);
    assert(one.drop_last() =~= Seq::<OpView>::empty());
    assert(s.apply_all(one.drop_last()) == s);
    let s1 = s.apply_all(one);
    assert(s1 == s.apply(OpView::ResetShared));
    lemma_resets(s1, CardType::all_spec());
    let s2 = s1.apply_all(resets);
    assert forall|t: CardType| #[trigger] s2.tables.contains_key(t) <==> t.is_card() by {
        lemma_all_cards(t);
    }
    assert forall|t: CardType| s2.tables.contains_key(t) implies #[trigger] s2.tables[t] == Map::<u64, Seq<SqlView>>::empty() by {
        lemma_all_cards(t);
    }
    assert(s2.tables =~= IndexState::fresh().tables);
}

pub proof fn lemma_keeps_rows(s: IndexState, ops: Seq<OpView>)
    requires
        forall|i: int| 0 <= i < ops.len() ==> keeps_rows(#[trigger] ops[i]),
    ensures
        s.apply_all(ops).tables == s.tables,
    decreases ops.len(),
{
    if ops.len() > 0 {
        lemma_keeps_rows(s, ops.drop_last());
    }
}

/// The operations that write the edges of a card, one per link, in order, up
/// to the first malformed link; and whether every link was well formed.
pub open spec fn link_ops_spec(typ: CardType, id: u64, links: Seq<Seq<char>>) -> (Seq<OpView>, bool)
    decreases links.len(),
{
    if links.len() == 0 {
        (Seq::empty(), true)
    } else {
        let (ops, ok) = link_ops_spec(typ, id, links.drop_last());
        if !ok {
            (ops, false)
        } else {
            match link_spec(links.last()) {
                Some((role, to_type, to_id)) => (
                    ops.push(OpView::PutLink { role, from_type: typ, from_id: id, to_type, to_id }),
                    true,
                ),
                None => (ops, false),
            }
        }
    }
}

/// Every link of the card is well formed.
pub open spec fn links_ok(r: RecordView) -> bool {
    link_ops_spec(r.typ, r.id, r.links).1
}

/// The operations that write the tags of a card: each tag is created if need
/// be, then the card is tagged with it.
pub open spec fn tag_ops_spec(typ: CardType, id: u64, tags: Seq<Seq<char>>) -> Seq<OpView>
    decreases tags.len(),
{
    if tags.len() == 0 {
        Seq::empty()
    } else {
        tag_ops_spec(typ, id, tags.drop_last()) + seq![
            OpView::PutTag { name: tags.last() },
            OpView::PutTagging { tag: tags.last(), typ, id },
        ]
    }
}

/// The operations that index a card: its row; its edges, up to the first
/// malformed link; and its tags, when every link is well formed.
pub open spec fn record_ops_spec(r: RecordView) -> Seq<OpView> {
    seq![OpView::PutRow { typ: r.typ, id: r.id, row: row_spec(r) }] + link_ops_spec(r.typ, r.id, r.links).0 + (
    if links_ok(r) {
        tag_ops_spec(r.typ, r.id, r.tags)
    } else {
        Seq::empty()
    })
}

/// The operations that take a card out of the index: its row, the edges that
/// start at it, and, when `incoming` holds, those that end at it, and its taggings.
pub open spec fn remove_ops_spec(typ: CardType, id: u64, incoming: bool) -> Seq<OpView> {
    if incoming {
        seq![
            OpView::DeleteRow { typ, id },
            OpView::DeleteLinksFrom { typ, id },
            OpView::DeleteLinksTo { typ, id },
            OpView::DeleteTaggings { typ, id },
        ]
    } else {
        seq![OpView::DeleteRow { typ, id }, OpView::DeleteLinksFrom { typ, id }, OpView::DeleteTaggings { typ, id }]
    }
}

/// The card that a file's text describes, when it can be loaded.
pub open spec fn card_record(typ: CardType, id: u64, text: Seq<char>) -> Option<RecordView> {
    match load_spec(typ, id, text) {
        Some(Some(r)) => Some(r),
        _ => None,
    }
}

/// The operations that index the card that a file's text describes; none when
/// it cannot be loaded.
pub open spec fn card_ops_spec(typ: CardType, id: u64, text: Seq<char>) -> Seq<OpView> {
    match card_record(typ, id, text) {
        Some(r) => record_ops_spec(r),
        None => Seq::empty(),
    }
}

/// Why a card file is not fully indexed.
pub ghost enum Failure {
    /// The file could not be read.
    Unreadable,
    /// The card could not be loaded from the file's text: nothing is indexed.
    Unloadable,
    /// A link is malformed: the row and the edges before it are indexed.
    BadLink,
}

/// Why the card that a file's text describes is not fully indexed, if it is not.
pub open spec fn card_failure(typ: CardType, id: u64, text: Seq<char>) -> Option<Failure> {
    match card_record(typ, id, text) {
        None => Some(Failure::Unloadable),
        Some(r) => if links_ok(r) {
            None
        } else {
            Some(Failure::BadLink)
        },
    }
}

/// The error that reports a failure.
pub open spec fn reports(e: Error, f: Failure) -> bool {
    match f {
        Failure::Unreadable => e is CantAccessCard,
        Failure::Unloadable => e is CantReadFormatOfCard || e is CantReadProperty,
        Failure::BadLink => e is DatabaseError,
    }
}

/// The operations that index a card, and the error of its first malformed
/// link, if it has one.
pub fn record_ops(rec: &CardRecord) -> (r: (Vec<IndexOp>, Option<Error>))
    ensures
        ops_view(r.0@) == record_ops_spec(rec@),
        match r.1 {
            None => links_ok(rec@),
            Some(e) => !links_ok(rec@) && e is DatabaseError,
        },
{
    let mut ops: Vec<IndexOp> = Vec::new();
    ops.push(IndexOp::PutRow { typ: rec.typ, id: rec.id, row: rec.row() });
    let ghost head = ops_view(ops@);
    let ghost links = rec@.links;
    assert(links.take(0) =~= Seq::<Seq<char>>::empty());
    assert(head =~= seq![OpView::PutRow { typ: rec.typ, id: rec.id, row: row_spec(rec@) }]);
    let mut i: usize = 0;
    while i < rec.links.len()
        invariant
            i <= rec.links@.len(),
            links == texts_view(rec.links@),
            link_ops_spec(rec.typ, rec.id, links.take(i as int)).1,
            head == seq![OpView::PutRow { typ: rec.typ, id: rec.id, row: row_spec(rec@) }],
            ops_view(ops@) == head + link_ops_spec(rec.typ, rec.id, links.take(i as int)).0,
        decreases rec.links@.len() - i,
    {
        assert(links.take(i + 1).drop_last() =~= links.take(i as int));
        assert(links.take(i + 1).last() == rec.links@[i as int]@);
        match parse_link(rec.links[i].as_str()) {
            Ok(l) => {
                let ghost before = ops@;
                ops.push(IndexOp::PutLink {
                    role: l.role,
                    from_type: rec.typ,
                    from_id: rec.id,
                    to_type: l.target_type,
                    to_id: l.target_id,
                });
                assert(ops_view(ops@) =~= ops_view(before).push(ops@.last()@));
            },
            Err(e) => {
                assert(!link_ops_spec(rec.typ, rec.id, links.take(i + 1)).1);
                proof {
                    lemma_link_ops_prefix(rec.typ, rec.id, links, i + 1);
                }
                assert(link_ops_spec(rec.typ, rec.id, links.take(i + 1)).0 == link_ops_spec(rec.typ, rec.id, links.take(i as int)).0);
                assert(!links_ok(rec@));
                assert(ops_view(ops@) =~= record_ops_spec(rec@));
                return (ops, Some(e));
            },
        }
        i = i + 1;
    }
    assert(links.take(i as int) =~= links);
    let ghost mid = ops_view(ops@);
    let ghost tags = rec@.tags;
    assert(tags.take(0) =~= Seq::<Seq<char>>::empty());
    assert(mid =~= mid + tag_ops_spec(rec.typ, rec.id, tags.take(0)));
    let mut j: usize = 0;
    while j < rec.tags.len()
        invariant
            j <= rec.tags@.len(),
            tags == texts_view(rec.tags@),
            ops_view(ops@) == mid + tag_ops_spec(rec.typ, rec.id, tags.take(j as int)),
        decreases rec.tags@.len() - j,
    {
        assert(tags.take(j + 1).drop_last() =~= tags.take(j as int));
        assert(tags.take(j + 1).last() == rec.tags@[j as int]@);
        let ghost before = ops@;
        ops.push(IndexOp::PutTag { name: rec.tags[j].clone() });
        ops.push(IndexOp::PutTagging { tag: rec.tags[j].clone(), typ: rec.typ, id: rec.id });
        assert(ops_view(ops@) =~= ops_view(before) + seq![ops@[ops@.len() - 2]@, ops@.last()@]);
        j = j + 1;
    }
    assert(tags.take(j as int) =~= tags);
    (ops, None)
}

proof fn lemma_link_ops_prefix(typ: CardType, id: u64, links: Seq<Seq<char>>, k: int)
    requires
        0 <= k <= links.len(),
        !link_ops_spec(typ, id, links.take(k)).1,
    ensures
        link_ops_spec(typ, id, links) == link_ops_spec(typ, id, links.take(k)),
    decreases links.len() - k,
{
    if k < links.len() {
        assert(links.take(k + 1).drop_last() =~= links.take(k));
        lemma_link_ops_prefix(typ, id, links, k + 1);
    } else {
        assert(links.take(k) =~= links);
    }
}

/// The operations that take a card out of the index.
pub fn remove_ops(typ: CardType, id: u64, include_incoming_links: bool) -> (r: Vec<IndexOp>)
    ensures
        ops_view(r@) == remove_ops_spec(typ, id, include_incoming_links),
{
    let mut r: Vec<IndexOp> = Vec::new();
    r.push(IndexOp::DeleteRow { typ, id });
    r.push(IndexOp::DeleteLinksFrom { typ, id });
    if include_incoming_links {
        r.push(IndexOp::DeleteLinksTo { typ, id });
    }
    r.push(IndexOp::DeleteTaggings { typ, id });
    assert(ops_view(r@) =~= remove_ops_spec(typ, id, include_incoming_links));
    r
}

/// The operations that index the card that a file's text describes, and the
/// error met, if the card cannot be loaded or has a malformed link.
pub fn card_ops(typ: CardType, id: u64, text: &str) -> (r: (Vec<IndexOp>, Option<Error>))
    ensures
        ops_view(r.0@) == card_ops_spec(typ, id, text@),
        match r.1 {
            None => card_failure(typ, id, text@) is None,
            Some(e) => card_failure(typ, id, text@) matches Some(f) && reports(e, f) && match load_spec(typ, id, text@) {
                None => e is CantReadFormatOfCard,
                Some(None) => e matches Error::CantReadProperty(k)
                    && record_failure(typ, json_document(text@)->0) == Some(k@),
                Some(Some(_)) => e is DatabaseError,
            },
        },
{
    match CardRecord::load(typ, id, text) {
        Ok(rec) => record_ops(&rec),
        Err(e) => {
            let ops: Vec<IndexOp> = Vec::new();
            assert(ops_view(ops@) =~= Seq::<OpView>::empty());
            (ops, Some(e))
        },
    }
}

proof fn lemma_link_ops_keep_rows(typ: CardType, id: u64, links: Seq<Seq<char>>)
    ensures
        forall|i: int| 0 <= i < link_ops_spec(typ, id, links).0.len()
            ==> keeps_rows(#[trigger] link_ops_spec(typ, id, links).0[i]),
    decreases links.len(),
{
    if links.len() > 0 {
        lemma_link_ops_keep_rows(typ, id, links.drop_last());
        let prev = link_ops_spec(typ, id, links.drop_last()).0;
        let cur = link_ops_spec(typ, id, links).0;
        assert forall|i: int| 0 <= i < cur.len() implies keeps_rows(#[trigger] cur[i]) by {
            if i < prev.len() {
                assert(cur[i] == prev[i]);
            }
        }
    }
}

proof fn lemma_tag_ops_keep_rows(typ: CardType, id: u64, tags: Seq<Seq<char>>)
    ensures
        forall|i: int| 0 <= i < tag_ops_spec(typ, id, tags).len()
            ==> keeps_rows(#[trigger] tag_ops_spec(typ, id, tags)[i]),
    decreases tags.len(),
{
    if tags.len() > 0 {
        lemma_tag_ops_keep_rows(typ, id, tags.drop_last());
        let prev = tag_ops_spec(typ, id, tags.drop_last());
        let last = seq![OpView::PutTag { name: tags.last() }, OpView::PutTagging { tag: tags.last(), typ, id }];
        assert forall|i: int| 0 <= i < tag_ops_spec(typ, id, tags).len()
            implies keeps_rows(#[trigger] tag_ops_spec(typ, id, tags)[i]) by {
            if i < prev.len() {
                assert(tag_ops_spec(typ, id, tags)[i] == prev[i]);
            } else {
                assert(tag_ops_spec(typ, id, tags)[i] == last[i - prev.len()]);
            }
        }
    }
}

/// Indexing a card that loads puts its row in its type's table, whatever the
/// index held and whether or not its links are well formed:
/// the table gains exactly one row when it did not hold the card, and no other
/// table changes.
pub proof fn law_index_card(s: IndexState, r: RecordView)
    requires
        s.wf(),
    ensures
        ({
            let s2 = s.apply_all(record_ops_spec(r));
            &&& s2.wf()
            &&& s2.table(r.typ).contains_key(r.id)
            &&& s2.table(r.typ)[r.id] == row_spec(r)
            &&& s2.count(r.typ) == s.count(r.typ) + (if s.table(r.typ).contains_key(r.id) { 0nat } else { 1nat })
            &&& forall|t: CardType| t != r.typ ==> #[trigger] s2.table(t) == s.table(t)
        }),
{
    let put = seq![OpView::PutRow { typ: r.typ, id: r.id, row: row_spec(r) }];
    let links = link_ops_spec(r.typ, r.id, r.links).0;
    let tags = if links_ok(r) { tag_ops_spec(r.typ, r.id, r.tags) } else { Seq::empty() };
    assert(record_ops_spec(r) == put + (links + tags)) by {
        assert(put + links + tags =~= put + (links + tags));
    }
    lemma_apply_all_append(s, put, links + tags);
    assert(put.drop_last() =~= Seq::<OpView>::empty());
    let s1 = s.apply_all(put);
    assert(s.apply_all(put.drop_last()) == s);
    assert(s1 == s.apply(put[0]));
    lemma_link_ops_keep_rows(r.typ, r.id, r.links);
    lemma_tag_ops_keep_rows(r.typ, r.id, r.tags);
    assert forall|i: int| 0 <= i < (links + tags).len() implies keeps_rows(#[trigger] (links + tags)[i]) by {
        if i < links.len() {
            assert((links + tags)[i] == links[i]);
        } else {
            assert((links + tags)[i] == tags[i - links.len()]);
        }
    }
    lemma_keeps_rows(s1, links + tags);
    let s2 = s.apply_all(record_ops_spec(r));
    assert(s2.tables == s1.tables);
    assert forall|t: CardType| t != r.typ implies #[trigger] s2.table(t) == s.table(t) by {}
    assert(s2.table(r.typ) == s.table(r.typ).insert(r.id, row_spec(r)));
    assert(s2.table(r.typ).dom() == s.table(r.typ).dom().insert(r.id));
    assert forall|t: CardType| #[trigger] s2.table(t).dom().finite() by {
        if t != r.typ {
            assert(s2.table(t) == s.table(t));
        }
    }
}

/// The operations that index a card of a card type touch no other type's table.
pub proof fn lemma_card_ops_cards(typ: CardType, id: u64, text: Seq<char>)
    requires
        typ.is_card(),
    ensures
        all_card_ops(card_ops_spec(typ, id, text)),
{
    if let Some(r) = card_record(typ, id, text) {
        let put = seq![OpView::PutRow { typ: r.typ, id: r.id, row: row_spec(r) }];
        let links = link_ops_spec(r.typ, r.id, r.links).0;
        let tags = if links_ok(r) { tag_ops_spec(r.typ, r.id, r.tags) } else { Seq::empty() };
        lemma_link_ops_keep_rows(r.typ, r.id, r.links);
        lemma_tag_ops_keep_rows(r.typ, r.id, r.tags);
        assert(all_card_ops(put));
        assert(all_card_ops(links));
        assert(all_card_ops(tags));
        lemma_all_card_ops_concat(put, links);
        lemma_all_card_ops_concat(put + links, tags);
    } else {
        assert(all_card_ops(card_ops_spec(typ, id, text)));
    }
}

/// Taking a card out with its incoming edges leaves no row of it, no edge that
/// starts or ends at it, and no tagging of it.
pub proof fn law_remove_card(s: IndexState, typ: CardType, id: u64)
    ensures
        ({
            let s2 = s.apply_all(remove_ops_spec(typ, id, true));
            &&& !s2.table(typ).contains_key(id)
            &&& forall|i: int| 0 <= i < s2.links.len()
                ==> !((#[trigger] s2.links[i]).from_type == typ && s2.links[i].from_id == id)
                && !(s2.links[i].to_type == typ && s2.links[i].to_id == id)
            &&& forall|i: int| 0 <= i < s2.taggings.len()
                ==> !((#[trigger] s2.taggings[i]).typ == typ && s2.taggings[i].id == id)
        }),
{
    broadcast use vstd::seq_lib::group_filter_ensures;

    let ops = remove_ops_spec(typ, id, true);
    assert(ops.drop_last().drop_last().drop_last().drop_last() =~= Seq::<OpView>::empty());
    reveal_with_fuel(IndexState::apply_all, 5);
    let s1 = s.apply(ops[0]);
    let s2 = s1.apply(ops[1]);
    let s3 = s2.apply(ops[2]);
    let s4 = s3.apply(ops[3]);
    assert(ops.drop_last().drop_last().drop_last() =~= seq![ops[0]]);
    assert(ops.drop_last().drop_last() =~= seq![ops[0], ops[1]]);
    assert(ops.drop_last() =~= seq![ops[0], ops[1], ops[2]]);
    assert(s.apply_all(ops) == s4);
    let from_pred = |l: LinkRow| !(l.from_type == typ && l.from_id == id);
    let to_pred = |l: LinkRow| !(l.to_type == typ && l.to_id == id);
    assert(s2.links == s1.links.filter(from_pred));
    assert(s3.links == s2.links.filter(to_pred));
    assert forall|i: int| 0 <= i < s4.links.len()
        implies !((#[trigger] s4.links[i]).from_type == typ && s4.links[i].from_id == id)
            && !(s4.links[i].to_type == typ && s4.links[i].to_id == id) by {
        let e = s4.links[i];
        assert(s3.links[i] == e);
        assert(s3.links.contains(e));
        s2.links.lemma_filter_contains_rev(to_pred, e);
        let k = choose|k: int| 0 <= k < s2.links.len() && s2.links[k] == e;
        s1.links.lemma_filter_pred(from_pred, k);
    }
}

/// The statements that drop and create the tables shared by all card types:
/// the tags, unique by name; the taggings; the edges.
pub open spec fn shared_schema_sql() -> Seq<char> {
    "DROP TABLE IF EXISTS Tags; DROP TABLE IF EXISTS Taggings; DROP TABLE IF EXISTS Links; CREATE TABLE Tags (name VARCHAR PRIMARY KEY UNIQUE); CREATE TABLE Taggings (tag_id INTEGER, card_type INTEGER, card_id INTEGER); CREATE TABLE Links (role VARCHAR, from_type INTEGER, from_id INTEGER, to_type INTEGER, to_id INTEGER);"@
}

pub fn shared_schema() -> (r: &'static str)
    ensures
        r@ == shared_schema_sql(),
{
    "DROP TABLE IF EXISTS Tags; DROP TABLE IF EXISTS Taggings; DROP TABLE IF EXISTS Links; CREATE TABLE Tags (name VARCHAR PRIMARY KEY UNIQUE); CREATE TABLE Taggings (tag_id INTEGER, card_type INTEGER, card_id INTEGER); CREATE TABLE Links (role VARCHAR, from_type INTEGER, from_id INTEGER, to_type INTEGER, to_id INTEGER);"
}

pub open spec fn strs_view(v: Seq<&str>) -> Seq<Seq<char>> {
    v.map_values(|s: &str| s@)
}

fn join_texts(parts: &Vec<&str>, sep: &str) -> (r: String)
    ensures
        r@ == join(strs_view(parts@), sep@),
{
    let ghost ps = strs_view(parts@);
    if parts.len() == 0 {
        return String::new();
    }
    let mut acc = String::from_str(parts[0]);
    let mut i: usize = 1;
    assert(ps.take(1).drop_last() =~= Seq::<Seq<char>>::empty());
    while i < parts.len()
        invariant
            1 <= i <= parts@.len(),
            ps == strs_view(parts@),
            acc@ == join(ps.take(i as int), sep@),
        decreases parts@.len() - i,
    {
        assert(ps.take(i + 1).drop_last() =~= ps.take(i as int));
        assert(ps.take(i + 1).last() == parts@[i as int]@);
        acc = acc.concat(sep).concat(parts[i]);
        i = i + 1;
    }
    assert(ps.take(i as int) =~= ps);
    acc
}

/// The statement that writes a row of the table of `typ`.
pub open spec fn insert_sql(typ: CardType) -> Seq<char> {
    "INSERT OR REPLACE INTO "@ + typ.table_name() + " ("@ + join(typ.columns(), ", "@) + ") VALUES ("@
        + join(Seq::new(typ.columns().len(), |i: int| "?"@), ", "@) + ")"@
}

fn column_names(typ: CardType) -> (r: Vec<&'static str>)
    ensures
        strs_view(r@) == typ.columns(),
{
    let mut r: Vec<&'static str> = Vec::new();
    r.push("id");
    r.push("title");
    r.push("created");
    r.push("modified");
    r.push("source");
    let props = typ.properties();
    let ghost head = strs_view(r@);
    let ghost cols = typ.properties_spec().map_values(|p: crate::registry::PropertySpec| p.column);
    assert(head =~= common_columns());
    let mut i: usize = 0;
    while i < props.len()
        invariant
            i <= props@.len(),
            props@.map_values(|p: crate::registry::Property| p@) == typ.properties_spec(),
            cols == typ.properties_spec().map_values(|p: crate::registry::PropertySpec| p.column),
            strs_view(r@) == head + cols.take(i as int),
        decreases props@.len() - i,
    {
        assert(cols[i as int] == props@[i as int]@.column);
        let ghost before = r@;
        r.push(props[i].column);
        assert(strs_view(r@) =~= strs_view(before).push(cols[i as int]));
        assert(strs_view(r@) =~= head + cols.take(i + 1));
        i = i + 1;
    }
    assert(cols.take(i as int) =~= cols);
    r
}

/// The statement that writes a row of the table of the type.
pub fn sql_write_stmt(typ: CardType) -> (r: String)
    ensures
        r@ == insert_sql(typ),
{
    let columns = column_names(typ);
    let mut marks: Vec<&str> = Vec::new();
    let mut i: usize = 0;
    while i < columns.len()
        invariant
            i <= columns@.len(),
            marks@.len() == i,
            forall|j: int| 0 <= j < i ==> (#[trigger] marks@[j])@ == "?"@,
        decreases columns@.len() - i,
    {
        marks.push("?");
        i = i + 1;
    }
    assert(strs_view(marks@) =~= Seq::new(typ.columns().len(), |i: int| "?"@));
    String::from_str("INSERT OR REPLACE INTO ").concat(typ.sql_table()).concat(" (").concat(
        join_texts(&columns, ", ").as_str(),
    ).concat(") VALUES (").concat(join_texts(&marks, ", ").as_str()).concat(")")
}

/// A statement of SQL with its parameters, in order.
pub struct Statement {
    pub sql: String,
    pub params: Vec<SqlValue>,
}

pub open spec fn code_view(typ: CardType) -> SqlView {
    SqlView::Integer(typ.code() as int)
}

pub open spec fn id_view(id: u64) -> SqlView {
    SqlView::Integer(id as int)
}

/// The SQL of the statement that performs an operation.
pub open spec fn op_sql(op: OpView) -> Seq<char> {
    match op {
        OpView::PutRow { typ, .. } => insert_sql(typ),
        OpView::PutLink { .. } => "INSERT INTO Links (role, from_type, from_id, to_type, to_id) VALUES (?1, ?2, ?3, ?4, ?5)"@,
        OpView::PutTag { .. } => "INSERT OR IGNORE INTO Tags (name) VALUES (?1)"@,
        OpView::PutTagging { .. } => "INSERT INTO Taggings (tag_id, card_type, card_id) SELECT rowid, ?2, ?3 FROM Tags WHERE name IS ?1"@,
        OpView::DeleteRow { typ, .. } => "DELETE FROM "@ + typ.table_name() + " WHERE id IS ?1"@,
        OpView::DeleteLinksFrom { .. } => "DELETE FROM Links WHERE from_type IS ?1 AND from_id IS ?2"@,
        OpView::DeleteLinksTo { .. } => "DELETE FROM Links WHERE to_type IS ?1 AND to_id IS ?2"@,
        OpView::DeleteTaggings { .. } => "DELETE FROM Taggings WHERE card_type IS ?1 AND card_id IS ?2"@,
        OpView::ResetShared => shared_schema_sql(),
        OpView::ResetTable { typ } => typ.schema_sql(),
    }
}

/// The parameters of the statement that performs an operation.
pub open spec fn op_params(op: OpView) -> Seq<SqlView> {
    match op {
        OpView::PutRow { row, .. } => row,
        OpView::PutLink { role, from_type, from_id, to_type, to_id } => seq![
            SqlView::Text(role),
            code_view(from_type),
            id_view(from_id),
            code_view(to_type),
            id_view(to_id),
        ],
        OpView::PutTag { name } => seq![SqlView::Text(name)],
        OpView::PutTagging { tag, typ, id } => seq![SqlView::Text(tag), code_view(typ), id_view(id)],
        OpView::DeleteRow { id, .. } => seq![id_view(id)],
        OpView::DeleteLinksFrom { typ, id } => seq![code_view(typ), id_view(id)],
        OpView::DeleteLinksTo { typ, id } => seq![code_view(typ), id_view(id)],
        OpView::DeleteTaggings { typ, id } => seq![code_view(typ), id_view(id)],
        OpView::ResetShared => Seq::empty(),
        OpView::ResetTable { .. } => Seq::empty(),
    }
}

fn code_value(typ: CardType) -> (r: SqlValue)
    ensures
        r@ == code_view(typ),
{
    SqlValue::Integer(typ.discriminant() as i64)
}

fn pair(typ: CardType, id: u64) -> (r: Vec<SqlValue>)
    ensures
        values_view(r@) == seq![code_view(typ), id_view(id)],
{
    let mut r: Vec<SqlValue> = Vec::new();
    r.push(code_value(typ));
    r.push(SqlValue::Unsigned(id));
    assert(values_view(r@) =~= seq![code_view(typ), id_view(id)]);
    r
}

impl IndexOp {
    /// The statement that performs the operation.
    pub fn statement(&self) -> (r: Statement)
        ensures
            r.sql@ == op_sql(self@),
            values_view(r.params@) == op_params(self@),
    {
        let mut params: Vec<SqlValue> = Vec::new();
        match self {
            IndexOp::PutRow { typ, row, .. } => {
                let mut i: usize = 0;
                while i < row.len()
                    invariant
                        i <= row@.len(),
                        values_view(params@) == values_view(row@).take(i as int),
                    decreases row@.len() - i,
                {
                    let ghost before = params@;
                    params.push(row[i].clone_value());
                    assert(values_view(params@) =~= values_view(before).push(row@[i as int]@));
                    assert(values_view(params@) =~= values_view(row@).take(i + 1));
                    i = i + 1;
                }
                assert(values_view(row@).take(i as int) =~= values_view(row@));
                Statement { sql: sql_write_stmt(*typ), params }
            },
            IndexOp::PutLink { role, from_type, from_id, to_type, to_id } => {
                params.push(SqlValue::Text(role.clone()));
                params.push(code_value(*from_type));
                params.push(SqlValue::Unsigned(*from_id));
                params.push(code_value(*to_type));
                params.push(SqlValue::Unsigned(*to_id));
                assert(values_view(params@) =~= op_params(self@));
                Statement {
                    sql: String::from_str("INSERT INTO Links (role, from_type, from_id, to_type, to_id) VALUES (?1, ?2, ?3, ?4, ?5)"),
                    params,
                }
            },
            IndexOp::PutTag { name } => {
                params.push(SqlValue::Text(name.clone()));
                assert(values_view(params@) =~= op_params(self@));
                Statement { sql: String::from_str("INSERT OR IGNORE INTO Tags (name) VALUES (?1)"), params }
            },
            IndexOp::PutTagging { tag, typ, id } => {
                params.push(SqlValue::Text(tag.clone()));
                params.push(code_value(*typ));
                params.push(SqlValue::Unsigned(*id));
                assert(values_view(params@) =~= op_params(self@));
                Statement {
                    sql: String::from_str("INSERT INTO Taggings (tag_id, card_type, card_id) SELECT rowid, ?2, ?3 FROM Tags WHERE name IS ?1"),
                    params,
                }
            },
            IndexOp::DeleteRow { typ, id } => {
                params.push(SqlValue::Unsigned(*id));
                assert(values_view(params@) =~= op_params(self@));
                Statement {
                    sql: String::from_str("DELETE FROM ").concat(typ.sql_table()).concat(" WHERE id IS ?1"),
                    params,
                }
            },
            IndexOp::DeleteLinksFrom { typ, id } => Statement {
                sql: String::from_str("DELETE FROM Links WHERE from_type IS ?1 AND from_id IS ?2"),
                params: pair(*typ, *id),
            },
            IndexOp::DeleteLinksTo { typ, id } => Statement {
                sql: String::from_str("DELETE FROM Links WHERE to_type IS ?1 AND to_id IS ?2"),
                params: pair(*typ, *id),
            },
            IndexOp::DeleteTaggings { typ, id } => Statement {
                sql: String::from_str("DELETE FROM Taggings WHERE card_type IS ?1 AND card_id IS ?2"),
                params: pair(*typ, *id),
            },
            IndexOp::ResetShared => {
                assert(values_view(params@) =~= Seq::<SqlView>::empty());
                Statement { sql: String::from_str(shared_schema()), params }
            },
            IndexOp::ResetTable { typ } => {
                assert(values_view(params@) =~= Seq::<SqlView>::empty());
                Statement { sql: typ.sql_schema(), params }
            },
        }
    }
}

} // verus!
