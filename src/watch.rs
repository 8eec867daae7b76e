//! What a change to a card directory, or a rebuild of the index from the card
//! files, does to the index.
use vstd::prelude::*;
use crate::error::Error;
use crate::index::{
    card_failure, card_ops, card_ops_spec, card_record, law_index_card, reports, Failure, schema_ops_spec,
    all_card_ops, lemma_all_card_ops_concat, lemma_apply_all_append, lemma_card_ops_cards, lemma_only_cards_kept, lemma_schema_resets, lemma_schema_empties, lemma_same_apply_all, law_remove_card, ops_view, remove_ops, remove_ops_spec,
    IndexOp, IndexState, OpView,
};
use crate::record::load_spec;
use crate::registry::CardType;
use crate::text::{parse_u64, parse_u64_spec, same_text};

verus! {

/// The kinds of change to a card directory that the index follows.
#[derive(Clone, Copy, PartialEq, Eq, Structural, Debug)]
pub enum EventKind {
    Create,
    Modify,
    Remove,
    Other,
}

/// What the index does for one card file.
#[derive(Clone, Copy, PartialEq, Eq, Structural, Debug)]
pub enum WatchAction {
    /// Load the card and index it.
    Index(u64),
    /// Take the card out, keeping the edges that end at it, then load and index it again.
    Reindex(u64),
    /// Take the card out with every edge that starts or ends at it.
    Deindex(u64),
}

/// The position of the last `c` in `s`.
pub open spec fn rindex_of(s: Seq<char>, c: char) -> Option<int>
    decreases s.len(),
{
    if s.len() == 0 {
        None
    } else if s.last() == c {
        Some(s.len() - 1)
    } else {
        rindex_of(s.drop_last(), c)
    }
}

/// The identifier of the card that a file holds: the file is named
/// `<id>.json`, its extension being what follows the last dot.
pub open spec fn card_file_id_spec(name: Seq<char>) -> Option<u64> {
    match rindex_of(name, '.') {
        Some(k) => if name.skip(k + 1) == "json"@ {
            parse_u64_spec(name.take(k))
        } else {
            None
        },
        None => None,
    }
}

pub fn card_file_id(name: &str) -> (r: Option<u64>)
    ensures
        r == card_file_id_spec(name@),
{
    let n = name.unicode_len();
    let mut i: usize = n;
    assert(name@.take(n as int) =~= name@);
    while i > 0
        invariant
            i <= n,
            n == name@.len(),
            rindex_of(name@, '.') == rindex_of(name@.take(i as int), '.'),
        decreases i,
    {
        assert(name@.take(i as int).drop_last() =~= name@.take(i - 1));
        if name.get_char(i - 1) == '.' {
            let ext = name.substring_char(i, n);
            if same_text(ext, "json") {
                return parse_u64(name.substring_char(0, i - 1));
            }
            return None;
        }
        i = i - 1;
    }
    None
}

/// The identifiers of the cards that files with these names hold, in order.
pub open spec fn card_ids_spec(names: Seq<Seq<char>>) -> Seq<u64>
    decreases names.len(),
{
    if names.len() == 0 {
        Seq::empty()
    } else {
        let prev = card_ids_spec(names.drop_last());
        match card_file_id_spec(names.last()) {
            Some(id) => prev.push(id),
            None => prev,
        }
    }
}

pub open spec fn names_view(v: Seq<String>) -> Seq<Seq<char>> {
    v.map_values(|s: String| s@)
}

/// The identifiers of the cards in a directory listing; other files are skipped.
pub fn card_ids(names: &Vec<String>) -> (r: Vec<u64>)
    ensures
        r@ == card_ids_spec(names_view(names@)),
{
    let ghost ns = names_view(names@);
    let mut r: Vec<u64> = Vec::new();
    let mut i: usize = 0;
    assert(ns.take(0) =~= Seq::<Seq<char>>::empty());
    while i < names.len()
        invariant
            i <= names@.len(),
            ns == names_view(names@),
            r@ == card_ids_spec(ns.take(i as int)),
        decreases names@.len() - i,
    {
        assert(ns.take(i + 1).drop_last() =~= ns.take(i as int));
        assert(ns.take(i + 1).last() == names@[i as int]@);
        match card_file_id(names[i].as_str()) {
            Some(id) => r.push(id),
            None => {},
        }
        i = i + 1;
    }
    assert(ns.take(i as int) =~= ns);
    r
}

/// What a change of the given kind asks for the card `id`.
pub open spec fn action_for(kind: EventKind, id: u64) -> Option<WatchAction> {
    match kind {
        EventKind::Create => Some(WatchAction::Index(id)),
        EventKind::Modify => Some(WatchAction::Reindex(id)),
        EventKind::Remove => Some(WatchAction::Deindex(id)),
        EventKind::Other => None,
    }
}

/// What a change to the named files asks for: one action per card file, in
/// order; files that hold no card, and other kinds of change, ask for nothing.
pub open spec fn event_actions_spec(kind: EventKind, names: Seq<Seq<char>>) -> Seq<WatchAction>
    decreases names.len(),
{
    if names.len() == 0 {
        Seq::empty()
    } else {
        let prev = event_actions_spec(kind, names.drop_last());
        match card_file_id_spec(names.last()) {
            Some(id) => match action_for(kind, id) {
                Some(a) => prev.push(a),
                None => prev,
            },
            None => prev,
        }
    }
}

pub fn event_actions(kind: EventKind, names: &Vec<String>) -> (r: Vec<WatchAction>)
    ensures
        r@ == event_actions_spec(kind, names_view(names@)),
{
    let ghost ns = names_view(names@);
    let mut r: Vec<WatchAction> = Vec::new();
    let mut i: usize = 0;
    assert(ns.take(0) =~= Seq::<Seq<char>>::empty());
    while i < names.len()
        invariant
            i <= names@.len(),
            ns == names_view(names@),
            r@ == event_actions_spec(kind, ns.take(i as int)),
        decreases names@.len() - i,
    {
        assert(ns.take(i + 1).drop_last() =~= ns.take(i as int));
        assert(ns.take(i + 1).last() == names@[i as int]@);
        match card_file_id(names[i].as_str()) {
            Some(id) => match kind {
                EventKind::Create => r.push(WatchAction::Index(id)),
                EventKind::Modify => r.push(WatchAction::Reindex(id)),
                EventKind::Remove => r.push(WatchAction::Deindex(id)),
                EventKind::Other => {},
            },
            None => {},
        }
        i = i + 1;
    }
    assert(ns.take(i as int) =~= ns);
    r
}

/// The operations that index a card from the text of its file, if it could be
/// read; none when it cannot be read or loaded.
pub open spec fn load_ops_spec(typ: CardType, id: u64, text: Option<Seq<char>>) -> Seq<OpView> {
    match text {
        Some(t) => card_ops_spec(typ, id, t),
        None => Seq::empty(),
    }
}

/// The operations that carry out an action, given the text of the card's file
/// when it could be read.
pub open spec fn action_ops_spec(typ: CardType, a: WatchAction, text: Option<Seq<char>>) -> Seq<OpView> {
    match a {
        WatchAction::Index(id) => load_ops_spec(typ, id, text),
        WatchAction::Reindex(id) => remove_ops_spec(typ, id, false) + load_ops_spec(typ, id, text),
        WatchAction::Deindex(id) => remove_ops_spec(typ, id, true),
    }
}

/// Why an action that reads the card's file does not fully index the card, if
/// it does not.
pub open spec fn action_failure(typ: CardType, a: WatchAction, text: Option<Seq<char>>) -> Option<Failure> {
    match a {
        WatchAction::Index(id) | WatchAction::Reindex(id) => match text {
            Some(t) => card_failure(typ, id, t),
            None => Some(Failure::Unreadable),
        },
        WatchAction::Deindex(_) => None,
    }
}

pub open spec fn opt_str_view(o: Option<&str>) -> Option<Seq<char>> {
    match o {
        Some(s) => Some(s@),
        None => None,
    }
}

fn load_ops(typ: CardType, id: u64, text: Option<&str>) -> (r: (Vec<IndexOp>, Option<Error>))
    ensures
        ops_view(r.0@) == load_ops_spec(typ, id, opt_str_view(text)),
        match r.1 {
            None => action_failure(typ, WatchAction::Index(id), opt_str_view(text)) is None,
            Some(e) => action_failure(typ, WatchAction::Index(id), opt_str_view(text)) matches Some(f) && reports(e, f),
        },
{
    match text {
        Some(t) => card_ops(typ, id, t),
        None => {
            let ops: Vec<IndexOp> = Vec::new();
            assert(ops_view(ops@) =~= Seq::<OpView>::empty());
            (ops, Some(Error::CantAccessCard))
        },
    }
}

/// The operations that carry out an action on a card of type `typ`, with the
/// text of the card's file when it could be read, and the error met in loading
/// the card, if any.
pub fn action_ops(typ: CardType, action: WatchAction, text: Option<&str>) -> (r: (Vec<IndexOp>, Option<Error>))
    ensures
        ops_view(r.0@) == action_ops_spec(typ, action, opt_str_view(text)),
        match r.1 {
            None => action_failure(typ, action, opt_str_view(text)) is None,
            Some(e) => action_failure(typ, action, opt_str_view(text)) matches Some(f) && reports(e, f),
        },
{
    match action {
        WatchAction::Index(id) => load_ops(typ, id, text),
        WatchAction::Reindex(id) => {
            let mut ops = remove_ops(typ, id, false);
            let (mut more, err) = load_ops(typ, id, text);
            let ghost a = ops@;
            let ghost b = more@;
            ops.append(&mut more);
            assert(ops_view(ops@) =~= ops_view(a) + ops_view(b));
            (ops, err)
        },
        WatchAction::Deindex(id) => (remove_ops(typ, id, true), None),
    }
}

/// The operations that index every card of a directory, from the identifiers
/// and texts of its card files, in order; cards that cannot be loaded are
/// skipped, and a card with a malformed link keeps its row and the edges before it.
pub open spec fn bulk_ops_spec(typ: CardType, docs: Seq<(u64, Seq<char>)>) -> Seq<OpView>
    decreases docs.len(),
{
    if docs.len() == 0 {
        Seq::empty()
    } else {
        bulk_ops_spec(typ, docs.drop_last()) + load_ops_spec(typ, docs.last().0, Some(docs.last().1))
    }
}

/// The cards of a directory that are not fully indexed, in order, each with
/// the reason.
pub open spec fn failed_spec(typ: CardType, docs: Seq<(u64, Seq<char>)>) -> Seq<(u64, Failure)>
    decreases docs.len(),
{
    if docs.len() == 0 {
        Seq::empty()
    } else {
        match card_failure(typ, docs.last().0, docs.last().1) {
            Some(f) => failed_spec(typ, docs.drop_last()).push((docs.last().0, f)),
            None => failed_spec(typ, docs.drop_last()),
        }
    }
}

/// The reported failures are those of the spec, in order.
pub open spec fn reports_all(got: Seq<(u64, Error)>, want: Seq<(u64, Failure)>) -> bool {
    &&& got.len() == want.len()
    &&& forall|i: int| 0 <= i < got.len() ==> (#[trigger] got[i]).0 == want[i].0 && reports(got[i].1, want[i].1)
}

pub open spec fn docs_view(docs: Seq<(u64, String)>) -> Seq<(u64, Seq<char>)> {
    docs.map_values(|d: (u64, String)| (d.0, d.1@))
}

/// The operations that index every card of a directory, and the cards that
/// are not fully indexed, each with its error.
pub fn bulk_ops(typ: CardType, docs: &Vec<(u64, String)>) -> (r: (Vec<IndexOp>, Vec<(u64, Error)>))
    ensures
        ops_view(r.0@) == bulk_ops_spec(typ, docs_view(docs@)),
        reports_all(r.1@, failed_spec(typ, docs_view(docs@))),
{
    let ghost ds = docs_view(docs@);
    let mut ops: Vec<IndexOp> = Vec::new();
    let mut failed: Vec<(u64, Error)> = Vec::new();
    let mut i: usize = 0;
    assert(ds.take(0) =~= Seq::<(u64, Seq<char>)>::empty());
    assert(ops_view(ops@) =~= Seq::<OpView>::empty());
    while i < docs.len()
        invariant
            i <= docs@.len(),
            ds == docs_view(docs@),
            ops_view(ops@) == bulk_ops_spec(typ, ds.take(i as int)),
            reports_all(failed@, failed_spec(typ, ds.take(i as int))),
        decreases docs@.len() - i,
    {
        assert(ds.take(i + 1).drop_last() =~= ds.take(i as int));
        assert(ds.take(i + 1).last() == (docs@[i as int].0, docs@[i as int].1@));
        let (mut more, err) = load_ops(typ, docs[i].0, Some(docs[i].1.as_str()));
        let ghost a = ops@;
        let ghost b = more@;
        ops.append(&mut more);
        assert(ops_view(ops@) =~= ops_view(a) + ops_view(b));
        match err {
            Some(e) => {
                let ghost before = failed@;
                failed.push((docs[i].0, e));
                assert(reports_all(failed@, failed_spec(typ, ds.take(i + 1)))) by {
                    assert forall|k: int| 0 <= k < failed@.len() implies (#[trigger] failed@[k]).0
                        == failed_spec(typ, ds.take(i + 1))[k].0 && reports(failed@[k].1, failed_spec(typ, ds.take(i + 1))[k].1) by {
                        if k < before.len() {
                            assert(failed@[k] == before[k]);
                        }
                    }
                }
            },
            None => {},
        }
        i = i + 1;
    }
    assert(ds.take(i as int) =~= ds);
    (ops, failed)
}

/// The operations of a full rebuild: each directory's cards, type by type.
pub open spec fn sync_plan_spec(dirs: Seq<(CardType, Seq<(u64, Seq<char>)>)>) -> Seq<OpView>
    decreases dirs.len(),
{
    if dirs.len() == 0 {
        Seq::empty()
    } else {
        sync_plan_spec(dirs.drop_last()) + bulk_ops_spec(dirs.last().0, dirs.last().1)
    }
}

/// A rebuild creates the schema anew, which empties every table, then indexes
/// the card files.
pub open spec fn rebuild(s: IndexState, dirs: Seq<(CardType, Seq<(u64, Seq<char>)>)>) -> IndexState {
    s.apply_all(schema_ops_spec() + sync_plan_spec(dirs))
}

proof fn lemma_bulk_cards(typ: CardType, docs: Seq<(u64, Seq<char>)>)
    requires
        typ.is_card(),
    ensures
        all_card_ops(bulk_ops_spec(typ, docs)),
    decreases docs.len(),
{
    if docs.len() > 0 {
        lemma_bulk_cards(typ, docs.drop_last());
        lemma_card_ops_cards(typ, docs.last().0, docs.last().1);
        lemma_all_card_ops_concat(bulk_ops_spec(typ, docs.drop_last()), load_ops_spec(typ, docs.last().0, Some(docs.last().1)));
    }
}

proof fn lemma_sync_cards(dirs: Seq<(CardType, Seq<(u64, Seq<char>)>)>)
    requires
        forall|i: int| 0 <= i < dirs.len() ==> (#[trigger] dirs[i]).0.is_card(),
    ensures
        all_card_ops(sync_plan_spec(dirs)),
    decreases dirs.len(),
{
    if dirs.len() > 0 {
        assert forall|i: int| 0 <= i < dirs.drop_last().len() implies (#[trigger] dirs.drop_last()[i]).0.is_card() by {
            assert(dirs.drop_last()[i] == dirs[i]);
        }
        lemma_sync_cards(dirs.drop_last());
        assert(dirs[dirs.len() - 1].0.is_card());
        lemma_bulk_cards(dirs.last().0, dirs.last().1);
        lemma_all_card_ops_concat(sync_plan_spec(dirs.drop_last()), bulk_ops_spec(dirs.last().0, dirs.last().1));
    }
}

/// Rebuilding from unchanged card files gives the same index whatever the index
/// held before, as long as only card types had tables: creating the schema
/// empties every table. Rebuilding a second time changes nothing.
pub proof fn law_rebuild_idempotent(s1: IndexState, s2: IndexState, dirs: Seq<(CardType, Seq<(u64, Seq<char>)>)>)
    requires
        s1.only_cards(),
        s2.only_cards(),
        forall|i: int| 0 <= i < dirs.len() ==> (#[trigger] dirs[i]).0.is_card(),
    ensures
        rebuild(s1, dirs) == IndexState::fresh().apply_all(sync_plan_spec(dirs)),
        rebuild(s1, dirs) == rebuild(s2, dirs),
        rebuild(rebuild(s1, dirs), dirs) == rebuild(s1, dirs),
{
    let plan = sync_plan_spec(dirs);
    lemma_apply_all_append(s1, schema_ops_spec(), plan);
    lemma_apply_all_append(s2, schema_ops_spec(), plan);
    lemma_schema_resets(s1);
    lemma_schema_resets(s2);
    let r = rebuild(s1, dirs);
    lemma_sync_cards(dirs);
    lemma_only_cards_kept(IndexState::fresh(), plan);
    lemma_apply_all_append(r, schema_ops_spec(), plan);
    lemma_schema_resets(r);
}

/// Rebuilding from unchanged card files gives the same rows, edges, tags and
/// taggings whatever the index held before; rebuilding a second time changes
/// none of them.
pub proof fn law_rebuild_same_index(s1: IndexState, s2: IndexState, dirs: Seq<(CardType, Seq<(u64, Seq<char>)>)>)
    ensures
        rebuild(s1, dirs).same_index(rebuild(s2, dirs)),
        rebuild(rebuild(s1, dirs), dirs).same_index(rebuild(s1, dirs)),
{
    let plan = sync_plan_spec(dirs);
    let r = rebuild(s1, dirs);
    lemma_apply_all_append(s1, schema_ops_spec(), plan);
    lemma_apply_all_append(s2, schema_ops_spec(), plan);
    lemma_apply_all_append(r, schema_ops_spec(), plan);
    lemma_schema_empties(s1);
    lemma_schema_empties(s2);
    lemma_schema_empties(r);
    let a = s1.apply_all(schema_ops_spec());
    let b = s2.apply_all(schema_ops_spec());
    let c = r.apply_all(schema_ops_spec());
    assert(a.same_index(b));
    assert(c.same_index(a));
    lemma_same_apply_all(a, b, plan);
    lemma_same_apply_all(c, a, plan);
}

/// A new card file `<id>.json` whose card can be loaded puts the card in its
/// type's table, even when one of its links is malformed: the table gains exactly one row when it did not hold the card.
pub proof fn law_create_event(s: IndexState, typ: CardType, name: Seq<char>, id: u64, text: Seq<char>)
    requires
        s.wf(),
        card_file_id_spec(name) == Some(id),
        crate::index::card_record(typ, id, text) is Some,
    ensures
        event_actions_spec(EventKind::Create, seq![name]) == seq![WatchAction::Index(id)],
        ({
            let s2 = s.apply_all(action_ops_spec(typ, WatchAction::Index(id), Some(text)));
            &&& s2.wf()
            &&& s2.table(typ).contains_key(id)
            &&& s2.count(typ) == s.count(typ) + (if s.table(typ).contains_key(id) { 0nat } else { 1nat })
        }),
{
    assert(seq![name].drop_last() =~= Seq::<Seq<char>>::empty());
    assert(event_actions_spec(EventKind::Create, Seq::empty()) == Seq::<WatchAction>::empty());
    assert(Seq::<WatchAction>::empty().push(WatchAction::Index(id)) =~= seq![WatchAction::Index(id)]);
    let r = crate::index::card_record(typ, id, text)->0;
    law_index_card(s, r);
}

/// Removing a card file `<id>.json` leaves no row of the card, no edge that
/// starts or ends at it, and no tagging of it.
pub proof fn law_remove_event(s: IndexState, typ: CardType, name: Seq<char>, id: u64, text: Option<Seq<char>>)
    requires
        card_file_id_spec(name) == Some(id),
    ensures
        event_actions_spec(EventKind::Remove, seq![name]) == seq![WatchAction::Deindex(id)],
        ({
            let s2 = s.apply_all(action_ops_spec(typ, WatchAction::Deindex(id), text));
            &&& !s2.table(typ).contains_key(id)
            &&& forall|i: int| 0 <= i < s2.links.len()
                ==> !((#[trigger] s2.links[i]).from_type == typ && s2.links[i].from_id == id)
                && !(s2.links[i].to_type == typ && s2.links[i].to_id == id)
            &&& forall|i: int| 0 <= i < s2.taggings.len()
                ==> !((#[trigger] s2.taggings[i]).typ == typ && s2.taggings[i].id == id)
        }),
{
    assert(seq![name].drop_last() =~= Seq::<Seq<char>>::empty());
    assert(event_actions_spec(EventKind::Remove, Seq::empty()) == Seq::<WatchAction>::empty());
    assert(Seq::<WatchAction>::empty().push(WatchAction::Deindex(id)) =~= seq![WatchAction::Deindex(id)]);
    law_remove_card(s, typ, id);
}

} // verus!
