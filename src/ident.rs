//! Where card files are, and the text forms of card identities and links.
use vstd::prelude::*;
use crate::error::Error;
use crate::registry::CardType;
use crate::text::{find_char, index_of, parse_u64, parse_u64_spec};

verus! {

/// The directory that holds one directory of card files per card type.
pub open spec fn cards_root() -> Seq<char> {
    "C:/Dropbox/Data/Cards"@
}

pub fn get_path_to_cards() -> (r: String)
    ensures
        r@ == cards_root(),
{
    String::from_str("C:/Dropbox/Data/Cards")
}

pub open spec fn digit_char(d: nat) -> char {
    seq!['0', '1', '2', '3', '4', '5', '6', '7', '8', '9'][d as int]
}

/// A number in decimal digits, without sign or leading zeros.
pub open spec fn decimal_text(n: nat) -> Seq<char>
    decreases n,
{
    if n < 10 {
        seq![digit_char(n)]
    } else {
        decimal_text(n / 10).push(digit_char(n % 10))
    }
}

fn digit_str(d: u64) -> (r: &'static str)
    requires
        d < 10,
    ensures
        r@ == seq![digit_char(d as nat)],
{
    match d {
        0 => {
            proof {
                reveal_strlit("0");
            }
            assert("0"@ =~= seq![digit_char(d as nat)]);
            "0"
        },
        1 => {
            proof {
                reveal_strlit("1");
            }
            assert("1"@ =~= seq![digit_char(d as nat)]);
            "1"
        },
        2 => {
            proof {
                reveal_strlit("2");
            }
            assert("2"@ =~= seq![digit_char(d as nat)]);
            "2"
        },
        3 => {
            proof {
                reveal_strlit("3");
            }
            assert("3"@ =~= seq![digit_char(d as nat)]);
            "3"
        },
        4 => {
            proof {
                reveal_strlit("4");
            }
            assert("4"@ =~= seq![digit_char(d as nat)]);
            "4"
        },
        5 => {
            proof {
                reveal_strlit("5");
            }
            assert("5"@ =~= seq![digit_char(d as nat)]);
            "5"
        },
        6 => {
            proof {
                reveal_strlit("6");
            }
            assert("6"@ =~= seq![digit_char(d as nat)]);
            "6"
        },
        7 => {
            proof {
                reveal_strlit("7");
            }
            assert("7"@ =~= seq![digit_char(d as nat)]);
            "7"
        },
        8 => {
            proof {
                reveal_strlit("8");
            }
            assert("8"@ =~= seq![digit_char(d as nat)]);
            "8"
        },
        _ => {
            proof {
                reveal_strlit("9");
            }
            assert("9"@ =~= seq![digit_char(d as nat)]);
            "9"
        },
    }
}

/// The number in decimal digits.
pub fn decimal(n: u64) -> (r: String)
    ensures
        r@ == decimal_text(n as nat),
    decreases n,
{
    if n < 10 {
        String::from_str(digit_str(n))
    } else {
        decimal(n / 10).concat(digit_str(n % 10))
    }
}

/// The directory that holds the cards of the type named `typ`.
pub open spec fn card_dir_path(typ: Seq<char>) -> Seq<char> {
    cards_root() + "/"@ + typ
}

pub fn get_dir_path_for_cards(typ: &str) -> (r: String)
    ensures
        r@ == card_dir_path(typ@),
{
    get_path_to_cards().concat("/").concat(typ)
}

/// The file that holds card `id` of the type named `typ`.
pub open spec fn card_file_path(typ: Seq<char>, id: u64) -> Seq<char> {
    cards_root() + "/"@ + typ + "/"@ + decimal_text(id as nat) + ".json"@
}

pub fn get_file_path_for_card(typ: &str, id: u64) -> (r: String)
    ensures
        r@ == card_file_path(typ@, id),
{
    let path = get_path_to_cards().concat("/").concat(typ).concat("/");
    let name = decimal(id);
    path.concat(name.as_str()).concat(".json")
}

/// The text form `<type>/<id>` of a card's identity.
pub open spec fn qualified_text(typ: CardType, id: u64) -> Seq<char> {
    typ.tag() + "/"@ + decimal_text(id as nat)
}

pub fn qualified_id(typ: CardType, id: u64) -> (r: String)
    ensures
        r@ == qualified_text(typ, id),
{
    let name = decimal(id);
    typ.to_string().concat("/").concat(name.as_str())
}

/// The card that `<type>/<id>` names: the type before the first `/` must be a
/// card type, and the rest a decimal `u64`.
pub open spec fn qualified_spec(q: Seq<char>) -> Option<(CardType, u64)> {
    match index_of(q, '/') {
        None => None,
        Some(k) => {
            let typ = CardType::from_tag_spec(q.take(k));
            if !typ.is_card() {
                None
            } else {
                match parse_u64_spec(q.skip(k + 1)) {
                    Some(id) => Some((typ, id)),
                    None => None,
                }
            }
        },
    }
}

pub fn parse_qualified_id(qualified_id: &str) -> (r: Result<(CardType, u64), Error>)
    ensures
        match r {
            Ok(p) => qualified_spec(qualified_id@) == Some(p),
            Err(e) => qualified_spec(qualified_id@) is None && e is DatabaseError,
        },
{
    let n = qualified_id.unicode_len();
    let slash = match find_char(qualified_id, '/') {
        Some(k) => k,
        None => {
            return Err(Error::DatabaseError(String::from_str("card link is missing /")));
        },
    };
    proof {
        crate::text::lemma_index_from_bounds(qualified_id@, '/', 0);
    }
    let typ = CardType::from_tag(qualified_id.substring_char(0, slash));
    if typ == CardType::Invalid {
        return Err(Error::DatabaseError(String::from_str("invalid card type")));
    }
    match parse_u64(qualified_id.substring_char(slash + 1, n)) {
        Some(id) => Ok((typ, id)),
        None => Err(Error::DatabaseError(String::from_str("invalid card ID"))),
    }
}

proof fn lemma_decimal_text(n: nat)
    ensures
        decimal_text(n).len() > 0,
        crate::text::all_digits(decimal_text(n)),
        crate::text::digits_value(decimal_text(n)) == n,
    decreases n,
{
    let digits = seq!['0', '1', '2', '3', '4', '5', '6', '7', '8', '9'];
    assert(forall|d: int| 0 <= d < 10 ==> crate::text::is_digit(#[trigger] digits[d]) && crate::text::digit_value(digits[d]) == d);
    let t = decimal_text(n);
    if n >= 10 {
        lemma_decimal_text(n / 10);
        assert(t.drop_last() == decimal_text(n / 10));
        assert(t.last() == digits[(n % 10) as int]);
        assert forall|i: int| 0 <= i < t.len() implies crate::text::is_digit(#[trigger] t[i]) by {
            if i < t.len() - 1 {
                assert(t[i] == decimal_text(n / 10)[i]);
            }
        }
        assert(crate::text::digit_value(t.last()) == n % 10);
        assert(n == (n / 10) * 10 + n % 10);
    } else {
        assert(t.drop_last() =~= Seq::<char>::empty());
        assert(crate::text::digits_value(t.drop_last()) == 0);
        assert(t.last() == digits[n as int]);
        assert(crate::text::digit_value(t.last()) == n);
    }
}

proof fn lemma_tag_reads_back(t: CardType)
    requires
        t.is_card(),
    ensures
        CardType::from_tag_spec(t.tag()) == t,
        index_of(t.tag(), '/') is None,
{
    reveal_strlit("project");
    reveal_strlit("task");
    reveal_strlit("status");
    reveal_strlit("timelog");
    reveal_strlit("book");
    reveal_strlit("purchase");
    reveal_strlit("metric");
    reveal_strlit("word");
    reveal_strlit("note");
    reveal_strlit("thought");
    reveal_strlit("achievement");
    reveal_strlit("notebook");
    reveal_with_fuel(crate::text::index_from, 13);
    match t {
        CardType::Timelog => {
            assert("timelog"@[0] != "project"@[0]);
        },
        CardType::Book => {
            assert("book"@[0] != "task"@[0]);
        },
        CardType::Metric => {
            assert("metric"@[0] != "status"@[0]);
        },
        CardType::Word => {
            assert("word"@[0] != "task"@[0]);
            assert("word"@[0] != "book"@[0]);
        },
        CardType::Note => {
            assert("note"@[0] != "task"@[0]);
            assert("note"@[0] != "book"@[0]);
            assert("note"@[0] != "word"@[0]);
        },
        CardType::Thought => {
            assert("thought"@[0] != "project"@[0]);
            assert("thought"@[1] != "timelog"@[1]);
        },
        CardType::Notebook => {
            assert("notebook"@[0] != "purchase"@[0]);
        },
        _ => {},
    }
}

/// The text form of a card's identity reads back as that identity.
pub proof fn law_qualified_round_trip(typ: CardType, id: u64)
    requires
        typ.is_card(),
    ensures
        qualified_spec(qualified_text(typ, id)) == Some((typ, id)),
{
    let q = qualified_text(typ, id);
    let tag = typ.tag();
    let d = decimal_text(id as nat);
    lemma_tag_reads_back(typ);
    reveal_strlit("/");
    lemma_decimal_text(id as nat);
    crate::text::lemma_index_from_bounds(tag, '/', 0);
    crate::text::lemma_index_from_bounds(q, '/', 0);
    assert(q[tag.len() as int] == '/');
    assert(index_of(q, '/') == Some(tag.len() as int)) by {
        if index_of(q, '/') is Some {
            let k = index_of(q, '/')->0;
            if k < tag.len() {
                assert(q[k] == tag[k]);
            }
        }
    }
    assert(q.take(tag.len() as int) =~= tag);
    assert(q.skip(tag.len() as int + 1) =~= d);
    assert(d[0] != '+');
    assert(crate::text::unsigned_body(d) == d);
}

/// A link of a card to another: an optional role, and the card it points to.
#[derive(Debug, Clone)]
pub struct LinkDescriptor {
    pub role: String,
    pub target_type: CardType,
    pub target_id: u64,
}

/// What `role:type/id` or `type/id` says: the role is what comes before the
/// first `:`, empty when there is none.
pub open spec fn link_spec(s: Seq<char>) -> Option<(Seq<char>, CardType, u64)> {
    let (role, target) = match index_of(s, ':') {
        Some(k) => (s.take(k), s.skip(k + 1)),
        None => (Seq::empty(), s),
    };
    match qualified_spec(target) {
        Some((typ, id)) => Some((role, typ, id)),
        None => None,
    }
}

pub fn parse_link(s: &str) -> (r: Result<LinkDescriptor, Error>)
    ensures
        match r {
            Ok(l) => link_spec(s@) == Some((l.role@, l.target_type, l.target_id)),
            Err(e) => link_spec(s@) is None && e is DatabaseError,
        },
{
    let n = s.unicode_len();
    proof {
        crate::text::lemma_index_from_bounds(s@, ':', 0);
    }
    let (role, target) = match find_char(s, ':') {
        Some(k) => (s.substring_char(0, k), s.substring_char(k + 1, n)),
        None => {
            assert(s@.skip(0) =~= s@);
            proof {
                reveal_strlit("");
            }
            ("", s)
        },
    };
    match parse_qualified_id(target) {
        Ok((typ, id)) => Ok(LinkDescriptor { role: String::from_str(role), target_type: typ, target_id: id }),
        Err(e) => Err(e),
    }
}

} // verus!
