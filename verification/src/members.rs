//! The members that the text of a JSON object writes, repeated ones among them.
//!
//! A parsed document keeps one member of each name. Where it matters whether a
//! name was written twice, the text itself is looked at: it is cut at the
//! braces, colons and commas of the outermost object, and only the pieces are
//! parsed.

use crate::json;
use crate::json::Json;
use crate::json::JsonView;
use crate::text;
use vstd::prelude::*;

verus! {

/// Where a reader of a JSON text stands: how many brackets are open, and
/// whether it is within a string, or behind a backslash there.
pub struct Place {
    pub depth: int,
    pub quoted: bool,
    pub escaped: bool,
}

/// The place behind one more character.
pub open spec fn beyond(p: Place, c: char) -> Place {
    if p.quoted {
        Place {
            quoted: p.escaped || c != '"',
            escaped: !p.escaped && c == '\\',
            ..p
        }
    } else if c == '"' {
        Place { quoted: true, ..p }
    } else if c == '{' || c == '[' {
        Place { depth: p.depth + 1, ..p }
    } else if c == '}' || c == ']' {
        Place { depth: p.depth - 1, ..p }
    } else {
        p
    }
}

/// The place behind a text.
pub open spec fn place(text: Seq<char>) -> Place
    decreases text.len(),
{
    if text.len() == 0 {
        Place { depth: 0, quoted: false, escaped: false }
    } else {
        beyond(place(text.drop_last()), text.last())
    }
}

/// Whether a character is a brace, colon or comma of the outermost object.
pub open spec fn parts(p: Place, c: char) -> bool {
    !p.quoted && ((p.depth == 0 && c == '{') || (p.depth == 1 && (c == ':' || c == ',' || c
        == '}')))
}

/// The pieces between the braces, colons and commas of the outermost object:
/// what stands before it, each name and each value, and what stands behind it.
pub open spec fn pieces(text: Seq<char>) -> Seq<Seq<char>>
    decreases text.len(),
{
    if text.len() == 0 {
        seq![Seq::empty()]
    } else {
        let before = pieces(text.drop_last());
        if parts(place(text.drop_last()), text.last()) {
            before.push(Seq::empty())
        } else {
            before.drop_last().push(before.last().push(text.last()))
        }
    }
}

/// The members of an object, each a name and a value as they are written.
pub open spec fn members(text: Seq<char>) -> Seq<(Seq<char>, Seq<char>)> {
    let all = pieces(text);
    Seq::new(
        if all.len() < 2 {
            0
        } else {
            ((all.len() - 2) / 2) as nat
        },
        |i: int| (all[2 * i + 1], all[2 * i + 2]),
    )
}

/// The name that a member has.
pub open spec fn name_of(m: (Seq<char>, Seq<char>)) -> Option<Seq<char>> {
    match json::json_parsed(m.0) {
        Some(JsonView::Text(name)) => Some(name),
        _ => None,
    }
}

/// Whether a text is that of an object all of whose names can be read.
pub open spec fn readable(text: Seq<char>) -> bool {
    &&& text.len() > 0 && text[0] == '{'
    &&& forall|i: int| 0 <= i < members(text).len() ==> name_of(#[trigger] members(text)[i]) is Some
}

/// The values that are written under a name, as they are written.
pub open spec fn written(ms: Seq<(Seq<char>, Seq<char>)>, name: Seq<char>) -> Seq<Seq<char>>
    decreases ms.len(),
{
    if ms.len() == 0 {
        Seq::empty()
    } else {
        let before = written(ms.drop_last(), name);
        if name_of(ms.last()) == Some(name) {
            before.push(ms.last().1)
        } else {
            before
        }
    }
}

/// Whether a name is written at most once, with a value that can be read.
pub open spec fn at_most_once(ms: Seq<(Seq<char>, Seq<char>)>, name: Seq<char>) -> bool {
    let values = written(ms, name);
    values.len() == 0 || (values.len() == 1 && json::json_parsed(values[0]) is Some)
}

/// The members of the names given, those of them that are there.
pub open spec fn listed(
    ms: Seq<(Seq<char>, Seq<char>)>,
    names: Seq<Seq<char>>,
) -> Seq<(Seq<char>, JsonView)>
    decreases names.len(),
{
    if names.len() == 0 {
        Seq::empty()
    } else {
        let before = listed(ms, names.drop_last());
        let values = written(ms, names.last());
        if values.len() == 0 {
            before
        } else {
            before.push((names.last(), json::json_parsed(values[0])->0))
        }
    }
}

/// The object that a text writes, with the members of the names given and no
/// other; none where one of these names is repeated or cannot be read.
pub open spec fn document(text: Seq<char>, names: Seq<Seq<char>>) -> Option<JsonView> {
    if readable(text) && forall|i: int|
        0 <= i < names.len() ==> at_most_once(members(text), #[trigger] names[i]) {
        Some(JsonView::Object(listed(members(text), names)))
    } else {
        None
    }
}

/// That a text writes each of the members given once, and no other.
pub open spec fn writes(text: Seq<char>, claims: Seq<(Seq<char>, JsonView)>) -> bool {
    &&& readable(text)
    &&& forall|name: Seq<char>|
        {
            let values = #[trigger] written(members(text), name);
            match json::member(claims, name) {
                Some(v) => values.len() == 1 && json::json_parsed(values[0]) == Some(v),
                None => values.len() == 0,
            }
        }
}

proof fn lemma_member_push(ms: Seq<(Seq<char>, JsonView)>, m: (Seq<char>, JsonView), n: Seq<char>)
    ensures
        json::member(ms.push(m), n) == (match json::member(ms, n) {
            Some(v) => Some(v),
            None => if m.0 == n {
                Some(m.1)
            } else {
                None
            },
        }),
    decreases ms.len(),
{
    if ms.len() == 0 {
        assert(ms.push(m).drop_first() =~= Seq::<(Seq<char>, JsonView)>::empty());
        assert(json::member(ms.push(m).drop_first(), n) is None);
    } else {
        assert(ms.push(m).drop_first() =~= ms.drop_first().push(m));
        assert(ms.push(m)[0] == ms[0]);
        lemma_member_push(ms.drop_first(), m, n);
    }
}

proof fn lemma_listed(ms: Seq<(Seq<char>, Seq<char>)>, names: Seq<Seq<char>>, n: Seq<char>)
    ensures
        json::member(listed(ms, names), n) == (if names.contains(n) && written(ms, n).len() > 0 {
            Some(json::json_parsed(written(ms, n)[0])->0)
        } else {
            None
        }),
    decreases names.len(),
{
    if names.len() > 0 {
        let rest = names.drop_last();
        lemma_listed(ms, rest, n);
        assert(names =~= rest.push(names.last()));
        assert(names.contains(n) <==> rest.contains(n) || names.last() == n) by {
            if names.contains(n) {
                let i = choose|i: int| 0 <= i < names.len() && names[i] == n;
                if i < rest.len() {
                    assert(rest[i] == n);
                }
            }
            if rest.contains(n) {
                let i = choose|i: int| 0 <= i < rest.len() && rest[i] == n;
                assert(names[i] == n);
            }
            if names.last() == n {
                assert(names[names.len() - 1] == n);
            }
        }
        let values = written(ms, names.last());
        if values.len() > 0 {
            lemma_member_push(
                listed(ms, rest),
                (names.last(), json::json_parsed(values[0])->0),
                n,
            );
        }
    }
}

/// Where a text writes the members given, reading it gives those among them
/// that were asked for.
pub proof fn lemma_document_of(
    text: Seq<char>,
    claims: Seq<(Seq<char>, JsonView)>,
    names: Seq<Seq<char>>,
)
    requires
        writes(text, claims),
    ensures
        document(text, names) is Some,
        forall|n: Seq<char>|
            names.contains(n) ==> #[trigger] json::json_field(document(text, names)->0, n)
                == json::member(claims, n),
        forall|n: Seq<char>|
            !names.contains(n) ==> (#[trigger] json::json_field(document(text, names)->0, n))
                is None,
{
    let ms = members(text);
    assert forall|i: int| 0 <= i < names.len() implies at_most_once(ms, #[trigger] names[i]) by {
        let values = written(ms, names[i]);
        assert(values.len() <= 1);
    }
    assert forall|n: Seq<char>| #[trigger] json::json_field(document(text, names)->0, n) == (
    if names.contains(n) {
        json::member(claims, n)
    } else {
        None
    }) by {
        lemma_listed(ms, names, n);
        let values = written(ms, n);
        assert(values.len() <= 1);
    }
}

fn cut(text: &str) -> (all: Vec<String>)
    ensures
        text::views(all@) == pieces(text@),
        all@.len() > 0,
{
    let cs = text::chars_of(text);
    let mut all: Vec<String> = Vec::new();
    let mut piece = String::new();
    let mut depth: i128 = 0;
    let mut quoted = false;
    let mut escaped = false;
    let mut i: usize = 0;
    assert(text@.take(0) =~= Seq::<char>::empty());
    assert(text::views(all@).push(piece@) =~= pieces(text@.take(0)));
    while i < cs.len()
        invariant
            i <= cs@.len(),
            cs@ == text@,
            place(text@.take(i as int)) == (Place { depth: depth as int, quoted, escaped }),
            text::views(all@).push(piece@) == pieces(text@.take(i as int)),
            -i <= depth <= i,
        decreases cs@.len() - i,
    {
        let c = cs[i];
        let ghost before = text@.take(i as int);
        let ghost after = text@.take(i as int + 1);
        proof {
            assert(after.drop_last() =~= before);
            assert(after.last() == c);
        }
        let ghost done = text::views(all@);
        let ghost open = piece@;
        if !quoted && ((depth == 0 && c == '{') || (depth == 1 && (c == ':' || c == ',' || c
            == '}'))) {
            all.push(piece);
            piece = String::new();
            proof {
                assert(text::views(all@) =~= done.push(open));
                assert(piece@ =~= Seq::<char>::empty());
                assert(text::views(all@).push(piece@) =~= pieces(after));
            }
        } else {
            piece.push(c);
            proof {
                assert(done.push(open).drop_last() =~= done);
                assert(done.push(open).last() == open);
                assert(text::views(all@).push(piece@) =~= pieces(after));
            }
        }
        if quoted {
            quoted = escaped || c != '"';
            escaped = !escaped && c == '\\';
        } else if c == '"' {
            quoted = true;
        } else if c == '{' || c == '[' {
            depth = depth + 1;
        } else if c == '}' || c == ']' {
            depth = depth - 1;
        }
        i = i + 1;
    }
    assert(text@.take(i as int) =~= text@);
    let ghost done = text::views(all@);
    let ghost open = piece@;
    all.push(piece);
    assert(text::views(all@) =~= done.push(open));
    all
}

/// That `v` holds the members with their names read.
pub open spec fn holds(v: Seq<(String, String)>, ms: Seq<(Seq<char>, Seq<char>)>) -> bool {
    &&& v.len() == ms.len()
    &&& forall|i: int|
        0 <= i < v.len() ==> name_of(ms[i]) == Some((#[trigger] v[i]).0@) && v[i].1@ == ms[i].1
}

fn read_members(text: &str) -> (r: Option<Vec<(String, String)>>)
    ensures
        r is Some <==> readable(text@),
        r matches Some(v) ==> holds(v@, members(text@)),
{
    if text.unicode_len() == 0 || text.get_char(0) != '{' {
        return None;
    }
    let all = cut(text);
    let ghost ms = members(text@);
    let mut v: Vec<(String, String)> = Vec::new();
    let mut i: usize = 1;
    while all.len() > 2 && i < all.len() - 2
        invariant
            1 <= i,
            i == 2 * v@.len() + 1,
            i <= all@.len() + 1,
            text::views(all@) == pieces(text@),
            ms == members(text@),
            v@.len() <= ms.len(),
            forall|k: int|
                0 <= k < v@.len() ==> name_of(ms[k]) == Some((#[trigger] v@[k]).0@) && v@[k].1@
                    == ms[k].1,
        decreases all@.len() + 2 - i,
    {
        let ghost k = v@.len() as int;
        proof {
            assert(pieces(text@)[2 * k + 1] == all@[i as int]@);
            assert(pieces(text@)[2 * k + 2] == all@[i as int + 1]@);
            assert(k < ms.len());
            assert(ms[k] == (all@[i as int]@, all@[i as int + 1]@));
        }
        let name = match json::parse(all[i].as_str()) {
            Some(Json::Text(name)) => name,
            _ => {
                assert(name_of(ms[k]) is None);
                return None;
            },
        };
        v.push((name, all[i + 1].clone()));
        i = i + 2;
    }
    assert(v@.len() == ms.len());
    assert forall|k: int| 0 <= k < ms.len() implies name_of(#[trigger] ms[k]) is Some by {
        assert(name_of(ms[k]) == Some(v@[k].0@));
    }
    Some(v)
}

fn find_value(
    v: &Vec<(String, String)>,
    name: &str,
    Ghost(ms): Ghost<Seq<(Seq<char>, Seq<char>)>>,
) -> (r: Option<Option<Json>>)
    requires
        holds(v@, ms),
    ensures
        r is Some <==> at_most_once(ms, name@),
        match r {
            None => true,
            Some(None) => written(ms, name@).len() == 0,
            Some(Some(j)) => written(ms, name@).len() == 1 && json::json_parsed(
                written(ms, name@)[0],
            ) == Some(j@),
        },
{
    let mut values: Vec<String> = Vec::new();
    let mut i: usize = 0;
    assert(text::views(values@) =~= written(ms.take(0), name@));
    while i < v.len()
        invariant
            i <= v@.len(),
            holds(v@, ms),
            text::views(values@) == written(ms.take(i as int), name@),
        decreases v@.len() - i,
    {
        let ghost before = text::views(values@);
        proof {
            assert(ms.take(i as int + 1).drop_last() =~= ms.take(i as int));
            assert(ms.take(i as int + 1).last() == ms[i as int]);
            assert(name_of(ms[i as int]) == Some(v@[i as int].0@));
        }
        if text::str_eq(v[i].0.as_str(), name) {
            values.push(v[i].1.clone());
            assert(text::views(values@) =~= before.push(v@[i as int].1@));
        }
        i = i + 1;
    }
    assert(ms.take(i as int) =~= ms);
    assert(values@.len() == written(ms, name@).len());
    if values.len() == 0 {
        Some(None)
    } else if values.len() == 1 {
        assert(written(ms, name@)[0] == values@[0]@);
        match json::parse(values[0].as_str()) {
            Some(j) => Some(Some(j)),
            None => None,
        }
    } else {
        None
    }
}

/// The object that a text writes, with the members of the names given and no
/// other; none where one of these names is repeated or cannot be read.
pub fn read_document(text: &str, names: &[&str]) -> (r: Option<Json>)
    ensures
        match r {
            Some(j) => document(text@, names@.map_values(|s: &str| s@)) == Some(j@),
            None => document(text@, names@.map_values(|s: &str| s@)) is None,
        },
{
    let v = match read_members(text) {
        Some(v) => v,
        None => {
            return None;
        },
    };
    let ghost ms = members(text@);
    let ghost wanted = names@.map_values(|s: &str| s@);
    let mut out: Vec<(String, Json)> = Vec::new();
    let ghost mut shown: Seq<(Seq<char>, JsonView)> = Seq::empty();
    let mut i: usize = 0;
    assert(wanted.take(0) =~= Seq::<Seq<char>>::empty());
    while i < names.len()
        invariant
            i <= names@.len(),
            holds(v@, ms),
            wanted == names@.map_values(|s: &str| s@),
            ms == members(text@),
            shown == listed(ms, wanted.take(i as int)),
            shown.len() == out@.len(),
            forall|k: int|
                0 <= k < out@.len() ==> shown[k] == ((#[trigger] out@[k]).0@, out@[k].1@),
            forall|k: int| 0 <= k < i ==> at_most_once(ms, #[trigger] wanted[k]),
        decreases names@.len() - i,
    {
        proof {
            assert(wanted.take(i as int + 1).drop_last() =~= wanted.take(i as int));
            assert(wanted.take(i as int + 1).last() == names@[i as int]@);
            assert(wanted[i as int] == names@[i as int]@);
        }
        match find_value(&v, names[i], Ghost(ms)) {
            None => {
                assert(!at_most_once(ms, wanted[i as int]));
                return None;
            },
            Some(None) => {},
            Some(Some(j)) => {
                proof {
                    shown = shown.push((names@[i as int]@, j@));
                }
                out.push((names[i].to_owned(), j));
            },
        }
        i = i + 1;
    }
    assert(wanted.take(i as int) =~= wanted);
    let j = Json::Object(out);
    proof {
        reveal_with_fuel(<Json as View>::view, 2);
        assert(j@->Object_0 =~= shown);
    }
    Some(j)
}

} // verus!
