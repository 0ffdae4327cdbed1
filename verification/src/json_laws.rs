//! What is written as JSON reads back, and how members add up.
use vstd::prelude::*;
use crate::bytes::{byte_text, bytes_come_back};
use crate::json::{
    advance, array_text, bare, bare_end, bare_start, coded_string, elements_of, enclosed, escaped,
    escapes, field_of, json_ignorable, json_space, json_string, member_of, member_text, members_in,
    members_of, object_text, outset, parts_of, pieces, place_at, quoted, reads_back, separates,
    separator_from, skippable, strings_in, strings_of, Coding, FieldView, MemberView, Place,
};
use crate::text::{joined, padding_is_trimmed, trimmed, white_space};

verus! {

/// A text that can stand as a value inside an object or an array: it has something in it, its
/// brackets and strings close in order, and no comma or colon of it separates.
pub open spec fn whole(t: Seq<char>) -> bool {
    &&& t.len() > 0
    &&& !json_space(t[0])
    &&& place_at(t, t.len() as int) == outset()
    &&& forall|i: int| 0 <= i <= t.len() ==> (#[trigger] place_at(t, i)).depth >= 0
    &&& forall|i: int| !(#[trigger] separates(t, ',', i))
    &&& forall|i: int| !(#[trigger] separates(t, ':', i))
}

/// A scan of `text` opens a string at the first character, keeps it open until the last, and ends
/// outside of it.
spec fn string_token(text: Seq<char>) -> bool {
    &&& text.len() >= 2
    &&& text[0] == '"'
    &&& forall|i: int| 1 <= i < text.len() ==> (#[trigger] place_at(text, i)).quoted
    &&& place_at(text, text.len() as int) == outset()
}

/// A text whose brackets and strings close in order.
spec fn closed_text(t: Seq<char>) -> bool {
    &&& place_at(t, t.len() as int) == outset()
    &&& forall|i: int| 0 <= i <= t.len() ==> (#[trigger] place_at(t, i)).depth >= 0
}

/// `separator_from` says what it is meant to say.
proof fn lemma_separator_from(s: Seq<char>, separator: char, i: int)
    requires
        0 <= i <= s.len(),
    ensures
        i <= separator_from(s, separator, i) <= s.len(),
        forall|j: int| i <= j < separator_from(s, separator, i) ==> !separates(s, separator, j),
        separator_from(s, separator, i) < s.len() ==> separates(
            s,
            separator,
            separator_from(s, separator, i),
        ),
    decreases s.len() - i,
{
    if i < s.len() && !separates(s, separator, i) {
        lemma_separator_from(s, separator, i + 1);
    }
}

proof fn lemma_place_before(a: Seq<char>, b: Seq<char>, i: int)
    requires
        0 <= i <= a.len(),
    ensures
        place_at(a + b, i) == place_at(a, i),
    decreases i,
{
    if i > 0 {
        lemma_place_before(a, b, i - 1);
    }
}

proof fn lemma_place_after(a: Seq<char>, b: Seq<char>, j: int)
    requires
        place_at(a, a.len() as int) == outset(),
        0 <= j <= b.len(),
    ensures
        place_at(a + b, a.len() + j) == place_at(b, j),
    decreases j,
{
    if j == 0 {
        lemma_place_before(a, b, a.len() as int);
    } else {
        lemma_place_after(a, b, j - 1);
        assert((a + b)[a.len() + j - 1] == b[j - 1]);
    }
}

proof fn lemma_place_inside(open: char, b: Seq<char>, close: char, j: int)
    requires
        open == '{' || open == '[',
        0 <= j <= b.len(),
    ensures
        place_at(seq![open] + b + seq![close], 1 + j) == (Place {
            depth: place_at(b, j).depth + 1,
            ..place_at(b, j)
        }),
    decreases j,
{
    let w = seq![open] + b + seq![close];
    if j == 0 {
        assert(place_at(w, 0) == outset());
        assert(place_at(w, 1) == advance(outset(), w[0]));
    } else {
        lemma_place_inside(open, b, close, j - 1);
        assert(w[j] == b[j - 1]);
    }
}

proof fn lemma_closed_concat(a: Seq<char>, b: Seq<char>)
    requires
        closed_text(a),
        closed_text(b),
    ensures
        closed_text(a + b),
{
    assert forall|i: int| 0 <= i <= (a + b).len() implies (#[trigger] place_at(a + b, i)).depth
        >= 0 by {
        if i <= a.len() {
            lemma_place_before(a, b, i);
            assert(place_at(a, i).depth >= 0);
        } else {
            lemma_place_after(a, b, i - a.len());
            assert(place_at(b, i - a.len()).depth >= 0);
        }
    }
    lemma_place_after(a, b, b.len() as int);
}

proof fn lemma_closed_mark(c: char)
    requires
        c == ',' || c == ':',
    ensures
        closed_text(seq![c]),
{
    let t = seq![c];
    assert(place_at(t, 0) == outset());
    assert(place_at(t, 1) == advance(place_at(t, 0), t[0]));
}

/// Brackets around a text whose brackets and strings close in order make it whole.
proof fn lemma_bracketed_is_whole(open: char, b: Seq<char>, close: char)
    requires
        (open == '{' && close == '}') || (open == '[' && close == ']'),
        closed_text(b),
    ensures
        whole(seq![open] + b + seq![close]),
{
    let w = seq![open] + b + seq![close];
    let n = b.len() as int;
    lemma_place_inside(open, b, close, n);
    assert(w[n + 1] == close);
    assert(place_at(w, n + 2) == advance(place_at(w, n + 1), close));
    assert forall|i: int| 0 <= i <= w.len() implies (#[trigger] place_at(w, i)).depth >= 0 by {
        if 1 <= i <= n + 1 {
            lemma_place_inside(open, b, close, i - 1);
            assert(place_at(b, i - 1).depth >= 0);
        }
    }
    assert forall|i: int| !separates(w, ',', i) && !separates(w, ':', i) by {
        if 1 <= i <= n {
            lemma_place_inside(open, b, close, i - 1);
            assert(place_at(b, i - 1).depth >= 0);
        } else if i == n + 1 {
            assert(w[i] == close);
        }
    }
}

proof fn lemma_token_depth(t: Seq<char>, i: int)
    requires
        string_token(t),
        0 <= i < t.len(),
    ensures
        place_at(t, i).depth == 0,
    decreases i,
{
    if i > 0 {
        lemma_token_depth(t, i - 1);
        assert(place_at(t, i) == advance(place_at(t, i - 1), t[i - 1]));
        if i == 1 {
            assert(place_at(t, 0) == outset());
        } else {
            assert(place_at(t, i - 1).quoted);
        }
    }
}

/// The place inside of a string that is not inside of a bracket.
spec fn in_string() -> Place {
    Place { depth: 0, quoted: true, escaped: false }
}

/// The way a character is written inside a string neither ends the string nor leaves an escape
/// open.
proof fn lemma_escaped_stays_inside(p: Seq<char>, c: char)
    requires
        place_at(p, p.len() as int) == in_string(),
    ensures
        place_at(p + escaped(c), (p + escaped(c)).len() as int) == in_string(),
        forall|i: int|
            p.len() <= i <= (p + escaped(c)).len() ==> (#[trigger] place_at(
                p + escaped(c),
                i,
            )).quoted,
{
    let e = escaped(c);
    let t = p + e;
    let n = p.len() as int;
    lemma_place_before(p, e, n);
    assert(place_at(t, n) == in_string());
    assert(t[n] == e[0]);
    assert(place_at(t, n + 1) == advance(place_at(t, n), t[n]));
    if e.len() > 1 {
        assert(t[n + 1] == e[1]);
        assert(place_at(t, n + 2) == advance(place_at(t, n + 1), t[n + 1]));
        if e.len() > 2 {
            assert(0 <= c as int / 16 < 2 && 0 <= c as int % 16 < 16);
            assert(t[n + 2] == e[2] && t[n + 3] == e[3] && t[n + 4] == e[4] && t[n + 5] == e[5]);
            assert(e[4] != '"' && e[4] != '\\' && e[5] != '"' && e[5] != '\\');
            assert(place_at(t, n + 3) == advance(place_at(t, n + 2), t[n + 2]));
            assert(place_at(t, n + 4) == advance(place_at(t, n + 3), t[n + 3]));
            assert(place_at(t, n + 5) == advance(place_at(t, n + 4), t[n + 4]));
            assert(place_at(t, n + 6) == advance(place_at(t, n + 5), t[n + 5]));
        }
    }
    assert forall|i: int| n <= i <= t.len() implies (#[trigger] place_at(t, i)).quoted by {
        assert(i == n || i == n + 1 || i == n + 2 || i == n + 3 || i == n + 4 || i == n + 5 || i
            == n + 6);
    }
}

proof fn lemma_escapes_stay_inside(content: Seq<char>)
    ensures
        ({
            let t = seq!['"'] + escapes(content);
            &&& place_at(t, t.len() as int) == in_string()
            &&& forall|i: int| 1 <= i <= t.len() ==> (#[trigger] place_at(t, i)).quoted
        }),
    decreases content.len(),
{
    let t = seq!['"'] + escapes(content);
    if content.len() == 0 {
        assert(t == seq!['"']);
        assert(place_at(t, 0) == outset());
        assert(place_at(t, 1) == advance(place_at(t, 0), t[0]));
    } else {
        let p = seq!['"'] + escapes(content.drop_last());
        lemma_escapes_stay_inside(content.drop_last());
        lemma_escaped_stays_inside(p, content.last());
        assert(t == p + escaped(content.last()));
        assert forall|i: int| 1 <= i <= t.len() implies (#[trigger] place_at(t, i)).quoted by {
            if i <= p.len() {
                lemma_place_before(p, escaped(content.last()), i);
                assert(place_at(p, i).quoted);
            }
        }
    }
}

/// A JSON string is one token.
proof fn lemma_quoted_is_token(content: Seq<char>)
    ensures
        string_token(quoted(content)),
{
    let p = seq!['"'] + escapes(content);
    let t = quoted(content);
    lemma_escapes_stay_inside(content);
    assert(t == p + seq!['"']);
    assert forall|i: int| 1 <= i < t.len() implies (#[trigger] place_at(t, i)).quoted by {
        lemma_place_before(p, seq!['"'], i);
        assert(place_at(p, i).quoted);
    }
    lemma_place_before(p, seq!['"'], p.len() as int);
    assert(place_at(t, t.len() as int) == advance(place_at(t, t.len() - 1), t[t.len() - 1]));
}

/// A JSON string is whole.
pub proof fn lemma_quoted_is_whole(content: Seq<char>)
    ensures
        whole(quoted(content)),
{
    let t = quoted(content);
    lemma_quoted_is_token(content);
    assert forall|i: int| 0 <= i <= t.len() implies (#[trigger] place_at(t, i)).depth >= 0 by {
        if i < t.len() {
            lemma_token_depth(t, i);
        }
    }
    assert forall|i: int| !separates(t, ',', i) && !separates(t, ':', i) by {
        if 1 <= i < t.len() {
            assert(place_at(t, i).quoted);
        }
    }
}

/// A text cut off by a separator that follows it.
proof fn lemma_first_cut(a: Seq<char>, separator: char, rest: Seq<char>)
    requires
        place_at(a, a.len() as int) == outset(),
        forall|i: int| !(#[trigger] separates(a, separator, i)),
    ensures
        separator_from(a + seq![separator] + rest, separator, 0) == a.len(),
{
    let s = a + seq![separator] + rest;
    let tail = seq![separator] + rest;
    assert(s == a + tail);
    lemma_separator_from(s, separator, 0);
    let k = separator_from(s, separator, 0);
    assert forall|j: int| 0 <= j < a.len() implies !separates(s, separator, j) by {
        lemma_place_before(a, tail, j);
        assert(!separates(a, separator, j));
    }
    lemma_place_before(a, tail, a.len() as int);
    assert(separates(s, separator, a.len() as int));
}

proof fn lemma_no_cut(a: Seq<char>, separator: char)
    requires
        forall|i: int| !(#[trigger] separates(a, separator, i)),
    ensures
        separator_from(a, separator, 0) == a.len(),
{
    lemma_separator_from(a, separator, 0);
}

/// The first part of a joined list stands in front.
proof fn lemma_joined_front(parts: Seq<Seq<char>>, mark: Seq<char>)
    requires
        parts.len() >= 2,
    ensures
        joined(parts, mark) == parts[0] + mark + joined(parts.drop_first(), mark),
    decreases parts.len(),
{
    let d = parts.drop_last();
    let f = parts.drop_first();
    if parts.len() == 2 {
        assert(joined(d, mark) == d[0]);
        assert(joined(f, mark) == f[0]);
    } else {
        lemma_joined_front(d, mark);
        assert(d.drop_first() == f.drop_last());
        assert(joined(f, mark) == joined(f.drop_last(), mark) + mark + f.last());
        assert(joined(parts, mark) == parts[0] + mark + joined(f, mark));
    }
}

proof fn lemma_joined_closed(parts: Seq<Seq<char>>)
    requires
        forall|i: int| 0 <= i < parts.len() ==> closed_text(#[trigger] parts[i]),
    ensures
        closed_text(joined(parts, seq![','])),
    decreases parts.len(),
{
    if parts.len() == 0 {
        assert(place_at(Seq::<char>::empty(), 0) == outset());
    } else if parts.len() > 1 {
        let d = parts.drop_last();
        assert forall|i: int| 0 <= i < d.len() implies closed_text(#[trigger] d[i]) by {
            assert(d[i] == parts[i]);
        }
        lemma_joined_closed(d);
        lemma_closed_mark(',');
        lemma_closed_concat(joined(d, seq![',']), seq![',']);
        lemma_closed_concat(joined(d, seq![',']) + seq![','], parts.last());
    }
}

/// What commas join, commas cut apart.
proof fn lemma_pieces_of_joined(parts: Seq<Seq<char>>)
    requires
        parts.len() > 0,
        forall|i: int|
            0 <= i < parts.len() ==> {
                let p = #[trigger] parts[i];
                &&& place_at(p, p.len() as int) == outset()
                &&& forall|j: int| !(#[trigger] separates(p, ',', j))
            },
    ensures
        pieces(joined(parts, seq![',']), ',') == parts,
    decreases parts.len(),
{
    let mark = seq![','];
    if parts.len() == 1 {
        assert(parts[0] == parts[0]);
        lemma_no_cut(parts[0], ',');
        assert(parts == seq![parts[0]]);
    } else {
        let f = parts.drop_first();
        let rest = joined(f, mark);
        lemma_joined_front(parts, mark);
        lemma_first_cut(parts[0], ',', rest);
        let s = joined(parts, mark);
        assert(s == parts[0] + mark + rest);
        assert(s.take(parts[0].len() as int) == parts[0]);
        assert(s.skip(parts[0].len() as int + 1) == rest);
        assert forall|i: int| 0 <= i < f.len() implies {
            let p = #[trigger] f[i];
            &&& place_at(p, p.len() as int) == outset()
            &&& forall|j: int| !(#[trigger] separates(p, ',', j))
        } by {
            assert(f[i] == parts[i + 1]);
        }
        lemma_pieces_of_joined(f);
        assert(seq![parts[0]] + f == parts);
    }
}

/// What two brackets enclose is found between them.
proof fn lemma_enclosed(open: char, b: Seq<char>, close: char)
    requires
        (open == '{' && close == '}') || (open == '[' && close == ']'),
    ensures
        enclosed(seq![open] + b + seq![close], open, close) == Some(b),
{
    let w = seq![open] + b + seq![close];
    assert(w.first() == open && w.last() == close);
    assert(bare_end(bare_start(w)) == w);
    assert(w.subrange(1, w.len() - 1) == b);
}

proof fn lemma_parts_of_joined(parts: Seq<Seq<char>>)
    requires
        forall|i: int|
            0 <= i < parts.len() ==> {
                let p = #[trigger] parts[i];
                &&& p.len() > 0
                &&& !json_space(p[0])
                &&& place_at(p, p.len() as int) == outset()
                &&& forall|j: int| !(#[trigger] separates(p, ',', j))
            },
    ensures
        parts_of(joined(parts, seq![','])) == parts,
{
    let s = joined(parts, seq![',']);
    if parts.len() == 0 {
        assert(bare_start(s) == s);
        assert(parts == Seq::<Seq<char>>::empty());
    } else {
        if parts.len() > 1 {
            lemma_joined_front(parts, seq![',']);
        }
        assert(s[0] == parts[0][0]);
        assert(bare_start(s) == s);
        lemma_pieces_of_joined(parts);
    }
}

/// The elements of an array are what it was written from.
pub proof fn lemma_array_reads_back(elements: Seq<Seq<char>>)
    requires
        forall|i: int| 0 <= i < elements.len() ==> whole(#[trigger] elements[i]),
    ensures
        elements_of(array_text(elements)) == Some(elements),
        whole(array_text(elements)),
{
    let b = joined(elements, seq![',']);
    lemma_enclosed('[', b, ']');
    lemma_parts_of_joined(elements);
    lemma_joined_closed(elements);
    lemma_bracketed_is_whole('[', b, ']');
}

proof fn lemma_member_reads_back(m: MemberView)
    requires
        reads_back(m.name),
        whole(m.value),
    ensures
        member_of(Coding::Text, member_text(m)) == Some(m),
        closed_text(member_text(m)),
        member_text(m).len() > 0,
        !json_space(member_text(m)[0]),
        forall|j: int| !(#[trigger] separates(member_text(m), ',', j)),
{
    let q = quoted(m.name);
    let t = member_text(m);
    lemma_quoted_is_whole(m.name);
    lemma_first_cut(q, ':', m.value);
    assert(t.take(q.len() as int) == q);
    assert(t.skip(q.len() as int + 1) == m.value);
    lemma_closed_mark(':');
    lemma_closed_concat(q, seq![':']);
    lemma_closed_concat(q + seq![':'], m.value);
    assert(t[0] == q[0]);
    assert forall|j: int| !(#[trigger] separates(t, ',', j)) by {
        if 0 <= j < t.len() {
            if j < q.len() {
                assert(t == q + (seq![':'] + m.value));
                lemma_place_before(q, seq![':'] + m.value, j);
                assert(!separates(q, ',', j));
            } else if j > q.len() {
                let head = q + seq![':'];
                assert(t == head + m.value);
                lemma_place_after(head, m.value, j - head.len());
                assert(!separates(m.value, ',', j - head.len()));
            }
        }
    }
}

proof fn lemma_members_in(members: Seq<MemberView>)
    requires
        forall|i: int|
            0 <= i < members.len() ==> reads_back((#[trigger] members[i]).name) && whole(
                members[i].value,
            ),
    ensures
        members_in(Coding::Text, members.map_values(|m: MemberView| member_text(m))) == Some(
            members,
        ),
    decreases members.len(),
{
    let parts = members.map_values(|m: MemberView| member_text(m));
    if members.len() == 0 {
        assert(members == Seq::<MemberView>::empty());
    } else {
        let d = members.drop_last();
        assert forall|i: int| 0 <= i < d.len() implies reads_back((#[trigger] d[i]).name) && whole(
            d[i].value,
        ) by {
            assert(d[i] == members[i]);
        }
        lemma_members_in(d);
        assert(parts.drop_last() == d.map_values(|m: MemberView| member_text(m)));
        lemma_member_reads_back(members.last());
        assert(d.push(members.last()) == members);
    }
}

/// The members of an object are what it was written from.
pub proof fn lemma_object_reads_back(members: Seq<MemberView>)
    requires
        forall|i: int|
            0 <= i < members.len() ==> reads_back((#[trigger] members[i]).name) && whole(
                members[i].value,
            ),
    ensures
        members_of(Coding::Text, object_text(members)) == Some(members),
        whole(object_text(members)),
{
    let parts = members.map_values(|m: MemberView| member_text(m));
    let b = joined(parts, seq![',']);
    lemma_enclosed('{', b, '}');
    assert forall|i: int| 0 <= i < parts.len() implies {
        let p = #[trigger] parts[i];
        &&& p.len() > 0
        &&& !json_space(p[0])
        &&& closed_text(p)
        &&& forall|j: int| !(#[trigger] separates(p, ',', j))
    } by {
        assert(parts[i] == member_text(members[i]));
        lemma_member_reads_back(members[i]);
    }
    lemma_parts_of_joined(parts);
    lemma_members_in(members);
    assert forall|i: int| 0 <= i < parts.len() implies closed_text(#[trigger] parts[i]) by {}
    lemma_joined_closed(parts);
    lemma_bracketed_is_whole('{', b, '}');
}

/// JSON white space is white space: where what is left without it neither begins nor ends with
/// white space, trimming leaves the same.
pub proof fn lemma_bare_is_trimmed(text: Seq<char>)
    requires
        bare(text).len() > 0,
        !white_space(bare(text).first()),
        !white_space(bare(text).last()),
    ensures
        trimmed(text) == bare(text),
        text.len() > 0,
        json_space(text.first()) || text.first() == bare(text).first(),
        json_space(text.last()) || text.last() == bare(text).last(),
{
    let t = bare_start(text);
    lemma_bare_start(text);
    lemma_bare_end(t);
    let n = text.len() - t.len();
    let before = text.take(n);
    let after = t.skip(bare(text).len() as int);
    assert(text == before + bare(text) + after);
    padding_is_trimmed(before, bare(text), after);
    assert(trimmed(bare(text)) == bare(text));
}

proof fn lemma_bare_start(s: Seq<char>)
    ensures
        bare_start(s).len() <= s.len(),
        bare_start(s) == s.skip(s.len() - bare_start(s).len()),
        forall|i: int| 0 <= i < s.len() - bare_start(s).len() ==> json_space(#[trigger] s[i]),
    decreases s.len(),
{
    if s.len() > 0 && json_space(s.first()) {
        let d = s.drop_first();
        lemma_bare_start(d);
        assert forall|i: int| 0 <= i < s.len() - bare_start(s).len() implies json_space(
            #[trigger] s[i],
        ) by {
            if i > 0 {
                assert(s[i] == d[i - 1]);
            }
        }
    }
}

proof fn lemma_bare_end(s: Seq<char>)
    ensures
        bare_end(s).len() <= s.len(),
        bare_end(s) == s.take(bare_end(s).len() as int),
        forall|i: int| bare_end(s).len() <= i < s.len() ==> json_space(#[trigger] s[i]),
    decreases s.len(),
{
    if s.len() > 0 && json_space(s.last()) {
        lemma_bare_end(s.drop_last());
        assert forall|i: int| bare_end(s).len() <= i < s.len() implies json_space(
            #[trigger] s[i],
        ) by {
            if i < s.len() - 1 {
                assert(s[i] == s.drop_last()[i]);
            }
        }
    }
}

/// An object is not an array.
pub proof fn lemma_object_has_no_elements(members: Seq<MemberView>)
    ensures
        elements_of(object_text(members)) is None,
{
    let t = object_text(members);
    assert(t.first() == '{' && t.last() == '}');
    assert(bare_end(bare_start(t)) == t);
}

/// A string is not an array.
pub proof fn lemma_string_has_no_elements(content: Seq<char>)
    ensures
        elements_of(quoted(content)) is None,
{
    let t = quoted(content);
    assert(t.first() == '"' && t.last() == '"');
    assert(bare_end(bare_start(t)) == t);
}

proof fn lemma_strings_in(list: Seq<Seq<char>>)
    requires
        forall|i: int| 0 <= i < list.len() ==> reads_back(#[trigger] list[i]),
    ensures
        strings_in(list.map_values(|s: Seq<char>| quoted(s))) == Some(list),
    decreases list.len(),
{
    let parts = list.map_values(|s: Seq<char>| quoted(s));
    if list.len() == 0 {
        assert(list == Seq::<Seq<char>>::empty());
    } else {
        let d = list.drop_last();
        assert forall|i: int| 0 <= i < d.len() implies reads_back(#[trigger] d[i]) by {
            assert(d[i] == list[i]);
        }
        lemma_strings_in(d);
        assert(parts.drop_last() == d.map_values(|s: Seq<char>| quoted(s)));
        assert(reads_back(list[list.len() - 1]));
        assert(d.push(list.last()) == list);
    }
}

/// A list of strings is what it was written from.
pub proof fn lemma_strings_read_back(list: Seq<Seq<char>>)
    requires
        forall|i: int| 0 <= i < list.len() ==> reads_back(#[trigger] list[i]),
    ensures
        strings_of(array_text(list.map_values(|s: Seq<char>| quoted(s)))) == Some(list),
        whole(array_text(list.map_values(|s: Seq<char>| quoted(s)))),
{
    let parts = list.map_values(|s: Seq<char>| quoted(s));
    assert forall|i: int| 0 <= i < parts.len() implies whole(#[trigger] parts[i]) by {
        lemma_quoted_is_whole(list[i]);
    }
    lemma_array_reads_back(parts);
    lemma_strings_in(list);
}

/// What two lists of members say of a name together.
pub open spec fn together(a: FieldView, b: FieldView) -> FieldView {
    match (a, b) {
        (FieldView::Absent, _) => b,
        (_, FieldView::Absent) => a,
        _ => FieldView::Repeated,
    }
}

/// Members are found, missed and seen to be repeated in two lists one after the other as in both
/// taken together.
pub proof fn members_add_up(a: Seq<MemberView>, b: Seq<MemberView>, name: Seq<char>)
    ensures
        field_of(a + b, name) == together(field_of(a, name), field_of(b, name)),
    decreases b.len(),
{
    if b.len() == 0 {
        assert(a + b == a);
    } else {
        assert((a + b).drop_last() == a + b.drop_last());
        assert((a + b).last() == b.last());
        members_add_up(a, b.drop_last(), name);
    }
}

/// The order of members does not matter.
pub proof fn members_may_change_places(
    a: Seq<MemberView>,
    b: Seq<MemberView>,
    c: Seq<MemberView>,
    d: Seq<MemberView>,
    name: Seq<char>,
)
    ensures
        field_of(a + b + c + d, name) == field_of(a + c + b + d, name),
{
    members_add_up(a, b, name);
    members_add_up(a + b, c, name);
    members_add_up(a + b + c, d, name);
    members_add_up(a, c, name);
    members_add_up(a + c, b, name);
    members_add_up(a + c + b, d, name);
}

/// A member of another name does not matter.
pub proof fn other_members_do_not_count(
    a: Seq<MemberView>,
    m: MemberView,
    b: Seq<MemberView>,
    name: Seq<char>,
)
    requires
        m.name != name,
    ensures
        field_of(a + seq![m] + b, name) == field_of(a + b, name),
{
    let one = seq![m];
    assert(one.drop_last() == Seq::<MemberView>::empty());
    assert(one.last() == m);
    assert(field_of(one.drop_last(), name) == FieldView::Absent);
    assert(field_of(one, name) == FieldView::Absent);
    members_add_up(a, one, name);
    members_add_up(a + one, b, name);
    members_add_up(a, b, name);
}

// ---------------------------------------------------------------------------------------------
// Cutting, with whatever white space
// ---------------------------------------------------------------------------------------------

/// Nothing but JSON white space.
pub open spec fn spaces(s: Seq<char>) -> bool {
    forall|i: int| 0 <= i < s.len() ==> json_space(#[trigger] s[i])
}

/// Not just JSON white space.
pub open spec fn has_ink(s: Seq<char>) -> bool {
    exists|i: int| 0 <= i < s.len() && !json_space(#[trigger] s[i])
}

/// A text whose strings and brackets are closed at its end, and of which no comma separates.
pub open spec fn solid(t: Seq<char>) -> bool {
    &&& place_at(t, t.len() as int) == outset()
    &&& forall|i: int| !(#[trigger] separates(t, ',', i))
}

proof fn lemma_bare_start_padded(a: Seq<char>, s: Seq<char>)
    requires
        spaces(a),
    ensures
        bare_start(a + s) == bare_start(s),
    decreases a.len(),
{
    if a.len() == 0 {
        assert(a + s == s);
    } else {
        assert(json_space(a[0]));
        assert((a + s).drop_first() == a.drop_first() + s);
        assert forall|i: int| 0 <= i < a.drop_first().len() implies json_space(
            #[trigger] a.drop_first()[i],
        ) by {
            assert(a.drop_first()[i] == a[i + 1]);
        }
        lemma_bare_start_padded(a.drop_first(), s);
    }
}

proof fn lemma_bare_end_padded(s: Seq<char>, b: Seq<char>)
    requires
        spaces(b),
    ensures
        bare_end(s + b) == bare_end(s),
    decreases b.len(),
{
    if b.len() == 0 {
        assert(s + b == s);
    } else {
        assert(json_space(b[b.len() - 1]));
        assert((s + b).drop_last() == s + b.drop_last());
        assert forall|i: int| 0 <= i < b.drop_last().len() implies json_space(
            #[trigger] b.drop_last()[i],
        ) by {
            assert(b.drop_last()[i] == b[i]);
        }
        lemma_bare_end_padded(s, b.drop_last());
    }
}

/// JSON white space around a text is taken off, and nothing else.
pub proof fn only_space_is_taken_off(before: Seq<char>, t: Seq<char>, after: Seq<char>)
    requires
        spaces(before),
        spaces(after),
        t.len() > 0 ==> !json_space(t[0]) && !json_space(t[t.len() - 1]),
    ensures
        bare(before + t + after) == t,
{
    assert(before + t + after == before + (t + after));
    lemma_bare_start_padded(before, t + after);
    if t.len() > 0 {
        assert((t + after)[0] == t[0]);
        assert(bare_start(t + after) == t + after);
        lemma_bare_end_padded(t, after);
        assert(t.last() == t[t.len() - 1]);
    } else {
        assert(t + after == after + t);
        lemma_bare_start_padded(after, t);
    }
}

/// Only white space leaves nothing.
proof fn lemma_ink_is_left(s: Seq<char>)
    ensures
        has_ink(s) <==> bare_start(s).len() > 0,
{
    lemma_bare_start(s);
    if bare_start(s).len() > 0 {
        let k = s.len() - bare_start(s).len();
        assert(bare_start(s)[0] == s[k]);
        lemma_bare_start_is_bare(s);
        assert(!json_space(s[k]));
    } else if has_ink(s) {
        let i = choose|i: int| 0 <= i < s.len() && !json_space(#[trigger] s[i]);
        assert(json_space(s[i]));
    }
}

proof fn lemma_bare_start_is_bare(s: Seq<char>)
    ensures
        bare_start(s).len() > 0 ==> !json_space(bare_start(s)[0]),
    decreases s.len(),
{
    if s.len() > 0 && json_space(s.first()) {
        lemma_bare_start_is_bare(s.drop_first());
    }
}

/// The first of several parts has ink, so has all of them together.
proof fn lemma_joined_has_ink(parts: Seq<Seq<char>>)
    requires
        parts.len() > 0,
        has_ink(parts[0]),
    ensures
        has_ink(joined(parts, seq![','])),
{
    let s = joined(parts, seq![',']);
    if parts.len() > 1 {
        lemma_joined_front(parts, seq![',']);
    }
    let i = choose|i: int| 0 <= i < parts[0].len() && !json_space(#[trigger] parts[0][i]);
    assert(s[i] == parts[0][i]);
}

/// An array is cut at its commas into its elements, all of them in order, with whatever white space
/// around it and around them.
pub proof fn arrays_are_cut_at_their_commas(
    before: Seq<char>,
    elements: Seq<Seq<char>>,
    after: Seq<char>,
)
    requires
        spaces(before),
        spaces(after),
        forall|i: int|
            0 <= i < elements.len() ==> solid(#[trigger] elements[i]) && has_ink(elements[i]),
    ensures
        elements_of(before + (seq!['['] + joined(elements, seq![',']) + seq![']']) + after) == Some(
            elements,
        ),
{
    let b = joined(elements, seq![',']);
    let w = seq!['['] + b + seq![']'];
    only_space_is_taken_off(before, w, after);
    assert(w.subrange(1, w.len() - 1) == b);
    if elements.len() > 0 {
        assert(solid(elements[0]) && has_ink(elements[0]));
        lemma_joined_has_ink(elements);
        lemma_ink_is_left(b);
        assert forall|i: int| 0 <= i < elements.len() implies {
            let p = #[trigger] elements[i];
            &&& place_at(p, p.len() as int) == outset()
            &&& forall|j: int| !(#[trigger] separates(p, ',', j))
        } by {
            assert(solid(elements[i]));
        }
        lemma_pieces_of_joined(elements);
    } else {
        assert(bare_start(b) == b);
        assert(elements == Seq::<Seq<char>>::empty());
    }
}

/// An array that holds nothing but white space has no elements.
pub proof fn blank_arrays_are_empty(before: Seq<char>, inside: Seq<char>, after: Seq<char>)
    requires
        spaces(before),
        spaces(inside),
        spaces(after),
    ensures
        elements_of(before + (seq!['['] + inside + seq![']']) + after) == Some(
            Seq::<Seq<char>>::empty(),
        ),
{
    let w = seq!['['] + inside + seq![']'];
    only_space_is_taken_off(before, w, after);
    assert(w.subrange(1, w.len() - 1) == inside);
    lemma_ink_is_left(inside);
}

/// What has no brackets around it, but for white space, is no array; and nothing of an array is
/// lost: joined again by commas, its elements are what the brackets enclose.
pub proof fn arrays_are_their_elements(text: Seq<char>, elements: Seq<Seq<char>>)
    requires
        elements_of(text) == Some(elements),
    ensures
        bare(text).len() >= 2,
        bare(text)[0] == '[',
        bare(text)[bare(text).len() - 1] == ']',
        elements.len() > 0 ==> joined(elements, seq![',']) == bare(text).subrange(
            1,
            bare(text).len() - 1,
        ),
        elements.len() == 0 ==> spaces(bare(text).subrange(1, bare(text).len() - 1)),
{
    let inner = bare(text).subrange(1, bare(text).len() - 1);
    lemma_ink_is_left(inner);
    lemma_pieces_join(inner, ',');
}

/// What is cut apart is joined again by what it was cut at.
proof fn lemma_pieces_join(s: Seq<char>, separator: char)
    ensures
        pieces(s, separator).len() > 0,
        joined(pieces(s, separator), seq![separator]) == s,
    decreases s.len(),
{
    let k = separator_from(s, separator, 0);
    lemma_separator_from(s, separator, 0);
    let ps = pieces(s, separator);
    if k < s.len() {
        lemma_pieces_join(s.skip(k + 1), separator);
        let rest = pieces(s.skip(k + 1), separator);
        lemma_joined_front(ps, seq![separator]);
        assert(ps.drop_first() == rest);
        assert(s == s.take(k) + seq![separator] + s.skip(k + 1));
    }
}

/// A part of an object: the text of its name, and the member that it holds.
pub struct PartView {
    pub label: Seq<char>,
    pub member: MemberView,
}

/// The text of a part.
pub open spec fn part_text(p: PartView) -> Seq<char> {
    p.label + seq![':'] + p.member.value
}

/// The text of the name reads as the name, and ends before the first colon that separates.
pub open spec fn well_labelled(coding: Coding, p: PartView) -> bool {
    &&& coded_string(coding, p.label) == Some(p.member.name)
    &&& place_at(p.label, p.label.len() as int) == outset()
    &&& forall|i: int| !(#[trigger] separates(p.label, ':', i))
    &&& solid(part_text(p))
}

/// The parts of an object hold its members exactly where each holds one of them, in order.
pub proof fn parts_hold_members_one_by_one(
    coding: Coding,
    parts: Seq<Seq<char>>,
    members: Seq<MemberView>,
)
    ensures
        members_in(coding, parts) == Some(members) <==> parts.len() == members.len() && forall|
            i: int,
        |
            0 <= i < parts.len() ==> member_of(coding, #[trigger] parts[i]) == Some(members[i]),
    decreases parts.len(),
{
    if parts.len() > 0 {
        let d = parts.drop_last();
        let one_by_one = parts.len() == members.len() && forall|i: int|
            0 <= i < parts.len() ==> member_of(coding, #[trigger] parts[i]) == Some(members[i]);
        if members.len() > 0 {
            let e = members.drop_last();
            parts_hold_members_one_by_one(coding, d, e);
            assert(e.push(members.last()) == members);
            if one_by_one {
                assert(member_of(coding, parts[parts.len() - 1]) == Some(members.last()));
                assert forall|i: int| 0 <= i < d.len() implies member_of(coding, #[trigger] d[i])
                    == Some(e[i]) by {
                    assert(d[i] == parts[i]);
                }
            }
            if members_in(coding, parts) == Some(members) {
                let ms = members_in(coding, d)->0;
                assert(ms.push(member_of(coding, parts.last())->0) == members);
                assert(ms == e);
                assert(member_of(coding, parts.last())->0 == members.last());
                assert forall|i: int| 0 <= i < parts.len() implies member_of(
                    coding,
                    #[trigger] parts[i],
                ) == Some(members[i]) by {
                    if i < d.len() {
                        assert(d[i] == parts[i]);
                    }
                }
            }
        }
    } else {
        if members.len() == 0 {
            assert(members == Seq::<MemberView>::empty());
        }
    }
}

/// The parts of an array hold strings exactly where each holds one of them, in order.
pub proof fn parts_hold_strings_one_by_one(parts: Seq<Seq<char>>, strings: Seq<Seq<char>>)
    ensures
        strings_in(parts) == Some(strings) <==> parts.len() == strings.len() && forall|i: int|
            0 <= i < parts.len() ==> json_string(#[trigger] parts[i]) == Some(strings[i]),
    decreases parts.len(),
{
    if parts.len() > 0 {
        let d = parts.drop_last();
        let one_by_one = parts.len() == strings.len() && forall|i: int|
            0 <= i < parts.len() ==> json_string(#[trigger] parts[i]) == Some(strings[i]);
        if strings.len() > 0 {
            let e = strings.drop_last();
            parts_hold_strings_one_by_one(d, e);
            assert(e.push(strings.last()) == strings);
            if one_by_one {
                assert(json_string(parts[parts.len() - 1]) == Some(strings.last()));
                assert forall|i: int| 0 <= i < d.len() implies json_string(#[trigger] d[i]) == Some(
                    e[i],
                ) by {
                    assert(d[i] == parts[i]);
                }
            }
            if strings_in(parts) == Some(strings) {
                let ss = strings_in(d)->0;
                assert(ss.push(json_string(parts.last())->0) == strings);
                assert(ss == e);
                assert(json_string(parts.last())->0 == strings.last());
                assert forall|i: int| 0 <= i < parts.len() implies json_string(#[trigger] parts[i])
                    == Some(strings[i]) by {
                    if i < d.len() {
                        assert(d[i] == parts[i]);
                    }
                }
            }
        }
    } else {
        if strings.len() == 0 {
            assert(strings == Seq::<Seq<char>>::empty());
        }
    }
}

/// An object is cut at its commas and colons into its members, all of them in order, whether it is
/// text or bytes, with whatever white space around it and in it.
pub proof fn objects_are_cut_at_their_commas(
    coding: Coding,
    before: Seq<char>,
    parts: Seq<PartView>,
    after: Seq<char>,
)
    requires
        spaces(before),
        spaces(after),
        forall|i: int| 0 <= i < parts.len() ==> well_labelled(coding, #[trigger] parts[i]),
    ensures
        members_of(
            coding,
            before + (seq!['{'] + joined(
                parts.map_values(|p: PartView| part_text(p)),
                seq![','],
            ) + seq!['}']) + after,
        ) == Some(parts.map_values(|p: PartView| p.member)),
        elements_of(
            before + (seq!['{'] + joined(
                parts.map_values(|p: PartView| part_text(p)),
                seq![','],
            ) + seq!['}']) + after,
        ) is None,
{
    let list = parts.map_values(|p: PartView| part_text(p));
    let members = parts.map_values(|p: PartView| p.member);
    let b = joined(list, seq![',']);
    let w = seq!['{'] + b + seq!['}'];
    only_space_is_taken_off(before, w, after);
    assert(w.subrange(1, w.len() - 1) == b);
    assert forall|i: int| 0 <= i < list.len() implies member_of(coding, #[trigger] list[i])
        == Some(members[i]) && solid(list[i]) by {
        let p = parts[i];
        assert(well_labelled(coding, p));
        let t = part_text(p);
        lemma_first_cut(p.label, ':', p.member.value);
        assert(t.take(p.label.len() as int) == p.label);
        assert(t.skip(p.label.len() as int + 1) == p.member.value);
    }
    parts_hold_members_one_by_one(coding, list, members);
    if list.len() > 0 {
        let p = parts[0];
        assert(list[0][p.label.len() as int] == ':');
        assert(has_ink(list[0]));
        lemma_joined_has_ink(list);
        lemma_ink_is_left(b);
        assert forall|i: int| 0 <= i < list.len() implies {
            let p = #[trigger] list[i];
            &&& place_at(p, p.len() as int) == outset()
            &&& forall|j: int| !(#[trigger] separates(p, ',', j))
        } by {
            assert(solid(list[i]));
        }
        lemma_pieces_of_joined(list);
    } else {
        assert(bare_start(b) == b);
        assert(list == Seq::<Seq<char>>::empty());
    }
}

/// A member is found by its name wherever it stands, where no other has that name; it is missing
/// where none has it; and it is repeated where two have it.
pub proof fn members_are_found_by_their_names(
    members: Seq<MemberView>,
    name: Seq<char>,
    i: int,
    j: int,
)
    ensures
        field_of(members, name) is Absent <==> forall|k: int|
            0 <= k < members.len() ==> (#[trigger] members[k]).name != name,
        0 <= i < members.len() && members[i].name == name && (forall|k: int|
            0 <= k < members.len() && k != i ==> (#[trigger] members[k]).name != name) ==> field_of(
            members,
            name,
        ) == FieldView::Once(members[i].value),
        0 <= i < j < members.len() && members[i].name == name && members[j].name == name
            ==> field_of(members, name) is Repeated,
    decreases members.len(),
{
    if members.len() > 0 {
        let d = members.drop_last();
        let n = members.len() - 1;
        members_are_found_by_their_names(d, name, i, j);
        assert(members[n] == members.last());
        assert(forall|k: int| 0 <= k < d.len() ==> (#[trigger] d[k]) == members[k]);
        assert(forall|k: int| 0 <= k < n ==> (#[trigger] members[k]) == d[k]);
    }
}

/// Bytes that are UTF-8 hold the string that their text holds, those that are not hold none, and
/// what may be skipped is asked of the very bytes.
pub proof fn bytes_hold_what_their_text_holds(text: Seq<char>, bytes: Seq<u8>)
    ensures
        coded_string(Coding::Text, text) == json_string(text),
        coded_string(Coding::Bytes, byte_text(vstd::utf8::encode_utf8(text))) == json_string(text),
        !vstd::utf8::valid_utf8(bytes) ==> coded_string(Coding::Bytes, byte_text(bytes)) is None,
        skippable(Coding::Bytes, byte_text(bytes)) == json_ignorable(bytes),
        skippable(Coding::Text, text) == json_ignorable(vstd::utf8::encode_utf8(text)),
{
    bytes_come_back(bytes);
    bytes_come_back(vstd::utf8::encode_utf8(text));
    vstd::utf8::encode_utf8_valid_utf8(text);
    vstd::utf8::encode_utf8_decode_utf8(text);
}

/// An array holds strings exactly where each of its elements is one of them, in order.
pub proof fn arrays_hold_strings_one_by_one(text: Seq<char>, strings: Seq<Seq<char>>)
    ensures
        strings_of(text) == Some(strings) <==> {
            &&& elements_of(text) is Some
            &&& (elements_of(text)->0).len() == strings.len()
            &&& forall|i: int|
                0 <= i < strings.len() ==> json_string(#[trigger] (elements_of(text)->0)[i])
                    == Some(strings[i])
        },
{
    if elements_of(text) is Some {
        parts_hold_strings_one_by_one(elements_of(text)->0, strings);
    }
}

/// What is written has no white space of its own: an array is its elements with commas between
/// them, and an object its members, each the string of its name, a colon and its value.
pub proof fn texts_are_written_compactly(elements: Seq<Seq<char>>, members: Seq<MemberView>)
    ensures
        array_text(elements) == seq!['['] + joined(elements, seq![',']) + seq![']'],
        object_text(members) == seq!['{'] + joined(
            Seq::new(
                members.len(),
                |k: int| quoted(members[k].name) + seq![':'] + members[k].value,
            ),
            seq![','],
        ) + seq!['}'],
{
    assert(members.map_values(|m: MemberView| member_text(m)) == Seq::new(
        members.len(),
        |k: int| quoted(members[k].name) + seq![':'] + members[k].value,
    ));
}

} // verus!
