//! Trimming, prefixes, lines and joining, on text seen as a sequence of characters.
use vstd::prelude::*;

verus! {

/// The characters with the Unicode property `White_Space`.
pub open spec fn white_space(c: char) -> bool {
    let u = c as u32;
    ||| 0x9 <= u <= 0xd
    ||| u == 0x20
    ||| u == 0x85
    ||| u == 0xa0
    ||| u == 0x1680
    ||| 0x2000 <= u <= 0x200a
    ||| u == 0x2028
    ||| u == 0x2029
    ||| u == 0x202f
    ||| u == 0x205f
    ||| u == 0x3000
}

/// `s` without its leading white space.
pub open spec fn trimmed_start(s: Seq<char>) -> Seq<char>
    decreases s.len(),
{
    if s.len() > 0 && white_space(s.first()) {
        trimmed_start(s.drop_first())
    } else {
        s
    }
}

/// `s` without its trailing white space.
pub open spec fn trimmed_end(s: Seq<char>) -> Seq<char>
    decreases s.len(),
{
    if s.len() > 0 && white_space(s.last()) {
        trimmed_end(s.drop_last())
    } else {
        s
    }
}

/// `s` without the white space around it.
pub open spec fn trimmed(s: Seq<char>) -> Seq<char> {
    trimmed_end(trimmed_start(s))
}

/// Nothing but white space.
pub open spec fn blank(s: Seq<char>) -> bool {
    forall|i: int| 0 <= i < s.len() ==> white_space(#[trigger] s[i])
}

/// `s` without the trailing run of `c`.
pub open spec fn without_trailing(s: Seq<char>, c: char) -> Seq<char>
    decreases s.len(),
{
    if s.len() > 0 && s.last() == c {
        without_trailing(s.drop_last(), c)
    } else {
        s
    }
}

/// `s` begins with `prefix`.
pub open spec fn begins_with(s: Seq<char>, prefix: Seq<char>) -> bool {
    prefix.len() <= s.len() && s.take(prefix.len() as int) == prefix
}

/// `s` ends with `suffix`.
pub open spec fn ends_with(s: Seq<char>, suffix: Seq<char>) -> bool {
    suffix.len() <= s.len() && s.skip(s.len() - suffix.len()) == suffix
}

/// The position of the first `c` in `s`, or the length of `s`.
pub open spec fn first_position(s: Seq<char>, c: char) -> int
    decreases s.len(),
{
    if s.len() == 0 || s.first() == c {
        0
    } else {
        1 + first_position(s.drop_first(), c)
    }
}

/// The first line of `s`. A line ends at a line feed, and a carriage return right before that line
/// feed belongs to the line's end. The empty text has no line.
pub open spec fn first_line_of(s: Seq<char>) -> Option<Seq<char>> {
    let end = first_position(s, '\n');
    if s.len() == 0 {
        None
    } else if 0 < end < s.len() && s[end - 1] == '\r' {
        Some(s.take(end - 1))
    } else {
        Some(s.take(end))
    }
}

/// The texts of `parts` one after the other, with `separator` between neighbours.
pub open spec fn joined(parts: Seq<Seq<char>>, separator: Seq<char>) -> Seq<char>
    decreases parts.len(),
{
    if parts.len() == 0 {
        Seq::empty()
    } else if parts.len() == 1 {
        parts[0]
    } else {
        joined(parts.drop_last(), separator) + separator + parts.last()
    }
}

/// The texts that a list of strings holds.
pub open spec fn texts(list: Seq<String>) -> Seq<Seq<char>> {
    list.map_values(|s: String| s@)
}

/// The text of an optional string.
pub open spec fn optional_text(text: Option<String>) -> Option<Seq<char>> {
    match text {
        Some(s) => Some(s@),
        None => None,
    }
}

/// What `String::from_utf8_lossy` makes of bytes that are not UTF-8.
pub uninterp spec fn lossy_text(bytes: Seq<u8>) -> Seq<char>;

/// The text that a program wrote as bytes.
pub open spec fn written_text(bytes: Seq<u8>) -> Seq<char> {
    if vstd::utf8::valid_utf8(bytes) {
        vstd::utf8::decode_utf8(bytes)
    } else {
        lossy_text(bytes)
    }
}

/// Calls `String::from_utf8`: the text that the bytes encode, where they are UTF-8.
#[verifier::external_body]
pub(crate) fn utf8_text(bytes: Vec<u8>) -> (text: Option<String>)
    ensures
        text is Some <==> vstd::utf8::valid_utf8(bytes@),
        text matches Some(t) ==> t@ == vstd::utf8::decode_utf8(bytes@),
{
    String::from_utf8(bytes).ok()
}

/// Calls `String::from_utf8_lossy`: the text that the bytes encode, where they are UTF-8. Where
/// they are not, which characters take the place of the bytes that are not is left to the call.
#[verifier::external_body]
pub(crate) fn any_text(bytes: &Vec<u8>) -> (text: String)
    ensures
        vstd::utf8::valid_utf8(bytes@) ==> text@ == vstd::utf8::decode_utf8(bytes@),
        !vstd::utf8::valid_utf8(bytes@) ==> text@ == lossy_text(bytes@),
{
    String::from_utf8_lossy(bytes).into_owned()
}

/// Whether `c` has the Unicode property `White_Space`.
pub fn is_white_space(c: char) -> (b: bool)
    ensures
        b == white_space(c),
{
    let u: u32 = c as u32;
    (0x9 <= u && u <= 0xd) || u == 0x20 || u == 0x85 || u == 0xa0 || u == 0x1680 || (0x2000 <= u
        && u <= 0x200a) || u == 0x2028 || u == 0x2029 || u == 0x202f || u == 0x205f || u == 0x3000
}

/// The characters of `s`.
pub fn characters(s: &str) -> (chars: Vec<char>)
    ensures
        chars@ == s@,
{
    let mut chars: Vec<char> = Vec::new();
    for c in it: s.chars()
        invariant
            it.seq() == s@,
            chars@ == s@.take(it.index() as int),
    {
        chars.push(c);
    }
    chars
}

/// `s` without the white space around it.
pub fn trim(s: &str) -> (t: &str)
    ensures
        t@ == trimmed(s@),
{
    let chars = characters(s);
    let n: usize = chars.len();
    let mut start: usize = 0;
    assert(s@.skip(0) == s@);
    while start < n && is_white_space(chars[start])
        invariant
            start <= n,
            n == chars.len(),
            chars@ == s@,
            trimmed_start(s@) == trimmed_start(s@.skip(start as int)),
        decreases n - start,
    {
        assert(s@.skip(start as int).drop_first() == s@.skip(start + 1));
        start = start + 1;
    }
    assert(trimmed_start(s@) == s@.skip(start as int));
    let mut end: usize = n;
    assert(s@.skip(start as int) == s@.subrange(start as int, end as int));
    while start < end && is_white_space(chars[end - 1])
        invariant
            start <= end <= n,
            n == chars.len(),
            chars@ == s@,
            trimmed_end(s@.skip(start as int)) == trimmed_end(
                s@.subrange(start as int, end as int),
            ),
        decreases end,
    {
        assert(s@.subrange(start as int, end as int).drop_last() == s@.subrange(
            start as int,
            end - 1,
        ));
        end = end - 1;
    }
    s.substring_char(start, end)
}

/// `s` without its trailing white space.
pub fn trim_end(s: &str) -> (t: &str)
    ensures
        t@ == trimmed_end(s@),
{
    let chars = characters(s);
    let mut end: usize = chars.len();
    assert(s@ == s@.take(end as int));
    while 0 < end && is_white_space(chars[end - 1])
        invariant
            end <= chars.len(),
            chars@ == s@,
            trimmed_end(s@) == trimmed_end(s@.take(end as int)),
        decreases end,
    {
        assert(s@.take(end as int).drop_last() == s@.take(end - 1));
        end = end - 1;
    }
    assert(s@.take(end as int) == s@.subrange(0, end as int));
    s.substring_char(0, end)
}

/// `s` without the trailing run of `c`.
pub fn trim_trailing(s: &str, c: char) -> (t: &str)
    ensures
        t@ == without_trailing(s@, c),
{
    let chars = characters(s);
    let mut end: usize = chars.len();
    assert(s@ == s@.take(end as int));
    while 0 < end && chars[end - 1] == c
        invariant
            end <= chars.len(),
            chars@ == s@,
            without_trailing(s@, c) == without_trailing(s@.take(end as int), c),
        decreases end,
    {
        assert(s@.take(end as int).drop_last() == s@.take(end - 1));
        end = end - 1;
    }
    assert(s@.take(end as int) == s@.subrange(0, end as int));
    s.substring_char(0, end)
}

/// Whether two texts are the same.
pub fn same_text(a: &str, b: &str) -> (same: bool)
    ensures
        same == (a@ == b@),
{
    let left = characters(a);
    let right = characters(b);
    if left.len() != right.len() {
        return false;
    }
    let mut i: usize = 0;
    while i < left.len()
        invariant
            i <= left.len(),
            left@ == a@,
            right@ == b@,
            left.len() == right.len(),
            forall|k: int| 0 <= k < i ==> left@[k] == right@[k],
        decreases left.len() - i,
    {
        if left[i] != right[i] {
            return false;
        }
        i = i + 1;
    }
    assert(a@ =~= b@);
    true
}

/// What follows `prefix` in `s`, where `s` begins with it.
pub fn strip_prefix<'a>(s: &'a str, prefix: &str) -> (rest: Option<&'a str>)
    ensures
        rest is Some <==> begins_with(s@, prefix@),
        rest matches Some(t) ==> t@ == s@.skip(prefix@.len() as int),
{
    let n: usize = s.unicode_len();
    let p: usize = prefix.unicode_len();
    if p <= n && same_text(s.substring_char(0, p), prefix) {
        assert(s@.subrange(0, p as int) == s@.take(p as int));
        assert(s@.subrange(p as int, n as int) == s@.skip(p as int));
        Some(s.substring_char(p, n))
    } else {
        assert(p <= n ==> s@.subrange(0, p as int) == s@.take(p as int));
        None
    }
}

/// What precedes `suffix` in `s`, where `s` ends with it.
pub fn strip_suffix<'a>(s: &'a str, suffix: &str) -> (rest: Option<&'a str>)
    ensures
        rest is Some <==> ends_with(s@, suffix@),
        rest matches Some(t) ==> t@ == s@.take(s@.len() - suffix@.len()),
{
    let n: usize = s.unicode_len();
    let p: usize = suffix.unicode_len();
    if p <= n && same_text(s.substring_char(n - p, n), suffix) {
        assert(s@.subrange(n - p, n as int) == s@.skip(n - p));
        assert(s@.subrange(0, n - p) == s@.take(n - p));
        Some(s.substring_char(0, n - p))
    } else {
        assert(p <= n ==> s@.subrange(n - p, n as int) == s@.skip(n - p));
        None
    }
}

/// The first line of `s`.
pub fn first_line(s: &str) -> (line: Option<&str>)
    ensures
        line is Some <==> first_line_of(s@) is Some,
        line matches Some(t) ==> first_line_of(s@) == Some(t@),
{
    let chars = characters(s);
    let n: usize = chars.len();
    if n == 0 {
        return None;
    }
    let mut end: usize = 0;
    assert(s@.skip(0) == s@);
    while end < n && chars[end] != '\n'
        invariant
            end <= n,
            n == chars.len(),
            chars@ == s@,
            first_position(s@, '\n') == end + first_position(s@.skip(end as int), '\n'),
        decreases n - end,
    {
        assert(s@.skip(end as int).drop_first() == s@.skip(end + 1));
        end = end + 1;
    }
    assert(first_position(s@.skip(end as int), '\n') == 0);
    assert(first_position(s@, '\n') == end);
    if 0 < end && end < n && chars[end - 1] == '\r' {
        assert(s@.subrange(0, end - 1) == s@.take(end - 1));
        Some(s.substring_char(0, end - 1))
    } else {
        assert(s@.subrange(0, end as int) == s@.take(end as int));
        Some(s.substring_char(0, end))
    }
}

/// The parts one after the other, with `separator` between neighbours.
pub fn join(parts: &Vec<String>, separator: &str) -> (text: String)
    ensures
        text@ == joined(texts(parts@), separator@),
{
    let mut text = String::new();
    let mut i: usize = 0;
    while i < parts.len()
        invariant
            i <= parts.len(),
            text@ == joined(texts(parts@).take(i as int), separator@),
        decreases parts.len() - i,
    {
        let ghost before = texts(parts@).take(i as int);
        let ghost after = texts(parts@).take(i + 1);
        assert(after.drop_last() == before);
        assert(after.last() == parts@[i as int]@);
        if i > 0 {
            text.append(separator);
        }
        text.append(parts[i].as_str());
        assert(text@ == joined(after, separator@));
        i = i + 1;
    }
    assert(texts(parts@).take(parts@.len() as int) == texts(parts@));
    text
}

/// A copy of a list of strings.
pub fn copied(list: &Vec<String>) -> (copy: Vec<String>)
    ensures
        copy@ == list@,
{
    let mut copy: Vec<String> = Vec::new();
    let mut i: usize = 0;
    while i < list.len()
        invariant
            i <= list.len(),
            copy@ == list@.take(i as int),
        decreases list.len() - i,
    {
        copy.push(list[i].clone());
        i = i + 1;
    }
    copy
}

// ---------------------------------------------------------------------------------------------
// Laws
// ---------------------------------------------------------------------------------------------

proof fn lemma_start_of_padded(a: Seq<char>, s: Seq<char>)
    requires
        blank(a),
    ensures
        trimmed_start(a + s) == trimmed_start(s),
    decreases a.len(),
{
    if a.len() == 0 {
        assert(a + s == s);
    } else {
        assert(white_space(a[0]));
        assert((a + s).first() == a[0]);
        assert((a + s).drop_first() == a.drop_first() + s);
        assert forall|i: int| 0 <= i < a.drop_first().len() implies white_space(
            #[trigger] a.drop_first()[i],
        ) by {
            assert(a.drop_first()[i] == a[i + 1]);
        }
        lemma_start_of_padded(a.drop_first(), s);
    }
}

pub(crate) proof fn lemma_end_of_padded(s: Seq<char>, b: Seq<char>)
    requires
        blank(b),
    ensures
        trimmed_end(s + b) == trimmed_end(s),
    decreases b.len(),
{
    if b.len() == 0 {
        assert(s + b == s);
    } else {
        assert(white_space(b[b.len() - 1]));
        assert((s + b).last() == b.last());
        assert((s + b).drop_last() == s + b.drop_last());
        assert forall|i: int| 0 <= i < b.drop_last().len() implies white_space(
            #[trigger] b.drop_last()[i],
        ) by {
            assert(b.drop_last()[i] == b[i]);
        }
        lemma_end_of_padded(s, b.drop_last());
    }
}

/// Either nothing is left at the start, or it begins with what is no white space; and what was cut
/// off is blank.
pub(crate) proof fn lemma_trimmed_start(s: Seq<char>)
    ensures
        trimmed_start(s).len() <= s.len(),
        trimmed_start(s) == s.skip(s.len() - trimmed_start(s).len()),
        blank(s.take(s.len() - trimmed_start(s).len())),
        trimmed_start(s).len() > 0 ==> !white_space(trimmed_start(s)[0]),
    decreases s.len(),
{
    if s.len() > 0 && white_space(s.first()) {
        let d = s.drop_first();
        lemma_trimmed_start(d);
        let n = s.len() - trimmed_start(s).len();
        assert(s.skip(n) == d.skip(n - 1));
        assert forall|i: int| 0 <= i < n implies white_space(#[trigger] s.take(n)[i]) by {
            if i > 0 {
                assert(d.take(n - 1)[i - 1] == s[i]);
                assert(white_space(d.take(n - 1)[i - 1]));
            }
        }
    } else {
        assert(s.skip(0) == s);
    }
}

pub(crate) proof fn lemma_trimmed_end(s: Seq<char>)
    ensures
        trimmed_end(s).len() <= s.len(),
        trimmed_end(s) == s.take(trimmed_end(s).len() as int),
        blank(s.skip(trimmed_end(s).len() as int)),
        trimmed_end(s).len() > 0 ==> !white_space(trimmed_end(s).last()),
    decreases s.len(),
{
    if s.len() > 0 && white_space(s.last()) {
        let d = s.drop_last();
        lemma_trimmed_end(d);
        let n = trimmed_end(s).len() as int;
        assert(s.take(n) == d.take(n));
        assert forall|i: int| 0 <= i < s.len() - n implies white_space(#[trigger] s.skip(n)[i]) by {
            if i < d.len() - n {
                assert(d.skip(n)[i] == s[i + n]);
                assert(white_space(d.skip(n)[i]));
            }
        }
    } else {
        assert(s.take(s.len() as int) == s);
    }
}

/// Blank text around a text does not change what trimming leaves of it.
pub proof fn padding_is_trimmed(before: Seq<char>, s: Seq<char>, after: Seq<char>)
    requires
        blank(before),
        blank(after),
    ensures
        trimmed(before + s + after) == trimmed(s),
{
    assert(before + s + after == before + (s + after));
    lemma_start_of_padded(before, s + after);
    lemma_trimmed_start(s);
    let n = s.len() - trimmed_start(s).len();
    let cut = s.take(n);
    let rest = trimmed_start(s);
    assert(s == cut + rest);
    assert(s + after == cut + (rest + after));
    lemma_start_of_padded(cut, rest + after);
    if rest.len() > 0 {
        assert((rest + after).first() == rest[0]);
        assert(trimmed_start(rest + after) == rest + after);
        lemma_end_of_padded(rest, after);
    } else {
        assert(rest + after == after + Seq::<char>::empty());
        lemma_start_of_padded(after, Seq::<char>::empty());
        assert(rest == Seq::<char>::empty());
    }
}

/// Trimming leaves nothing of a text exactly where there was nothing but white space.
pub proof fn only_blank_text_is_trimmed_away(s: Seq<char>)
    ensures
        blank(s) <==> trimmed(s).len() == 0,
{
    let rest = trimmed_start(s);
    lemma_trimmed_start(s);
    lemma_trimmed_end(rest);
    if blank(s) {
        assert(s + Seq::<char>::empty() == s);
        lemma_start_of_padded(s, Seq::<char>::empty());
    } else if trimmed(s).len() == 0 {
        if rest.len() > 0 {
            assert(rest.skip(0) == rest);
            assert(white_space(rest.skip(0)[0]));
        }
        assert(s.take(s.len() as int) == s);
    }
}

/// What begins with no white space begins alike when it is trimmed.
pub(crate) proof fn lemma_trimmed_keeps_first(s: Seq<char>)
    requires
        s.len() > 0,
        !white_space(s.first()),
    ensures
        trimmed(s).len() > 0,
        trimmed(s).first() == s.first(),
{
    lemma_trimmed_end(s);
    only_blank_text_is_trimmed_away(s);
    assert(trimmed_start(s) == s);
    assert(trimmed(s)[0] == s[0]);
}

/// What trimming leaves has no white space around it: to trim once more changes nothing.
pub proof fn trimming_twice_is_trimming(s: Seq<char>)
    ensures
        trimmed(trimmed(s)) == trimmed(s),
{
    let rest = trimmed_start(s);
    let t = trimmed(s);
    lemma_trimmed_start(s);
    lemma_trimmed_end(rest);
    if t.len() > 0 {
        assert(t[0] == rest[0]);
        assert(trimmed_start(t) == t);
    }
}

/// The position of a character is that of its first occurrence.
pub(crate) proof fn lemma_first_position(s: Seq<char>, c: char)
    ensures
        0 <= first_position(s, c) <= s.len(),
        forall|i: int| 0 <= i < first_position(s, c) ==> s[i] != c,
        first_position(s, c) < s.len() ==> s[first_position(s, c)] == c,
    decreases s.len(),
{
    if s.len() > 0 && s.first() != c {
        let d = s.drop_first();
        lemma_first_position(d, c);
        assert forall|i: int| 0 <= i < first_position(s, c) implies s[i] != c by {
            if i > 0 {
                assert(s[i] == d[i - 1]);
            }
        }
    }
}

/// A first line has no line feed in it.
pub proof fn a_line_is_one_line(s: Seq<char>)
    ensures
        first_line_of(s) matches Some(line) ==> !line.contains('\n'),
{
    lemma_first_position(s, '\n');
}

/// Whatever follows a line feed leaves the first line of a text as it was. Left out are the empty
/// text, which has no line, and a single line that ends in a carriage return, which becomes part of
/// the line's end.
pub proof fn later_lines_leave_the_first(s: Seq<char>, later: Seq<char>)
    requires
        s.len() > 0,
        s.contains('\n') || s.last() != '\r',
    ensures
        first_line_of(s + seq!['\n'] + later) == first_line_of(s),
{
    let t = s + seq!['\n'] + later;
    lemma_first_position(s, '\n');
    lemma_first_position(t, '\n');
    let k = first_position(s, '\n');
    assert(forall|i: int| 0 <= i < s.len() ==> t[i] == s[i]);
    assert(t[s.len() as int] == '\n');
    assert(first_position(t, '\n') == k);
    if s.contains('\n') {
        assert(k < s.len());
    }
    assert(t.take(k) == s.take(k));
    if k > 0 {
        assert(t.take(k - 1) == s.take(k - 1));
    }
}

/// A trailing run is cut off whole.
pub proof fn one_more_trailing_changes_nothing(s: Seq<char>, c: char)
    ensures
        without_trailing(s.push(c), c) == without_trailing(s, c),
{
    assert(s.push(c).last() == c);
    assert(s.push(c).drop_last() == s);
}

} // verus!
