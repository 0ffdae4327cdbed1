//! What trimming, lines and joining leave of a text.
use vstd::prelude::*;
use crate::text::{
    begins_with, ends_with, first_line_of, first_position, joined, lemma_first_position,
    lemma_trimmed_end, lemma_trimmed_start, lossy_text, optional_text, texts, trimmed, trimmed_end,
    white_space, without_trailing, written_text,
};

verus! {

/// The characters that Unicode gives the property `White_Space`, and no others, are white space.
pub proof fn white_space_is_what_unicode_says(c: char)
    ensures
        white_space(c) <==> seq![
            '\u{9}',
            '\u{a}',
            '\u{b}',
            '\u{c}',
            '\u{d}',
            '\u{20}',
            '\u{85}',
            '\u{a0}',
            '\u{1680}',
            '\u{2000}',
            '\u{2001}',
            '\u{2002}',
            '\u{2003}',
            '\u{2004}',
            '\u{2005}',
            '\u{2006}',
            '\u{2007}',
            '\u{2008}',
            '\u{2009}',
            '\u{200a}',
            '\u{2028}',
            '\u{2029}',
            '\u{202f}',
            '\u{205f}',
            '\u{3000}',
        ].contains(c),
{
    let list = seq![
        '\u{9}',
        '\u{a}',
        '\u{b}',
        '\u{c}',
        '\u{d}',
        '\u{20}',
        '\u{85}',
        '\u{a0}',
        '\u{1680}',
        '\u{2000}',
        '\u{2001}',
        '\u{2002}',
        '\u{2003}',
        '\u{2004}',
        '\u{2005}',
        '\u{2006}',
        '\u{2007}',
        '\u{2008}',
        '\u{2009}',
        '\u{200a}',
        '\u{2028}',
        '\u{2029}',
        '\u{202f}',
        '\u{205f}',
        '\u{3000}',
    ];
    assert(list[0] == '\u{9}' && list[1] == '\u{a}' && list[2] == '\u{b}' && list[3] == '\u{c}'
        && list[4] == '\u{d}' && list[5] == '\u{20}' && list[6] == '\u{85}' && list[7] == '\u{a0}'
        && list[8] == '\u{1680}' && list[9] == '\u{2000}' && list[10] == '\u{2001}' && list[11]
        == '\u{2002}' && list[12] == '\u{2003}' && list[13] == '\u{2004}' && list[14] == '\u{2005}'
        && list[15] == '\u{2006}' && list[16] == '\u{2007}' && list[17] == '\u{2008}' && list[18]
        == '\u{2009}' && list[19] == '\u{200a}' && list[20] == '\u{2028}' && list[21] == '\u{2029}'
        && list[22] == '\u{202f}' && list[23] == '\u{205f}' && list[24] == '\u{3000}');
}

/// Trimming cuts white space off both ends and nothing else: the text is what was cut off in front,
/// what is left, and what was cut off behind, and what is left neither begins nor ends with white
/// space.
pub proof fn trimming_cuts_white_space_off(s: Seq<char>) -> (cut: (Seq<char>, Seq<char>))
    ensures
        s == cut.0 + trimmed(s) + cut.1,
        forall|i: int| 0 <= i < cut.0.len() ==> white_space(#[trigger] cut.0[i]),
        forall|i: int| 0 <= i < cut.1.len() ==> white_space(#[trigger] cut.1[i]),
        trimmed(s).len() > 0 ==> !white_space(trimmed(s)[0]) && !white_space(
            trimmed(s)[trimmed(s).len() - 1],
        ),
{
    let rest = crate::text::trimmed_start(s);
    lemma_trimmed_start(s);
    lemma_trimmed_end(rest);
    let before = s.take(s.len() - rest.len());
    let after = rest.skip(trimmed(s).len() as int);
    assert(s == before + trimmed(s) + after);
    if trimmed(s).len() > 0 {
        assert(trimmed(s)[0] == rest[0]);
        assert(trimmed(s).last() == trimmed(s)[trimmed(s).len() - 1]);
    }
    (before, after)
}

/// Trimming the end cuts white space off it and nothing else.
pub proof fn trimming_the_end_cuts_white_space_off(s: Seq<char>) -> (cut: Seq<char>)
    ensures
        s == trimmed_end(s) + cut,
        forall|i: int| 0 <= i < cut.len() ==> white_space(#[trigger] cut[i]),
        trimmed_end(s).len() > 0 ==> !white_space(trimmed_end(s)[trimmed_end(s).len() - 1]),
{
    lemma_trimmed_end(s);
    let cut = s.skip(trimmed_end(s).len() as int);
    assert(s == trimmed_end(s) + cut);
    cut
}

/// What is left of a text without the trailing run of a character does not end in it, and nothing
/// but that character was cut off.
pub proof fn only_the_trailing_run_is_cut_off(s: Seq<char>, c: char) -> (cut: Seq<char>)
    ensures
        s == without_trailing(s, c) + cut,
        forall|i: int| 0 <= i < cut.len() ==> #[trigger] cut[i] == c,
        without_trailing(s, c).len() > 0 ==> without_trailing(s, c)[without_trailing(s, c).len()
            - 1] != c,
    decreases s.len(),
{
    if s.len() > 0 && s.last() == c {
        let d = s.drop_last();
        let cut = only_the_trailing_run_is_cut_off(d, c);
        assert(s == d.push(c));
        assert(s == without_trailing(s, c) + cut.push(c));
        cut.push(c)
    } else {
        let none = Seq::<char>::empty();
        assert(s == without_trailing(s, c) + none);
        none
    }
}

/// A text that has a line feed is its first line, the end of that line, and the rest; one that has
/// none is its own first line; and only the empty text has no line. The end of a line is a line
/// feed with the carriage return before it, where there is one.
pub proof fn the_first_line_reaches_to_its_end(s: Seq<char>) -> (rest: Seq<char>)
    ensures
        first_line_of(s) is None <==> s.len() == 0,
        s.len() > 0 && !s.contains('\n') ==> first_line_of(s) == Some(s),
        s.contains('\n') ==> !(first_line_of(s)->0).contains('\n') && (s == (first_line_of(s)->0)
            + seq!['\r', '\n'] + rest || (s == (first_line_of(s)->0) + seq!['\n'] + rest && ((
        first_line_of(s)->0).len() == 0 || (first_line_of(s)->0)[(first_line_of(s)->0).len() - 1]
            != '\r'))),
{
    let k = first_position(s, '\n');
    lemma_first_position(s, '\n');
    if s.contains('\n') {
        let i = choose|i: int| 0 <= i < s.len() && s[i] == '\n';
        assert(s[i] == '\n');
        assert(k < s.len());
        let rest = s.skip(k + 1);
        let line = first_line_of(s)->0;
        if 0 < k && s[k - 1] == '\r' {
            assert(s == line + seq!['\r', '\n'] + rest);
        } else {
            assert(s == line + seq!['\n'] + rest);
        }
        rest
    } else {
        if k < s.len() {
            assert(s[k] == '\n');
        }
        assert(s.take(s.len() as int) == s);
        Seq::empty()
    }
}

/// To join two lists is to join each and put the separator between the two; one text alone is
/// itself, and none are the empty text.
pub proof fn lists_are_joined_one_after_the_other(
    a: Seq<Seq<char>>,
    b: Seq<Seq<char>>,
    x: Seq<char>,
    separator: Seq<char>,
)
    ensures
        joined(seq![x], separator) == x,
        joined(Seq::empty(), separator) == Seq::<char>::empty(),
        a.len() > 0 && b.len() > 0 ==> joined(a + b, separator) == joined(a, separator) + separator
            + joined(b, separator),
    decreases b.len(),
{
    if a.len() > 0 && b.len() > 0 {
        let d = b.drop_last();
        assert((a + b).drop_last() == a + d);
        assert((a + b).last() == b.last());
        if b.len() == 1 {
            assert(a + d == a);
            assert(b.last() == b[0]);
        } else {
            lists_are_joined_one_after_the_other(a, d, x, separator);
            assert(joined(a + b, separator) == joined(a, separator) + separator + joined(
                b,
                separator,
            ));
        }
    }
}

/// A text begins with another exactly where it is that text with something behind it, and ends with
/// it exactly where it is that text with something before it.
pub proof fn beginnings_and_ends_are_parts(s: Seq<char>, part: Seq<char>, other: Seq<char>)
    ensures
        begins_with(part + other, part),
        ends_with(other + part, part),
        begins_with(s, part) ==> s == part + s.skip(part.len() as int),
        ends_with(s, part) ==> s == s.take(s.len() - part.len()) + part,
{
    assert((part + other).take(part.len() as int) == part);
    assert((other + part).skip(other.len() as int) == part);
    if begins_with(s, part) {
        assert(s == s.take(part.len() as int) + s.skip(part.len() as int));
    }
    if ends_with(s, part) {
        assert(s == s.take(s.len() - part.len()) + s.skip(s.len() - part.len()));
    }
}

/// What was written as UTF-8 is read as what was written.
pub proof fn written_text_is_read_back(text: Seq<char>)
    ensures
        written_text(vstd::utf8::encode_utf8(text)) == text,
{
    vstd::utf8::encode_utf8_valid_utf8(text);
    vstd::utf8::encode_utf8_decode_utf8(text);
}

/// A list of strings holds the text of each, in order.
pub proof fn lists_hold_each_text(list: Seq<String>, i: int)
    ensures
        texts(list).len() == list.len(),
        0 <= i < list.len() ==> texts(list)[i] == list[i]@,
{
}

/// A string that is there has its text, and one that is not has none.
pub proof fn optional_strings_have_their_text(s: String)
    ensures
        optional_text(Some(s)) == Some(s@),
        optional_text(None) is None,
{
}

/// Bytes that are no text are read as what takes their place.
pub proof fn other_bytes_are_replaced(bytes: Seq<u8>)
    requires
        !vstd::utf8::valid_utf8(bytes),
    ensures
        written_text(bytes) == lossy_text(bytes),
{
}

} // verus!
