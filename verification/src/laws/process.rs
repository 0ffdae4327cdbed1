//! What is made of the environment and of what other programs say.
use vstd::prelude::*;
use crate::error::AiError;
use crate::laws::text::{
    trimming_cuts_white_space_off, trimming_the_end_cuts_white_space_off,
};
use crate::process::{
    listing_outcome, lists, shell_of, system_of, ListingProbe, ProgramOutput,
};
use crate::prompt::DirectoryListing;
use crate::text::{
    blank, lemma_end_of_padded, only_blank_text_is_trimmed_away, padding_is_trimmed, trimmed,
    trimmed_end, trimmed_start, white_space, written_text,
};

verus! {

/// A text that neither begins nor ends with white space, and is not empty.
pub open spec fn trim_free(s: Seq<char>) -> bool {
    s.len() > 0 && !white_space(s[0]) && !white_space(s[s.len() - 1])
}

/// Such a text is what trimming leaves of it.
proof fn lemma_trim_free(s: Seq<char>)
    requires
        trim_free(s),
    ensures
        trimmed(s) == s,
        trimmed_end(s) == s,
{
    assert(trimmed_start(s) == s);
}

/// The shell that the environment names is the user's, exactly as it is written, where some
/// character of it is not white space; in every other case it is unknown.
pub proof fn the_shell_is_the_one_that_is_named(name: Seq<char>)
    ensures
        (exists|i: int| 0 <= i < name.len() && !white_space(#[trigger] name[i])) ==> shell_of(
            Some(name),
        ) == name,
        (forall|i: int| 0 <= i < name.len() ==> white_space(#[trigger] name[i])) ==> shell_of(
            Some(name),
        ) == "unknown"@,
        shell_of(None) == "unknown"@,
{
    only_blank_text_is_trimmed_away(name);
}

/// The system is what `uname` said, without the white space around it, where the program succeeded
/// and said something as text; in every other case it is the plain name.
pub proof fn the_system_is_what_uname_says(
    output: ProgramOutput,
    before: Seq<char>,
    said: Seq<char>,
    after: Seq<char>,
    name: Seq<char>,
)
    requires
        blank(before),
        blank(after),
        output.stdout@ == vstd::utf8::encode_utf8(before + said + after),
    ensures
        output.success && trim_free(said) ==> system_of(Some(output), name) == said,
        !output.success || blank(said) ==> system_of(Some(output), name) == name,
        system_of(None, name) == name,
{
    let whole = before + said + after;
    vstd::utf8::encode_utf8_valid_utf8(whole);
    vstd::utf8::encode_utf8_decode_utf8(whole);
    padding_is_trimmed(before, said, after);
    if trim_free(said) {
        lemma_trim_free(said);
    }
    only_blank_text_is_trimmed_away(said);
}

/// What is not text is not taken for the name of the system.
pub proof fn what_is_no_text_names_no_system(output: ProgramOutput, name: Seq<char>)
    requires
        !vstd::utf8::valid_utf8(output.stdout@),
    ensures
        system_of(Some(output), name) == name,
{
}

/// A directory is listed exactly as the program wrote it, but for white space at the end, under the
/// path that was asked for.
pub proof fn listings_are_kept_as_they_were_written(
    path: Seq<char>,
    output: ProgramOutput,
    text: Seq<char>,
    after: Seq<char>,
    outcome: Result<DirectoryListing, AiError>,
)
    requires
        listing_outcome(path, ListingProbe::Ran(output), outcome),
        output.success,
        output.stdout@ == vstd::utf8::encode_utf8(text + after),
        blank(after),
        text.len() > 0 ==> !white_space(text[text.len() - 1]),
    ensures
        outcome matches Ok(l) && l.path@ == path && l.output@ == text,
{
    vstd::utf8::encode_utf8_valid_utf8(text + after);
    vstd::utf8::encode_utf8_decode_utf8(text + after);
    lemma_end_of_padded(text, after);
    assert(trimmed_end(text) == text);
}

/// A listing that fails is told with its path and with what the program said about it; a path that
/// is no directory, or whose listing did not start, is told as just that. A listing comes of
/// nothing but a program that succeeded.
pub proof fn failed_listings_are_told(
    path: Seq<char>,
    output: ProgramOutput,
    said: Seq<char>,
    outcome: Result<DirectoryListing, AiError>,
    probe: ListingProbe,
)
    requires
        listing_outcome(path, probe, outcome),
        probe == ListingProbe::Ran(output) ==> output.stderr@ == vstd::utf8::encode_utf8(said)
            && trim_free(said),
    ensures
        probe is NotADirectory ==> (outcome matches Err(AiError::NotADirectory(p)) && p@ == path),
        probe is NotRun ==> (outcome matches Err(AiError::ListingNotRun(p)) && p@ == path),
        probe == ListingProbe::Ran(output) && !output.success ==> (outcome matches Err(
            AiError::ListingFailed { path: p, stderr },
        ) && p@ == path && stderr@ == said),
        outcome is Ok <==> (probe matches ListingProbe::Ran(o) && o.success),
        lists(probe) <==> outcome is Ok,
{
    if probe == ListingProbe::Ran(output) {
        vstd::utf8::encode_utf8_valid_utf8(said);
        vstd::utf8::encode_utf8_decode_utf8(said);
        lemma_trim_free(said);
    }
}

/// Whatever a program wrote, text or not, its listing is that without white space at the end, and
/// what it said when it failed is that without white space around it.
pub proof fn what_programs_write_is_kept(
    path: Seq<char>,
    output: ProgramOutput,
    outcome: Result<DirectoryListing, AiError>,
) -> (cut: (Seq<char>, Seq<char>))
    requires
        listing_outcome(path, ListingProbe::Ran(output), outcome),
    ensures
        blank(cut.0),
        blank(cut.1),
        output.success ==> (outcome matches Ok(l) && l.path@ == path && written_text(output.stdout@)
            == l.output@ + cut.1 && (l.output@.len() > 0 ==> !white_space(
            l.output@[l.output@.len() - 1],
        ))),
        !output.success ==> (outcome matches Err(AiError::ListingFailed { path: p, stderr }) && p@
            == path && written_text(output.stderr@) == cut.0 + stderr@ + cut.1 && (stderr@.len() > 0
            ==> trim_free(stderr@))),
{
    if output.success {
        let cut = trimming_the_end_cuts_white_space_off(written_text(output.stdout@));
        (Seq::empty(), cut)
    } else {
        trimming_cuts_white_space_off(written_text(output.stderr@))
    }
}

} // verus!
