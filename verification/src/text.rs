//! Reading identities and hash tags out of text.

use vstd::prelude::*;
use crate::outside::{
    captures_of_group, is_white_space, regex_captures, regex_replaced, replace_all,
};
use crate::sequences::{lemma_filter_empty, lemma_filter_next};

verus! {

/// The characters of a string.
pub fn chars_of(text: &str) -> (chars: Vec<char>)
    ensures
        chars@ == text@,
{
    let mut chars: Vec<char> = Vec::new();
    for c in it: text.chars()
        invariant
            it.seq() == text@,
            chars@ == it.seq().take(it.index() as int),
    {
        chars.push(c);
        assert(chars@ =~= it.seq().take(it.index() + 1));
    }
    assert(chars@ =~= text@);
    chars
}

/// The text without the white space that it begins with.
pub open spec fn without_leading_space(text: Seq<char>) -> Seq<char>
    decreases text.len(),
{
    if text.len() > 0 && is_white_space(text[0]) {
        without_leading_space(text.skip(1))
    } else {
        text
    }
}

/// The text without the white space that it ends with.
pub open spec fn without_trailing_space(text: Seq<char>) -> Seq<char>
    decreases text.len(),
{
    if text.len() > 0 && is_white_space(text.last()) {
        without_trailing_space(text.drop_last())
    } else {
        text
    }
}

/// The text without the white space at both ends.
pub open spec fn trimmed(text: Seq<char>) -> Seq<char> {
    without_trailing_space(without_leading_space(text))
}

/// The text without the white space at both ends.
pub fn trim(chars: &Vec<char>) -> (text: String)
    ensures
        text@ == trimmed(chars@),
{
    let mut start: usize = 0;
    assert(chars@.skip(0) =~= chars@);
    while start < chars.len() && chars[start].is_whitespace()
        invariant
            start <= chars.len(),
            without_leading_space(chars@) == without_leading_space(chars@.skip(start as int)),
        decreases chars.len() - start,
    {
        assert(chars@.skip(start as int).skip(1) =~= chars@.skip(start + 1));
        start += 1;
    }
    let ghost rest = chars@.skip(start as int);
    assert(without_leading_space(chars@) == rest);
    let mut end: usize = chars.len();
    assert(rest.take(rest.len() as int) =~= rest);
    while end > start && chars[end - 1].is_whitespace()
        invariant
            start <= end <= chars.len(),
            rest == chars@.skip(start as int),
            without_trailing_space(rest) == without_trailing_space(rest.take(end - start)),
        decreases end,
    {
        assert(rest.take(end - start).drop_last() =~= rest.take(end - start - 1));
        end -= 1;
    }
    let ghost kept = rest.take(end - start);
    assert(without_trailing_space(rest) == kept);
    let mut text = String::new();
    let mut i: usize = start;
    assert(kept.take(0) =~= Seq::empty());
    while i < end
        invariant
            start <= i <= end <= chars.len(),
            kept == chars@.skip(start as int).take(end - start),
            text@ == kept.take(i - start),
        decreases end - i,
    {
        text.push(chars[i]);
        assert(text@ =~= kept.take(i + 1 - start));
        i += 1;
    }
    assert(kept.take(end - start) =~= kept);
    text
}

/// The character that separates the identities of a list.
pub const ID_LIST_SEPARATOR: char = ',';

/// The pieces of the text between the separators. There is always one piece
/// more than there are separators; a piece may be empty.
pub open spec fn split(text: Seq<char>, separator: char) -> Seq<Seq<char>>
    decreases text.len(),
{
    if text.len() == 0 {
        seq![Seq::empty()]
    } else {
        let pieces = split(text.drop_last(), separator);
        if text.last() == separator {
            pieces.push(Seq::empty())
        } else {
            pieces.drop_last().push(pieces.last().push(text.last()))
        }
    }
}

/// The test for not being empty.
pub open spec fn is_not_empty() -> spec_fn(Seq<char>) -> bool {
    |text: Seq<char>| text.len() > 0
}

/// Each of the pieces without the white space at its ends.
pub open spec fn trimmed_all(pieces: Seq<Seq<char>>) -> Seq<Seq<char>> {
    Seq::new(pieces.len(), |i: int| trimmed(pieces[i]))
}

/// The identities that a list names: the pieces between the separators,
/// without the white space at their ends, and without the pieces of which
/// nothing is left then.
pub open spec fn extracted_ids(text: Seq<char>) -> Seq<Seq<char>> {
    trimmed_all(split(text, ID_LIST_SEPARATOR)).filter(is_not_empty())
}

/// One more character at the end of a text opens a new piece if it is the
/// separator, and else makes the last piece longer.
pub proof fn lemma_split_push(text: Seq<char>, c: char, separator: char)
    ensures
        split(text.push(c), separator) == if c == separator {
            split(text, separator).push(Seq::empty())
        } else {
            split(text, separator).drop_last().push(split(text, separator).last().push(c))
        },
{
    assert(text.push(c).drop_last() =~= text);
}

/// A text has one piece at least.
pub proof fn lemma_split_not_empty(text: Seq<char>, separator: char)
    ensures
        split(text, separator).len() > 0,
    decreases text.len(),
{
    if text.len() > 0 {
        lemma_split_not_empty(text.drop_last(), separator);
    }
}

/// The identities of some pieces and one more piece.
proof fn lemma_ids_of_one_more(pieces: Seq<Seq<char>>, piece: Seq<char>)
    ensures
        trimmed_all(pieces.push(piece)).filter(is_not_empty()) == if trimmed(piece).len() > 0 {
            trimmed_all(pieces).filter(is_not_empty()).push(trimmed(piece))
        } else {
            trimmed_all(pieces).filter(is_not_empty())
        },
{
    assert(trimmed_all(pieces.push(piece)) =~= trimmed_all(pieces).push(trimmed(piece)));
    trimmed_all(pieces).lemma_filter_push(trimmed(piece), is_not_empty());
}

/// The identities that a list names, separated by commas.
///
/// White space around an identity does not belong to it, and where nothing
/// stands between two commas there is no identity.
pub fn extract_ids(s: &str) -> (ids: Vec<String>)
    ensures
        ids.deep_view() == extracted_ids(s@),
{
    let chars = chars_of(s);
    let mut ids: Vec<String> = Vec::new();
    let mut current: Vec<char> = Vec::new();
    let mut i: usize = 0;
    proof {
        assert(chars@.take(0) =~= Seq::empty());
        assert(split(chars@.take(0), ID_LIST_SEPARATOR).drop_last() =~= Seq::empty());
        assert(trimmed_all(Seq::empty()) =~= Seq::empty());
        lemma_filter_empty(is_not_empty());
        assert(ids.deep_view() =~= Seq::empty());
    }
    while i < chars.len()
        invariant
            i <= chars.len(),
            current@ == split(chars@.take(i as int), ID_LIST_SEPARATOR).last(),
            ids.deep_view() == trimmed_all(
                split(chars@.take(i as int), ID_LIST_SEPARATOR).drop_last(),
            ).filter(is_not_empty()),
        decreases chars.len() - i,
    {
        let ghost pieces = split(chars@.take(i as int), ID_LIST_SEPARATOR);
        let ghost before = ids.deep_view();
        proof {
            lemma_split_not_empty(chars@.take(i as int), ID_LIST_SEPARATOR);
            assert(chars@.take(i + 1) =~= chars@.take(i as int).push(chars@[i as int]));
            lemma_split_push(chars@.take(i as int), chars@[i as int], ID_LIST_SEPARATOR);
            assert(pieces =~= pieces.drop_last().push(pieces.last()));
        }
        if chars[i] == ID_LIST_SEPARATOR {
            let id = trim(&current);
            proof {
                lemma_ids_of_one_more(pieces.drop_last(), pieces.last());
                assert(pieces.push(Seq::empty()).drop_last() =~= pieces);
            }
            if !id.as_str().is_empty() {
                ids.push(id);
                assert(ids.deep_view() =~= before.push(trimmed(current@)));
            }
            current = Vec::new();
        } else {
            current.push(chars[i]);
            assert(pieces.drop_last().push(pieces.last().push(chars@[i as int])).drop_last()
                =~= pieces.drop_last());
        }
        i += 1;
    }
    let ghost pieces = split(chars@, ID_LIST_SEPARATOR);
    let ghost before = ids.deep_view();
    proof {
        assert(chars@.take(chars.len() as int) =~= chars@);
        lemma_split_not_empty(chars@, ID_LIST_SEPARATOR);
        assert(pieces =~= pieces.drop_last().push(pieces.last()));
        lemma_ids_of_one_more(pieces.drop_last(), pieces.last());
    }
    let id = trim(&current);
    if !id.as_str().is_empty() {
        ids.push(id);
        assert(ids.deep_view() =~= before.push(trimmed(current@)));
    }
    ids
}

/// The pattern of a hash tag: a hash sign, then words joined by single
/// hyphens. The group `tag` is the tag without the hash sign.
pub const HASH_TAG_PATTERN: &'static str = "#(?P<tag>\\w+((-\\w+)*)?)";

/// The name of the capture group that holds the tag.
pub const HASH_TAG_GROUP: &'static str = "tag";

/// The tags among what was captured: every capture that is there, in order.
/// Where nothing was captured at all, there are no tags.
pub open spec fn hash_tags_in(captures: Option<Seq<Option<Seq<char>>>>) -> Seq<Seq<char>>
    decreases
            match captures {
                Some(found) => found.len(),
                None => 0,
            },
{
    match captures {
        None => Seq::empty(),
        Some(found) => if found.len() == 0 {
            Seq::empty()
        } else {
            let front = hash_tags_in(Some(found.drop_last()));
            match found.last() {
                Some(tag) => front.push(tag),
                None => front,
            }
        },
    }
}

/// The tags among what was captured.
pub fn hash_tags_from(captures: Option<Vec<Option<String>>>) -> (tags: Vec<String>)
    ensures
        tags.deep_view() == hash_tags_in(captures.deep_view()),
{
    let mut res: Vec<String> = Vec::new();
    assert(res.deep_view() =~= Seq::empty());
    match captures {
        None => {},
        Some(found) => {
            let mut i: usize = 0;
            assert(found.deep_view().take(0) =~= Seq::empty());
            while i < found.len()
                invariant
                    i <= found.len(),
                    res.deep_view() == hash_tags_in(Some(found.deep_view().take(i as int))),
                decreases found.len() - i,
            {
                let ghost before = res.deep_view();
                proof {
                    assert(found.deep_view().take(i + 1).drop_last() =~= found.deep_view().take(
                        i as int,
                    ));
                }
                match &found[i] {
                    Some(tag) => {
                        res.push(tag.clone());
                        assert(res.deep_view() =~= before.push(tag@));
                    },
                    None => {},
                }
                i += 1;
            }
            assert(found.deep_view().take(found.len() as int) =~= found.deep_view());
        },
    }
    res
}

/// The hash tags of a text, without their hash signs, from left to right.
pub fn extract_hash_tags(text: &str) -> (tags: Vec<String>)
    ensures
        tags.deep_view() == hash_tags_in(
            regex_captures(HASH_TAG_PATTERN@, HASH_TAG_GROUP@, text@),
        ),
{
    hash_tags_from(captures_of_group(HASH_TAG_PATTERN, HASH_TAG_GROUP, text))
}

/// The text with every two spaces in a row made one, going from left to
/// right: of three spaces in a row two are left, of four also two.
pub open spec fn squeezed(text: Seq<char>) -> Seq<char>
    decreases text.len(),
{
    if text.len() >= 2 && text[0] == ' ' && text[1] == ' ' {
        seq![' '] + squeezed(text.skip(2))
    } else if text.len() > 0 {
        seq![text[0]] + squeezed(text.skip(1))
    } else {
        Seq::empty()
    }
}

/// The test for not being a comma.
pub open spec fn is_no_comma() -> spec_fn(char) -> bool {
    |c: char| c != ','
}

/// The text tidied up: double spaces made single, commas taken out, and the
/// white space at both ends taken off.
pub open spec fn tidied(text: Seq<char>) -> Seq<char> {
    trimmed(squeezed(text).filter(is_no_comma()))
}

/// The text with every two spaces in a row made one.
fn squeeze(chars: &Vec<char>) -> (out: Vec<char>)
    ensures
        out@ == squeezed(chars@),
{
    let mut out: Vec<char> = Vec::new();
    let mut i: usize = 0;
    assert(chars@.skip(0) =~= chars@);
    assert(out@ + squeezed(chars@) =~= squeezed(chars@));
    while i < chars.len()
        invariant
            i <= chars.len(),
            out@ + squeezed(chars@.skip(i as int)) == squeezed(chars@),
        decreases chars.len() - i,
    {
        let ghost rest = chars@.skip(i as int);
        let ghost before = out@;
        if i + 1 < chars.len() && chars[i] == ' ' && chars[i + 1] == ' ' {
            out.push(' ');
            proof {
                assert(rest.skip(2) =~= chars@.skip(i + 2));
                assert(out@ + squeezed(chars@.skip(i + 2)) =~= before + (seq![' '] + squeezed(
                    rest.skip(2),
                )));
            }
            i += 2;
        } else {
            out.push(chars[i]);
            proof {
                assert(rest.skip(1) =~= chars@.skip(i + 1));
                assert(out@ + squeezed(chars@.skip(i + 1)) =~= before + (seq![rest[0]] + squeezed(
                    rest.skip(1),
                )));
            }
            i += 1;
        }
    }
    assert(out@ + Seq::<char>::empty() =~= out@);
    out
}

/// The text without its commas.
fn without_commas(chars: &Vec<char>) -> (out: Vec<char>)
    ensures
        out@ == chars@.filter(is_no_comma()),
{
    let mut out: Vec<char> = Vec::new();
    let mut i: usize = 0;
    proof {
        lemma_filter_empty(is_no_comma());
        assert(chars@.take(0) =~= Seq::empty());
    }
    while i < chars.len()
        invariant
            i <= chars.len(),
            out@ == chars@.take(i as int).filter(is_no_comma()),
        decreases chars.len() - i,
    {
        proof {
            lemma_filter_next(chars@, is_no_comma(), i as int);
        }
        if chars[i] != ',' {
            out.push(chars[i]);
        }
        i += 1;
    }
    assert(chars@.take(chars.len() as int) =~= chars@);
    out
}

/// Tidies a text up: double spaces are made single, commas are taken out,
/// and the white space at both ends is taken off.
pub fn tidy(text: &str) -> (tidy: String)
    ensures
        tidy@ == tidied(text@),
{
    let chars = chars_of(text);
    let single_spaced = squeeze(&chars);
    let comma_free = without_commas(&single_spaced);
    trim(&comma_free)
}

/// What is left of a text when its hash tags have been taken out: the result
/// of the replacement, tidied up. Where nothing could be replaced, the text
/// itself, tidied up.
pub open spec fn hash_tags_removed(text: Seq<char>, replaced: Option<Seq<char>>) -> Seq<char> {
    match replaced {
        Some(rest) => tidied(rest),
        None => tidied(text),
    }
}

/// Tidies up what the replacement of the hash tags of `text` has left.
pub fn tidy_replaced(text: &str, replaced: Option<String>) -> (rest: String)
    ensures
        rest@ == hash_tags_removed(text@, replaced.deep_view()),
{
    match replaced {
        Some(rest) => tidy(rest.as_str()),
        None => tidy(text),
    }
}

/// The text without its hash tags, tidied up: double spaces are made single,
/// commas are taken out, and the white space at both ends is taken off.
pub fn remove_hash_tags(text: &str) -> (rest: String)
    ensures
        rest@ == hash_tags_removed(text@, regex_replaced(HASH_TAG_PATTERN@, text@, ""@)),
{
    tidy_replaced(text, replace_all(HASH_TAG_PATTERN, text, ""))
}

} // verus!
