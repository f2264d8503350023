//! What the crate takes from elsewhere: the time, random identities, password
//! hashes and regular expressions from other crates, and two functions of
//! the standard library. Nothing in this module is proved; each contract
//! says what is taken on trust.

use vstd::prelude::*;

verus! {

/// The number of characters of an identity that [`random_id`] makes.
pub const RANDOM_ID_LENGTH: usize = 32;

/// The seconds since the Unix epoch, by `chrono::Utc::now` and
/// `DateTime::timestamp`.
///
/// Nothing is promised of the number: it is what the clock of the machine
/// says. `Utc::now` panics where that clock stands before the epoch.
#[verifier::external_body]
pub(crate) fn unix_time_now() -> (seconds: u64) {
    chrono::Utc::now().timestamp() as u64
}

/// A fresh random identity, by `uuid::Uuid::new_v4`, written in the simple
/// format of `Uuid::simple`.
///
/// The simple format is 32 hexadecimal digits; the contract claims the
/// length and nothing else, the digits being random. `Uuid::new_v4` panics
/// where the machine can give no random numbers.
#[verifier::external_body]
pub(crate) fn random_id() -> (id: String)
    ensures
        id@.len() == RANDOM_ID_LENGTH,
{
    uuid::Uuid::new_v4().simple().to_string()
}

/// The number of characters of a bcrypt hash.
pub const BCRYPT_HASH_LENGTH: usize = 60;

/// Whether a text has the shape of a hash that `pwhash::bcrypt::hash`
/// makes: a dollar sign, the variant `2b`, a dollar sign, the cost `10`, a
/// dollar sign, and 53 characters of salt and checksum.
pub open spec fn is_bcrypt_hash(text: Seq<char>) -> bool {
    text.len() == BCRYPT_HASH_LENGTH && text.take(7) == seq!['$', '2', 'b', '$', '1', '0', '$']
}

/// The bcrypt hash of a password, by `pwhash::bcrypt::hash`.
///
/// The hash is salted at random, so the contract claims its shape only:
/// variant, cost and length are the same for every hash. It does not claim
/// that hashing succeeds: where `pwhash` reports a failure, there is no
/// hash. Where the machine can give no random numbers for the salt,
/// `pwhash` panics.
#[verifier::external_body]
pub(crate) fn bcrypt_hash(password: &str) -> (hashed: Option<String>)
    ensures
        hashed matches Some(hash) ==> is_bcrypt_hash(hash@),
{
    pwhash::bcrypt::hash(password).ok()
}

/// What `regex` finds for one capture group: for every match of the pattern
/// in the text, from left to right, the part of the text that the group
/// named `group` has matched, if the group took part in the match. There is
/// no result where the pattern cannot be compiled.
pub uninterp spec fn regex_captures(
    pattern: Seq<char>,
    group: Seq<char>,
    text: Seq<char>,
) -> Option<Seq<Option<Seq<char>>>>;

/// The text with every match of the pattern replaced, as `regex` does it.
/// There is no result where the pattern cannot be compiled.
pub uninterp spec fn regex_replaced(
    pattern: Seq<char>,
    text: Seq<char>,
    replacement: Seq<char>,
) -> Option<Seq<char>>;

/// The parts of the text that a named capture group matches, by
/// `regex::Regex::new`, `Regex::captures_iter` and `Captures::name`.
///
/// The contract gives the result a name and claims that it depends on the
/// three strings alone.
#[verifier::external_body]
pub(crate) fn captures_of_group(pattern: &str, group: &str, text: &str) -> (found: Option<
    Vec<Option<String>>,
>)
    ensures
        found.deep_view() == regex_captures(pattern@, group@, text@),
{
    let re = regex::Regex::new(pattern).ok()?;
    Some(re.captures_iter(text).map(|m| m.name(group).map(|part| part.as_str().to_owned())).collect())
}

/// The text with every match of the pattern replaced, by `regex::Regex::new`
/// and `Regex::replace_all`.
///
/// The contract gives the result a name and claims that it depends on the
/// three strings alone.
#[verifier::external_body]
pub(crate) fn replace_all(pattern: &str, text: &str, replacement: &str) -> (replaced: Option<
    String,
>)
    ensures
        replaced.deep_view() == regex_replaced(pattern@, text@, replacement@),
{
    let re = regex::Regex::new(pattern).ok()?;
    Some(re.replace_all(text, replacement).into_owned())
}

/// Whether a character has the Unicode property White_Space: tab to
/// carriage return, the blank, next line, the no-break space, the ogham
/// space mark, en quad to hair space, the line and the paragraph separator,
/// the narrow no-break space, the medium mathematical space, and the
/// ideographic space.
pub open spec fn is_white_space(c: char) -> bool {
    let code = c as u32;
    ||| 0x0009 <= code <= 0x000D
    ||| code == 0x0020
    ||| code == 0x0085
    ||| code == 0x00A0
    ||| code == 0x1680
    ||| 0x2000 <= code <= 0x200A
    ||| code == 0x2028
    ||| code == 0x2029
    ||| code == 0x202F
    ||| code == 0x205F
    ||| code == 0x3000
}

/// `char::is_whitespace` of the standard library.
///
/// The contract claims that it tells whether the character has the Unicode
/// property White_Space, and writes the characters of that property out.
pub assume_specification[ char::is_whitespace ](c: char) -> (white: bool)
    ensures
        white == is_white_space(c),
;

/// `String::push` of the standard library.
///
/// The contract claims that the character is appended to the string.
pub assume_specification[ String::push ](text: &mut String, c: char)
    ensures
        final(text)@ == old(text)@.push(c),
;

} // verus!
