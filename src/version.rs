//! The analyzer's version, read from the message that `--version` prints.

use crate::builder::str_texts;
use vstd::prelude::*;

verus! {

#[verifier::external_type_specification]
#[verifier::external_body]
pub struct ExVersion(semver::Version);

/// Whether semver reads a text as a version.
pub uninterp spec fn semver_accepts(s: Seq<char>) -> bool;

/// Relies on `semver::Version::parse`: it gives a version exactly where it
/// accepts the text, which depends on the text alone.
#[verifier::external_body]
fn parse_version(s: &str) -> (r: Option<semver::Version>)
    ensures
        r is Some == semver_accepts(s@),
{
    semver::Version::parse(s).ok()
}

/// The words of a text, split at white space.
pub uninterp spec fn words_of(s: Seq<char>) -> Seq<Seq<char>>;

/// Relies on `str::split_whitespace`: the words of a text, in order, which
/// depend on the text alone.
#[verifier::external_body]
fn split_words(s: &str) -> (r: Vec<&str>)
    ensures
        str_texts(r@) == words_of(s@),
{
    s.split_whitespace().collect()
}

/// `i` is the first word of `words` that semver reads as a version.
pub open spec fn is_first_version_word(words: Seq<Seq<char>>, i: int) -> bool {
    &&& 0 <= i < words.len()
    &&& semver_accepts(words[i])
    &&& forall|j: int| 0 <= j < i ==> !semver_accepts(words[j])
}

/// The analyzer's version, with the whole message it was read from.
pub struct RTSharkVersion {
    version: semver::Version,
    message: String,
}

impl View for RTSharkVersion {
    type V = Seq<char>;

    /// The message.
    closed spec fn view(&self) -> Seq<char> {
        self.message@
    }
}

impl RTSharkVersion {
    /// Reads the version from a version message: its first word that is a
    /// semantic version; `None` where no word is one.
    pub fn from_message(message: String) -> (r: Option<RTSharkVersion>)
        ensures
            match r {
                Some(v) => v@ == message@ && exists|i: int|
                    is_first_version_word(words_of(message@), i),
                None => forall|i: int|
                    0 <= i < words_of(message@).len() ==> !semver_accepts(
                        #[trigger] words_of(message@)[i],
                    ),
            },
    {
        let found = {
            let words = split_words(message.as_str());
            let mut found: Option<semver::Version> = None;
            let mut i: usize = 0;
            while i < words.len()
                invariant_except_break
                    found is None,
                invariant
                    str_texts(words@) == words_of(message@),
                    i <= words@.len(),
                    forall|j: int| 0 <= j < i ==> !semver_accepts(words_of(message@)[j]),
                ensures
                    found is Some ==> exists|k: int| is_first_version_word(words_of(message@), k),
                    found is None ==> forall|j: int|
                        0 <= j < words_of(message@).len() ==> !semver_accepts(
                            #[trigger] words_of(message@)[j],
                        ),
                decreases words@.len() - i,
            {
                assert(str_texts(words@)[i as int] == words@[i as int]@);
                match parse_version(words[i]) {
                    Some(v) => {
                        assert(is_first_version_word(words_of(message@), i as int));
                        found = Some(v);
                        break;
                    },
                    None => {},
                }
                i = i + 1;
            }
            found
        };
        match found {
            Some(version) => Some(RTSharkVersion { version, message }),
            None => None,
        }
    }

    /// The version.
    pub fn version(&self) -> &semver::Version {
        &self.version
    }

    /// The whole version message.
    pub fn message(&self) -> (r: &str)
        ensures
            r@ == self@,
    {
        self.message.as_str()
    }
}

} // verus!
