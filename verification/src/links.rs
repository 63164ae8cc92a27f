//! Finding the links in a message.

use regex::Regex;
use vstd::prelude::*;

use crate::text::{contains_text, texts};

verus! {

/// Whether `regex::Regex::new` accepts a pattern.
pub uninterp spec fn regex_compiles(pattern: Seq<char>) -> bool;

/// The matches that `regex::Regex::find_iter` yields for a pattern, in order.
pub uninterp spec fn regex_matches(pattern: Seq<char>, text: Seq<char>) -> Seq<Seq<char>>;

/// `regex::Regex::new`: whether it accepts `pattern`.
#[verifier::external_body]
fn compiles(pattern: &str) -> (result: bool)
    ensures
        result == regex_compiles(pattern@),
{
    Regex::new(pattern).is_ok()
}

/// `regex::Regex::find_iter`: the successive non-overlapping matches of
/// `pattern` in `text`. Each of them is a part of `text`; which parts match is
/// left to its name.
#[verifier::external_body]
fn find_matches(pattern: &str, text: &str) -> (result: Vec<String>)
    requires
        regex_compiles(pattern@),
    ensures
        texts(result@) == regex_matches(pattern@, text@),
        forall|i: int| 0 <= i < result@.len() ==> contains_text(text@, (#[trigger] result@[i])@),
{
    let regex = Regex::new(pattern).unwrap();
    regex.find_iter(text).map(|found| found.as_str().to_string()).collect()
}

/// What the links in a message look like: a scheme, then the characters of the
/// ASCII range from `$` to `_`, letters, or percent-encoded bytes.
pub const URL_PATTERN: &'static str =
    "https?://(?:[$-_@.&+!*(),a-zA-Z0-9]|(?:%[0-9a-fA-F]{2}))+";

/// A pattern that links match. It is always one that compiles.
pub struct UrlPattern {
    pattern: String,
}

impl View for UrlPattern {
    type V = Seq<char>;

    closed spec fn view(&self) -> Seq<char> {
        self.pattern@
    }
}

impl UrlPattern {
    #[verifier::type_invariant]
    spec fn is_valid(self) -> bool {
        regex_compiles(self.pattern@)
    }

    /// The pattern written in `pattern`, if it compiles.
    pub fn new(pattern: &str) -> (result: Option<UrlPattern>)
        ensures
            regex_compiles(pattern@) ==> result is Some && result->0@ == pattern@,
            !regex_compiles(pattern@) ==> result is None,
    {
        if compiles(pattern) {
            Some(UrlPattern { pattern: pattern.to_owned() })
        } else {
            None
        }
    }

    /// Every link in `text`, in order.
    pub fn find_all(&self, text: &str) -> (result: Vec<String>)
        ensures
            texts(result@) == regex_matches(self@, text@),
            forall|i: int|
                0 <= i < result@.len() ==> contains_text(text@, (#[trigger] result@[i])@),
    {
        proof {
            use_type_invariant(self);
        }
        find_matches(self.pattern.as_str(), text)
    }
}

} // verus!
