//! Authentication token.
//!
//! Wrapping the token in a type that cannot be formatted, and whose text forms
//! are redacted, means that it cannot leak through formatting at all. Reaching
//! the value requires calling [`Token::expose`], which is greppable.
//!
//! A token is the account. It is stored only in secure storage, never in a
//! plain file, and is never visible to plugins.

use vstd::prelude::*;
use crate::text;

verus! {

/// An authentication token.
#[derive(Clone, PartialEq, Eq)]
pub struct Token {
    secret: String,
}

impl View for Token {
    type V = Seq<char>;

    closed spec fn view(&self) -> Seq<char> {
        self.secret@
    }
}

/// Whether `needle` occurs in `haystack`.
pub open spec fn occurs(haystack: Seq<char>, needle: Seq<char>) -> bool {
    exists|i: int|
        0 <= i <= haystack.len() - needle.len() && #[trigger] haystack.subrange(
            i,
            i + needle.len(),
        ) == needle
}

/// Below this many characters a match would be coincidental.
pub const MIN_CHECKED: usize = 8;

impl Token {
    pub fn new(s: &str) -> (r: Token)
        ensures
            r@ == s@,
    {
        Token { secret: s.to_owned() }
    }

    pub fn clone_token(&self) -> (r: Token)
        ensures
            r@ == self@,
    {
        Token { secret: self.secret.clone() }
    }

    /// Yields the secret. Named to be greppable; a bland name would slip
    /// through.
    pub fn expose(&self) -> (r: &str)
        ensures
            r@ == self@,
    {
        self.secret.as_str()
    }

    pub fn is_empty(&self) -> (r: bool)
        ensures
            r == (self@.len() == 0),
    {
        text::chars(self.secret.as_str()).len() == 0
    }

    /// Checks that output does not contain the token.
    ///
    /// The type guards formatting, but a string built from `expose()` passes
    /// straight through. Always true below 8 characters, where matches would
    /// be coincidental.
    pub fn is_absent_from(&self, haystack: &str) -> (r: bool)
        ensures
            r == (self@.len() < MIN_CHECKED || !occurs(haystack@, self@)),
    {
        let needle = text::chars(self.secret.as_str());
        if needle.len() < MIN_CHECKED {
            return true;
        }
        let hay = text::chars(haystack);
        let n = needle.len();
        let mut i: usize = 0;
        while i < hay.len() && hay.len() - i >= n
            invariant
                needle@ == self@,
                n == needle.len(),
                n >= MIN_CHECKED,
                hay@ == haystack@,
                i <= hay.len(),
                forall|k: int|
                    0 <= k < i && k <= hay@.len() - n ==> #[trigger] hay@.subrange(k, k + n)
                        != needle@,
            decreases hay.len() - i,
        {
            let part = vstd::slice::slice_subrange(hay.as_slice(), i, i + n);
            if text::same(part, needle.as_slice()) {
                assert(haystack@.subrange(i as int, i + self@.len()) == self@);
                return false;
            }
            i += 1;
        }
        true
    }

    /// What stands for the token in text, whatever the token.
    pub fn to_string(&self) -> (r: String)
        ensures
            r@ == "<redacted>"@,
    {
        "<redacted>".to_owned()
    }

    /// What stands for the token in diagnostics, whatever the token.
    pub fn debug_string(&self) -> (r: String)
        ensures
            r@ == "Token(<redacted>)"@,
    {
        "Token(<redacted>)".to_owned()
    }
}

} // verus!
