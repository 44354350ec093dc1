//! Content digests, `<algorithm>:<encoded>`, as the OCI image format defines
//! them.

use vstd::prelude::*;
use crate::text::{chars_of, find_char, lemma_find, lemma_find_is};

verus! {

/// A character of an algorithm's name that is no separator.
pub open spec fn is_component_char(c: char) -> bool {
    ('a' <= c && c <= 'z') || ('0' <= c && c <= '9')
}

/// A character that joins two components of an algorithm's name.
pub open spec fn is_algorithm_separator(c: char) -> bool {
    c == '+' || c == '.' || c == '_' || c == '-'
}

/// A character of the encoded part.
pub open spec fn is_encoded_char(c: char) -> bool {
    ('a' <= c && c <= 'z') || ('A' <= c && c <= 'Z') || ('0' <= c && c <= '9') || c == '=' || c
        == '_' || c == '-'
}

/// The name of an algorithm: components, joined by single separators.
pub open spec fn valid_algorithm(s: Seq<char>) -> bool {
    &&& s.len() > 0
    &&& is_component_char(s.first())
    &&& is_component_char(s.last())
    &&& forall|i: int|
        0 <= i < s.len() ==> is_component_char(#[trigger] s[i]) || (is_algorithm_separator(s[i])
            && is_component_char(s[i + 1]))
}

/// The encoded part of a digest.
pub open spec fn valid_encoded(s: Seq<char>) -> bool {
    &&& s.len() > 0
    &&& forall|i: int| 0 <= i < s.len() ==> is_encoded_char(#[trigger] s[i])
}

/// `colon` parts `s` into an algorithm and an encoded part.
pub open spec fn parts_digest(s: Seq<char>, colon: int) -> bool {
    &&& 0 <= colon < s.len()
    &&& s[colon] == ':'
    &&& valid_algorithm(s.subrange(0, colon))
    &&& valid_encoded(s.subrange(colon + 1, s.len() as int))
}

/// A well-formed digest.
pub open spec fn valid_digest(s: Seq<char>) -> bool {
    exists|colon: int| parts_digest(s, colon)
}

/// A digest holds one colon, so it falls into its two parts in one way.
pub proof fn law_digest_parts_are_unique(s: Seq<char>, a: int, b: int)
    requires
        parts_digest(s, a),
        parts_digest(s, b),
    ensures
        a == b,
{
    if a < b {
        assert(s.subrange(0, b)[a] == ':');
    }
    if b < a {
        assert(s.subrange(0, a)[b] == ':');
    }
}

/// What a digest looks like, character by character. Before its colon stand lower
/// case letters and digits, and between two of them may stand one of `+`, `.`, `_`
/// and `-`. After it stand letters, digits, `=`, `_` and `-`. Neither part is empty.
pub proof fn law_digest_characters(s: Seq<char>) -> (colon: int)
    requires
        valid_digest(s),
    ensures
        0 < colon < s.len() - 1,
        s[colon] == ':',
        'a' <= s[0] <= 'z' || '0' <= s[0] <= '9',
        forall|i: int|
            0 <= i < colon ==> ('a' <= #[trigger] s[i] <= 'z') || ('0' <= s[i] <= '9') || ((s[i]
                == '+' || s[i] == '.' || s[i] == '_' || s[i] == '-') && ('a' <= s[i + 1] <= 'z'
                || '0' <= s[i + 1] <= '9')),
        forall|i: int|
            colon < i < s.len() ==> ('a' <= #[trigger] s[i] <= 'z') || ('A' <= s[i] <= 'Z') || ('0'
                <= s[i] <= '9') || s[i] == '=' || s[i] == '_' || s[i] == '-',
{
    let colon = choose|colon: int| parts_digest(s, colon);
    let name = s.subrange(0, colon);
    let rest = s.subrange(colon + 1, s.len() as int);
    assert(name[0] == s[0]);
    assert forall|i: int| 0 <= i < colon implies ('a' <= #[trigger] s[i] <= 'z') || ('0' <= s[i]
        <= '9') || ((s[i] == '+' || s[i] == '.' || s[i] == '_' || s[i] == '-') && ('a' <= s[i + 1]
        <= 'z' || '0' <= s[i + 1] <= '9')) by {
        assert(name[i] == s[i]);
        if i < colon - 1 {
            assert(name[i + 1] == s[i + 1]);
        } else {
            assert(name.last() == s[i]);
        }
    }
    assert forall|i: int| colon < i < s.len() implies ('a' <= #[trigger] s[i] <= 'z') || ('A'
        <= s[i] <= 'Z') || ('0' <= s[i] <= '9') || s[i] == '=' || s[i] == '_' || s[i] == '-' by {
        assert(rest[i - colon - 1] == s[i]);
    }
    colon
}

/// Whatever looks like a digest, character by character, is one.
pub proof fn law_characters_of_a_digest(s: Seq<char>, colon: int)
    requires
        0 < colon < s.len() - 1,
        s[colon] == ':',
        'a' <= s[0] <= 'z' || '0' <= s[0] <= '9',
        forall|i: int|
            0 <= i < colon ==> ('a' <= #[trigger] s[i] <= 'z') || ('0' <= s[i] <= '9') || ((s[i]
                == '+' || s[i] == '.' || s[i] == '_' || s[i] == '-') && ('a' <= s[i + 1] <= 'z'
                || '0' <= s[i + 1] <= '9')),
        forall|i: int|
            colon < i < s.len() ==> ('a' <= #[trigger] s[i] <= 'z') || ('A' <= s[i] <= 'Z') || ('0'
                <= s[i] <= '9') || s[i] == '=' || s[i] == '_' || s[i] == '-',
    ensures
        valid_digest(s),
{
    let name = s.subrange(0, colon);
    assert(name.last() == s[colon - 1]);
    assert forall|i: int| 0 <= i < name.len() implies is_component_char(#[trigger] name[i]) || (
    is_algorithm_separator(name[i]) && is_component_char(name[i + 1])) by {
        assert(name[i] == s[i]);
        if i < colon - 1 {
            assert(name[i + 1] == s[i + 1]);
        }
    }
    assert(parts_digest(s, colon));
}

/// The text that was taken for a digest and is none.
#[derive(Debug, Clone)]
pub struct DigestError {
    pub raw: String,
}

impl View for DigestError {
    type V = Seq<char>;

    open spec fn view(&self) -> Seq<char> {
        self.raw@
    }
}

/// A well-formed digest.
#[derive(Debug)]
pub struct Digest {
    raw: String,
}

impl View for Digest {
    type V = Seq<char>;

    closed spec fn view(&self) -> Seq<char> {
        self.raw@
    }
}

impl Clone for Digest {
    fn clone(&self) -> (copy: Self)
        ensures
            copy@ == self@,
    {
        proof {
            use_type_invariant(self);
        }
        Digest { raw: self.raw.clone() }
    }
}

impl Digest {
    #[verifier::type_invariant]
    spec fn well_formed(self) -> bool {
        valid_digest(self.raw@)
    }

    /// Takes `raw` for a digest, if it is one.
    pub fn try_from_raw(raw: &str) -> (parsed: Result<Digest, DigestError>)
        ensures
            match parsed {
                Ok(digest) => valid_digest(raw@) && digest@ == raw@,
                Err(error) => !valid_digest(raw@) && error@ == raw@ && error.raw@ == raw@,
            },
    {
        if is_digest(raw) {
            Ok(Digest { raw: raw.to_owned() })
        } else {
            Err(DigestError { raw: raw.to_owned() })
        }
    }

    /// The digest as text. Whatever way the value came about, it is well-formed.
    pub fn as_str(&self) -> (text: &str)
        ensures
            text@ == self@,
            valid_digest(text@),
    {
        proof {
            use_type_invariant(self);
        }
        self.raw.as_str()
    }

    /// The digest as text of its own.
    pub fn to_string(&self) -> (text: String)
        ensures
            text@ == self@,
            valid_digest(text@),
    {
        proof {
            use_type_invariant(self);
        }
        self.raw.clone()
    }
}

fn component_char(c: char) -> (yes: bool)
    ensures
        yes == is_component_char(c),
{
    ('a' <= c && c <= 'z') || ('0' <= c && c <= '9')
}

fn algorithm_separator(c: char) -> (yes: bool)
    ensures
        yes == is_algorithm_separator(c),
{
    c == '+' || c == '.' || c == '_' || c == '-'
}

fn encoded_char(c: char) -> (yes: bool)
    ensures
        yes == is_encoded_char(c),
{
    component_char(c) || ('A' <= c && c <= 'Z') || c == '=' || c == '_' || c == '-'
}

/// Whether the first `end` characters name an algorithm.
fn is_algorithm(chars: &Vec<char>, end: usize) -> (yes: bool)
    requires
        end <= chars.len(),
    ensures
        yes == valid_algorithm(chars@.subrange(0, end as int)),
{
    let ghost name = chars@.subrange(0, end as int);
    if end == 0 || !component_char(chars[0]) || !component_char(chars[end - 1]) {
        return false;
    }
    let mut i: usize = 0;
    while i < end
        invariant
            i <= end <= chars.len(),
            0 < end,
            name == chars@.subrange(0, end as int),
            is_component_char(name.last()),
            forall|j: int|
                0 <= j < i ==> is_component_char(#[trigger] name[j]) || (is_algorithm_separator(
                    name[j],
                ) && is_component_char(name[j + 1])),
        decreases end - i,
    {
        if !component_char(chars[i]) {
            assert(name[i as int] == chars@[i as int]);
            assert(i < end - 1);
            if !algorithm_separator(chars[i]) || !component_char(chars[i + 1]) {
                assert(name[i + 1] == chars@[i + 1]);
                return false;
            }
        }
        i = i + 1;
    }
    true
}

/// Whether the characters from `start` on are the encoded part of a digest.
fn is_encoded(chars: &Vec<char>, start: usize) -> (yes: bool)
    requires
        start <= chars.len(),
    ensures
        yes == valid_encoded(chars@.subrange(start as int, chars@.len() as int)),
{
    let ghost part = chars@.subrange(start as int, chars@.len() as int);
    if start == chars.len() {
        return false;
    }
    let mut i: usize = start;
    while i < chars.len()
        invariant
            start <= i <= chars.len(),
            part == chars@.subrange(start as int, chars@.len() as int),
            forall|j: int| 0 <= j < i - start ==> is_encoded_char(#[trigger] part[j]),
        decreases chars.len() - i,
    {
        if !encoded_char(chars[i]) {
            assert(part[i - start] == chars@[i as int]);
            return false;
        }
        i = i + 1;
    }
    true
}

/// Whether `raw` is a well-formed digest.
fn is_digest(raw: &str) -> (yes: bool)
    ensures
        yes == valid_digest(raw@),
{
    let chars = chars_of(raw);
    let colon: usize = find_char(&chars, ':', 0);
    proof {
        lemma_find(raw@, ':', 0);
        assert forall|other: int| parts_digest(raw@, other) implies other == colon by {
            assert forall|i: int| 0 <= i < other implies raw@[i] != ':' by {
                assert(raw@.subrange(0, other)[i] == raw@[i]);
            }
            lemma_find_is(raw@, ':', 0, other);
        }
    }
    let yes = colon < chars.len() && is_algorithm(&chars, colon) && is_encoded(&chars, colon + 1);
    assert(yes ==> parts_digest(raw@, colon as int));
    yes
}

} // verus!
