//! Searching and cutting text, character by character.

use vstd::prelude::*;

verus! {

/// The place of the first `c` in `s` at or after `from`, or the end of `s`
/// where there is none.
pub open spec fn find(s: Seq<char>, c: char, from: int) -> int
    decreases s.len() - from,
{
    if from >= s.len() || s[from] == c {
        from
    } else {
        find(s, c, from + 1)
    }
}

/// Where the `n`-th of the fields starts that `separator` parts `s` into,
/// counted from 0. Past the end of `s` there is no such field.
pub open spec fn field_start(s: Seq<char>, separator: char, n: nat) -> int
    decreases n,
{
    if n == 0 {
        0
    } else {
        find(s, separator, field_start(s, separator, (n - 1) as nat)) + 1
    }
}

/// The `n`-th of the fields that `separator` parts `s` into.
pub open spec fn field(s: Seq<char>, separator: char, n: nat) -> Option<Seq<char>> {
    let start = field_start(s, separator, n);
    if start <= s.len() {
        Some(s.subrange(start, find(s, separator, start)))
    } else {
        None
    }
}

/// Whether `pattern` stands somewhere in `s`.
pub open spec fn contains_text(s: Seq<char>, pattern: Seq<char>) -> bool {
    exists|i: int|
        0 <= i <= s.len() - pattern.len() && #[trigger] s.subrange(i, i + pattern.len()) == pattern
}

/// The first place in `s`, at or after `from`, where `pattern` stands. Where it
/// stands nowhere, the first place that leaves no room for it.
pub open spec fn find_text(s: Seq<char>, pattern: Seq<char>, from: int) -> int
    decreases s.len() - pattern.len() + 1 - from,
{
    if from + pattern.len() > s.len() || s.subrange(from, from + pattern.len()) == pattern {
        from
    } else {
        find_text(s, pattern, from + 1)
    }
}

/// `find_text` stops at the first place where the pattern stands.
pub proof fn lemma_find_text(s: Seq<char>, pattern: Seq<char>, from: int)
    requires
        0 <= from,
    ensures
        from <= find_text(s, pattern, from),
        find_text(s, pattern, from) + pattern.len() <= s.len() ==> s.subrange(
            find_text(s, pattern, from),
            find_text(s, pattern, from) + pattern.len(),
        ) == pattern,
        forall|i: int|
            from <= i < find_text(s, pattern, from) ==> #[trigger] s.subrange(
                i,
                i + pattern.len(),
            ) != pattern || i + pattern.len() > s.len(),
    decreases s.len() - pattern.len() + 1 - from,
{
    if from + pattern.len() <= s.len() && s.subrange(from, from + pattern.len()) != pattern {
        lemma_find_text(s, pattern, from + 1);
    }
}

/// A text holds whatever it is put together from, and nothing else: a pattern
/// stands in it exactly when it falls into something, the pattern, and something.
pub proof fn law_text_contains_its_parts(
    s: Seq<char>,
    before: Seq<char>,
    pattern: Seq<char>,
    after: Seq<char>,
)
    ensures
        contains_text(before + pattern + after, pattern),
        contains_text(s, pattern) ==> exists|a: Seq<char>, b: Seq<char>|
            s == #[trigger] (a + pattern + b),
{
    let all = before + pattern + after;
    let n = before.len() as int;
    assert(all.subrange(n, n + pattern.len()) =~= pattern);
    if contains_text(s, pattern) {
        let i = choose|i: int|
            0 <= i <= s.len() - pattern.len() && #[trigger] s.subrange(i, i + pattern.len())
                == pattern;
        let a = s.subrange(0, i);
        let b = s.subrange(i + pattern.len(), s.len() as int);
        assert(s =~= a + s.subrange(i, i + pattern.len()) + b);
        assert(s == a + pattern + b);
    }
}

/// `find` stops at the first `c`, and passes over everything before it.
pub proof fn lemma_find(s: Seq<char>, c: char, from: int)
    requires
        0 <= from <= s.len(),
    ensures
        from <= find(s, c, from) <= s.len(),
        find(s, c, from) < s.len() ==> s[find(s, c, from)] == c,
        forall|i: int| from <= i < find(s, c, from) ==> s[i] != c,
    decreases s.len() - from,
{
    if from < s.len() && s[from] != c {
        lemma_find(s, c, from + 1);
    }
}

/// What `find` gives is fixed by what it passes over and what it stops at.
pub proof fn lemma_find_is(s: Seq<char>, c: char, from: int, at: int)
    requires
        0 <= from <= at <= s.len(),
        at < s.len() ==> s[at] == c,
        forall|i: int| from <= i < at ==> s[i] != c,
    ensures
        find(s, c, from) == at,
    decreases at - from,
{
    if from < at {
        lemma_find_is(s, c, from + 1, at);
    }
}

/// A part of `s` that does not hold `separator`, and that ends where one stands
/// or where `s` ends, is passed over by `find`.
pub proof fn lemma_find_after_part(s: Seq<char>, separator: char, start: int, part: Seq<char>)
    requires
        0 <= start,
        start + part.len() <= s.len(),
        s.subrange(start, start + part.len()) == part,
        !part.contains(separator),
        start + part.len() < s.len() ==> s[start + part.len()] == separator,
    ensures
        find(s, separator, start) == start + part.len(),
{
    let end = start + part.len();
    assert forall|i: int| start <= i < end implies s[i] != separator by {
        assert(s.subrange(start, end)[i - start] == s[i]);
        assert(part.contains(part[i - start]));
    }
    lemma_find_is(s, separator, start, end);
}

/// A separator parts a text: what stands before the first one is the first field,
/// and the fields of the rest come after it. A text without a separator is its own
/// and only field.
pub proof fn law_separator_parts_fields(
    first: Seq<char>,
    rest: Seq<char>,
    separator: char,
    n: nat,
)
    requires
        !first.contains(separator),
    ensures
        field(first, separator, 0) == Some(first),
        field(first, separator, n + 1) is None,
        field(first + seq![separator] + rest, separator, 0) == Some(first),
        field(first + seq![separator] + rest, separator, n + 1) == field(rest, separator, n),
{
    let head = first + seq![separator];
    let s = head + rest;
    let k = head.len() as int;
    assert(first.subrange(0, first.len() as int) =~= first);
    assert(s.subrange(0, first.len() as int) =~= first);
    lemma_find_after_part(first, separator, 0, first);
    lemma_find_after_part(s, separator, 0, first);
    reveal_with_fuel(field_start, 2);
    lemma_no_field_past_the_end(first, separator, 1, n + 1);
    lemma_later_field_start(head, rest, separator, n);
    let start = field_start(rest, separator, n);
    lemma_field_start_bound(rest, separator, n);
    lemma_find_later(head, rest, separator, start);
    if start <= rest.len() {
        lemma_find(rest, separator, start);
        let end = find(rest, separator, start);
        assert(s.subrange(start + k, end + k) =~= rest.subrange(start, end));
    }
}

proof fn lemma_field_start_bound(s: Seq<char>, separator: char, n: nat)
    ensures
        0 <= field_start(s, separator, n),
    decreases n,
{
    if n > 0 {
        let before = field_start(s, separator, (n - 1) as nat);
        lemma_field_start_bound(s, separator, (n - 1) as nat);
        if before <= s.len() {
            lemma_find(s, separator, before);
        }
    }
}

/// Searching a text from a place behind its head is searching the rest.
proof fn lemma_find_later(head: Seq<char>, rest: Seq<char>, c: char, from: int)
    requires
        0 <= from,
    ensures
        find(head + rest, c, from + head.len()) == find(rest, c, from) + head.len(),
    decreases rest.len() - from,
{
    if from < rest.len() {
        assert((head + rest)[from + head.len()] == rest[from]);
        if rest[from] != c {
            lemma_find_later(head, rest, c, from + 1);
        }
    }
}

/// The fields behind the first separator start where those of the rest do.
proof fn lemma_later_field_start(head: Seq<char>, rest: Seq<char>, separator: char, n: nat)
    requires
        find(head + rest, separator, 0) + 1 == head.len(),
    ensures
        field_start(head + rest, separator, n + 1) == field_start(rest, separator, n) + head.len(),
    decreases n,
{
    reveal_with_fuel(field_start, 2);
    if n > 0 {
        lemma_later_field_start(head, rest, separator, (n - 1) as nat);
        lemma_field_start_bound(rest, separator, (n - 1) as nat);
        lemma_find_later(head, rest, separator, field_start(rest, separator, (n - 1) as nat));
    }
}

/// The characters of `s`, in order.
pub(crate) fn chars_of(s: &str) -> (chars: Vec<char>)
    ensures
        chars@ == s@,
{
    let mut chars: Vec<char> = Vec::new();
    for c in it: s.chars()
        invariant
            it.seq() == s@,
            chars@ == s@.take(it.index()),
    {
        chars.push(c);
        assert(chars@ =~= s@.take(it.index() + 1));
    }
    assert(s@.take(s@.len() as int) =~= s@);
    chars
}

/// `find` on the characters of a text.
pub(crate) fn find_char(chars: &Vec<char>, c: char, from: usize) -> (at: usize)
    requires
        from <= chars.len(),
    ensures
        at == find(chars@, c, from as int),
        from <= at <= chars.len(),
{
    let mut at: usize = from;
    while at < chars.len() && chars[at] != c
        invariant
            from <= at <= chars.len(),
            find(chars@, c, from as int) == find(chars@, c, at as int),
        decreases chars.len() - at,
    {
        at = at + 1;
    }
    at
}

/// Whether `pattern` stands in `chars` from place `at` on.
fn stands_at(chars: &Vec<char>, pattern: &Vec<char>, at: usize) -> (yes: bool)
    requires
        at + pattern.len() <= chars.len(),
    ensures
        yes == (chars@.subrange(at as int, at + pattern@.len()) == pattern@),
{
    let mut k: usize = 0;
    while k < pattern.len()
        invariant
            k <= pattern.len(),
            at + pattern.len() <= chars.len(),
            forall|j: int| 0 <= j < k ==> chars@[at + j] == pattern@[j],
        decreases pattern.len() - k,
    {
        if chars[at + k] != pattern[k] {
            assert(chars@.subrange(at as int, at + pattern@.len())[k as int] != pattern@[k as int]);
            return false;
        }
        k = k + 1;
    }
    assert(chars@.subrange(at as int, at + pattern@.len()) =~= pattern@);
    true
}

/// Whether `s` begins with `prefix`.
pub fn starts_with(s: &str, prefix: &str) -> (yes: bool)
    ensures
        yes == prefix@.is_prefix_of(s@),
{
    let chars = chars_of(s);
    let wanted = chars_of(prefix);
    wanted.len() <= chars.len() && stands_at(&chars, &wanted, 0)
}

/// Whether `a` and `b` hold the same characters.
pub fn equal(a: &str, b: &str) -> (yes: bool)
    ensures
        yes == (a@ == b@),
{
    let left = chars_of(a);
    let right = chars_of(b);
    assert(a@.subrange(0, a@.len() as int) =~= a@);
    left.len() == right.len() && stands_at(&left, &right, 0)
}

/// The first place where `pattern` stands in `chars`, if it does.
pub(crate) fn find_chars(chars: &Vec<char>, pattern: &Vec<char>) -> (found: Option<usize>)
    ensures
        match found {
            Some(at) => at == find_text(chars@, pattern@, 0) && at + pattern.len() <= chars.len(),
            None => find_text(chars@, pattern@, 0) + pattern.len() > chars.len(),
        },
{
    if pattern.len() > chars.len() {
        return None;
    }
    let last: usize = chars.len() - pattern.len();
    let mut at: usize = 0;
    while !stands_at(chars, pattern, at)
        invariant
            at <= last,
            last + pattern.len() == chars.len(),
            find_text(chars@, pattern@, 0) == find_text(chars@, pattern@, at as int),
        decreases last - at,
    {
        assert(find_text(chars@, pattern@, at as int) == find_text(chars@, pattern@, at + 1));
        if at == last {
            return None;
        }
        at = at + 1;
    }
    Some(at)
}

/// Whether `pattern` stands somewhere in `s`.
pub fn contains(s: &str, pattern: &str) -> (yes: bool)
    ensures
        yes == contains_text(s@, pattern@),
{
    let chars = chars_of(s);
    let wanted = chars_of(pattern);
    proof {
        lemma_find_text(s@, pattern@, 0);
    }
    find_chars(&chars, &wanted).is_some()
}

/// The `n`-th of the fields that `separator` parts `s` into, if there is one.
pub fn nth_field(s: &str, separator: char, n: usize) -> (found: Option<String>)
    ensures
        match found {
            Some(text) => field(s@, separator, n as nat) == Some(text@),
            None => field(s@, separator, n as nat) is None,
        },
{
    let chars = chars_of(s);
    let mut start: usize = 0;
    let mut k: usize = 0;
    while k < n
        invariant
            k <= n,
            chars@ == s@,
            start <= chars.len(),
            start == field_start(s@, separator, k as nat),
        decreases n - k,
    {
        let end: usize = find_char(&chars, separator, start);
        if end == chars.len() {
            proof {
                lemma_no_field_past_the_end(s@, separator, k as nat + 1, n as nat);
            }
            return None;
        }
        start = end + 1;
        k = k + 1;
    }
    let end: usize = find_char(&chars, separator, start);
    Some(s.substring_char(start, end).to_owned())
}

/// Once the text is used up, no further field begins.
proof fn lemma_no_field_past_the_end(s: Seq<char>, separator: char, k: nat, n: nat)
    requires
        k <= n,
        field_start(s, separator, k) > s.len(),
    ensures
        field_start(s, separator, n) > s.len(),
    decreases n - k,
{
    if k < n {
        assert(field_start(s, separator, k + 1) == find(s, separator, field_start(s, separator, k)) + 1);
        lemma_no_field_past_the_end(s, separator, k + 1, n);
    }
}

} // verus!
