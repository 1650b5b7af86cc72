//! What the kernel tells in its information files.
use crate::text::{
    dec, has_prefix, lemma_dec_suffixed, lines, lines_of, natural_upto, opt_text, parse_u64,
    split_whitespace, starts_with, texts, words,
};
use vstd::prelude::*;

verus! {

/// The first line that begins with `prefix`.
pub open spec fn line_with(lines: Seq<Seq<char>>, prefix: Seq<char>) -> Option<Seq<char>>
    decreases lines.len(),
{
    if lines.len() == 0 {
        None
    } else if has_prefix(lines[0], prefix) {
        Some(lines[0])
    } else {
        line_with(lines.skip(1), prefix)
    }
}

/// The first line that begins with `prefix`.
pub fn find_line(content: &str, prefix: &str) -> (r: Option<String>)
    ensures
        opt_text(r) == line_with(lines_of(content@), prefix@),
{
    let ls = lines(content);
    let mut i: usize = 0;
    assert(texts(ls@).skip(0) =~= texts(ls@));
    while i < ls.len()
        invariant
            i <= ls@.len(),
            texts(ls@) == lines_of(content@),
            line_with(texts(ls@), prefix@) == line_with(texts(ls@).skip(i as int), prefix@),
        decreases ls@.len() - i,
    {
        assert(texts(ls@).skip(i as int)[0] == ls@[i as int]@);
        assert(texts(ls@).skip(i as int).skip(1) =~= texts(ls@).skip(i + 1));
        if starts_with(ls[i].as_str(), prefix) {
            return Some(ls[i].clone());
        }
        i = i + 1;
    }
    None
}

/// The `n`-th word of a line, counted from zero.
pub open spec fn word_at(line: Seq<char>, n: int) -> Option<Seq<char>> {
    if 0 <= n < words(line).len() {
        Some(words(line)[n])
    } else {
        None
    }
}

/// The `n`-th word of a line, counted from zero.
pub fn nth_word(line: &str, n: usize) -> (r: Option<String>)
    ensures
        opt_text(r) == word_at(line@, n as int),
{
    let w = split_whitespace(line);
    assert(texts(w@).len() == w@.len());
    if n < w.len() {
        assert(texts(w@)[n as int] == w@[n as int]@);
        Some(w[n].clone())
    } else {
        None
    }
}

/// The number that the `n`-th word of a line denotes.
pub open spec fn number_at(line: Seq<char>, n: int) -> Option<nat> {
    match word_at(line, n) {
        Some(w) => natural_upto(w, u64::MAX as int),
        None => None,
    }
}

/// The number that the `n`-th word of a line denotes.
pub fn nth_number(line: &str, n: usize) -> (r: Option<u64>)
    ensures
        match r {
            Some(k) => number_at(line@, n as int) == Some(k as nat),
            None => number_at(line@, n as int) is None,
        },
{
    match nth_word(line, n) {
        Some(w) => parse_u64(w.as_str()),
        None => None,
    }
}

/// The number of KiB that a memory information text gives in its first line
/// that begins with `prefix`.
pub open spec fn meminfo_kib_of(content: Seq<char>, prefix: Seq<char>) -> Option<nat> {
    match line_with(lines_of(content), prefix) {
        Some(l) => number_at(l, 1),
        None => None,
    }
}

/// Reads a number of KiB out of a memory information text.
pub fn meminfo_kib(content: &str, prefix: &str) -> (r: Option<u64>)
    ensures
        match r {
            Some(k) => meminfo_kib_of(content@, prefix@) == Some(k as nat),
            None => meminfo_kib_of(content@, prefix@) is None,
        },
{
    match find_line(content, prefix) {
        Some(l) => nth_number(l.as_str(), 1),
        None => None,
    }
}

/// A number of KiB in bytes.
pub fn kib_to_bytes(kib: u64) -> (r: u64)
    requires
        kib * 1024 <= u64::MAX,
    ensures
        r == kib * 1024,
{
    kib * 1024
}

/// A line is found by its beginning, and the first that begins so counts.
pub proof fn law_first_line_counts(lines: Seq<Seq<char>>, prefix: Seq<char>, i: int)
    requires
        0 <= i < lines.len(),
        has_prefix(lines[i], prefix),
        forall|j: int| 0 <= j < i ==> !has_prefix(#[trigger] lines[j], prefix),
    ensures
        line_with(lines, prefix) == Some(lines[i]),
    decreases i,
{
    if i > 0 {
        assert(!has_prefix(lines[0], prefix));
        let rest = lines.skip(1);
        assert(rest[i - 1] == lines[i]);
        assert forall|j: int| 0 <= j < i - 1 implies !has_prefix(#[trigger] rest[j], prefix) by {
            assert(rest[j] == lines[j + 1]);
        }
        law_first_line_counts(rest, prefix, i - 1);
    }
}

/// The number of a line is its second word.
pub proof fn law_amounts_are_second_words(content: Seq<char>, prefix: Seq<char>, n: nat)
    requires
        n <= u64::MAX,
    ensures
        line_with(lines_of(content), prefix) matches Some(l) ==> (words(l).len() > 1 && words(l)[1]
            == dec(n) ==> meminfo_kib_of(content, prefix) == Some(n)),
        line_with(lines_of(content), prefix) is None ==> meminfo_kib_of(content, prefix) is None,
{
    lemma_dec_suffixed(n, Seq::empty());
    assert(dec(n) + Seq::<char>::empty() =~= dec(n));
}

} // verus!
