//! Counting the places at which a piece of markup stands in a text.
//!
//! The patterns of interest open a tag: they begin with `<` and hold no
//! other. A text that is put together from parts then has as many
//! occurrences as its parts have, as long as no part ends with a `<` close
//! enough to its end for an occurrence to reach into the next part.

use vstd::prelude::*;

verus! {

/// Whether `pattern` stands in `text` at position `at`.
pub open spec fn occurs_at(text: Seq<char>, pattern: Seq<char>, at: int) -> bool {
    &&& 0 <= at
    &&& at + pattern.len() <= text.len()
    &&& forall|j: int| 0 <= j < pattern.len() ==> text[at + j] == #[trigger] pattern[j]
}

/// The number of positions below `end` at which `pattern` stands in `text`.
pub open spec fn occurrences_below(text: Seq<char>, pattern: Seq<char>, end: int) -> nat
    decreases end,
{
    if end <= 0 {
        0
    } else if occurs_at(text, pattern, end - 1) {
        occurrences_below(text, pattern, end - 1) + 1
    } else {
        occurrences_below(text, pattern, end - 1)
    }
}

/// The number of positions at which `pattern` stands in `text`.
pub open spec fn occurrences(text: Seq<char>, pattern: Seq<char>) -> nat {
    occurrences_below(text, pattern, text.len() as int)
}

/// Whether `text` holds no `<` at all.
pub open spec fn holds_no_tag(text: Seq<char>) -> bool {
    forall|i: int| 0 <= i < text.len() ==> #[trigger] text[i] != '<'
}

/// Whether none of the last `window` characters of `text` is a `<`.
pub open spec fn ends_clear(text: Seq<char>, window: int) -> bool {
    forall|i: int| 0 <= i < text.len() && text.len() - window <= i ==> #[trigger] text[i] != '<'
}

/// Whether `text` holds `count` occurrences of `pattern` and ends in a way
/// that lets no occurrence begin in it and end in what follows.
pub open spec fn tallies(text: Seq<char>, pattern: Seq<char>, count: nat) -> bool {
    occurrences(text, pattern) == count && ends_clear(text, pattern.len() - 1)
}

/// Two texts in which `pattern` stands at the same positions below `end`
/// have the same number of occurrences below `end`.
pub proof fn lemma_occurrences_below_agree(
    first: Seq<char>,
    second: Seq<char>,
    pattern: Seq<char>,
    end: int,
)
    requires
        forall|i: int|
            0 <= i < end ==> occurs_at(first, pattern, i) == occurs_at(second, pattern, i),
    ensures
        occurrences_below(first, pattern, end) == occurrences_below(second, pattern, end),
    decreases end,
{
    if end > 0 {
        lemma_occurrences_below_agree(first, second, pattern, end - 1);
    }
}

/// Where `pattern` stands in `whole` from `offset` on exactly as it stands
/// in `part` from its start, counting on in `whole` adds the count of `part`.
pub proof fn lemma_occurrences_below_shift(
    whole: Seq<char>,
    part: Seq<char>,
    pattern: Seq<char>,
    offset: int,
    end: int,
)
    requires
        0 <= offset,
        0 <= end,
        forall|i: int|
            0 <= i < end ==> occurs_at(whole, pattern, offset + i) == occurs_at(part, pattern, i),
    ensures
        occurrences_below(whole, pattern, offset + end) == occurrences_below(
            whole,
            pattern,
            offset,
        ) + occurrences_below(part, pattern, end),
    decreases end,
{
    if end > 0 {
        lemma_occurrences_below_shift(whole, part, pattern, offset, end - 1);
        assert(occurs_at(whole, pattern, offset + (end - 1)) == occurs_at(part, pattern, end - 1));
    }
}

/// A pattern that stands nowhere below `end` is counted zero times there.
pub proof fn lemma_no_occurrence_below(text: Seq<char>, pattern: Seq<char>, end: int)
    requires
        forall|i: int| 0 <= i < end ==> !occurs_at(text, pattern, i),
    ensures
        occurrences_below(text, pattern, end) == 0,
    decreases end,
{
    if end > 0 {
        lemma_no_occurrence_below(text, pattern, end - 1);
    }
}

/// A pattern that stands at `at` and nowhere else below `end` is counted
/// once there.
pub proof fn lemma_one_occurrence_below(text: Seq<char>, pattern: Seq<char>, at: int, end: int)
    requires
        0 <= at < end,
        forall|i: int| 0 <= i < end ==> (occurs_at(text, pattern, i) <==> i == at),
    ensures
        occurrences_below(text, pattern, end) == 1,
    decreases end,
{
    if end - 1 == at {
        lemma_no_occurrence_below(text, pattern, at);
    } else {
        lemma_one_occurrence_below(text, pattern, at, end - 1);
    }
}

/// A text without `<` holds no occurrence of a pattern that begins with
/// `<`, whatever follows it.
pub proof fn lemma_text_without_tag_tallies_zero(text: Seq<char>, pattern: Seq<char>)
    requires
        holds_no_tag(text),
        pattern.len() >= 1,
        pattern[0] == '<',
    ensures
        tallies(text, pattern, 0),
{
    assert forall|i: int| 0 <= i < text.len() implies !occurs_at(text, pattern, i) by {
        if occurs_at(text, pattern, i) {
            assert(text[i + 0] == pattern[0]);
        }
    }
    lemma_no_occurrence_below(text, pattern, text.len() as int);
}

/// The empty text holds no occurrence of anything.
pub proof fn lemma_empty_text_tallies_zero(pattern: Seq<char>)
    ensures
        tallies(Seq::empty(), pattern, 0),
{
}

/// Occurrences add up over concatenation: if `first` and `second` hold
/// `m` and `n` occurrences of a pattern that begins with `<`, and neither
/// ends with a `<` among its last characters, then `first + second` holds
/// `m + n`, and it ends as clear as they do.
pub proof fn lemma_tallies_concat(
    first: Seq<char>,
    second: Seq<char>,
    pattern: Seq<char>,
    m: nat,
    n: nat,
)
    requires
        pattern.len() >= 1,
        pattern[0] == '<',
        tallies(first, pattern, m),
        tallies(second, pattern, n),
    ensures
        tallies(first + second, pattern, m + n),
{
    let whole = first + second;
    let cut = first.len() as int;
    assert forall|i: int| 0 <= i < cut implies occurs_at(whole, pattern, i) == occurs_at(
        first,
        pattern,
        i,
    ) by {
        if i + pattern.len() > cut && occurs_at(whole, pattern, i) {
            assert(whole[i + 0] == pattern[0]);
            assert(first[i] != '<');
        }
    }
    lemma_occurrences_below_agree(whole, first, pattern, cut);
    assert forall|i: int| 0 <= i < second.len() implies occurs_at(whole, pattern, cut + i)
        == occurs_at(second, pattern, i) by {
        assert forall|j: int| 0 <= j < pattern.len() && i + pattern.len() <= second.len() implies (
        whole[cut + i + j] == #[trigger] pattern[j]) == (second[i + j] == pattern[j]) by {
            assert(whole[cut + i + j] == second[i + j]);
        }
    }
    lemma_occurrences_below_shift(whole, second, pattern, cut, second.len() as int);
    assert forall|i: int|
        0 <= i < whole.len() && whole.len() - (pattern.len() - 1) <= i implies #[trigger] whole[i]
        != '<' by {
        if i < cut {
            assert(whole[i] == first[i]);
        } else {
            assert(whole[i] == second[i - cut]);
        }
    }
}

} // verus!
