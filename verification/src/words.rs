//! Splitting a line into its whitespace-separated words.

use crate::text::{chars_of, is_whitespace, whitespace};
use vstd::prelude::*;

verus! {

/// The end of the run that starts at `from`: the first index at or after
/// `from` whose character is whitespace when `space` is false, or is not
/// whitespace when `space` is true; the length of `s` where there is none.
pub open spec fn run_end(s: Seq<char>, from: int, space: bool) -> int
    decreases s.len() - from,
{
    if 0 <= from < s.len() && is_whitespace(s[from]) == space {
        run_end(s, from + 1, space)
    } else {
        from
    }
}

/// The words of `s` that start at or after `from`: skip the whitespace, take
/// the longest run without whitespace, and go on behind it.
pub open spec fn words_from(s: Seq<char>, from: int) -> Seq<Seq<char>>
    decreases s.len() - from,
    via words_from_decreases
{
    let start = run_end(s, from, true);
    let end = run_end(s, start, false);
    if start < end {
        seq![s.subrange(start, end)] + words_from(s, end)
    } else {
        Seq::empty()
    }
}

#[via_fn]
proof fn words_from_decreases(s: Seq<char>, from: int) {
    let start = run_end(s, from, true);
    let end = run_end(s, start, false);
    lemma_run_end_bounds(s, from, true);
    lemma_run_end_bounds(s, start, false);
}

/// The words of `s`: its maximal runs of characters that are not whitespace,
/// from left to right.
pub open spec fn words(s: Seq<char>) -> Seq<Seq<char>> {
    words_from(s, 0)
}

/// A run ends at or after its start, and within `s` when it starts there.
pub proof fn lemma_run_end_bounds(s: Seq<char>, from: int, space: bool)
    ensures
        from <= run_end(s, from, space),
        0 <= from <= s.len() ==> run_end(s, from, space) <= s.len(),
        run_end(s, from, space) > from ==> 0 <= from && run_end(s, from, space) <= s.len(),
    decreases s.len() - from,
{
    if 0 <= from < s.len() && is_whitespace(s[from]) == space {
        lemma_run_end_bounds(s, from + 1, space);
    }
}

/// A run is what its name says: every character in it is of the one kind,
/// and the character behind it, if there is one, is of the other.
pub proof fn lemma_run_end_is(s: Seq<char>, from: int, to: int, space: bool)
    requires
        0 <= from <= to <= s.len(),
        forall|k: int| from <= k < to ==> is_whitespace(#[trigger] s[k]) == space,
        to < s.len() ==> is_whitespace(s[to]) != space,
    ensures
        run_end(s, from, space) == to,
    decreases to - from,
{
    if from < to {
        lemma_run_end_is(s, from + 1, to, space);
    }
}

/// Every character of a run is of the run's kind.
pub proof fn lemma_run_chars(s: Seq<char>, from: int, space: bool)
    ensures
        forall|k: int|
            from <= k < run_end(s, from, space) ==> is_whitespace(#[trigger] s[k]) == space,
        run_end(s, from, space) < s.len() && 0 <= from ==> is_whitespace(
            s[run_end(s, from, space)],
        ) != space,
    decreases s.len() - from,
{
    if 0 <= from < s.len() && is_whitespace(s[from]) == space {
        lemma_run_chars(s, from + 1, space);
    }
}

/// A run in `front + back` that starts in `back` is the run of `back`,
/// moved by the length of `front`.
pub proof fn lemma_run_end_shift(front: Seq<char>, back: Seq<char>, from: int, space: bool)
    requires
        0 <= from,
    ensures
        run_end(front + back, front.len() + from, space) == front.len() + run_end(
            back,
            from,
            space,
        ),
    decreases back.len() - from,
{
    let s = front + back;
    if from < back.len() {
        assert(s[front.len() + from] == back[from]);
        if is_whitespace(back[from]) == space {
            lemma_run_end_shift(front, back, from + 1, space);
        }
    }
}

/// The words of `front + back` that start in `back` are the words of `back`.
pub proof fn lemma_words_shift(front: Seq<char>, back: Seq<char>, from: int)
    requires
        0 <= from,
    ensures
        words_from(front + back, front.len() + from) == words_from(back, from),
    decreases back.len() - from,
{
    let s = front + back;
    let start = run_end(back, from, true);
    let end = run_end(back, start, false);
    lemma_run_end_bounds(back, from, true);
    lemma_run_end_bounds(back, start, false);
    lemma_run_end_shift(front, back, from, true);
    lemma_run_end_shift(front, back, start, false);
    if start < end {
        lemma_words_shift(front, back, end);
        assert(s.subrange(front.len() + start, front.len() + end) == back.subrange(start, end));
    }
}

/// Where whitespace follows `front`, the words of the whole that start in
/// `front` are those of `front`, and then those that start behind it.
pub proof fn lemma_words_split(front: Seq<char>, back: Seq<char>, from: int)
    requires
        0 <= from <= front.len(),
        back.len() > 0,
        is_whitespace(back[0]),
    ensures
        words_from(front + back, from) == words_from(front, from) + words_from(
            front + back,
            front.len() as int,
        ),
    decreases front.len() - from,
{
    let s = front + back;
    let n = front.len() as int;
    assert(s[n] == back[0]);
    assert forall|k: int| 0 <= k < n implies #[trigger] s[k] == front[k] by {}
    let start = run_end(front, from, true);
    lemma_run_end_bounds(front, from, true);
    lemma_run_chars(front, from, true);
    if start < n {
        let end = run_end(front, start, false);
        lemma_run_end_bounds(front, start, false);
        lemma_run_chars(front, start, false);
        assert(run_end(s, from, true) == start) by {
            assert forall|k: int| from <= k < start implies is_whitespace(#[trigger] s[k]) by {
                assert(s[k] == front[k]);
            }
            assert(s[start] == front[start]);
            lemma_run_end_is(s, from, start, true);
        }
        assert(run_end(s, start, false) == end) by {
            assert forall|k: int| start <= k < end implies !is_whitespace(#[trigger] s[k]) by {
                assert(s[k] == front[k]);
            }
            if end < n {
                assert(s[end] == front[end]);
            }
            lemma_run_end_is(s, start, end, false);
        }
        assert(start < end);
        assert(s.subrange(start, end) == front.subrange(start, end));
        lemma_words_split(front, back, end);
        assert(words_from(s, from) == seq![s.subrange(start, end)] + words_from(s, end));
        assert(words_from(front, from) == seq![front.subrange(start, end)] + words_from(
            front,
            end,
        ));
        assert(seq![s.subrange(start, end)] + (words_from(front, end) + words_from(s, n)) == (
        seq![front.subrange(start, end)] + words_from(front, end)) + words_from(s, n));
    } else {
        assert(words_from(front, from) == Seq::<Seq<char>>::empty());
        let stop = run_end(s, n, true);
        lemma_run_end_bounds(s, n, true);
        lemma_run_chars(s, n, true);
        assert(run_end(s, from, true) == stop) by {
            assert forall|k: int| from <= k < stop implies is_whitespace(#[trigger] s[k]) by {
                if k < n {
                    assert(s[k] == front[k]);
                }
            }
            lemma_run_end_is(s, from, stop, true);
        }
        assert(words_from(s, from) == words_from(s, n));
        assert(Seq::<Seq<char>>::empty() + words_from(s, n) == words_from(s, n));
    }
}

/// No word is empty and no word holds whitespace.
pub proof fn lemma_words_are_solid(s: Seq<char>, from: int)
    requires
        0 <= from,
    ensures
        forall|k: int, i: int|
            #![trigger words_from(s, from)[k][i]]
            0 <= k < words_from(s, from).len() && 0 <= i < words_from(s, from)[k].len()
                ==> !is_whitespace(words_from(s, from)[k][i]),
        forall|k: int|
            0 <= k < words_from(s, from).len() ==> (#[trigger] words_from(s, from)[k]).len() > 0,
    decreases s.len() - from,
{
    let start = run_end(s, from, true);
    let end = run_end(s, start, false);
    lemma_run_end_bounds(s, from, true);
    lemma_run_end_bounds(s, start, false);
    lemma_run_chars(s, start, false);
    if start < end {
        lemma_words_are_solid(s, end);
        let rest = words_from(s, end);
        let all = words_from(s, from);
        assert(all == seq![s.subrange(start, end)] + rest);
        assert forall|k: int| 0 <= k < all.len() implies (#[trigger] all[k]).len() > 0 by {
            if k > 0 {
                assert(all[k] == rest[k - 1]);
            }
        }
        assert forall|k: int, i: int|
            #![trigger all[k][i]]
            0 <= k < all.len() && 0 <= i < all[k].len() implies !is_whitespace(all[k][i]) by {
            if k > 0 {
                assert(all[k] == rest[k - 1]);
                assert(!is_whitespace(rest[k - 1][i]));
            } else {
                assert(all[0][i] == s[start + i]);
            }
        }
    }
}

/// A text without whitespace is its own single word, unless it is empty.
pub proof fn lemma_words_of_word(s: Seq<char>)
    requires
        s.len() > 0,
        forall|i: int| 0 <= i < s.len() ==> !is_whitespace(#[trigger] s[i]),
    ensures
        words(s) == seq![s],
{
    let n = s.len() as int;
    lemma_run_end_is(s, 0, 0, true);
    lemma_run_end_is(s, 0, n, false);
    assert(words_from(s, n) == Seq::<Seq<char>>::empty());
    assert(s.subrange(0, n) == s);
    assert(seq![s] + Seq::<Seq<char>>::empty() == seq![s]);
}

/// Whitespace between two texts keeps their words apart and adds none:
/// the words of the whole are those of the left text, then those of the
/// right one.
pub proof fn lemma_words_joined(left: Seq<char>, space: char, right: Seq<char>)
    requires
        is_whitespace(space),
    ensures
        words(left + seq![space] + right) == words(left) + words(right),
{
    let back = seq![space] + right;
    let s = left + back;
    assert(left + seq![space] + right == s);
    lemma_words_split(left, back, 0);
    // Behind `left` the whitespace is skipped, and the words of `right` follow.
    let n = left.len() as int;
    assert(s[n] == space);
    assert(run_end(s, n, true) == run_end(s, n + 1, true));
    assert(words_from(s, n) == words_from(s, n + 1));
    lemma_words_shift(left + seq![space], right, 0);
}

/// The words of a line.
pub fn process_input(input: String) -> (tokens: Vec<String>)
    ensures
        tokens.deep_view() == words(input@),
{
    let line = input.as_str();
    let chars = chars_of(line);
    let n = chars.len();
    let mut tokens: Vec<String> = Vec::new();
    let mut i: usize = 0;
    loop
        invariant_except_break
            i <= n,
            words(input@) == tokens.deep_view() + words_from(input@, i as int),
        invariant
            n == chars.len(),
            chars@ == input@,
            line@ == input@,
        ensures
            tokens.deep_view() == words(input@),
        decreases n - i,
    {
        let ghost from = i as int;
        while i < n && whitespace(chars[i])
            invariant
                from <= i <= n,
                n == chars.len(),
                chars@ == input@,
                forall|k: int| from <= k < i ==> is_whitespace(#[trigger] input@[k]),
            decreases n - i,
        {
            i += 1;
        }
        let start = i;
        while i < n && !whitespace(chars[i])
            invariant
                start <= i <= n,
                n == chars.len(),
                chars@ == input@,
                forall|k: int| start <= k < i ==> !is_whitespace(#[trigger] input@[k]),
            decreases n - i,
        {
            i += 1;
        }
        proof {
            lemma_run_end_is(input@, from, start as int, true);
            lemma_run_end_is(input@, start as int, i as int, false);
        }
        if start == i {
            assert(words_from(input@, from) == Seq::<Seq<char>>::empty());
            assert(tokens.deep_view() + Seq::<Seq<char>>::empty() == tokens.deep_view());
            break ;
        }
        let ghost before = tokens.deep_view();
        let word = line.substring_char(start, i).to_owned();
        tokens.push(word);
        proof {
            assert(tokens.deep_view() == before.push(input@.subrange(start as int, i as int)));
            assert(words_from(input@, from) == seq![input@.subrange(start as int, i as int)]
                + words_from(input@, i as int));
            assert(before + (seq![input@.subrange(start as int, i as int)] + words_from(
                input@,
                i as int,
            )) == before.push(input@.subrange(start as int, i as int)) + words_from(
                input@,
                i as int,
            ));
        }
    }
    tokens
}

} // verus!
