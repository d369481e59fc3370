//! Character-level text helpers shared by the renderer and the compositor.
//!
//! Everything here works on sequences of characters rather than on bytes, so
//! that contracts can speak about text positions directly.

use vstd::prelude::*;

verus! {

/// `String::push`, which the standard library documents as appending the
/// given character to the end of the string.
pub assume_specification[ String::push ](s: &mut String, ch: char)
    ensures
        final(s)@ == old(s)@.push(ch),
;

/// `n` copies of `c`.
pub open spec fn run_of(c: char, n: nat) -> Seq<char> {
    Seq::new(n, |i: int| c)
}

/// Whether `pattern` stands in `text` starting at position `at`.
pub open spec fn occurs_at(text: Seq<char>, pattern: Seq<char>, at: int) -> bool {
    &&& 0 <= at
    &&& at + pattern.len() <= text.len()
    &&& text.subrange(at, at + pattern.len()) == pattern
}

/// Whether `text` ends with `suffix`.
pub open spec fn has_suffix(text: Seq<char>, suffix: Seq<char>) -> bool {
    occurs_at(text, suffix, text.len() - suffix.len())
}

/// `text` with every occurrence of `pattern` replaced by `with`, scanning from
/// the left and never revisiting replaced text. An empty pattern occurs
/// nowhere.
pub open spec fn replaced(text: Seq<char>, pattern: Seq<char>, with: Seq<char>) -> Seq<char>
    decreases text.len(),
{
    if pattern.len() == 0 || text.len() == 0 {
        text
    } else if occurs_at(text, pattern, 0) {
        with + replaced(text.skip(pattern.len() as int), pattern, with)
    } else {
        seq![text[0]] + replaced(text.skip(1), pattern, with)
    }
}

/// How many times `c` appears in `text`.
pub open spec fn occurrences(text: Seq<char>, c: char) -> nat
    decreases text.len(),
{
    if text.len() == 0 {
        0
    } else {
        occurrences(text.drop_last(), c) + if text.last() == c {
            1nat
        } else {
            0nat
        }
    }
}

/// The characters of `s`, in order.
pub fn chars_of(s: &str) -> (out: Vec<char>)
    ensures
        out@ == s@,
{
    let mut out: Vec<char> = Vec::new();
    for c in it: s.chars()
        invariant
            out@ == it.seq().take(it.index() as int),
    {
        out.push(c);
    }
    out
}

/// The string spelled by `chars`.
pub fn string_of(chars: &Vec<char>) -> (out: String)
    ensures
        out@ == chars@,
{
    let mut out = String::new();
    let mut i: usize = 0;
    while i < chars.len()
        invariant
            i <= chars.len(),
            out@ == chars@.take(i as int),
        decreases chars.len() - i,
    {
        out.push(chars[i]);
        i += 1;
    }
    out
}

/// Appends all of `more` to `out`.
pub fn append_chars(out: &mut Vec<char>, more: &Vec<char>)
    ensures
        final(out)@ == old(out)@ + more@,
{
    let mut i: usize = 0;
    while i < more.len()
        invariant
            i <= more.len(),
            out@ == old(out)@ + more@.take(i as int),
        decreases more.len() - i,
    {
        out.push(more[i]);
        i += 1;
    }
}

/// Appends `n` copies of `c` to `out`.
pub fn append_run(out: &mut Vec<char>, c: char, n: usize)
    ensures
        final(out)@ == old(out)@ + run_of(c, n as nat),
{
    let mut i: usize = 0;
    while i < n
        invariant
            i <= n,
            out@ == old(out)@ + run_of(c, i as nat),
        decreases n - i,
    {
        out.push(c);
        i += 1;
    }
}

/// Tests whether `pattern` stands in `text` at position `at`.
pub fn matches_at(text: &Vec<char>, pattern: &Vec<char>, at: usize) -> (hit: bool)
    ensures
        hit == occurs_at(text@, pattern@, at as int),
{
    if at > text.len() || pattern.len() > text.len() - at {
        return false;
    }
    let mut k: usize = 0;
    while k < pattern.len()
        invariant
            k <= pattern.len(),
            at + pattern.len() <= text.len(),
            text@.subrange(at as int, at + k) == pattern@.take(k as int),
        decreases pattern.len() - k,
    {
        if text[at + k] != pattern[k] {
            proof {
                let whole = text@.subrange(at as int, at + pattern.len());
                assert(whole[k as int] == text@[at + k]);
            }
            return false;
        }
        proof {
            assert(text@.subrange(at as int, at + k + 1) == text@.subrange(
                at as int,
                at + k,
            ).push(text@[at + k]));
            assert(pattern@.take(k + 1) == pattern@.take(k as int).push(pattern@[k as int]));
        }
        k += 1;
    }
    proof {
        assert(pattern@.take(pattern.len() as int) == pattern@);
    }
    true
}

/// Tests whether `text` ends with `suffix`.
pub fn ends_with(text: &Vec<char>, suffix: &Vec<char>) -> (hit: bool)
    ensures
        hit == has_suffix(text@, suffix@),
{
    if suffix.len() > text.len() {
        return false;
    }
    matches_at(text, suffix, text.len() - suffix.len())
}

/// Tests whether two strings spell the same text.
pub fn same_text(a: &str, b: &str) -> (same: bool)
    ensures
        same == (a@ == b@),
{
    let left = chars_of(a);
    let right = chars_of(b);
    if left.len() != right.len() {
        return false;
    }
    let hit = matches_at(&left, &right, 0);
    proof {
        assert(left@.subrange(0, left.len() as int) == left@);
    }
    hit
}

/// Replaces every occurrence of `pattern` in `text` by `with`.
pub fn replace_all(text: &Vec<char>, pattern: &Vec<char>, with: &Vec<char>) -> (out: Vec<char>)
    ensures
        out@ == replaced(text@, pattern@, with@),
{
    let mut out: Vec<char> = Vec::new();
    if pattern.len() == 0 {
        append_chars(&mut out, text);
        return out;
    }
    let mut i: usize = 0;
    proof {
        assert(text@.skip(0) == text@);
        assert(out@ + replaced(text@, pattern@, with@) == replaced(text@, pattern@, with@));
    }
    while i < text.len()
        invariant
            i <= text.len(),
            pattern.len() > 0,
            out@ + replaced(text@.skip(i as int), pattern@, with@) == replaced(
                text@,
                pattern@,
                with@,
            ),
        decreases text.len() - i,
    {
        let ghost rest = text@.skip(i as int);
        proof {
            assert(occurs_at(text@, pattern@, i as int) == occurs_at(rest, pattern@, 0)) by {
                if i + pattern.len() <= text.len() {
                    assert(rest.subrange(0, pattern.len() as int) == text@.subrange(
                        i as int,
                        i + pattern.len(),
                    ));
                }
            }
        }
        if matches_at(text, pattern, i) {
            proof {
                assert(rest.skip(pattern.len() as int) == text@.skip(i + pattern.len()));
            }
            append_chars(&mut out, with);
            i += pattern.len();
        } else {
            proof {
                assert(rest.skip(1) == text@.skip(i + 1));
                assert(rest[0] == text@[i as int]);
            }
            out.push(text[i]);
            i += 1;
        }
    }
    out
}

/// Counts the occurrences of `c` in `text`.
pub fn count_char(text: &Vec<char>, c: char) -> (n: usize)
    ensures
        n == occurrences(text@, c),
{
    let mut n: usize = 0;
    let mut i: usize = 0;
    while i < text.len()
        invariant
            i <= text.len(),
            n <= i,
            n == occurrences(text@.take(i as int), c),
        decreases text.len() - i,
    {
        proof {
            assert(text@.take(i + 1).drop_last() == text@.take(i as int));
        }
        if text[i] == c {
            n += 1;
        }
        i += 1;
    }
    proof {
        assert(text@.take(text.len() as int) == text@);
    }
    n
}

/// A pattern of one character occurs at the front of a text exactly when the
/// text starts with that character.
pub proof fn lemma_single_occurs(text: Seq<char>, c: char)
    ensures
        occurs_at(text, seq![c], 0) <==> text.len() > 0 && text[0] == c,
{
    if text.len() > 0 {
        assert(text.subrange(0, 1) == seq![text[0]]);
        assert(seq![text[0]][0] == text[0]);
    }
}

/// Replacing a single character works piece by piece: the replacement of a
/// concatenation is the concatenation of the replacements.
pub proof fn lemma_replaced_single_splits(a: Seq<char>, b: Seq<char>, c: char, with: Seq<char>)
    ensures
        replaced(a + b, seq![c], with) == replaced(a, seq![c], with) + replaced(b, seq![c], with),
    decreases a.len(),
{
    if a.len() == 0 {
        assert(a + b == b);
    } else {
        lemma_single_occurs(a, c);
        lemma_single_occurs(a + b, c);
        assert((a + b).skip(1) == a.skip(1) + b);
        lemma_replaced_single_splits(a.skip(1), b, c, with);
    }
}

/// Replacing the pair `c c` by the single `c` works piece by piece wherever
/// the cut does not follow a `c`.
pub proof fn lemma_replaced_pair_splits(a: Seq<char>, b: Seq<char>, c: char)
    requires
        a.len() == 0 || a.last() != c,
    ensures
        replaced(a + b, seq![c, c], seq![c]) == replaced(a, seq![c, c], seq![c]) + replaced(
            b,
            seq![c, c],
            seq![c],
        ),
    decreases a.len(),
{
    let pair = seq![c, c];
    if a.len() == 0 {
        assert(a + b == b);
    } else if occurs_at(a + b, pair, 0) {
        assert((a + b).subrange(0, 2)[0] == c && (a + b).subrange(0, 2)[1] == c);
        assert(a.len() >= 2);
        assert(a.subrange(0, 2) == (a + b).subrange(0, 2));
        assert((a + b).skip(2) == a.skip(2) + b);
        assert(a.len() > 2);
        assert(a.skip(2).last() == a.last());
        lemma_replaced_pair_splits(a.skip(2), b, c);
    } else {
        if a.len() >= 2 {
            assert(a.subrange(0, 2) == (a + b).subrange(0, 2));
        }
        assert((a + b).skip(1) == a.skip(1) + b);
        if a.len() > 1 {
            assert(a.skip(1).last() == a.last());
        }
        lemma_replaced_pair_splits(a.skip(1), b, c);
    }
}

/// Replacing the pair `c c` by the single `c` keeps a last character other
/// than `c` where it is.
pub proof fn lemma_replaced_pair_keeps_end(text: Seq<char>, c: char)
    requires
        text.len() > 0,
        text.last() != c,
    ensures
        replaced(text, seq![c, c], seq![c]).len() > 0,
        replaced(text, seq![c, c], seq![c]).last() == text.last(),
    decreases text.len(),
{
    let pair = seq![c, c];
    let whole = replaced(text, pair, seq![c]);
    if occurs_at(text, pair, 0) {
        assert(text.subrange(0, 2)[0] == c && text.subrange(0, 2)[1] == c);
        assert(text.len() > 2);
        assert(text.skip(2).last() == text.last());
        lemma_replaced_pair_keeps_end(text.skip(2), c);
        let rest = replaced(text.skip(2), pair, seq![c]);
        assert(whole == seq![c] + rest);
        assert(whole.last() == rest.last());
    } else if text.len() > 1 {
        assert(text.skip(1).last() == text.last());
        lemma_replaced_pair_keeps_end(text.skip(1), c);
        let rest = replaced(text.skip(1), pair, seq![c]);
        assert(whole == seq![text[0]] + rest);
        assert(whole.last() == rest.last());
    } else {
        assert(text.skip(1).len() == 0);
        assert(replaced(text.skip(1), pair, seq![c]) == text.skip(1));
        assert(whole == seq![text[0]] + text.skip(1));
        assert(whole.last() == text[0]);
    }
}

/// Occurrences add up over a concatenation.
pub proof fn lemma_occurrences_add(a: Seq<char>, b: Seq<char>, c: char)
    ensures
        occurrences(a + b, c) == occurrences(a, c) + occurrences(b, c),
    decreases b.len(),
{
    if b.len() == 0 {
        assert(a + b == a);
    } else {
        assert((a + b).drop_last() == a + b.drop_last());
        lemma_occurrences_add(a, b.drop_last(), c);
    }
}

/// A run of `n` copies of `c` holds `c` exactly `n` times.
pub proof fn lemma_occurrences_in_run(c: char, n: nat)
    ensures
        occurrences(run_of(c, n), c) == n,
    decreases n,
{
    if n > 0 {
        assert(run_of(c, n).drop_last() == run_of(c, (n - 1) as nat));
        lemma_occurrences_in_run(c, (n - 1) as nat);
    }
}

/// A text that nowhere holds `c` holds it zero times.
pub proof fn lemma_occurrences_of_absent(text: Seq<char>, c: char)
    requires
        forall|i: int| 0 <= i < text.len() ==> text[i] != c,
    ensures
        occurrences(text, c) == 0,
    decreases text.len(),
{
    if text.len() > 0 {
        lemma_occurrences_of_absent(text.drop_last(), c);
    }
}

} // verus!
