//! Counting the occurrences of a word in the lines of a text.

use vstd::prelude::*;
use vstd::std_specs::iter::IteratorSpec;

verus! {

/// How often `word` occurs in `line`, the occurrences taken from left to right
/// and none of them overlapping the one before. The empty word occurs once
/// before every character and once at the end.
pub open spec fn occurrences(line: Seq<char>, word: Seq<char>) -> nat
    decreases line.len(),
{
    if word.len() == 0 {
        line.len() + 1
    } else if line.len() < word.len() {
        0
    } else if line.take(word.len() as int) == word {
        1 + occurrences(line.skip(word.len() as int), word)
    } else {
        occurrences(line.skip(1), word)
    }
}

/// How often `word` occurs in all of `lines` together.
pub open spec fn total_occurrences(lines: Seq<Seq<char>>, word: Seq<char>) -> nat
    decreases lines.len(),
{
    if lines.len() == 0 {
        0
    } else {
        total_occurrences(lines.drop_last(), word) + occurrences(lines.last(), word)
    }
}

/// A number as a count can hold it: the number itself, or the nearest count
/// there is where the number is out of range.
pub open spec fn saturated(n: int) -> i64 {
    if n > i64::MAX {
        i64::MAX
    } else if n < i64::MIN {
        i64::MIN
    } else {
        n as i64
    }
}

/// A number of occurrences as the service reports it.
pub open spec fn as_count(n: nat) -> i64 {
    saturated(n as int)
}

/// The characters of a text, one by one.
fn chars_of(text: &str) -> (chars: Vec<char>)
    ensures
        chars@ == text@,
{
    let mut chars: Vec<char> = Vec::new();
    let mut rest = text.chars();
    loop
        invariant
            chars@ + rest.remaining() == text@,
            rest.obeys_prophetic_iter_laws(),
            rest.decrease() is Some,
        ensures
            chars@ == text@,
        decreases rest.decrease()->0,
    {
        match rest.next() {
            Some(c) => {
                chars.push(c);
            },
            None => {
                break ;
            },
        }
    }
    chars
}

/// Whether `word` stands in `line` at position `at`.
fn occurs_at(line: &Vec<char>, at: usize, word: &Vec<char>) -> (found: bool)
    requires
        at + word.len() <= line.len(),
    ensures
        found == (line@.subrange(at as int, at + word.len()) == word@),
{
    let mut j: usize = 0;
    while j < word.len()
        invariant
            j <= word.len(),
            at + word.len() <= line.len(),
            forall|k: int| 0 <= k < j ==> line@[at + k] == word@[k],
        decreases word.len() - j,
    {
        if line[at + j] != word[j] {
            assert(line@.subrange(at as int, at + word.len())[j as int] != word@[j as int]);
            return false;
        }
        j += 1;
    }
    assert(line@.subrange(at as int, at + word.len()) =~= word@);
    true
}

/// Counts the occurrences of a word in the lines of a text.
#[derive(Default)]
pub struct ReadCounter {}

impl ReadCounter {
    /// How often `word` occurs in `line`.
    pub fn count_line(word: &str, line: &str) -> (count: i64)
        ensures
            count == as_count(occurrences(line@, word@)),
    {
        let word = chars_of(word);
        let line = chars_of(line);
        let n = line.len();
        let m = word.len();
        if m == 0 {
            let boundaries = n as u64;
            return if boundaries >= 0x7fff_ffff_ffff_ffff {
                i64::MAX
            } else {
                (boundaries + 1) as i64
            };
        }
        let mut found: usize = 0;
        let mut i: usize = 0;
        assert(line@.skip(0) == line@);
        while m <= n - i
            invariant
                n == line@.len(),
                m == word@.len(),
                m > 0,
                i <= n,
                found <= i,
                found + occurrences(line@.skip(i as int), word@) == occurrences(line@, word@),
            decreases n - i,
        {
            let ghost rest = line@.skip(i as int);
            assert(rest.take(m as int) == line@.subrange(i as int, i + m));
            if occurs_at(&line, i, &word) {
                assert(rest.skip(m as int) == line@.skip(i + m));
                found += 1;
                i += m;
            } else {
                assert(rest.skip(1) == line@.skip(i + 1));
                i += 1;
            }
        }
        let found = found as u64;
        if found > 0x7fff_ffff_ffff_ffff {
            i64::MAX
        } else {
            found as i64
        }
    }

    /// A running total after `found` more occurrences have come in.
    pub fn tally(total: i64, found: i64) -> (sum: i64)
        ensures
            sum == saturated(total + found),
    {
        if found >= 0 {
            if total > i64::MAX - found {
                i64::MAX
            } else {
                total + found
            }
        } else {
            if total < i64::MIN - found {
                i64::MIN
            } else {
                total + found
            }
        }
    }

    /// How often `word` occurs in all of `lines` together.
    pub fn count(word: &str, lines: &Vec<String>) -> (count: i64)
        ensures
            count == as_count(total_occurrences(lines@.map_values(|l: String| l@), word@)),
    {
        let ghost texts = lines@.map_values(|l: String| l@);
        let mut total: i64 = 0;
        let mut i: usize = 0;
        while i < lines.len()
            invariant
                i <= lines.len(),
                texts == lines@.map_values(|l: String| l@),
                total == as_count(total_occurrences(texts.take(i as int), word@)),
            decreases lines.len() - i,
        {
            assert(texts.take(i + 1).drop_last() == texts.take(i as int));
            assert(texts.take(i + 1).last() == lines@[i as int]@);
            let found = Self::count_line(word, lines[i].as_str());
            total = Self::tally(total, found);
            i += 1;
        }
        assert(texts.take(i as int) == texts);
        total
    }
}

} // verus!
