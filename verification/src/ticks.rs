//! The system-wide tick counter, read from the line of counters that the
//! kernel reports for all processors together.

use vstd::prelude::*;
use crate::text::{is_space, is_whitespace, parse_u64, parse_u64_spec, to_chars};

verus! {

/// The words of `s` that are closed by white space, and the word that is
/// still open at its end.
pub open spec fn scan(s: Seq<char>) -> (Seq<Seq<char>>, Seq<char>)
    decreases s.len(),
{
    if s.len() == 0 {
        (Seq::empty(), Seq::empty())
    } else {
        let (closed, open) = scan(s.drop_last());
        if !is_space(s.last()) {
            (closed, open.push(s.last()))
        } else if open.len() > 0 {
            (closed.push(open), Seq::empty())
        } else {
            (closed, Seq::empty())
        }
    }
}

/// The words of `s`: its longest runs without white space, in order.
pub open spec fn words(s: Seq<char>) -> Seq<Seq<char>> {
    let (closed, open) = scan(s);
    if open.len() > 0 {
        closed.push(open)
    } else {
        closed
    }
}

/// `word` holds no white space.
pub open spec fn is_spaceless(word: Seq<char>) -> bool {
    forall|i: int| 0 <= i < word.len() ==> !is_space(#[trigger] word[i])
}

/// Each of `words` holds a character at least and no white space.
pub open spec fn are_words(words: Seq<Seq<char>>) -> bool {
    forall|k: int|
        0 <= k < words.len() ==> (#[trigger] words[k]).len() > 0 && is_spaceless(words[k])
}

/// No word is empty and no word holds white space.
pub proof fn lemma_words_hold_no_space(s: Seq<char>)
    ensures
        are_words(words(s)),
{
    lemma_scan_holds_no_space(s);
}

proof fn lemma_scan_holds_no_space(s: Seq<char>)
    ensures
        are_words(scan(s).0),
        is_spaceless(scan(s).1),
    decreases s.len(),
{
    if s.len() > 0 {
        lemma_scan_holds_no_space(s.drop_last());
    }
}

/// The counter that a word writes, and zero for a word that writes none.
pub open spec fn counter_value(word: Seq<char>) -> nat {
    match parse_u64_spec(word) {
        Some(v) => v as nat,
        None => 0,
    }
}

/// The sum of the counters that `words` write.
pub open spec fn counter_sum(words: Seq<Seq<char>>) -> nat
    decreases words.len(),
{
    if words.len() == 0 {
        0
    } else {
        counter_sum(words.drop_last()) + counter_value(words.last())
    }
}

/// The words behind the first.
pub open spec fn behind_first(words: Seq<Seq<char>>) -> Seq<Seq<char>> {
    if words.len() == 0 {
        words
    } else {
        words.skip(1)
    }
}

/// The tick counter that a line of counters gives: the sum of the counters
/// behind the label `cpu`. A line without that label at its start gives
/// zero, and so does one whose sum is too large for a counter. A word
/// behind the label that writes no counter is passed over.
pub open spec fn total_cpu_ticks_spec(line: Seq<char>) -> u64 {
    let all = words(line);
    if all.len() > 0 && all[0] == "cpu"@ && counter_sum(behind_first(all)) <= u64::MAX {
        counter_sum(behind_first(all)) as u64
    } else {
        0
    }
}

/// Whether the characters of `chars` from `start` up to `end` are `word`.
fn matches_exactly(chars: &Vec<char>, start: usize, end: usize, word: &str) -> (same: bool)
    requires
        start <= end <= chars.len(),
    ensures
        same == (chars@.subrange(start as int, end as int) == word@),
{
    let letters: Vec<char> = to_chars(word);
    let n: usize = letters.len();
    if end - start != n {
        return false;
    }
    let ghost part = chars@.subrange(start as int, end as int);
    let mut i: usize = 0;
    while i < n
        invariant
            i <= n,
            n == letters.len(),
            letters@ == word@,
            start <= end <= chars.len(),
            end - start == n,
            part == chars@.subrange(start as int, end as int),
            forall|j: int| 0 <= j < i ==> part[j] == word@[j],
        decreases n - i,
    {
        if chars[start + i] != letters[i] {
            assert(part[i as int] != word@[i as int]);
            return false;
        }
        assert(part[i as int] == word@[i as int]);
        i = i + 1;
    }
    assert(part =~= word@);
    true
}

/// What has been learnt from the words read so far.
struct Tally {
    /// How many words were read.
    count: usize,
    /// Whether the first word is the label.
    labelled: bool,
    /// The sum of the counters behind the first word.
    sum: u128,
}

impl Tally {
    /// The tally is that of `closed`.
    spec fn is_of(self, closed: Seq<Seq<char>>) -> bool {
        &&& self.count == closed.len()
        &&& self.labelled == (closed.len() > 0 && closed[0] == "cpu"@)
        &&& self.sum == counter_sum(behind_first(closed))
        &&& self.sum <= closed.len() * u64::MAX
    }

    /// Takes in the word from `start` up to `end`.
    fn take_word(&mut self, chars: &Vec<char>, start: usize, end: usize, Ghost(closed): Ghost<
        Seq<Seq<char>>,
    >)
        requires
            start < end <= chars.len(),
            old(self).is_of(closed),
            old(self).count <= start,
        ensures
            final(self).is_of(closed.push(chars@.subrange(start as int, end as int))),
            final(self).count == old(self).count + 1,
    {
        let ghost word = chars@.subrange(start as int, end as int);
        let ghost longer = closed.push(word);
        if self.count == 0 {
            self.labelled = matches_exactly(chars, start, end, "cpu");
            proof {
                assert(behind_first(longer) =~= Seq::<Seq<char>>::empty());
            }
        } else {
            proof {
                assert(behind_first(longer) =~= behind_first(closed).push(word));
                assert(behind_first(longer).drop_last() =~= behind_first(closed));
                assert(closed.len() * u64::MAX + u64::MAX == longer.len() * u64::MAX)
                    by (nonlinear_arith)
                    requires
                        longer.len() == closed.len() + 1,
                ;
                assert(closed.len() * u64::MAX <= usize::MAX * u64::MAX) by (nonlinear_arith)
                    requires
                        closed.len() <= usize::MAX,
                ;
            }
            match parse_u64(chars, start, end) {
                Some(v) => {
                    self.sum = self.sum + v as u128;
                },
                None => {},
            }
        }
        self.count = self.count + 1;
    }
}

/// The tick counter that is reported for a line of counters, and zero
/// where the line could not be had.
pub open spec fn reported_ticks(line: Option<&str>) -> u64 {
    match line {
        Some(text) => total_cpu_ticks_spec(text@),
        None => 0,
    }
}

/// Reads the system-wide tick counter. `line` is the line of counters for
/// all processors together, or `None` if it could not be had. Zero stands
/// for a counter that is not known: no line, or a line that cannot be read
/// as one.
pub fn get_total_cpu_ticks(line: Option<&str>) -> (ticks: u64)
    ensures
        ticks == reported_ticks(line),
{
    match line {
        Some(text) => read_total_cpu_ticks(text),
        None => 0,
    }
}

/// Reads the system-wide tick counter from the line of counters for all
/// processors together.
pub fn read_total_cpu_ticks(line: &str) -> (ticks: u64)
    ensures
        ticks == total_cpu_ticks_spec(line@),
{
    let chars: Vec<char> = to_chars(line);
    let mut tally: Tally = Tally { count: 0, labelled: false, sum: 0 };
    let ghost mut closed: Seq<Seq<char>> = Seq::empty();
    let mut word_start: usize = 0;
    let mut i: usize = 0;
    assert(behind_first(closed) =~= Seq::<Seq<char>>::empty());
    while i < chars.len()
        invariant
            word_start <= i <= chars.len(),
            chars@ == line@,
            scan(chars@.take(i as int)) == (closed, chars@.subrange(word_start as int, i as int)),
            tally.is_of(closed),
            tally.count <= word_start,
        decreases chars.len() - i,
    {
        proof {
            assert(chars@.take(i + 1).drop_last() == chars@.take(i as int));
            assert(chars@.take(i + 1).last() == chars@[i as int]);
        }
        if is_whitespace(chars[i]) {
            if word_start < i {
                tally.take_word(&chars, word_start, i, Ghost(closed));
                proof {
                    closed = closed.push(chars@.subrange(word_start as int, i as int));
                }
            }
            word_start = i + 1;
            assert(chars@.subrange(word_start as int, i + 1) =~= Seq::<char>::empty());
        } else {
            assert(chars@.subrange(word_start as int, i + 1) =~= chars@.subrange(
                word_start as int,
                i as int,
            ).push(chars@[i as int]));
        }
        i = i + 1;
    }
    proof {
        assert(chars@.take(chars.len() as int) == chars@);
    }
    if word_start < chars.len() {
        tally.take_word(&chars, word_start, chars.len(), Ghost(closed));
    }
    if tally.labelled && tally.sum <= u64::MAX as u128 {
        tally.sum as u64
    } else {
        0
    }
}

} // verus!
