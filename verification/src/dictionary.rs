use vstd::prelude::*;

use crate::strutil::{spec_trim, spec_upper, to_upper, trim_substr};

verus! {

/// What one dictionary line normalizes to: trimmed and upper-cased, kept
/// only when at least two characters remain.
pub open spec fn spec_normalized_line(s: Seq<char>) -> Option<Seq<char>> {
    let t = spec_trim(s);
    if t.len() >= 2 {
        Some(spec_upper(t))
    } else {
        None
    }
}

/// Normalize one line of a word list: trim whitespace, upper-case, and
/// keep the result only when at least two characters remain.
pub fn normalize_line(line: &str) -> (r: Option<String>)
    ensures
        match r {
            Some(w) => spec_normalized_line(line@) == Some(w@),
            None => spec_normalized_line(line@) is None,
        },
{
    let trimmed = trim_substr(line);
    if trimmed.unicode_len() >= 2 {
        Some(to_upper(trimmed))
    } else {
        None
    }
}

/// An immutable word list with a case-insensitive membership test.
///
/// Words are held normalized: trimmed, ASCII upper-cased, at least two
/// characters, no duplicates.
pub struct Dictionary {
    words: Vec<String>,
}

impl Dictionary {
    /// The words the dictionary holds, as character sequences.
    pub closed spec fn spec_words(&self) -> Seq<Seq<char>> {
        self.words@.map_values(|w: String| w@)
    }

    /// No two held words are equal.
    pub open spec fn wf(&self) -> bool {
        forall|i: int, j: int|
            0 <= i < j < self.spec_words().len() ==> self.spec_words()[i] != self.spec_words()[j]
    }

    /// Build a dictionary from the lines of a word list: each line is
    /// trimmed and upper-cased; lines shorter than two characters and
    /// duplicates are dropped.
    pub fn from_lines(lines: &Vec<String>) -> (d: Dictionary)
        ensures
            d.wf(),
            forall|w: Seq<char>|
                #[trigger] d.spec_words().contains(w) <==> exists|i: int|
                    0 <= i < lines@.len() && spec_normalized_line(#[trigger] lines@[i]@) == Some(w),
    {
        let mut d = Dictionary { words: Vec::new() };
        let mut i: usize = 0;
        while i < lines.len()
            invariant
                0 <= i <= lines@.len(),
                d.wf(),
                forall|w: Seq<char>|
                    #[trigger] d.spec_words().contains(w) <==> exists|j: int|
                        0 <= j < i && spec_normalized_line(#[trigger] lines@[j]@) == Some(w),
            decreases lines@.len() - i,
        {
            let line = &lines[i];
            match normalize_line(line.as_str()) {
                Some(w) => {
                    if !d.has_exact(&w) {
                        let ghost before = d.spec_words();
                        d.words.push(w);
                        proof {
                            assert(d.spec_words() =~= before.push(w@));
                            assert(forall|v: Seq<char>|
                                #[trigger] d.spec_words().contains(v) <==> (before.contains(v) || v
                                    == w@)) by {
                                assert(forall|v: Seq<char>|
                                    before.contains(v) ==> #[trigger] d.spec_words().contains(
                                        v,
                                    )) by {
                                    assert(forall|k: int|
                                        0 <= k < before.len() ==> d.spec_words()[k]
                                            == #[trigger] before[k]);
                                }
                                assert(d.spec_words().last() == w@);
                            }
                        }
                    }
                },
                None => {},
            }
            i = i + 1;
        }
        d
    }

    /// Create an empty dictionary.
    pub fn empty() -> (d: Self)
        ensures
            d.spec_words().len() == 0,
            d.wf(),
    {
        Dictionary { words: Vec::new() }
    }

    /// Whether the exact sequence `w` is held.
    fn has_exact(&self, w: &String) -> (r: bool)
        ensures
            r == self.spec_words().contains(w@),
    {
        let mut i: usize = 0;
        while i < self.words.len()
            invariant
                0 <= i <= self.words@.len(),
                forall|j: int| 0 <= j < i ==> self.spec_words()[j] != w@,
            decreases self.words@.len() - i,
        {
            if self.words[i].eq(w) {
                assert(self.spec_words()[i as int] == w@);
                return true;
            }
            i = i + 1;
        }
        false
    }

    /// Check if a word exists in the dictionary (case-insensitive on
    /// ASCII letters).
    pub fn contains(&self, word: &str) -> (r: bool)
        ensures
            r == self.spec_words().contains(spec_upper(word@)),
    {
        let upper = to_upper(word);
        self.has_exact(&upper)
    }

    /// The number of words in the dictionary.
    pub fn len(&self) -> (n: usize)
        ensures
            n == self.spec_words().len(),
    {
        self.words.len()
    }

    /// Check if the dictionary is empty.
    pub fn is_empty(&self) -> (r: bool)
        ensures
            r == (self.spec_words().len() == 0),
    {
        self.words.is_empty()
    }
}

} // verus!
