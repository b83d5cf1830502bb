//! Counting the words and characters of a line of text.

use vstd::prelude::*;
use vstd::string::StrSliceExecFns;

verus! {

/// Whether `c` is white space: a character with the Unicode property
/// `White_Space`.
pub open spec fn is_space(c: char) -> bool {
    ||| '\u{9}' <= c <= '\u{d}'
    ||| c == ' '
    ||| c == '\u{85}'
    ||| c == '\u{a0}'
    ||| c == '\u{1680}'
    ||| '\u{2000}' <= c <= '\u{200a}'
    ||| c == '\u{2028}'
    ||| c == '\u{2029}'
    ||| c == '\u{202f}'
    ||| c == '\u{205f}'
    ||| c == '\u{3000}'
}

/// Whether a word starts at position `i` of `s`: the character there is no
/// white space, and it is the first of `s` or follows white space.
pub open spec fn word_starts_at(s: Seq<char>, i: int) -> bool {
    0 <= i < s.len() && !is_space(s[i]) && (i == 0 || is_space(s[i - 1]))
}

/// The number of words in `s`: of runs of characters other than white
/// space, each as long as it can be.
pub open spec fn word_count(s: Seq<char>) -> nat
    decreases s.len(),
{
    if s.len() == 0 {
        0
    } else {
        word_count(s.drop_last()) + (if word_starts_at(s, s.len() - 1) {
            1nat
        } else {
            0nat
        })
    }
}

/// A text holds no more words than characters.
pub proof fn lemma_word_count_bounded(s: Seq<char>)
    ensures
        word_count(s) <= s.len(),
    decreases s.len(),
{
    if s.len() > 0 {
        lemma_word_count_bounded(s.drop_last());
    }
}

/// Tells whether `c` is white space.
pub fn is_whitespace(c: char) -> (space: bool)
    ensures
        space == is_space(c),
{
    ('\u{9}' <= c && c <= '\u{d}') || c == ' ' || c == '\u{85}' || c == '\u{a0}' || c == '\u{1680}'
        || ('\u{2000}' <= c && c <= '\u{200a}') || c == '\u{2028}' || c == '\u{2029}' || c
        == '\u{202f}' || c == '\u{205f}' || c == '\u{3000}'
}

/// A line of text with the number of its words and characters.
#[derive(Clone, Debug, PartialEq, Eq)]
pub struct Node {
    count_words: usize,
    count_chars: usize,
    buf: String,
}

impl Node {
    /// The line.
    pub closed spec fn text(&self) -> Seq<char> {
        self.buf@
    }

    /// The number of words of the line.
    pub closed spec fn words(&self) -> usize {
        self.count_words
    }

    /// The number of characters of the line.
    pub closed spec fn chars(&self) -> usize {
        self.count_chars
    }

    /// Counts the words and the characters of `line`.
    pub fn new(line: &str) -> (node: Node)
        ensures
            node.text() == line@,
            node.words() == word_count(line@),
            node.chars() == line@.len(),
    {
        let len = line.unicode_len();
        let mut count_words: usize = 0;
        let mut after_space = true;
        for c in it: line.chars()
            invariant
                it.seq() == line@,
                len == line@.len(),
                count_words == word_count(line@.take(it.index() as int)),
                after_space == (it.index() == 0 || is_space(line@[it.index() - 1])),
        {
            let space = is_whitespace(c);
            proof {
                let i = it.index() as int;
                let s = line@.take(i + 1);
                assert(s.drop_last() =~= line@.take(i));
                assert(s[i] == line@[i]);
                if i > 0 {
                    assert(s[i - 1] == line@[i - 1]);
                }
                lemma_word_count_bounded(line@.take(i));
            }
            if !space && after_space {
                count_words += 1;
            }
            after_space = space;
        }
        proof {
            assert(line@.take(line@.len() as int) =~= line@);
        }
        Node { count_chars: len, count_words, buf: line.to_owned() }
    }

    /// The number of words and the number of characters of the line.
    pub fn get(&self) -> (counts: Option<(usize, usize)>)
        ensures
            counts == Some((self.words(), self.chars())),
    {
        Some((self.count_words, self.count_chars))
    }
}

} // verus!
