//! Counting the words of the document and the text that shows the count.

use vstd::prelude::*;
use crate::thousands::{
    lemma_thousands_layout, lemma_thousands_value, numeral_value, thousandify, thousands_text,
    without_commas,
};

verus! {

/// What counts as a word: a run of word characters and hyphens.
pub const WORD_PATTERN: &'static str = "[\\w-]+";

/// The number of non-overlapping matches of the regular expression `pattern`
/// in `text`, as `regex::Regex::find_iter` yields them, or `None` when
/// `regex::Regex::new` refuses `pattern`.
pub uninterp spec fn regex_match_count(pattern: Seq<char>, text: Seq<char>) -> Option<nat>;

/// Compiles `pattern` (`regex::Regex::new`) and counts the matches that
/// `regex::Regex::find_iter` yields in `text`. Claimed: the result is
/// `regex_match_count(pattern, text)`.
#[verifier::external_body]
fn count_regex_matches(pattern: &str, text: &str) -> (r: Option<usize>)
    ensures
        r is None <==> regex_match_count(pattern@, text@) is None,
        r matches Some(n) ==> regex_match_count(pattern@, text@) == Some(n as nat),
{
    match regex::Regex::new(pattern) {
        Ok(re) => Some(re.find_iter(text).count()),
        Err(_) => None,
    }
}

/// The number of words in `text`.
pub open spec fn words_in(text: Seq<char>) -> Option<nat> {
    regex_match_count(WORD_PATTERN@, text)
}

/// Counts the words of `text`; `None` only if `regex::Regex::new` refused the
/// word pattern.
pub fn count_matches_of_words(text: &str) -> (r: Option<usize>)
    ensures
        r is None <==> words_in(text@) is None,
        r matches Some(n) ==> words_in(text@) == Some(n as nat),
{
    count_regex_matches(WORD_PATTERN, text)
}

/// The status-bar text for a word count, such as `1,234 words`.
pub open spec fn wordcount_text(count: u32) -> Seq<char> {
    thousands_text(count as nat) + " words"@
}

/// The status-bar text for a word count.
pub fn wordcount_label(count: u32) -> (s: String)
    ensures
        s@ == wordcount_text(count),
{
    let mut s = thousandify(count);
    s.append(" words");
    s
}

/// The status-bar text for a count is a number followed by ` words`: with its
/// commas taken out the number is a numeral with no needless leading zero
/// whose value is the count, and a character of the number is a comma
/// exactly when the number of characters from it to the end of the number is
/// a multiple of four.
pub proof fn lemma_wordcount_text(count: u32)
    ensures
        ({
            let t = wordcount_text(count);
            let num = t.take(t.len() - 6);
            &&& t.len() > 6
            &&& t.skip(t.len() - 6) == " words"@
            &&& numeral_value(without_commas(num)) == count
            &&& without_commas(num)[0] == '0' ==> count == 0
            &&& forall|i: int|
                0 <= i < num.len() ==> (#[trigger] num[i] == ',' <==> (num.len() - i) % 4 == 0)
        }),
{
    reveal_strlit(" words");
    let n = thousands_text(count as nat);
    let t = wordcount_text(count);
    lemma_thousands_value(count as nat);
    lemma_thousands_layout(count as nat);
    assert(t.take(t.len() - 6) =~= n);
    assert(t.skip(t.len() - 6) =~= " words"@);
}

} // verus!
