//! Cells of a sheet: cutting, trimming and reading numbers.

use vstd::prelude::*;

verus! {

/// The pieces that `str::split` cuts the text into at every one of the
/// separators.
pub uninterp spec fn split_pieces(text: Seq<char>, separators: Seq<char>) -> Seq<Seq<char>>;

/// The text without the white space at its two ends, as `str::trim` gives
/// it.
pub uninterp spec fn trimmed(text: Seq<char>) -> Seq<char>;

/// The number that `str::parse` reads from the text as a `u64`; `None`
/// where it reads none.
pub uninterp spec fn parsed_u64(text: Seq<char>) -> Option<u64>;

/// The number that `str::parse` reads from the text as an `i64`; `None`
/// where it reads none.
pub uninterp spec fn parsed_i64(text: Seq<char>) -> Option<i64>;

/// The text with every character struck that `char::is_numeric` does not
/// accept, as `String::retain` leaves it.
pub uninterp spec fn numeric_part(text: Seq<char>) -> Seq<char>;

/// The decimal digits of a number, as `u64::to_string` writes them.
pub uninterp spec fn decimal_text(n: u64) -> Seq<char>;

/// Calls `u64::to_string`. Trusted: the result is the named value
/// `decimal_text` of the number.
#[verifier::external_body]
pub(crate) fn decimal(n: u64) -> (r: String)
    ensures
        r@ == decimal_text(n),
{
    n.to_string()
}

/// Calls `str::split` with the separators as the pattern. Trusted: the
/// pieces are the named value `split_pieces` of the arguments.
#[verifier::external_body]
pub(crate) fn split_text(text: &str, separators: &Vec<char>) -> (r: Vec<String>)
    ensures
        r.deep_view() == split_pieces(text@, separators@),
{
    text.split(separators.as_slice()).map(str::to_owned).collect()
}

/// Calls `str::trim`. Trusted: the result is the named value `trimmed` of
/// the text.
#[verifier::external_body]
pub(crate) fn trim_text(text: &str) -> (r: String)
    ensures
        r@ == trimmed(text@),
{
    text.trim().to_owned()
}

/// Calls `str::parse::<u64>`. Trusted: the result is the named value
/// `parsed_u64` of the text.
#[verifier::external_body]
pub(crate) fn parse_u64(text: &str) -> (r: Option<u64>)
    ensures
        r == parsed_u64(text@),
{
    text.parse::<u64>().ok()
}

/// Calls `str::parse::<i64>`. Trusted: the result is the named value
/// `parsed_i64` of the text.
#[verifier::external_body]
pub(crate) fn parse_i64(text: &str) -> (r: Option<i64>)
    ensures
        r == parsed_i64(text@),
{
    text.parse::<i64>().ok()
}

/// Calls `String::retain` with `char::is_numeric`. Trusted: the result is
/// the named value `numeric_part` of the text.
#[verifier::external_body]
pub(crate) fn keep_numeric(text: &str) -> (r: String)
    ensures
        r@ == numeric_part(text@),
{
    let mut kept = text.to_owned();
    kept.retain(char::is_numeric);
    kept
}

/// The texts in the order in which `slice::sort` puts them.
pub uninterp spec fn sorted_texts(texts: Seq<Seq<char>>) -> Seq<Seq<char>>;

/// Calls `slice::sort` on a copy of the texts. Trusted: the result is the
/// named value `sorted_texts` of the texts.
#[verifier::external_body]
pub(crate) fn sort_texts(texts: &Vec<String>) -> (r: Vec<String>)
    ensures
        r.deep_view() == sorted_texts(texts.deep_view()),
{
    let mut sorted = texts.clone();
    sorted.sort();
    sorted
}

/// Whether two texts are the same.
pub fn same_text(a: &str, b: &str) -> (r: bool)
    ensures
        r == (a@ == b@),
{
    let left: String = a.to_owned();
    let right: String = b.to_owned();
    left == right
}

} // verus!
