//! Lists as the JSON text under which they are stored.
use vstd::prelude::*;
use crate::table::{decimal, values};

verus! {

/// Numbers with a comma between any two.
pub open spec fn comma_list(xs: Seq<i64>) -> Seq<char>
    decreases xs.len(),
{
    if xs.len() == 0 {
        Seq::empty()
    } else if xs.len() == 1 {
        decimal(xs[0] as int)
    } else {
        comma_list(xs.drop_last()) + ","@ + decimal(xs.last() as int)
    }
}

/// The text of a list of numbers.
pub open spec fn number_list(xs: Seq<i64>) -> Seq<char> {
    "["@ + comma_list(xs) + "]"@
}

/// What `serde_json::to_string` makes of a list of texts.
pub uninterp spec fn text_list(xs: Seq<Seq<char>>) -> Seq<char>;

/// What `serde_json::from_str` reads as a list of texts, or `None` where it
/// reports an error.
pub uninterp spec fn texts_in(s: Seq<char>) -> Option<Seq<Seq<char>>>;

/// Calls `serde_json::to_string` on a list of integers. Its compact writer puts
/// the decimal numbers between brackets, with a comma between any two and no
/// space; writing to memory does not fail.
#[verifier::external_body]
pub(crate) fn render_numbers(xs: &Vec<i64>) -> (r: String)
    ensures
        r@ == number_list(xs@),
{
    serde_json::to_string(xs).expect("a list of integers has a text")
}

/// Calls `serde_json::to_string` on a list of texts. The result depends on the
/// list alone, and `serde_json::from_str` reads the same list back from it;
/// writing to memory does not fail. How a text is escaped is left unsaid.
#[verifier::external_body]
pub(crate) fn render_texts(xs: &Vec<String>) -> (r: String)
    ensures
        r@ == text_list(values(xs@)),
        texts_in(r@) == Some(values(xs@)),
{
    serde_json::to_string(xs).expect("a list of texts has a text")
}

/// The value of what was read.
pub open spec fn read_as(r: Option<Vec<String>>) -> Option<Seq<Seq<char>>> {
    match r {
        Some(xs) => Some(values(xs@)),
        None => None,
    }
}

/// Calls `serde_json::from_str` for a list of texts. The result depends on the
/// text alone: `None` stands for any error. An empty pair of brackets is the
/// empty list. What other texts are read as is left unsaid.
#[verifier::external_body]
pub(crate) fn parse_texts(s: &str) -> (r: Option<Vec<String>>)
    ensures
        read_as(r) == texts_in(s@),
        s@ == "[]"@ ==> read_as(r) == Some(Seq::<Seq<char>>::empty()),
{
    serde_json::from_str::<Vec<String>>(s).ok()
}

/// The texts that are stored as `s`; nothing where that is no list of texts.
pub open spec fn stored_texts(s: Seq<char>) -> Seq<Seq<char>> {
    match texts_in(s) {
        Some(xs) => xs,
        None => Seq::empty(),
    }
}

/// The texts that are stored as `s`; nothing where that is no list of texts.
pub fn read_texts(s: &str) -> (r: Vec<String>)
    ensures
        values(r@) == stored_texts(s@),
        s@ == "[]"@ ==> stored_texts(s@) == Seq::<Seq<char>>::empty(),
{
    match parse_texts(s) {
        Some(xs) => xs,
        None => {
            let none: Vec<String> = Vec::new();
            proof {
                assert(values(none@) =~= Seq::<Seq<char>>::empty());
            }
            none
        },
    }
}

} // verus!
