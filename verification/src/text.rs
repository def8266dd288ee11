//! What the library takes from the standard library's string functions.

use vstd::prelude::*;
use vstd::utf8::{decode_utf8, valid_utf8};

verus! {

/// `text` cut at its first `delimiter`: what stands before it and what stands
/// after it. `None` where `text` holds no `delimiter`.
pub open spec fn split_first(text: Seq<char>, delimiter: char) -> Option<(Seq<char>, Seq<char>)> {
    match text.index_of_first(delimiter) {
        Some(at) => Some((text.subrange(0, at), text.subrange(at + 1, text.len() as int))),
        None => None,
    }
}

/// `std::str::from_utf8`: the bytes as text where they are UTF-8, an error
/// where they are not.
#[verifier::external_body]
pub(crate) fn str_from_utf8<'a>(bytes: &'a [u8]) -> (r: std::result::Result<
    &'a str,
    std::str::Utf8Error,
>)
    ensures
        r is Ok <==> valid_utf8(bytes@),
        r matches Ok(text) ==> text@ == decode_utf8(bytes@),
{
    std::str::from_utf8(bytes)
}

/// `str::split_once` with a `char`: the text before the first `delimiter` and
/// the text after it, or `None` where `text` holds no `delimiter`.
#[verifier::external_body]
pub(crate) fn split_once<'a>(text: &'a str, delimiter: char) -> (r: Option<(&'a str, &'a str)>)
    ensures
        match r {
            Some((head, tail)) => split_first(text@, delimiter) == Some((head@, tail@)),
            None => split_first(text@, delimiter) is None,
        },
{
    text.split_once(delimiter)
}

} // verus!
