//! What the library takes from the `capnp` crate: the list of texts that a
//! message carries, the error that reading a message gives, and the error
//! that a failed call is answered with.
//!
//! Nothing in this file is proved. Each item says in its comment what is
//! taken on trust of which function of `capnp`.

use vstd::prelude::*;

verus! {

/// `capnp::text_list::Reader`, a view into a list of texts inside a message.
#[verifier::external_type_specification]
#[verifier::external_body]
pub struct ExTextListReader<'a>(capnp::text_list::Reader<'a>);

/// `capnp::Error`, what `capnp` reports when a message cannot be read.
#[verifier::external_type_specification]
#[verifier::external_body]
pub struct ExCapnpError(capnp::Error);

/// What the list holds, entry by entry: the text of an entry that is well
/// formed, `None` for one that is not. A reader never changes the message
/// it looks into, so this depends on the reader alone.
pub uninterp spec fn list_texts(list: capnp::text_list::Reader) -> Seq<Option<Seq<char>>>;

/// `capnp::text_list::Reader::len`: the number of entries, which the reader
/// carries with it.
#[verifier::external_body]
pub(crate) fn text_list_len(list: &capnp::text_list::Reader) -> (n: u32)
    ensures
        n == list_texts(*list).len(),
{
    list.len()
}

/// `capnp::text_list::Reader::get`, which panics on an index beyond the
/// list. It may fail on any entry: on one that is not well-formed text, and
/// on any at all once the message's read limit is used up. So nothing is
/// claimed of when it succeeds, only that a text it hands out is the entry's.
#[verifier::external_body]
pub(crate) fn text_list_get(list: &capnp::text_list::Reader, index: u32) -> (r: Result<
    String,
    capnp::Error,
>)
    requires
        index < list_texts(*list).len(),
    ensures
        r matches Ok(text) ==> list_texts(*list)[index as int] == Some(text@),
{
    match list.get(index) {
        Ok(text) => Ok(text.to_string()),
        Err(error) => Err(error),
    }
}

/// The error that `capnp::Error::failed` makes of a description: one of the
/// kind `Failed` that carries the description as it is.
pub uninterp spec fn failed_error(description: Seq<char>) -> capnp::Error;

/// `capnp::Error::failed`, which only puts its argument into a new error.
#[verifier::external_body]
pub(crate) fn error_failed(description: String) -> (error: capnp::Error)
    ensures
        error == failed_error(description@),
{
    capnp::Error::failed(description)
}

/// The field `description` of a `capnp::Error`: words for a human reader,
/// of which nothing is claimed.
#[verifier::external_body]
pub(crate) fn error_description(error: capnp::Error) -> (text: String) {
    error.description
}

} // verus!
