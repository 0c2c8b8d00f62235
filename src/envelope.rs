use vstd::prelude::*;

use crate::tree::{book_rewritten, process_book, Book};

verus! {

/// The top-level shape of a request, as far as finding the book in it goes.
pub enum Input<T> {
    /// An array, with its elements.
    Array(Vec<T>),
    /// An object, with the value under its `"book"` key if it has one.
    Object(Option<T>),
    /// A string, a number, a boolean or null.
    Other,
}

/// Why a request holds no book.
#[derive(PartialEq, Eq, Structural, Debug, Clone, Copy)]
pub enum InputError {
    /// An array whose length is not two; the length it has.
    WrongLength(usize),
    /// Neither an array nor an object with a `"book"` key.
    UnexpectedShape,
}

/// The book that a request carries: the second element of a two-element
/// array, or the value under an object's `"book"` key.
pub open spec fn book_of<T>(input: Input<T>) -> Result<T, InputError> {
    match input {
        Input::Array(v) => if v@.len() == 2 {
            Ok(v@[1])
        } else {
            Err(InputError::WrongLength(v@.len() as usize))
        },
        Input::Object(Some(book)) => Ok(book),
        _ => Err(InputError::UnexpectedShape),
    }
}

/// Takes the book out of a request.
pub fn extract_book<T>(input: Input<T>) -> (r: Result<T, InputError>)
    ensures
        r == book_of(input),
{
    match input {
        Input::Array(mut v) => {
            if v.len() != 2 {
                return Err(InputError::WrongLength(v.len()));
            }
            match v.pop() {
                Some(book) => Ok(book),
                None => Err(InputError::WrongLength(0)),
            }
        },
        Input::Object(Some(book)) => Ok(book),
        _ => Err(InputError::UnexpectedShape),
    }
}

/// The two accepted envelopes agree: a two-element array gives the same book
/// as an object whose `"book"` key holds the array's second element.
pub proof fn lemma_envelopes_agree<T>(pair: Vec<T>, book: T)
    requires
        pair@.len() == 2,
        pair@[1] == book,
    ensures
        book_of(Input::Array(pair)) == book_of(Input::Object(Some(book))),
        book_of(Input::Array(pair)) == Ok::<T, InputError>(book),
{
}

/// Every other shape is refused: an array of another length with that length,
/// and an object without a `"book"` key or a scalar as an unexpected shape.
pub proof fn lemma_other_shapes_refused<T>(v: Vec<T>)
    requires
        v@.len() != 2,
    ensures
        book_of(Input::Array(v)) == Err::<T, InputError>(InputError::WrongLength(v@.len() as usize)),
        book_of(Input::<T>::Object(None)) == Err::<T, InputError>(InputError::UnexpectedShape),
        book_of(Input::<T>::Other) == Err::<T, InputError>(InputError::UnexpectedShape),
{
}

/// `r` answers the request `input`: the rewriting of the book it carries, or
/// the reason it carries none.
pub open spec fn request_answered<T>(r: Result<Book<T>, InputError>, input: Input<Book<T>>) -> bool {
    match book_of(input) {
        Ok(book) => r matches Ok(new) && book_rewritten(new, book),
        Err(e) => r == Err::<Book<T>, InputError>(e),
    }
}

/// Takes the book out of a request and rewrites the links of all its chapters.
pub fn process_request<T>(input: Input<Book<T>>) -> (r: Result<Book<T>, InputError>)
    ensures
        request_answered(r, input),
{
    match extract_book(input) {
        Ok(book) => Ok(process_book(book)),
        Err(e) => Err(e),
    }
}

/// A two-element array and an object whose `"book"` key holds the array's
/// second element are answered alike: each with the rewriting of that book.
pub proof fn lemma_envelopes_answered_alike<T>(
    pair: Vec<Book<T>>,
    book: Book<T>,
    from_pair: Result<Book<T>, InputError>,
    from_object: Result<Book<T>, InputError>,
)
    requires
        pair@.len() == 2,
        pair@[1] == book,
        request_answered(from_pair, Input::Array(pair)),
        request_answered(from_object, Input::Object(Some(book))),
    ensures
        from_pair matches Ok(a) && book_rewritten(a, book),
        from_object matches Ok(b) && book_rewritten(b, book),
{
}

/// A request of any other shape is answered with its error, and no book.
pub proof fn lemma_other_requests_refused<T>(v: Vec<Book<T>>, r: Result<Book<T>, InputError>)
    requires
        v@.len() != 2,
        request_answered(r, Input::Array(v)),
    ensures
        r == Err::<Book<T>, InputError>(InputError::WrongLength(v@.len() as usize)),
{
}

} // verus!
