use vstd::prelude::*;

verus! {

/// A book: an identifier, a title and an author. No part of the service
/// stores or serves books.
#[derive(Debug)]
pub struct Book {
    pub id: i32,
    pub title: String,
    pub author: String,
}

} // verus!
