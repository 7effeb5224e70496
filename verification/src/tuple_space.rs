//! The attachment of one connection: the tuple space that it works on and the
//! attributes that it presents.

use vstd::prelude::*;
use crate::text::texts;

verus! {

/// What a connection is attached to.
pub struct TupleSpace {
    tuple_space: usize,
    tuple_space_name: String,
    attributes: Vec<String>,
}

impl TupleSpace {
    /// The number of the space's store in its repository.
    pub closed spec fn store(&self) -> nat {
        self.tuple_space as nat
    }

    /// The name of the space.
    pub closed spec fn name(&self) -> Seq<char> {
        self.tuple_space_name@
    }

    /// The attributes that the connection presents.
    pub closed spec fn presented(&self) -> Seq<Seq<char>> {
        texts(self.attributes@)
    }

    /// An attachment to the space with the given store and name.
    pub fn new(tuple_space: usize, attributes: Vec<String>, tuple_space_name: &str) -> (s:
        TupleSpace)
        ensures
            s.store() == tuple_space,
            s.name() == tuple_space_name@,
            s.presented() == texts(attributes@),
    {
        TupleSpace { tuple_space, tuple_space_name: tuple_space_name.to_owned(), attributes }
    }

    /// The number of the space's store in its repository.
    pub fn tuple_space(&self) -> (n: usize)
        ensures
            n == self.store(),
    {
        self.tuple_space
    }

    /// The attributes that the connection presents.
    pub fn attributes(&self) -> (a: &Vec<String>)
        ensures
            texts(a@) == self.presented(),
    {
        &self.attributes
    }

    /// The name of the space.
    pub fn tuple_space_name(&self) -> (n: &str)
        ensures
            n@ == self.name(),
    {
        self.tuple_space_name.as_str()
    }
}

} // verus!
