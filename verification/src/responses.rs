//! Plain record shapes handed to the response-building boundary.

use vstd::prelude::*;

verus! {

/// What the boundary reports after creating a session.
#[derive(Clone, Copy, Debug, PartialEq, Eq, Structural)]
pub struct NewGame {
    /// The fresh session identifier.
    pub uuid: u128,
    pub width: usize,
    pub height: usize,
}

/// A singly linked coordinate list, newest first, ended by a node that
/// holds nothing.
#[derive(Debug)]
pub struct List {
    pub head: Option<(usize, usize)>,
    pub tail: Option<Box<List>>,
}

/// The coordinates a [`List`] holds, front to back.
pub open spec fn list_view(l: List) -> Seq<(usize, usize)>
    decreases l,
{
    match (l.head, l.tail) {
        (Some(v), Some(rest)) => seq![v] + list_view(*rest),
        (Some(v), None) => seq![v],
        (None, _) => Seq::empty(),
    }
}

/// Turn a coordinate vector into a linked list holding the same
/// coordinates in reverse order.
pub fn to_list(vs: &Vec<(usize, usize)>) -> (r: List)
    ensures
        list_view(r) == vs@.reverse(),
{
    let mut result = List { head: None, tail: None };
    let mut i: usize = 0;
    while i < vs.len()
        invariant
            0 <= i <= vs@.len(),
            list_view(result) == vs@.take(i as int).reverse(),
        decreases vs@.len() - i,
    {
        result = List { head: Some(vs[i]), tail: Some(Box::new(result)) };
        proof {
            assert(list_view(result) =~= vs@.take(i as int + 1).reverse());
        }
        i = i + 1;
    }
    proof {
        assert(vs@.take(vs@.len() as int) =~= vs@);
    }
    result
}

} // verus!
