use vstd::prelude::*;

verus! {

/// A general tree: a value and any number of child subtrees.
#[derive(Debug, PartialEq, Eq)]
pub struct Tree<T> {
    children: Vec<Box<Tree<T>>>,
    value: T,
}

impl<T> Tree<T> {
    /// The node's value.
    pub closed spec fn spec_value(&self) -> T {
        self.value
    }

    /// The node's children, in insertion order.
    pub closed spec fn spec_children(&self) -> Seq<Box<Tree<T>>> {
        self.children@
    }
}

impl<T: Default> Tree<T> {
    /// A leaf holding the value type's default.
    pub fn new() -> (r: Self)
        ensures
            r.spec_children().len() == 0,
    {
        Tree { children: Vec::new(), value: T::default() }
    }

    /// A leaf holding the given value.
    pub fn new_with_value(v: T) -> (r: Self)
        ensures
            r.spec_value() == v,
            r.spec_children().len() == 0,
    {
        Tree { children: Vec::new(), value: v }
    }

    /// Append a leaf child holding the given value.
    pub fn insert(&mut self, v: T)
        ensures
            final(self).spec_value() == old(self).spec_value(),
            final(self).spec_children().len() == old(self).spec_children().len() + 1,
            forall|i: int|
                0 <= i < old(self).spec_children().len() ==> final(self).spec_children()[i] == old(
                    self,
                ).spec_children()[i],
            final(self).spec_children().last().spec_value() == v,
            final(self).spec_children().last().spec_children().len() == 0,
    {
        self.children.push(Box::new(Tree { children: Vec::new(), value: v }));
    }

    pub fn get_value(&self) -> (r: &T)
        ensures
            *r == self.spec_value(),
    {
        &self.value
    }

    pub fn get_value_mut(&mut self) -> (r: &mut T)
        ensures
            *r == old(self).spec_value(),
            final(self).spec_value() == *final(r),
            final(self).spec_children() == old(self).spec_children(),
    {
        &mut self.value
    }

    /// Whether the node has no children.
    pub fn is_leaf(&self) -> (r: bool)
        ensures
            r == (self.spec_children().len() == 0),
    {
        self.children.len() == 0
    }

    pub fn get_children(&self) -> (r: &Vec<Box<Tree<T>>>)
        ensures
            r@ == self.spec_children(),
    {
        &self.children
    }

    pub fn get_children_mut(&mut self) -> (r: &mut Vec<Box<Tree<T>>>)
        ensures
            r@ == old(self).spec_children(),
            final(self).spec_children() == final(r)@,
            final(self).spec_value() == old(self).spec_value(),
    {
        &mut self.children
    }
}

} // verus!
