use vstd::prelude::*;

verus! {

/// An ordered collection of scene members. Members are never changed once
/// added; their order decides how much work a query does, never which hit
/// is the nearest.
pub struct HittableList<T> {
    objects: Vec<T>,
}

impl<T> HittableList<T> {
    /// The members, in insertion order.
    pub closed spec fn view(&self) -> Seq<T> {
        self.objects@
    }

    /// A collection that holds `item` alone.
    pub fn new(item: T) -> (r: Self)
        ensures
            r@ == seq![item],
    {
        HittableList { objects: vec![item] }
    }

    /// Appends `item` after the members already held.
    pub fn add(&mut self, item: T)
        ensures
            final(self)@ == old(self)@.push(item),
    {
        self.objects.push(item);
    }

    /// Removes every member.
    pub fn clear(&mut self)
        ensures
            final(self)@ == Seq::<T>::empty(),
    {
        self.objects.clear();
    }

    /// The number of members.
    pub fn len(&self) -> (r: usize)
        ensures
            r == self@.len(),
    {
        self.objects.len()
    }

    /// The member at position `i`, counted in insertion order.
    pub fn get(&self, i: usize) -> (r: &T)
        requires
            i < self@.len(),
        ensures
            *r == self@[i as int],
    {
        &self.objects[i]
    }
}

} // verus!
