use vstd::prelude::*;

verus! {

/// The primitives of a scene, in the order they were added.
pub struct HittableList<T> {
    objects: Vec<T>,
}

impl<T> View for HittableList<T> {
    type V = Seq<T>;

    closed spec fn view(&self) -> Seq<T> {
        self.objects@
    }
}

impl<T> HittableList<T> {
    /// An empty scene.
    pub fn new() -> (r: Self)
        ensures
            r@ == Seq::<T>::empty(),
    {
        HittableList { objects: Vec::new() }
    }

    /// A scene that holds one primitive.
    pub fn new_with_object(object: T) -> (r: Self)
        ensures
            r@ == seq![object],
    {
        let mut list = HittableList::new();
        list.add(object);
        assert(list@ =~= seq![object]);
        list
    }

    /// Removes every primitive.
    pub fn clear(&mut self)
        ensures
            final(self)@ == Seq::<T>::empty(),
    {
        self.objects.clear();
    }

    /// Adds a primitive after those already there.
    pub fn add(&mut self, object: T)
        ensures
            final(self)@ == old(self)@.push(object),
    {
        self.objects.push(object);
    }

    /// The primitives, in the order they were added.
    pub fn objects(&self) -> (r: &[T])
        ensures
            r@ == self@,
    {
        self.objects.as_slice()
    }
}

} // verus!
