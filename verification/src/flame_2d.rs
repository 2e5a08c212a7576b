//! The flame definition: a named, ordered list of plane maps, each drawn in
//! a colour of its own.

use vstd::prelude::*;

verus! {

/// A flame: a name and two parallel lists, the maps of the iterated function
/// system and the colour each is drawn with. The map at index `i` is drawn
/// with the colour at index `i`.
///
/// The lists are kept in whatever representation the caller computes with;
/// nothing here looks inside a map or a colour.
pub struct Flame<T, C> {
    pub name: String,
    pub transforms: Vec<T>,
    pub colors: Vec<C>,
}

impl<T, C> Flame<T, C> {
    /// Every map has its colour and every colour its map.
    pub open spec fn wf(&self) -> bool {
        self.transforms@.len() == self.colors@.len()
    }

    /// A flame with the given name and no maps. It is legal, but no renderer
    /// accepts it.
    pub fn new(name: String) -> (flame: Flame<T, C>)
        ensures
            flame.name@ == name@,
            flame.transforms@ == Seq::<T>::empty(),
            flame.colors@ == Seq::<C>::empty(),
            flame.wf(),
    {
        Flame { name, transforms: Vec::new(), colors: Vec::new() }
    }

    /// Appends a map together with its colour.
    pub fn add_transform(&mut self, t: T, c: C)
        ensures
            final(self).name@ == old(self).name@,
            final(self).transforms@ == old(self).transforms@.push(t),
            final(self).colors@ == old(self).colors@.push(c),
            old(self).wf() ==> final(self).wf(),
    {
        self.transforms.push(t);
        self.colors.push(c);
    }

    /// How many maps the flame has.
    pub fn len(&self) -> (n: usize)
        ensures
            n == self.transforms@.len(),
    {
        self.transforms.len()
    }

    /// Whether the flame has no map at all.
    pub fn is_empty(&self) -> (empty: bool)
        ensures
            empty <==> self.transforms@.len() == 0,
    {
        self.transforms.len() == 0
    }

    /// The map at `index` and the colour it is drawn with, if there is one.
    pub fn entry(&self, index: usize) -> (pair: Option<(&T, &C)>)
        ensures
            pair.is_some() <==> index < self.transforms@.len() && index < self.colors@.len(),
            pair matches Some((t, c)) ==> *t == self.transforms@[index as int]
                && *c == self.colors@[index as int],
    {
        if index < self.transforms.len() && index < self.colors.len() {
            Some((&self.transforms[index], &self.colors[index]))
        } else {
            None
        }
    }
}

} // verus!
