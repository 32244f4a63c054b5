//! The Colour Warper's pins: a short list of points the user has put where
//! a colour they care about is, each dragged to where that colour should go.
//!
//! What a pin holds is chromaticities and strengths, worked on elsewhere;
//! the list here is generic in it and keeps the rule that matters to the
//! shader: it never grows past [`MAX_PINS`].

use vstd::prelude::*;

verus! {

/// How many pins one warper may carry. Bounded because they travel to the
/// GPU inside the curve table, and because past a handful of pins one is
/// describing a field, which the grid views already do.
pub const MAX_PINS: usize = 8;

/// The pins of one warper, in the order they were placed.
#[derive(Debug)]
pub struct Pins<P>(pub Vec<P>);

impl<P> Pins<P> {
    /// No pins.
    pub fn new() -> (r: Pins<P>)
        ensures
            r.0@ == Seq::<P>::empty(),
    {
        Pins(Vec::new())
    }

    pub fn is_empty(&self) -> (r: bool)
        ensures
            r == (self.0@.len() == 0),
    {
        self.0.len() == 0
    }

    pub fn len(&self) -> (r: usize)
        ensures
            r == self.0@.len(),
    {
        self.0.len()
    }

    /// Pin `i`, if there is one.
    pub fn get(&self, i: usize) -> (r: Option<&P>)
        ensures
            match r {
                Some(p) => i < self.0@.len() && *p == self.0@[i as int],
                None => i >= self.0@.len(),
            },
    {
        if i < self.0.len() {
            Some(&self.0[i])
        } else {
            None
        }
    }

    /// Pin `i`, for changing in place, if there is one.
    pub fn get_mut(&mut self, i: usize) -> (r: Option<&mut P>)
        ensures
            match r {
                Some(p) => i < old(self).0@.len() && *p == old(self).0@[i as int] && final(self).0@ == old(
                    self,
                ).0@.update(i as int, *final(p)),
                None => i >= old(self).0@.len() && final(self).0@ == old(self).0@,
            },
    {
        if i < self.0.len() {
            Some(&mut self.0[i])
        } else {
            None
        }
    }

    /// Add a pin at the end, if there is room, and say where it went. A full
    /// set is left as it was.
    pub fn add(&mut self, pin: P) -> (r: Option<usize>)
        ensures
            old(self).0@.len() < MAX_PINS ==> r == Some(old(self).0@.len() as usize) && final(self).0@ == old(
                self,
            ).0@.push(pin),
            old(self).0@.len() >= MAX_PINS ==> r is None && final(self).0@ == old(self).0@,
            old(self).0@.len() <= MAX_PINS ==> final(self).0@.len() <= MAX_PINS,
    {
        if self.0.len() < MAX_PINS {
            self.0.push(pin);
            Some(self.0.len() - 1)
        } else {
            None
        }
    }

    /// Remove pin `i`, keeping the others in order. An index past the end
    /// changes nothing.
    pub fn remove(&mut self, i: usize)
        ensures
            i < old(self).0@.len() ==> final(self).0@ == old(self).0@.remove(i as int),
            i >= old(self).0@.len() ==> final(self).0@ == old(self).0@,
    {
        if i < self.0.len() {
            self.0.remove(i);
        }
    }
}

} // verus!
