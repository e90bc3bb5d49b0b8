use vstd::prelude::*;

verus! {

/// The points picked with the measuring tool; a distance is shown once two
/// are picked, and a third pick starts a new measurement.
pub struct Measurement<P> {
    points: Vec<P>,
}

/// The picked points after one more pick.
pub open spec fn after_pick<P>(points: Seq<P>, p: P) -> Seq<P> {
    if points.len() >= 2 {
        seq![p]
    } else {
        points.push(p)
    }
}

impl<P> Measurement<P> {
    /// The picked points, in the order they were picked.
    pub closed spec fn picked(&self) -> Seq<P> {
        self.points@
    }

    /// No point picked.
    pub fn new() -> (r: Measurement<P>)
        ensures
            r.picked() == Seq::<P>::empty(),
    {
        Measurement { points: Vec::new() }
    }

    /// Adds a picked point; after two picks the next one starts over.
    /// Returns whether the measurement now has its two points.
    pub fn pick(&mut self, p: P) -> (complete: bool)
        ensures
            final(self).picked() == after_pick(old(self).picked(), p),
            complete == (final(self).picked().len() == 2),
    {
        if self.points.len() >= 2 {
            self.points.clear();
        }
        self.points.push(p);
        assert(self.points@ =~= after_pick(old(self).picked(), p));
        self.points.len() == 2
    }

    /// The picked points.
    pub fn points(&self) -> (r: &Vec<P>)
        ensures
            r@ == self.picked(),
    {
        &self.points
    }
}

/// A measurement never holds more than two points, and the latest pick is
/// always among them, last.
pub proof fn lemma_pick_bounded<P>(points: Seq<P>, p: P)
    ensures
        1 <= after_pick(points, p).len() <= 2,
        after_pick(points, p).last() == p,
        points.len() < 2 ==> after_pick(points, p) == points.push(p),
{
}

} // verus!
