//! The pivot-variable solution set produced by Gauss-Jordan elimination: a
//! mapping from single-letter variable names to solved scalar values, with
//! unique keys kept in insertion (row) order.

use vstd::prelude::*;

use crate::rat::Rat;
use crate::scalar::Scalar;

verus! {

/// The first value bound to `name`, scanning left to right.
pub open spec fn spec_lookup(s: Seq<(char, Rat)>, name: char) -> Option<Rat>
    decreases s.len(),
{
    if s.len() == 0 {
        None
    } else if s[0].0 == name {
        Some(s[0].1)
    } else {
        spec_lookup(s.drop_first(), name)
    }
}

/// A mapping from variable names to solved values, in insertion order.
#[derive(Debug)]
pub struct SolutionSet {
    entries: Vec<(char, Scalar)>,
}

impl View for SolutionSet {
    type V = Seq<(char, Rat)>;

    closed spec fn view(&self) -> Seq<(char, Rat)> {
        self.entries@.map_values(|p: (char, Scalar)| (p.0, p.1@))
    }
}

impl SolutionSet {
    /// The empty solution set.
    pub(crate) fn new() -> (r: SolutionSet)
        ensures
            r@ =~= Seq::<(char, Rat)>::empty(),
    {
        SolutionSet { entries: Vec::new() }
    }

    /// Binds `name` to `value`, after all existing bindings.
    pub(crate) fn push_entry(&mut self, name: char, value: Scalar)
        ensures
            final(self)@ =~= old(self)@.push((name, value@)),
    {
        self.entries.push((name, value));
    }

    /// The number of bindings.
    pub fn len(&self) -> (r: usize)
        ensures
            r == self@.len(),
    {
        self.entries.len()
    }

    /// The value bound to `name`, if any: the first binding wins.
    #[verifier::loop_isolation(false)]
    pub fn get(&self, name: char) -> (r: Option<Scalar>)
        ensures
            r is Some <==> spec_lookup(self@, name) is Some,
            r is Some ==> Some(r->0@) == spec_lookup(self@, name),
    {
        let n = self.entries.len();
        let mut i: usize = 0;
        proof {
            assert(self@.skip(0) =~= self@);
        }
        while i < n
            invariant
                i <= n,
                n == self@.len(),
                spec_lookup(self@, name) == spec_lookup(self@.skip(i as int), name),
            decreases n - i,
        {
            proof {
                assert(self@.skip(i as int)[0] == self@[i as int]);
                assert(self@.skip(i as int).drop_first() =~= self@.skip(i as int + 1));
            }
            if self.entries[i].0 == name {
                return Some(self.entries[i].1.duplicate());
            }
            i = i + 1;
        }
        proof {
            assert(self@.skip(n as int) =~= Seq::<(char, Rat)>::empty());
        }
        None
    }
}

} // verus!
