//! The capability set that every measured filter offers.
use vstd::prelude::*;

verus! {

/// A probabilistic membership filter over items of type `X`.
///
/// `members` is the set of items that `check` is certain to report, and
/// `excluded` the set of items that it is certain to reject. A filter with
/// one-sided error (`one_sided()`) keeps every item handed to `extend`
/// among its members, so it never reports a false negative. A filter that
/// states its hash count (`states_hashes()`) reports `hashes()` from
/// `num_hashes`, and is built with `planned_hashes` of its size.
pub trait Container<X>: Sized {
    /// The filter's internal invariant; none unless an implementation
    /// states one.
    open spec fn wf(&self) -> bool {
        true
    }

    /// The items that `check` is certain to report; none unless an
    /// implementation states them.
    open spec fn members(&self) -> Set<X> {
        Set::empty()
    }

    /// The items that `check` is certain to reject; none unless an
    /// implementation states them.
    open spec fn excluded(&self) -> Set<X> {
        Set::empty()
    }

    /// Whether `extend` keeps every inserted item among the members.
    open spec fn one_sided() -> bool {
        false
    }

    /// The sizes for which `new` is certain to build a filter; none unless
    /// an implementation states them.
    open spec fn buildable(num_bits: usize, num_items: usize) -> bool {
        false
    }

    /// Whether the implementation keeps a record of what `extend` handed it.
    open spec fn records_history() -> bool {
        false
    }

    /// The items handed to `extend` since construction, in order.
    open spec fn history(&self) -> Seq<X> {
        Seq::empty()
    }

    /// Whether the implementation states its hash counts.
    open spec fn states_hashes() -> bool {
        false
    }

    /// The number of probes per item of this filter.
    open spec fn hashes(&self) -> nat {
        0
    }

    /// The number of probes per item that `new` gives a filter of
    /// `num_bits` bits sized for `num_items` items.
    open spec fn planned_hashes(num_bits: usize, num_items: usize) -> nat {
        0
    }

    /// Tests membership; never changes the filter.
    fn check(&self, s: &X) -> (r: bool)
        requires
            self.wf(),
        ensures
            self.members().contains(*s) ==> r,
            self.excluded().contains(*s) ==> !r,
    ;

    /// The number of probes made per item.
    fn num_hashes(&self) -> (r: usize)
        requires
            self.wf(),
        ensures
            Self::states_hashes() ==> r == self.hashes(),
    ;

    /// A fresh filter of `num_bits` bits sized for `num_items` items, or
    /// `None` where the implementation cannot build one of that size.
    fn new(num_bits: usize, num_items: usize) -> (r: Option<Self>)
        ensures
            r matches Some(f) ==> f.wf(),
            r matches Some(f) ==> (Self::records_history() ==> f.history() == Seq::<X>::empty()),
            r matches Some(f) ==> (Self::states_hashes() ==> f.hashes() == Self::planned_hashes(
                num_bits,
                num_items,
            )),
            Self::buildable(num_bits, num_items) ==> r is Some,
    ;

    /// Inserts every item of `items`.
    fn extend(&mut self, items: &Vec<X>)
        requires
            old(self).wf(),
        ensures
            final(self).wf(),
            final(self).hashes() == old(self).hashes(),
            Self::records_history() ==> final(self).history() == old(self).history() + items@,
            old(self).members().subset_of(final(self).members()),
            Self::one_sided() ==> forall|i: int|
                0 <= i < items@.len() ==> #[trigger] final(self).members().contains(items@[i]),
    ;

    /// A name for the implementation, used to label its results.
    fn name() -> &'static str;
}

} // verus!
