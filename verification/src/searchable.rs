//! A list paired with a filtered view of it: callers supply a match
//! predicate, and `search` narrows the visible elements to those the
//! predicate accepts for the current query.

use vstd::prelude::*;

verus! {

/// A match predicate over elements of type `T`. The executable `matches`
/// must agree with the specification-level `filter_spec`, so that callers
/// of [`Searchable`] know exactly which elements a search keeps.
pub trait SearchFilter<T> {
    /// What it means for `item` to match `query`.
    spec fn filter_spec(&self, item: &T, query: Seq<char>) -> bool;

    /// Decides whether `item` matches `query`.
    fn matches(&self, item: &T, query: &str) -> (r: bool)
        ensures
            r == self.filter_spec(item, query@),
    ;
}

/// `item` is kept for `query` under `filter`: an empty query keeps everything.
pub open spec fn kept<T, F: SearchFilter<T>>(filter: F, item: &T, query: Seq<char>) -> bool {
    query.len() == 0 || filter.filter_spec(item, query)
}

/// `sel` lists, in increasing order, exactly the indices below `upto` whose
/// element of `vec` is kept for `query`.
pub open spec fn selection_ok<T, F: SearchFilter<T>>(
    vec: Seq<T>,
    filter: F,
    sel: Seq<usize>,
    query: Seq<char>,
    upto: int,
) -> bool {
    &&& upto <= vec.len()
    &&& forall|j: int|
        0 <= j < sel.len() ==> (#[trigger] sel[j]) < upto && kept(
            filter,
            &vec[sel[j] as int],
            query,
        )
    &&& forall|j1: int, j2: int| 0 <= j1 < j2 < sel.len() ==> sel[j1] < sel[j2]
    &&& forall|k: int|
        0 <= k < upto && kept(filter, &vec[k], query) ==> exists|j: int|
            0 <= j < sel.len() && #[trigger] sel[j] == k
}

/// An ordered collection plus the subset of it selected by the last search.
/// The subset is kept as indices into the full collection, in increasing
/// order, so the filtered view preserves the original order.
pub struct Searchable<T, F: SearchFilter<T>> {
    vec: Vec<T>,
    filter: F,
    filtered: Vec<usize>,
}

impl<T, F: SearchFilter<T>> Searchable<T, F> {
    /// The full, unfiltered contents.
    pub closed spec fn all(self) -> Seq<T> {
        self.vec@
    }

    /// The match predicate in use.
    pub closed spec fn filter_of(self) -> F {
        self.filter
    }

    /// The indices selected by the last search, in increasing order.
    pub closed spec fn selected(self) -> Seq<usize> {
        self.filtered@
    }

    /// The selected indices are exactly those whose element matches `query`,
    /// in increasing order.
    pub open spec fn is_selection_for(self, query: Seq<char>) -> bool {
        selection_ok(self.all(), self.filter_of(), self.selected(), query, self.all().len() as int)
    }

    /// Builds the collection and runs an initial search with `search_value`.
    pub fn new(vec: Vec<T>, search_value: &str, filter: F) -> (s: Self)
        ensures
            s.all() == vec@,
            s.filter_of() == filter,
            s.is_selection_for(search_value@),
    {
        let mut s = Searchable { vec, filter, filtered: Vec::new() };
        s.search(search_value);
        s
    }

    /// Re-runs the filter for `value`; an empty `value` selects everything.
    pub fn search(&mut self, value: &str)
        ensures
            final(self).all() == old(self).all(),
            final(self).filter_of() == old(self).filter_of(),
            final(self).is_selection_for(value@),
    {
        let mut filtered: Vec<usize> = Vec::new();
        let empty_query = value.unicode_len() == 0;
        let n = self.vec.len();
        let mut i: usize = 0;
        while i < n
            invariant
                n == self.vec@.len(),
                i <= n,
                empty_query == (value@.len() == 0),
                selection_ok(self.vec@, self.filter, filtered@, value@, i as int),
            decreases n - i,
        {
            let keep = if empty_query {
                true
            } else {
                self.filter.matches(&self.vec[i], value)
            };
            if keep {
                let ghost old_f = filtered@;
                filtered.push(i);
                proof {
                    assert(filtered@[old_f.len() as int] == i);
                    assert(forall|j: int| 0 <= j < old_f.len() ==> filtered@[j] == old_f[j]);
                    assert forall|k: int|
                        0 <= k < i + 1 && kept(self.filter, &self.vec@[k], value@) implies exists|
                        j: int,
                    |
                        0 <= j < filtered@.len() && #[trigger] filtered@[j] == k by {
                        if k == i {
                            assert(filtered@[old_f.len() as int] == k);
                        } else {
                            let j0 = choose|j: int|
                                0 <= j < old_f.len() && #[trigger] old_f[j] == k;
                            assert(filtered@[j0] == k);
                        }
                    }
                }
            }
            i += 1;
        }
        self.filtered = filtered;
    }

    /// The number of elements the last search kept.
    pub fn len(&self) -> (n: usize)
        ensures
            n == self.selected().len(),
    {
        self.filtered.len()
    }

    /// Whether the last search kept nothing.
    pub fn is_empty(&self) -> (e: bool)
        ensures
            e == (self.selected().len() == 0),
    {
        self.filtered.len() == 0
    }

    /// All elements, ignoring the filter.
    pub fn non_filtered_iter(&self) -> (r: Vec<&T>)
        ensures
            r@.len() == self.all().len(),
            forall|i: int| 0 <= i < r@.len() ==> r@[i] == &self.all()[i],
    {
        let mut r: Vec<&T> = Vec::new();
        let n = self.vec.len();
        let mut i: usize = 0;
        while i < n
            invariant
                n == self.vec@.len(),
                i <= n,
                r@.len() == i,
                forall|j: int| 0 <= j < i ==> r@[j] == &self.vec@[j],
            decreases n - i,
        {
            r.push(&self.vec[i]);
            i += 1;
        }
        r
    }

    /// The elements the last search kept, in the collection's order.
    pub fn iter(&self) -> (r: Vec<&T>)
        requires
            forall|j: int|
                0 <= j < self.selected().len() ==> (#[trigger] self.selected()[j])
                    < self.all().len(),
        ensures
            r@.len() == self.selected().len(),
            forall|j: int| 0 <= j < r@.len() ==> r@[j] == &self.all()[self.selected()[j] as int],
    {
        let mut r: Vec<&T> = Vec::new();
        let n = self.filtered.len();
        let mut i: usize = 0;
        proof {
            assert forall|j: int| 0 <= j < n implies (#[trigger] self.filtered@[j])
                < self.vec@.len() by {
                assert(self.selected()[j] < self.all().len());
            }
        }
        while i < n
            invariant
                n == self.filtered@.len(),
                i <= n,
                r@.len() == i,
                forall|j: int| 0 <= j < n ==> (#[trigger] self.filtered@[j]) < self.vec@.len(),
                forall|j: int| 0 <= j < i ==> r@[j] == &self.vec@[self.filtered@[j] as int],
            decreases n - i,
        {
            let idx = self.filtered[i];
            r.push(&self.vec[idx]);
            i += 1;
        }
        r
    }

    /// The kept element at position `index` of the filtered view.
    pub fn get(&self, index: usize) -> (r: &T)
        requires
            index < self.selected().len(),
            self.selected()[index as int] < self.all().len(),
        ensures
            r == &self.all()[self.selected()[index as int] as int],
    {
        let idx = self.filtered[index];
        &self.vec[idx]
    }
}

} // verus!
