use vstd::prelude::*;
use crate::errors::CliError;

verus! {

/// A record kind that can live in a collection: it has an identifier
/// (its slug) and a fixed file that holds the whole collection.
pub trait Crud: Sized {
    /// The identifier of the record, as contracts speak of it.
    spec fn key(&self) -> Seq<char>;

    fn identifier(&self) -> (r: String)
        ensures
            r@ == self.key(),
    ;

    /// A field-by-field copy of the record.
    fn duplicate(&self) -> (r: Self)
        ensures
            r == *self,
    ;

    /// Name of the file, inside the base directory, that holds the collection.
    fn file_name() -> &'static str;
}

/// Filter and sort operators over one record kind. `F` names the filters,
/// `S` the orderings; each kind has a default of both that changes nothing.
pub trait Filter<F, S>: Sized {
    spec fn filter_spec(items: Seq<Self>, method: F) -> Seq<Self>;

    /// `sorted` is an allowed outcome of ordering `items` by `method`.
    spec fn sort_ok(items: Seq<Self>, method: S, sorted: Seq<Self>) -> bool;

    spec fn default_filter_spec() -> F;

    spec fn default_sort_spec() -> S;

    fn default_filter() -> (f: F)
        ensures
            f == Self::default_filter_spec(),
    ;

    fn default_sort() -> (s: S)
        ensures
            s == Self::default_sort_spec(),
    ;

    fn filter(items: Vec<Self>, method: F) -> (r: Vec<Self>)
        ensures
            r@ == Self::filter_spec(items@, method),
    ;

    fn sort(items: Vec<Self>, method: S) -> (r: Vec<Self>)
        ensures
            Self::sort_ok(items@, method, r@),
    ;

    proof fn lemma_default_filter_keeps(items: Seq<Self>)
        ensures
            Self::filter_spec(items, Self::default_filter_spec()) == items,
    ;

    proof fn lemma_default_sort_keeps(items: Seq<Self>, sorted: Seq<Self>)
        requires
            Self::sort_ok(items, Self::default_sort_spec(), sorted),
        ensures
            sorted == items,
    ;
}

/// What a chain of filters yields: each filter consumes the output of the one
/// before it; `None` when a filter is about to run on an empty set. With no
/// filters at all the input passes, even when it is empty.
pub open spec fn filter_chain<T: Filter<F, S>, F, S>(items: Seq<T>, filters: Seq<F>) -> Option<
    Seq<T>,
>
    decreases filters.len(),
{
    if filters.len() == 0 {
        Some(items)
    } else if items.len() == 0 {
        None
    } else {
        filter_chain::<T, F, S>(T::filter_spec(items, filters[0]), filters.drop_first())
    }
}

/// Applies `filters` left to right; fails with `FilterNoResults` as soon as a
/// filter would be applied to an empty set, without running it.
pub fn apply_filterset<T: Filter<F, S>, F, S>(items: Vec<T>, filters: Vec<F>) -> (r: Result<
    Vec<T>,
    CliError,
>)
    ensures
        r is Ok <==> filter_chain::<T, F, S>(items@, filters@) is Some,
        r is Ok ==> filter_chain::<T, F, S>(items@, filters@) == Some(r->Ok_0@),
        r is Err ==> r->Err_0 == CliError::FilterNoResults,
{
    let ghost outcome = filter_chain::<T, F, S>(items@, filters@);
    let mut current = items;
    let mut pending = filters;
    while pending.len() > 0
        invariant
            filter_chain::<T, F, S>(current@, pending@) == outcome,
            outcome == filter_chain::<T, F, S>(items@, filters@),
        decreases pending.len(),
    {
        if current.len() == 0 {
            return Err(CliError::FilterNoResults);
        }
        let ghost before = pending@;
        let f = pending.remove(0);
        assert(pending@ == before.drop_first());
        current = T::filter(current, f);
    }
    Ok(current)
}

/// The items that the default filter and then the default sort leave:
/// all of them, in the same order.
pub fn get_default_items<T: Filter<F, S>, F, S>(items: Vec<T>) -> (r: Vec<T>)
    ensures
        r@ == items@,
{
    let ghost given = items@;
    let filtered = T::filter(items, T::default_filter());
    proof {
        T::lemma_default_filter_keeps(given);
    }
    let sorted = T::sort(filtered, T::default_sort());
    proof {
        T::lemma_default_sort_keeps(filtered@, sorted@);
    }
    sorted
}

/// Runs the filter chain and orders what it leaves; fails with
/// `FilterNoResults` exactly when the chain does.
pub fn filtered_set<T: Filter<F, S>, F, S>(items: Vec<T>, filters: Vec<F>, sort: S) -> (r: Result<
    Vec<T>,
    CliError,
>)
    ensures
        r is Ok <==> filter_chain::<T, F, S>(items@, filters@) is Some,
        r is Ok ==> T::sort_ok(filter_chain::<T, F, S>(items@, filters@)->0, sort, r->Ok_0@),
        r is Err ==> r->Err_0 == CliError::FilterNoResults,
{
    match apply_filterset(items, filters) {
        Ok(kept) => Ok(T::sort(kept, sort)),
        Err(e) => Err(e),
    }
}

/// An empty filter chain hands its input back unchanged, in the same order,
/// even when the input is empty.
pub proof fn law_empty_chain_keeps<T: Filter<F, S>, F, S>(items: Seq<T>)
    ensures
        filter_chain::<T, F, S>(items, Seq::<F>::empty()) == Some(items),
{
}

/// Ordering by the default sort hands the items back unchanged.
pub proof fn law_default_sort_keeps<T: Filter<F, S>, F, S>(items: Seq<T>, sorted: Seq<T>)
    requires
        T::sort_ok(items, T::default_sort_spec(), sorted),
    ensures
        sorted == items,
{
    T::lemma_default_sort_keeps(items, sorted);
}

/// When the first filter of a chain leaves nothing, a chain with any further
/// filters fails, and no filter after the first is applied.
pub proof fn law_short_circuit<T: Filter<F, S>, F, S>(items: Seq<T>, first: F, rest: Seq<F>)
    requires
        T::filter_spec(items, first).len() == 0,
        rest.len() > 0,
    ensures
        filter_chain::<T, F, S>(items, seq![first] + rest) is None,
{
    let chain = seq![first] + rest;
    assert(chain.drop_first() == rest);
    assert(chain[0] == first);
    assert(filter_chain::<T, F, S>(T::filter_spec(items, first), rest) is None);
}

} // verus!
