use vstd::prelude::*;
use crate::errors::CliError;
use crate::generics::{Crud, Filter};

verus! {

/// A party that work is billed to.
#[derive(Debug, Clone, PartialEq, Eq)]
pub struct Contractor {
    pub slug: String,
    pub name: String,
}

impl Crud for Contractor {
    open spec fn key(&self) -> Seq<char> {
        self.slug@
    }

    fn identifier(&self) -> (r: String) {
        self.slug.clone()
    }

    fn duplicate(&self) -> (r: Self) {
        Contractor { slug: self.slug.clone(), name: self.name.clone() }
    }

    fn file_name() -> &'static str {
        "contractors_test.toml"
    }
}

/// Filters over contractors: there is only the one that keeps everything.
#[derive(Debug, Clone, PartialEq, Eq)]
pub enum F {
    NoFilter,
}

/// Orderings of contractors: there is only the one that keeps the order.
#[derive(Debug, Clone, PartialEq, Eq)]
pub enum S {
    NoSort,
}

impl F {
    /// Every filter directive stands for the filter that keeps everything.
    pub fn from_str(input: &str) -> (r: Result<F, CliError>)
        ensures
            r == Ok::<F, CliError>(F::NoFilter),
    {
        Ok(F::NoFilter)
    }
}

impl S {
    /// Every sort directive stands for the ordering that keeps the order.
    pub fn from_str(input: &str) -> (r: Result<S, CliError>)
        ensures
            r == Ok::<S, CliError>(S::NoSort),
    {
        Ok(S::NoSort)
    }
}

impl Filter<F, S> for Contractor {
    open spec fn filter_spec(items: Seq<Self>, method: F) -> Seq<Self> {
        items
    }

    open spec fn sort_ok(items: Seq<Self>, method: S, sorted: Seq<Self>) -> bool {
        sorted == items
    }

    open spec fn default_filter_spec() -> F {
        F::NoFilter
    }

    open spec fn default_sort_spec() -> S {
        S::NoSort
    }

    fn default_filter() -> (f: F) {
        F::NoFilter
    }

    fn default_sort() -> (s: S) {
        S::NoSort
    }

    fn filter(items: Vec<Self>, method: F) -> (r: Vec<Self>) {
        items
    }

    fn sort(items: Vec<Self>, method: S) -> (r: Vec<Self>) {
        items
    }

    proof fn lemma_default_filter_keeps(items: Seq<Self>) {
    }

    proof fn lemma_default_sort_keeps(items: Seq<Self>, sorted: Seq<Self>) {
    }
}

} // verus!
