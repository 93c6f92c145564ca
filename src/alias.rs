use vstd::prelude::*;
use crate::errors::CliError;
use crate::generics::{Crud, Filter};
use crate::utils::{partition_directive, split_directive, str_eq};

verus! {

/// A short name for a piece of billable work, tied to a contractor and a rate.
#[derive(Debug, Clone, PartialEq, Eq)]
pub struct Alias {
    pub slug: String,
    /// Slug of the contractor billed; not checked against the contractors.
    pub contractor: String,
    pub short_description: String,
    pub hourly_rate: u8,
}

impl Crud for Alias {
    open spec fn key(&self) -> Seq<char> {
        self.slug@
    }

    fn identifier(&self) -> (r: String) {
        self.slug.clone()
    }

    fn duplicate(&self) -> (r: Self) {
        Alias {
            slug: self.slug.clone(),
            contractor: self.contractor.clone(),
            short_description: self.short_description.clone(),
            hourly_rate: self.hourly_rate,
        }
    }

    fn file_name() -> &'static str {
        "alias_test.toml"
    }
}

/// Filters over aliases.
#[derive(Debug, Clone, PartialEq, Eq)]
pub enum F {
    /// Keeps every alias.
    NoFilter,
    /// Keeps the aliases billed to the contractor with this slug.
    Contractor(String),
}

/// Orderings of aliases: there is only the one that keeps the order.
#[derive(Debug, Clone, PartialEq, Eq)]
pub enum S {
    NoSort,
}

/// The alias is billed to the contractor `slug`.
pub open spec fn billed_to(slug: Seq<char>) -> spec_fn(Alias) -> bool {
    |a: Alias| a.contractor@ == slug
}

impl F {
    /// Reads a `contract::<slug>` directive; another field fails with
    /// `InvalidFilterField`, a text without `::` with `Directive`.
    pub fn from_str(input: &str) -> (r: Result<F, CliError>)
        ensures
            match split_directive(input@) {
                None => r is Err && r->Err_0 is Directive && r->Err_0->Directive_input@ == input@,
                Some((field, arg)) => if field == "contract"@ {
                    r is Ok && r->Ok_0 is Contractor && r->Ok_0->Contractor_0@ == arg
                } else {
                    r is Err && r->Err_0 is InvalidFilterField
                        && r->Err_0->InvalidFilterField_field@ == field
                },
            },
    {
        match partition_directive(input) {
            Err(e) => Err(e),
            Ok((field, arg)) => {
                if str_eq(field.as_str(), "contract") {
                    Ok(F::Contractor(arg))
                } else {
                    Err(CliError::InvalidFilterField { field })
                }
            },
        }
    }
}

impl S {
    /// Every sort directive stands for the ordering that keeps the order.
    pub fn from_str(input: &str) -> (r: Result<S, CliError>)
        ensures
            r == Ok::<S, CliError>(S::NoSort),
    {
        Ok(S::NoSort)
    }
}

impl Filter<F, S> for Alias {
    open spec fn filter_spec(items: Seq<Self>, method: F) -> Seq<Self> {
        match method {
            F::NoFilter => items,
            F::Contractor(slug) => items.filter(billed_to(slug@)),
        }
    }

    open spec fn sort_ok(items: Seq<Self>, method: S, sorted: Seq<Self>) -> bool {
        sorted == items
    }

    open spec fn default_filter_spec() -> F {
        F::NoFilter
    }

    open spec fn default_sort_spec() -> S {
        S::NoSort
    }

    fn default_filter() -> (f: F) {
        F::NoFilter
    }

    fn default_sort() -> (s: S) {
        S::NoSort
    }

    fn filter(items: Vec<Self>, method: F) -> (r: Vec<Self>) {
        match method {
            F::NoFilter => items,
            F::Contractor(slug) => {
                let mut out: Vec<Alias> = Vec::new();
                let mut i: usize = 0;
                while i < items.len()
                    invariant
                        i <= items@.len(),
                        out@ == items@.subrange(0, i as int).filter(billed_to(slug@)),
                    decreases items@.len() - i,
                {
                    proof {
                        reveal(Seq::filter);
                        assert(items@.subrange(0, i + 1).drop_last() == items@.subrange(
                            0,
                            i as int,
                        ));
                    }
                    if items[i].contractor == slug {
                        out.push(items[i].duplicate());
                    }
                    i = i + 1;
                }
                assert(items@.subrange(0, items@.len() as int) == items@);
                out
            },
        }
    }

    fn sort(items: Vec<Self>, method: S) -> (r: Vec<Self>) {
        items
    }

    proof fn lemma_default_filter_keeps(items: Seq<Self>) {
    }

    proof fn lemma_default_sort_keeps(items: Seq<Self>, sorted: Seq<Self>) {
    }
}

} // verus!
