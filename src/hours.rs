use vstd::prelude::*;
use std::cmp::Ordering;
use crate::calendar::{CalendarDate, Timestamp};
use crate::errors::CliError;
use crate::generics::{Crud, Filter};
use crate::utils::{contains_str, lower_of, lowercase, occurs_at, starts_with, str_eq};
use vstd::string::StrSliceExecFns;

verus! {

#[verifier::external_type_specification]
#[verifier::external_body]
pub struct ExHarsh(harsh::Harsh);

#[verifier::external_type_specification]
#[verifier::external_body]
pub struct ExHarshBuilder(harsh::HarshBuilder);

#[verifier::external_type_specification]
#[verifier::external_body]
pub struct ExBuildError(harsh::BuildError);

/// Salt of the encoder that names hour logs.
pub const ID_SALT: &'static str = "bookit";

/// Relies on `Harsh::builder`: a builder with the default options.
#[verifier::external_body]
fn encoder_builder() -> harsh::HarshBuilder {
    harsh::Harsh::builder()
}

/// Relies on `HarshBuilder::salt`: the same builder, salted with `salt`.
#[verifier::external_body]
fn salted(builder: harsh::HarshBuilder, salt: &str) -> harsh::HarshBuilder {
    builder.salt(salt)
}

/// Relies on `HarshBuilder::build`: the encoder, or the reason it cannot be made.
#[verifier::external_body]
fn build_encoder(builder: harsh::HarshBuilder) -> Result<harsh::Harsh, harsh::BuildError> {
    builder.build()
}

/// Relies on `Harsh::encode`: the hashid of one value, never empty.
#[verifier::external_body]
fn encode_value(encoder: &harsh::Harsh, value: u64) -> (r: String)
    ensures
        r@.len() > 0,
{
    encoder.encode(&[value])
}

/// Minutes of work booked against an alias on a day.
#[derive(Debug, Clone, PartialEq, Eq)]
pub struct HourLog {
    /// Slug of the alias booked; not checked against the aliases.
    pub alias: String,
    pub minutes: u32,
    pub date: CalendarDate,
    pub message: Option<String>,
    pub ticket: Option<String>,
    pub branch: Option<String>,
    /// Short hash derived from the moment of creation.
    pub id: String,
    /// The moment the log was created.
    pub timestamp: Timestamp,
}

fn copy_text(o: &Option<String>) -> (r: Option<String>)
    ensures
        r == *o,
{
    match o {
        Some(s) => Some(s.clone()),
        None => None,
    }
}

impl HourLog {
    /// A log whose identifier is `hash` lowercased.
    pub fn with_hash(
        alias: String,
        minutes: u32,
        date: CalendarDate,
        message: Option<String>,
        ticket: Option<String>,
        branch: Option<String>,
        hash: String,
        timestamp: Timestamp,
    ) -> (r: HourLog)
        ensures
            r.id@ == lower_of(hash@),
            r.alias == alias && r.minutes == minutes && r.date == date,
            r.message == message && r.ticket == ticket && r.branch == branch,
            r.timestamp == timestamp,
    {
        let id = lowercase(hash.as_str());
        HourLog { alias, minutes, date, message, ticket, branch, id, timestamp }
    }

    /// A new log created at `now`: its identifier is the lowercased hashid,
    /// salted with `ID_SALT`, of the whole seconds of `now`. Fails with
    /// `Hasher` when the encoder cannot be made.
    pub fn create(
        alias: String,
        minutes: u32,
        date: CalendarDate,
        message: Option<String>,
        ticket: Option<String>,
        branch: Option<String>,
        now: Timestamp,
    ) -> (r: Result<HourLog, CliError>)
        ensures
            r is Err ==> r->Err_0 == CliError::Hasher,
            r is Ok ==> {
                let h = r->Ok_0;
                &&& h.alias == alias && h.minutes == minutes && h.date == date
                &&& h.message == message && h.ticket == ticket && h.branch == branch
                &&& h.timestamp == now
                &&& exists|hash: Seq<char>| hash.len() > 0 && h.id@ == lower_of(hash)
            },
    {
        let encoder = match build_encoder(salted(encoder_builder(), ID_SALT)) {
            Ok(e) => e,
            Err(_) => return Err(CliError::Hasher),
        };
        let hash = encode_value(&encoder, now.seconds() as u64);
        let ghost hv = hash@;
        let log = HourLog::with_hash(alias, minutes, date, message, ticket, branch, hash, now);
        assert(log.id@ == lower_of(hv));
        Ok(log)
    }
}

impl Crud for HourLog {
    open spec fn key(&self) -> Seq<char> {
        self.id@
    }

    fn identifier(&self) -> (r: String) {
        self.id.clone()
    }

    fn duplicate(&self) -> (r: Self) {
        HourLog {
            alias: self.alias.clone(),
            minutes: self.minutes,
            date: self.date,
            message: copy_text(&self.message),
            ticket: copy_text(&self.ticket),
            branch: copy_text(&self.branch),
            id: self.id.clone(),
            timestamp: self.timestamp,
        }
    }

    fn file_name() -> &'static str {
        "hourstest.json"
    }
}

/// Filters over hour logs.
#[derive(Debug, Clone, PartialEq, Eq)]
pub enum F {
    /// Keeps every log.
    NoFilter,
    /// Keeps the logs booked against the alias with this slug.
    ByAlias(String),
}

/// Orderings of hour logs.
#[derive(Debug, Clone, PartialEq, Eq)]
pub enum S {
    /// Keeps the order.
    NoSort,
    /// Newest first; logs created at the same moment keep their order.
    ByTimestamp,
}

/// The log is booked against the alias `slug`.
pub open spec fn booked_on(slug: Seq<char>) -> spec_fn(HourLog) -> bool {
    |h: HourLog| h.alias@ == slug
}

/// The log was created at the moment of rank `t`.
pub open spec fn created_at(t: int) -> spec_fn(HourLog) -> bool {
    |h: HourLog| h.timestamp.rank() == t
}

/// `sorted` holds the logs of `items`, newest first, and logs created at the
/// same moment in the order they had in `items`.
pub open spec fn newest_first_order(items: Seq<HourLog>, sorted: Seq<HourLog>) -> bool {
    &&& sorted.to_multiset() == items.to_multiset()
    &&& forall|i: int, j: int|
        0 <= i < j < sorted.len() ==> sorted[j].timestamp.rank() <= sorted[i].timestamp.rank()
    &&& forall|t: int| #[trigger] sorted.filter(created_at(t)) == items.filter(created_at(t))
}

/// Compares two logs so that the newer one comes first.
pub fn newest_first(a: &HourLog, b: &HourLog) -> (r: Ordering)
    ensures
        r == Ordering::Less <==> a.timestamp.rank() > b.timestamp.rank(),
        r == Ordering::Greater <==> a.timestamp.rank() < b.timestamp.rank(),
        r == Ordering::Equal <==> a.timestamp.rank() == b.timestamp.rank(),
{
    if a.timestamp.is_after(&b.timestamp) {
        Ordering::Less
    } else if b.timestamp.is_after(&a.timestamp) {
        Ordering::Greater
    } else {
        Ordering::Equal
    }
}

/// Relies on `slice::sort_by`: a stable sort by the comparison `newest_first`.
#[verifier::external_body]
fn sort_newest_first(items: &mut Vec<HourLog>)
    ensures
        newest_first_order(old(items)@, final(items)@),
{
    items.sort_by(|a, b| newest_first(a, b));
}

impl F {
    /// Reads `nofilter` or `alias::<slug>`; another directive with `::`
    /// names a field that cannot be filtered on, and anything else is no
    /// filter at all: both fail with `Directive`.
    pub fn from_str(input: &str) -> (r: Result<F, CliError>)
        ensures
            input@ == "nofilter"@ ==> r == Ok::<F, CliError>(F::NoFilter),
            input@ != "nofilter"@ && occurs_at(input@, "alias::"@, 0) ==> r is Ok && r->Ok_0 is ByAlias
                && r->Ok_0->ByAlias_0@ == input@.subrange(7, input@.len() as int),
            input@ != "nofilter"@ && !occurs_at(input@, "alias::"@, 0) ==> {
                &&& r is Err
                &&& r->Err_0 is Directive
                &&& r->Err_0->Directive_input@ == input@
                &&& (exists|j: int| occurs_at(input@, "::"@, j)) ==> r->Err_0->Directive_context@
                    == "Cannot filter on given field"@
                &&& !(exists|j: int| occurs_at(input@, "::"@, j)) ==> r->Err_0->Directive_context@
                    == "Invalid filter query"@
            },
    {
        proof {
            reveal_strlit("alias::");
        }
        if str_eq(input, "nofilter") {
            Ok(F::NoFilter)
        } else if starts_with(input, "alias::") {
            let n = input.unicode_len();
            Ok(F::ByAlias(input.substring_char(7, n).to_owned()))
        } else if contains_str(input, "::") {
            Err(
                CliError::Directive {
                    input: input.to_owned(),
                    context: "Cannot filter on given field".to_owned(),
                },
            )
        } else {
            Err(
                CliError::Directive {
                    input: input.to_owned(),
                    context: "Invalid filter query".to_owned(),
                },
            )
        }
    }
}

impl S {
    /// Reads `no_sort`, or `ts` / `timestamp` for newest first; anything
    /// else fails with `InvalidSortQuery`.
    pub fn from_str(input: &str) -> (r: Result<S, CliError>)
        ensures
            input@ == "no_sort"@ ==> r == Ok::<S, CliError>(S::NoSort),
            input@ == "ts"@ || input@ == "timestamp"@ ==> r == Ok::<S, CliError>(S::ByTimestamp),
            input@ != "no_sort"@ && input@ != "ts"@ && input@ != "timestamp"@ ==> r is Err
                && r->Err_0 is InvalidSortQuery && r->Err_0->InvalidSortQuery_input@ == input@,
    {
        proof {
            reveal_strlit("no_sort");
            reveal_strlit("ts");
            reveal_strlit("timestamp");
            assert("ts"@.len() != "no_sort"@.len());
            assert("timestamp"@.len() != "no_sort"@.len());
        }
        if str_eq(input, "no_sort") {
            Ok(S::NoSort)
        } else if str_eq(input, "ts") || str_eq(input, "timestamp") {
            Ok(S::ByTimestamp)
        } else {
            Err(CliError::InvalidSortQuery { input: input.to_owned() })
        }
    }
}

impl Filter<F, S> for HourLog {
    open spec fn filter_spec(items: Seq<Self>, method: F) -> Seq<Self> {
        match method {
            F::NoFilter => items,
            F::ByAlias(slug) => items.filter(booked_on(slug@)),
        }
    }

    open spec fn sort_ok(items: Seq<Self>, method: S, sorted: Seq<Self>) -> bool {
        match method {
            S::NoSort => sorted == items,
            S::ByTimestamp => newest_first_order(items, sorted),
        }
    }

    open spec fn default_filter_spec() -> F {
        F::NoFilter
    }

    open spec fn default_sort_spec() -> S {
        S::NoSort
    }

    fn default_filter() -> (f: F) {
        F::NoFilter
    }

    fn default_sort() -> (s: S) {
        S::NoSort
    }

    fn filter(items: Vec<Self>, method: F) -> (r: Vec<Self>) {
        match method {
            F::NoFilter => items,
            F::ByAlias(slug) => {
                let mut out: Vec<HourLog> = Vec::new();
                let mut i: usize = 0;
                while i < items.len()
                    invariant
                        i <= items@.len(),
                        out@ == items@.subrange(0, i as int).filter(booked_on(slug@)),
                    decreases items@.len() - i,
                {
                    proof {
                        reveal(Seq::filter);
                        assert(items@.subrange(0, i + 1).drop_last() == items@.subrange(
                            0,
                            i as int,
                        ));
                    }
                    if items[i].alias == slug {
                        out.push(items[i].duplicate());
                    }
                    i = i + 1;
                }
                assert(items@.subrange(0, items@.len() as int) == items@);
                out
            },
        }
    }

    fn sort(items: Vec<Self>, method: S) -> (r: Vec<Self>) {
        match method {
            S::NoSort => items,
            S::ByTimestamp => {
                let mut items = items;
                sort_newest_first(&mut items);
                items
            },
        }
    }

    proof fn lemma_default_filter_keeps(items: Seq<Self>) {
    }

    proof fn lemma_default_sort_keeps(items: Seq<Self>, sorted: Seq<Self>) {
    }
}

} // verus!
