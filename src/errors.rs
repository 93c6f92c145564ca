use vstd::prelude::*;

verus! {

/// Every failure the engine reports, as a value for the caller to render.
#[derive(Debug, PartialEq, Eq)]
pub enum CliError {
    /// A required location value (the base directory) is missing.
    Configuration { variable: String },
    /// The backing file exists but could not be read.
    Read { detail: String },
    /// The whole collection could not be written back.
    Write { detail: String },
    /// The collection could not be turned into text.
    Encode { detail: String },
    /// The stored text does not decode into a well-formed collection.
    Corruption { detail: String },
    /// `add` was asked to insert an identifier that is already present.
    DuplicateIdentifier { slug: String },
    /// An identifier was not found; `available` lists up to ten present ones.
    MissingIdentifier { slug: String, available: Vec<String> },
    /// A filter step was handed an empty set of candidates.
    FilterNoResults,
    /// A filter or sort directive could not be understood.
    Directive { input: String, context: String },
    /// A filter names a field that cannot be filtered on.
    InvalidFilterField { field: String },
    /// A sort directive names no known ordering.
    InvalidSortQuery { input: String },
    /// The identifier encoder could not be set up.
    Hasher,
    /// A value could not be read; `description` says what was expected.
    Parse { input: String, description: String },
    /// A number of minutes that is not a whole number.
    InvalidMinutes { input: String },
    /// A number of hours that is not a number.
    InvalidHours { input: String },
    /// A time directive of no known kind.
    InvalidTime { input: String },
}

} // verus!
