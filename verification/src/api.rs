//! The web API's answers and error mapping, and the text encoding of the
//! replay-buffer records it stores.
use vstd::prelude::*;
use itertools::Itertools;

verus! {

/// The parts of `parts` written one after another with `sep` between each
/// two; empty when there are no parts.
pub open spec fn seq_join(parts: Seq<Seq<char>>, sep: Seq<char>) -> Seq<char>
    decreases parts.len(),
{
    if parts.len() == 0 {
        Seq::empty()
    } else if parts.len() == 1 {
        parts[0]
    } else {
        seq_join(parts.drop_last(), sep) + sep + parts.last()
    }
}

/// The views of a list of strings.
pub open spec fn string_views(parts: Seq<String>) -> Seq<Seq<char>> {
    parts.map_values(|p: String| p@)
}

/// `Itertools::join` on the strings of `parts`: the first part, then `sep`
/// and the next part for each further part (each part is written by its
/// `Display`, which for a string is the string itself).
#[verifier::external_body]
fn join_strings(parts: &Vec<String>, sep: &str) -> (r: String)
    ensures
        r@ == seq_join(string_views(parts@), sep@),
{
    parts.iter().join(sep)
}

/// A vector of numbers, already written as text, in the form the database
/// keeps it: the numbers separated by commas.
pub fn encode_vector(parts: &Vec<String>) -> (r: String)
    ensures
        r@ == seq_join(string_views(parts@), ","@),
{
    join_strings(parts, ",")
}

/// The greeting at the API's root.
pub fn root() -> (r: &'static str)
    ensures
        r@ == "Hello, World!"@,
{
    "Hello, World!"
}

/// The message by which the API greets `name`: "Hello " followed by the name.
pub fn json_hello(name: &str) -> (r: String)
    ensures
        r@ == "Hello "@ + name@,
{
    let hello = String::from_str("Hello ");
    hello.concat(name)
}

/// The request that creates a user.
pub struct CreateUser {
    pub username: String,
}

/// A user of the API.
pub struct User {
    pub id: u64,
    pub username: String,
}

/// Creating a user gives it the identifier 1337 and the requested name.
pub fn create_user(payload: CreateUser) -> (r: User)
    ensures
        r.id == 1337,
        r.username@ == payload.username@,
{
    User { id: 1337, username: payload.username }
}

/// The kinds of failure that the database reports to the API.
#[derive(PartialEq, Eq, Structural, Debug, Clone, Copy)]
pub enum QueryErrorKind {
    RecordNotFound,
    UniqueKeyViolation,
    Other,
}

/// The API's errors.
#[derive(PartialEq, Eq, Structural, Debug, Clone, Copy)]
pub enum AppError {
    PrismaError(QueryErrorKind),
    NotFound,
}

impl AppError {
    /// A missing record is a `NotFound`; any other database failure is kept
    /// as a database error.
    pub fn from_query_error(error: QueryErrorKind) -> (r: AppError)
        ensures
            error == QueryErrorKind::RecordNotFound ==> r == AppError::NotFound,
            error != QueryErrorKind::RecordNotFound ==> r == AppError::PrismaError(error),
    {
        match error {
            QueryErrorKind::RecordNotFound => AppError::NotFound,
            e => AppError::PrismaError(e),
        }
    }

    /// The HTTP status of the answer: 409 (conflict) for a unique key
    /// violation, 400 (bad request) for any other database error, 404 (not
    /// found) for a missing record.
    pub fn status_code(&self) -> (r: u16)
        ensures
            *self == AppError::PrismaError(QueryErrorKind::UniqueKeyViolation) ==> r == 409,
            (self matches AppError::PrismaError(k) && k != QueryErrorKind::UniqueKeyViolation) ==> r == 400,
            *self == AppError::NotFound ==> r == 404,
    {
        match self {
            AppError::PrismaError(QueryErrorKind::UniqueKeyViolation) => 409,
            AppError::PrismaError(_) => 400,
            AppError::NotFound => 404,
        }
    }
}

} // verus!
