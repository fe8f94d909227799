use vstd::arithmetic::div_mod::{lemma_div_decreases, lemma_div_pos_is_pos, lemma_mod_bound};
use vstd::prelude::*;
use vstd::string::{StrSliceExecFns, StringExecFns};

verus! {

/// A stored stack trace as the persistence collaborator returns it.
#[derive(Clone, Debug, PartialEq)]
pub struct SimpleStacktraceModel {
    pub id: i32,
    pub stacktrace: String,
}

/// What the persistence collaborator can report.
#[derive(Clone, Copy, Debug, PartialEq, Eq, Structural)]
pub enum InfraError {
    InternalServerError,
    NotFound,
}

/// What a stack-trace request can fail with.
#[derive(Debug, PartialEq, Eq, Structural)]
pub enum StacktraceError {
    InternalServerError,
    NotFound(i32),
    InfraError(InfraError),
}

/// The body of a request to store one stack trace.
#[derive(Debug)]
pub struct CreatePostRequest {
    pub stacktrace: String,
}

/// One stored stack trace as answered to a client.
#[derive(Debug)]
pub struct StacktraceResponse {
    pub id: i32,
    pub stacktrace: String,
}

/// The stored stack traces as answered to a client, in listing order.
#[derive(Debug)]
pub struct ListStacktracesResponse {
    pub stacktraces: Vec<StacktraceResponse>,
}

/// A stored row: identifier and text.
#[derive(Debug)]
pub struct StacktraceDb {
    pub id: i32,
    pub stacktrace: String,
}

/// A row to insert: the text alone, the identifier being assigned by the
/// store.
#[derive(Debug)]
pub struct NewPostDb {
    pub stacktrace: String,
}

/// Whether a response carries exactly a stored model's identifier and
/// text.
pub open spec fn response_matches(r: StacktraceResponse, p: SimpleStacktraceModel) -> bool {
    &&& r.id == p.id
    &&& r.stacktrace@ == p.stacktrace@
}

/// Shape one stored model into its response: identifier and text carried
/// over unchanged.
pub fn adapt_post_to_post_response(post: SimpleStacktraceModel) -> (r: StacktraceResponse)
    ensures
        response_matches(r, post),
{
    StacktraceResponse { id: post.id, stacktrace: post.stacktrace }
}

/// Shape a listing of stored models into its response: one entry per
/// model, in the same order, each carried over unchanged.
pub fn adapt_posts_to_list_posts_response(posts: Vec<SimpleStacktraceModel>) -> (r:
    ListStacktracesResponse)
    ensures
        r.stacktraces@.len() == posts@.len(),
        forall|i: int|
            0 <= i < posts@.len() ==> #[trigger] response_matches(r.stacktraces@[i], posts@[i]),
{
    let ghost orig = posts@;
    let mut remaining = posts;
    let mut out: Vec<StacktraceResponse> = Vec::new();
    while remaining.len() > 0
        invariant
            out@.len() + remaining@.len() == orig.len(),
            remaining@ == orig.subrange(out@.len() as int, orig.len() as int),
            forall|k: int| 0 <= k < out@.len() ==> #[trigger] response_matches(out@[k], orig[k]),
        decreases remaining@.len(),
    {
        let p = remaining.remove(0);
        let resp = adapt_post_to_post_response(p);
        out.push(resp);
        proof {
            assert(remaining@ =~= orig.subrange(out@.len() as int, orig.len() as int));
        }
    }
    ListStacktracesResponse { stacktraces: out }
}

/// Shape a stored row into the model handed onwards: identifier and text
/// carried over unchanged.
pub fn adapt_stacktracedb_to_stacktracemodel(post_db: StacktraceDb) -> (r: SimpleStacktraceModel)
    ensures
        r.id == post_db.id,
        r.stacktrace@ == post_db.stacktrace@,
{
    SimpleStacktraceModel { id: post_db.id, stacktrace: post_db.stacktrace }
}

/// Lift the store's report into the request error: a missing row names
/// the identifier that was asked for; anything else is an internal error.
pub fn stacktrace_error_for(db_error: InfraError, post_id: i32) -> (r: StacktraceError)
    ensures
        db_error is NotFound ==> r == StacktraceError::NotFound(post_id),
        db_error is InternalServerError ==> r == StacktraceError::InternalServerError,
{
    match db_error {
        InfraError::InternalServerError => StacktraceError::InternalServerError,
        InfraError::NotFound => StacktraceError::NotFound(post_id),
    }
}

/// The decimal digit character for a value below ten.
pub open spec fn dec_digit(d: int) -> char {
    if d == 0 {
        '0'
    } else if d == 1 {
        '1'
    } else if d == 2 {
        '2'
    } else if d == 3 {
        '3'
    } else if d == 4 {
        '4'
    } else if d == 5 {
        '5'
    } else if d == 6 {
        '6'
    } else if d == 7 {
        '7'
    } else if d == 8 {
        '8'
    } else {
        '9'
    }
}

/// The decimal representation of a non-negative integer, most significant
/// digit first, with no leading zero except for zero itself.
pub open spec fn dec_rep(n: int) -> Seq<char>
    decreases n,
{
    if n < 10 {
        seq![dec_digit(n)]
    } else {
        dec_rep(n / 10) + seq![dec_digit(n % 10)]
    }
}

/// The decimal representation of an integer, with a leading minus sign
/// when it is negative.
pub open spec fn dec_int_rep(n: int) -> Seq<char> {
    if n < 0 {
        seq!['-'] + dec_rep(-n)
    } else {
        dec_rep(n)
    }
}

/// The one-character string for a decimal digit.
fn digit_str(d: u32) -> (s: &'static str)
    requires
        d < 10,
    ensures
        s@ == seq![dec_digit(d as int)],
{
    proof {
        reveal_strlit("0");
        reveal_strlit("1");
        reveal_strlit("2");
        reveal_strlit("3");
        reveal_strlit("4");
        reveal_strlit("5");
        reveal_strlit("6");
        reveal_strlit("7");
        reveal_strlit("8");
        reveal_strlit("9");
    }
    match d {
        0 => "0",
        1 => "1",
        2 => "2",
        3 => "3",
        4 => "4",
        5 => "5",
        6 => "6",
        7 => "7",
        8 => "8",
        _ => "9",
    }
}

/// Format a non-negative integer in decimal.
fn u32_decimal(n: u32) -> (s: String)
    ensures
        s@ == dec_rep(n as int),
    decreases n,
{
    if n < 10 {
        String::from_str(digit_str(n))
    } else {
        proof {
            lemma_div_decreases(n as int, 10);
            lemma_div_pos_is_pos(n as int, 10);
            lemma_mod_bound(n as int, 10);
        }
        let mut s = u32_decimal(n / 10);
        s.append(digit_str(n % 10));
        s
    }
}

/// Format an identifier in decimal, with a minus sign when negative.
fn i32_decimal(n: i32) -> (s: String)
    ensures
        s@ == dec_int_rep(n as int),
{
    if n < 0 {
        let magnitude = (-(n as i64)) as u32;
        let mut s = String::from_str("-");
        proof {
            reveal_strlit("-");
        }
        s.append(u32_decimal(magnitude).as_str());
        s
    } else {
        u32_decimal(n as u32)
    }
}

/// The text of each request error, as the service answers it. For an
/// error of the store, the store's own wording follows the prefix.
pub open spec fn spec_error_message(e: StacktraceError) -> Seq<char> {
    match e {
        StacktraceError::NotFound(id) => "StacktraceModel with id "@ + dec_int_rep(id as int)
            + " has not been found"@,
        StacktraceError::InfraError(db_error) => "Internal server error: "@ + (match db_error {
            InfraError::InternalServerError => "Internal server error"@,
            InfraError::NotFound => "Not found"@,
        }),
        StacktraceError::InternalServerError => "Internal server error"@,
    }
}

/// Build the error text that a response carries.
pub fn error_message(e: &StacktraceError) -> (s: String)
    ensures
        s@ == spec_error_message(*e),
{
    match e {
        StacktraceError::NotFound(id) => {
            let mut s = String::from_str("StacktraceModel with id ");
            s.append(i32_decimal(*id).as_str());
            s.append(" has not been found");
            s
        },
        StacktraceError::InfraError(db_error) => {
            let mut s = String::from_str("Internal server error: ");
            match db_error {
                InfraError::InternalServerError => s.append("Internal server error"),
                InfraError::NotFound => s.append("Not found"),
            }
            s
        },
        StacktraceError::InternalServerError => String::from_str("Internal server error"),
    }
}

/// The HTTP status that a request error answers with: 404 for a missing
/// row, 500 for everything else.
pub fn error_status(e: &StacktraceError) -> (r: u16)
    ensures
        e matches StacktraceError::NotFound(_) ==> r == 404,
        !(e matches StacktraceError::NotFound(_)) ==> r == 500,
{
    match e {
        StacktraceError::NotFound(_) => 404,
        _ => 500,
    }
}

} // verus!
