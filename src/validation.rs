//! Checks on URLs that callers hand in.
use vstd::prelude::*;
use crate::error::{AppError, ValidationErrors, rejects_field};
use crate::text::{trim_text, trimmed};

verus! {

/// What is wrong with a candidate URL.
#[derive(Debug, Clone, Copy, PartialEq, Eq, Structural)]
pub enum UrlProblem {
    Required,
    InvalidFormat,
    InvalidScheme,
}

/// The scheme of `s` parsed as an absolute URL, or `None` where it does not parse.
pub uninterp spec fn url_scheme(s: Seq<char>) -> Option<Seq<char>>;

/// Relies on `url::Url::parse`, and `Url::scheme` of what it parsed.
#[verifier::external_body]
fn parse_scheme(s: &str) -> (r: Option<String>)
    ensures
        match url_scheme(s@) {
            None => r is None,
            Some(x) => r is Some && r->Some_0@ == x,
        },
{
    url::Url::parse(s).ok().map(|u| u.scheme().to_string())
}

/// The problem with a URL that is blank or not, and that parsed with `scheme`.
pub open spec fn url_problem(blank: bool, scheme: Option<Seq<char>>) -> Option<UrlProblem> {
    if blank {
        Some(UrlProblem::Required)
    } else {
        match scheme {
            None => Some(UrlProblem::InvalidFormat),
            Some(s) => if s == "http"@ || s == "https"@ {
                None
            } else {
                Some(UrlProblem::InvalidScheme)
            },
        }
    }
}

pub open spec fn problem_code(p: UrlProblem) -> Seq<char> {
    match p {
        UrlProblem::Required => "REQUIRED"@,
        UrlProblem::InvalidFormat => "INVALID_FORMAT"@,
        UrlProblem::InvalidScheme => "INVALID_SCHEME"@,
    }
}

pub open spec fn problem_message(p: UrlProblem, field: Seq<char>) -> Seq<char> {
    match p {
        UrlProblem::Required => field + " is required"@,
        UrlProblem::InvalidFormat => field + " is invalid"@,
        UrlProblem::InvalidScheme => field + " scheme must be http or https"@,
    }
}

/// The outcome for a URL that is blank or not, and that parsed with `scheme`.
pub open spec fn url_verdict(
    r: Result<(), AppError>,
    blank: bool,
    scheme: Option<Seq<char>>,
    field: Seq<char>,
) -> bool {
    match url_problem(blank, scheme) {
        None => r is Ok,
        Some(p) => r is Err && rejects_field(
            r->Err_0,
            field,
            problem_code(p),
            problem_message(p, field),
            problem_message(p, field),
        ),
    }
}

fn problem_text(p: UrlProblem, field_name: &str) -> (r: String)
    ensures
        r@ == problem_message(p, field_name@),
{
    let mut m = field_name.to_owned();
    match p {
        UrlProblem::Required => m.append(" is required"),
        UrlProblem::InvalidFormat => m.append(" is invalid"),
        UrlProblem::InvalidScheme => m.append(" scheme must be http or https"),
    }
    m
}

/// Judges a URL from whether it is blank and the scheme it parsed with.
pub fn check_url(blank: bool, scheme: Option<String>, field_name: &str) -> (r: Result<(), AppError>)
    ensures
        url_verdict(r, blank, match scheme { Some(s) => Some(s@), None => None }, field_name@),
{
    let problem = if blank {
        UrlProblem::Required
    } else {
        match scheme {
            None => UrlProblem::InvalidFormat,
            Some(s) => {
                if s == "http".to_owned() || s == "https".to_owned() {
                    return Ok(());
                }
                UrlProblem::InvalidScheme
            },
        }
    };
    let code = match problem {
        UrlProblem::Required => "REQUIRED".to_owned(),
        UrlProblem::InvalidFormat => "INVALID_FORMAT".to_owned(),
        UrlProblem::InvalidScheme => "INVALID_SCHEME".to_owned(),
    };
    let detail = problem_text(problem, field_name);
    let message = problem_text(problem, field_name);
    Err(
        AppError::bad_request_with_errors(
            detail,
            ValidationErrors::single(field_name.to_owned(), code, message),
        ),
    )
}

/// Accepts a non-blank absolute URL with scheme http or https.
pub fn validate_url(input: &str, field_name: &str) -> (r: Result<(), AppError>)
    ensures
        url_verdict(r, trimmed(input@).len() == 0, url_scheme(input@), field_name@),
        input@.len() == 0 ==> r is Err && rejects_field(
            r->Err_0,
            field_name@,
            "REQUIRED"@,
            field_name@ + " is required"@,
            field_name@ + " is required"@,
        ),
{
    let blank = trim_text(input).is_empty();
    let scheme = if blank {
        None
    } else {
        parse_scheme(input)
    };
    check_url(blank, scheme, field_name)
}

} // verus!
