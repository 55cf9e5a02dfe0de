use crate::business_result::BusinessResult;
use crate::problem::{detailed, status_problem, Problem, ProblemView};
use crate::ws_try::LimitedBody;
use vstd::prelude::*;

verus! {

/// The most bytes of a request body that are read unless a limit is configured: 1 MiB.
pub const DEFAULT_BODY_LIMIT: usize = 1048576;

/// How a JSON body of a request is read.
pub struct ValidatedJsonConfig {
    limit: usize,
}

impl ValidatedJsonConfig {
    pub closed spec fn spec_limit(&self) -> usize {
        self.limit
    }

    /// The most bytes of the body that are read.
    pub fn limit(&self) -> (limit: usize)
        ensures
            limit == self.spec_limit(),
    {
        self.limit
    }

    /// An empty body that may grow to the configured limit.
    pub fn body(&self) -> (body: LimitedBody)
        ensures
            body.limit() == self.spec_limit(),
            body.bytes() == Seq::<u8>::empty(),
            body.within_limit(),
    {
        LimitedBody::new(self.limit)
    }
}

impl Default for ValidatedJsonConfig {
    fn default() -> (config: ValidatedJsonConfig)
        ensures
            config.spec_limit() == DEFAULT_BODY_LIMIT,
    {
        ValidatedJsonConfig { limit: DEFAULT_BODY_LIMIT }
    }
}

/// A value that was read from the JSON body of a request.
#[derive(Debug)]
pub struct ValidatedJson<T>(pub T);

/// The record that reports a request which is not what it must be: a bad
/// request whose details say what is wrong, after `what`.
pub open spec fn bad_request_problem(what: Seq<char>, error: Seq<char>) -> ProblemView {
    detailed(status_problem(400, "Bad request"@), what + error)
}

impl<T> ValidatedJson<T> {
    /// The value inside.
    pub fn into_inner(self) -> (value: T)
        ensures
            value == self.0,
    {
        self.0
    }

    /// The value inside.
    pub fn deref(&self) -> (value: &T)
        ensures
            *value == self.0,
    {
        &self.0
    }

    /// Takes what came of parsing the body of a request: the value, or the
    /// words of the parser for what is wrong with the body, which make a bad request.
    pub fn from_request(parsed: Result<T, String>) -> (r: BusinessResult<ValidatedJson<T>>)
        ensures
            match parsed {
                Ok(value) => r matches Ok(read) && read.0 == value,
                Err(error) => r matches Err(problem) && problem@ == bad_request_problem(
                    "Invalid json: "@,
                    error@,
                ),
            },
    {
        match parsed {
            Ok(value) => Ok(ValidatedJson(value)),
            Err(error) => Err(invalid("Invalid json: ", error.as_str())),
        }
    }
}

/// The bad request whose details are `what` and `error`.
fn invalid(what: &str, error: &str) -> (problem: Problem)
    ensures
        problem@ == bad_request_problem(what@, error@),
{
    let details = String::from_str(what).concat(error);
    Problem::bad_request().with_details(details.as_str())
}

/// Runs `f` on the value that was parsed from the body of a message; a body
/// that could not be parsed makes a bad request, and `f` is not run.
pub fn validate_json<B, F, T>(parsed: Result<B, String>, f: F) -> (r: BusinessResult<T>)
    where F: FnOnce(B) -> BusinessResult<T>
    requires
        parsed matches Ok(value) ==> f.requires((value,)),
    ensures
        match parsed {
            Ok(value) => f.ensures((value,), r),
            Err(error) => r matches Err(problem) && problem@ == bad_request_problem(
                "Invalid json: "@,
                error@,
            ),
        },
{
    match parsed {
        Ok(value) => f(value),
        Err(error) => Err(invalid("Invalid json: ", error.as_str())),
    }
}

/// The record that reports a request without the parameter `name`.
pub open spec fn missing_parameter(name: Seq<char>, error: Seq<char>) -> ProblemView {
    detailed(status_problem(400, "Bad request"@), "Missing "@ + name + ": "@ + error)
}

/// Takes what came of looking up the parameter `name` of a request: its value,
/// or the words for why there is none, which make a bad request.
pub fn request_parameter(name: &str, found: Result<String, String>) -> (r: BusinessResult<String>)
    ensures
        match found {
            Ok(value) => r matches Ok(read) && read == value,
            Err(error) => r matches Err(problem) && problem@ == missing_parameter(name@, error@),
        },
{
    match found {
        Ok(value) => Ok(value),
        Err(error) => {
            let details = String::from_str("Missing ").concat(name).concat(": ").concat(
                error.as_str(),
            );
            Err(Problem::bad_request().with_details(details.as_str()))
        },
    }
}

/// How the raw body of a request is read.
pub struct LimitedRawConfig {
    limit: usize,
}

impl LimitedRawConfig {
    pub closed spec fn spec_limit(&self) -> usize {
        self.limit
    }

    /// The most bytes of the body that are read.
    pub fn limit(&self) -> (limit: usize)
        ensures
            limit == self.spec_limit(),
    {
        self.limit
    }

    /// An empty body that may grow to the configured limit.
    pub fn body(&self) -> (body: LimitedBody)
        ensures
            body.limit() == self.spec_limit(),
            body.bytes() == Seq::<u8>::empty(),
            body.within_limit(),
    {
        LimitedBody::new(self.limit)
    }
}

impl Default for LimitedRawConfig {
    fn default() -> (config: LimitedRawConfig)
        ensures
            config.spec_limit() == DEFAULT_BODY_LIMIT,
    {
        LimitedRawConfig { limit: DEFAULT_BODY_LIMIT }
    }
}

/// The raw body of a request, no larger than the limit it was read with.
#[derive(Debug)]
pub struct LimitedRaw(pub Vec<u8>);

impl LimitedRaw {
    /// The bytes of the body.
    pub fn deref(&self) -> (bytes: &Vec<u8>)
        ensures
            *bytes == self.0,
    {
        &self.0
    }

    /// Takes what came of reading the body of a request: its bytes, or the
    /// words for why it could not be read, which make a bad request.
    pub fn from_request(read: Result<Vec<u8>, String>) -> (r: BusinessResult<LimitedRaw>)
        ensures
            match read {
                Ok(bytes) => r matches Ok(raw) && raw.0 == bytes,
                Err(error) => r matches Err(problem) && problem@ == bad_request_problem(
                    "Invalid body: "@,
                    error@,
                ),
            },
    {
        match read {
            Ok(bytes) => Ok(LimitedRaw(bytes)),
            Err(error) => Err(invalid("Invalid body: ", error.as_str())),
        }
    }
}

} // verus!
