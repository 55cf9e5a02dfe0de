use crate::decimal::{decimal_digits, decimal_string};
use crate::json::{all_members, as_text, as_unsigned, field, push_member, Json, JsonView};
use crate::business_result::BusinessResult;
use vstd::prelude::*;
use vstd::std_specs::cmp::PartialEqSpecImpl;

verus! {

/// The canonical error value: every failure of the library is reported as one of these.
#[derive(Debug)]
pub struct Problem {
    pub code: u16,
    pub problem_type: String,
    pub reason: String,
    pub details: Option<String>,
}

/// What a `Problem` holds, as mathematical values.
pub struct ProblemView {
    pub code: u16,
    pub problem_type: Seq<char>,
    pub reason: Seq<char>,
    pub details: Option<Seq<char>>,
}

impl View for Problem {
    type V = ProblemView;

    open spec fn view(&self) -> ProblemView {
        ProblemView {
            code: self.code,
            problem_type: self.problem_type@,
            reason: self.reason@,
            details: match self.details {
                Some(d) => Some(d@),
                None => None,
            },
        }
    }
}

/// The stable tag that belongs to a status code.
pub open spec fn problem_type_of(code: u16) -> Seq<char> {
    "https://httpstatus.es/"@ + decimal_digits(code as nat)
}

/// The record for `code` and `reason` with nothing appended yet.
pub open spec fn status_problem(code: u16, reason: Seq<char>) -> ProblemView {
    ProblemView { code, problem_type: problem_type_of(code), reason, details: None }
}

/// The details of a record after `added` has been appended to `before`.
pub open spec fn chained_details(before: Option<Seq<char>>, added: Seq<char>) -> Seq<char> {
    match before {
        Some(existing) => existing + ": "@ + added,
        None => added,
    }
}

/// The record `p` after `added` has been appended to its details.
pub open spec fn detailed(p: ProblemView, added: Seq<char>) -> ProblemView {
    ProblemView {
        code: p.code,
        problem_type: p.problem_type,
        reason: p.reason,
        details: Some(chained_details(p.details, added)),
    }
}

/// What `Problem::to_string` renders.
pub open spec fn problem_text(p: ProblemView) -> Seq<char> {
    match p.details {
        Some(d) => "Problem(code="@ + decimal_digits(p.code as nat) + ", reason="@ + p.reason
            + ", details="@ + d + ")"@,
        None => "Problem(code="@ + decimal_digits(p.code as nat) + ", reason="@ + p.reason + ")"@,
    }
}

impl ProblemView {
    /// The code is a three-digit status and the tag is the one derived from it.
    pub open spec fn well_formed(self) -> bool {
        &&& 100 <= self.code <= 999
        &&& self.problem_type == problem_type_of(self.code)
    }
}

impl Problem {
    /// The record for the status `code`, which has three digits, with `reason`
    /// as its summary.
    pub fn for_status(code: u16, reason: &str) -> (p: Problem)
        requires
            100 <= code <= 999,
        ensures
            p@ == status_problem(code, reason@),
            p@.well_formed(),
    {
        let digits = decimal_string(code as u64);
        let problem_type = String::from_str("https://httpstatus.es/").concat(digits.as_str());
        Problem { code, problem_type, reason: String::from_str(reason), details: None }
    }

    /// The record for the status `code` where `code` has three digits, and
    /// `None` where it has not.
    pub fn try_for_status(code: u16, reason: &str) -> (p: Option<Problem>)
        ensures
            match p {
                Some(problem) => 100 <= code <= 999 && problem@ == status_problem(code, reason@)
                    && problem@.well_formed(),
                None => !(100 <= code <= 999),
            },
    {
        if 100 <= code && code <= 999 {
            Some(Self::for_status(code, reason))
        } else {
            None
        }
    }

    pub fn bad_request() -> (p: Problem)
        ensures
            p@ == status_problem(400, "Bad request"@),
            p@.well_formed(),
    {
        Self::for_status(400, "Bad request")
    }

    pub fn unauthorized() -> (p: Problem)
        ensures
            p@ == status_problem(401, "Unauthorized"@),
            p@.well_formed(),
    {
        Self::for_status(401, "Unauthorized")
    }

    pub fn forbidden() -> (p: Problem)
        ensures
            p@ == status_problem(403, "Forbidden"@),
            p@.well_formed(),
    {
        Self::for_status(403, "Forbidden")
    }

    pub fn conflict() -> (p: Problem)
        ensures
            p@ == status_problem(409, "Conflict"@),
            p@.well_formed(),
    {
        Self::for_status(409, "Conflict")
    }

    pub fn internal_server_error() -> (p: Problem)
        ensures
            p@ == status_problem(500, "Internal server error"@),
            p@.well_formed(),
    {
        Self::for_status(500, "Internal server error")
    }

    pub fn not_found() -> (p: Problem)
        ensures
            p@ == status_problem(404, "Not found"@),
            p@.well_formed(),
    {
        Self::for_status(404, "Not found")
    }

    pub fn method_not_allowed() -> (p: Problem)
        ensures
            p@ == status_problem(405, "Method not allowed"@),
            p@.well_formed(),
    {
        Self::for_status(405, "Method not allowed")
    }

    pub fn failed_dependency() -> (p: Problem)
        ensures
            p@ == status_problem(424, "Failed dependency"@),
            p@.well_formed(),
    {
        Self::for_status(424, "Failed dependency")
    }

    /// Appends `details` to what the record already says, after `": "` where it says something.
    pub fn with_details(self, details: &str) -> (p: Problem)
        ensures
            p@ == detailed(self@, details@),
            self@.well_formed() ==> p@.well_formed(),
    {
        let Problem { code, problem_type, reason, details: before } = self;
        let chained = match before {
            Some(existing) => existing.concat(": ").concat(details),
            None => String::from_str(details),
        };
        Problem { code, problem_type, reason, details: Some(chained) }
    }

    /// The record in one line, for logs.
    pub fn to_string(&self) -> (s: String)
        ensures
            s@ == problem_text(self@),
    {
        let digits = decimal_string(self.code as u64);
        let head = String::from_str("Problem(code=").concat(digits.as_str()).concat(
            ", reason=",
        ).concat(self.reason.as_str());
        match &self.details {
            Some(d) => head.concat(", details=").concat(d.as_str()).concat(")"),
            None => head.concat(")"),
        }
    }
}

/// The wire form of a record: an object with the members `code`, `type`, `reason`
/// and `details`, the last `null` where the record has no details.
pub open spec fn problem_json(p: ProblemView) -> JsonView {
    JsonView::Object(
        seq![
            ("code"@, JsonView::UInt(p.code as u64)),
            ("type"@, JsonView::Str(p.problem_type)),
            ("reason"@, JsonView::Str(p.reason)),
            (
                "details"@,
                match p.details {
                    Some(d) => JsonView::Str(d),
                    None => JsonView::Null,
                },
            ),
        ],
    )
}

/// The details a wire form carries: none where the member is missing or `null`,
/// the string where it is one. The outer `None` says that the member is neither.
pub open spec fn decoded_details(j: JsonView) -> Option<Option<Seq<char>>> {
    match field(j, "details"@) {
        None => Some(None),
        Some(JsonView::Null) => Some(None),
        Some(JsonView::Str(d)) => Some(Some(d)),
        Some(_) => None,
    }
}

/// The record a wire form stands for: `code` must be a number of three digits,
/// `type` the tag that belongs to the code, and `reason` a string; other members
/// are ignored. `None` where the document is no such record.
pub open spec fn decoded_problem(j: JsonView) -> Option<ProblemView> {
    match (field(j, "code"@), field(j, "type"@), field(j, "reason"@), decoded_details(j)) {
        (Some(code), Some(problem_type), Some(reason), Some(details)) => match (
            as_unsigned(code),
            as_text(problem_type),
            as_text(reason),
        ) {
            (Some(n), Some(t), Some(r)) => if 100 <= n <= 999 && t == problem_type_of(n as u16) {
                Some(ProblemView { code: n as u16, problem_type: t, reason: r, details })
            } else {
                None
            },
            _ => None,
        },
        _ => None,
    }
}

/// The record that reports a document which is not the JSON the reader expected.
pub open spec fn json_problem(what: Seq<char>) -> ProblemView {
    classified(FailureView::Json(what))
}

impl Problem {
    /// The record that reports a document which is not the JSON the reader expected.
    pub fn invalid_json(what: &str) -> (p: Problem)
        ensures
            p@ == json_problem(what@),
    {
        Problem::from_failure(Failure::Json(String::from_str(what)))
    }

    /// The wire form of the record.
    pub fn to_json(&self) -> (j: Json)
        ensures
            j@ == problem_json(self@),
    {
        let mut members: Vec<(String, Json)> = Vec::new();
        assert(all_members(&members) =~= Seq::empty());
        push_member(&mut members, "code", Json::UInt(self.code as u64));
        push_member(&mut members, "type", Json::Str(self.problem_type.clone()));
        push_member(&mut members, "reason", Json::Str(self.reason.clone()));
        let details = match &self.details {
            Some(d) => Json::Str(d.clone()),
            None => Json::Null,
        };
        push_member(&mut members, "details", details);
        assert(all_members(&members) =~= problem_json(self@)->Object_0);
        Json::Object(members)
    }

    /// Reads a record from its wire form. A document that is no record is
    /// reported as an internal error.
    pub fn from_json(j: &Json) -> (r: BusinessResult<Problem>)
        ensures
            match decoded_problem(j@) {
                Some(p) => r matches Ok(read) && read@ == p && read@.well_formed(),
                None => r matches Err(e) && e@ == json_problem("not a problem record"@),
            },
    {
        let details = match j.get("details") {
            None => Some(None),
            Some(Json::Null) => Some(None),
            Some(Json::Str(d)) => Some(Some(d.clone())),
            Some(_) => None,
        };
        match (j.get("code"), j.get("type"), j.get("reason"), details) {
            (Some(code), Some(problem_type), Some(reason), Some(details)) => {
                match (code.as_u64(), problem_type.as_str(), reason.as_str()) {
                    (Some(n), Some(t), Some(r)) => {
                        if 100 <= n && n <= 999 {
                            let Problem { code, problem_type, reason, details: _ } =
                                Problem::for_status(n as u16, r);
                            if problem_type == String::from_str(t) {
                                return Ok(Problem { code, problem_type, reason, details });
                            }
                        }
                    },
                    _ => {},
                }
            },
            _ => {},
        }
        Err(Problem::invalid_json("not a problem record"))
    }

    /// Writing a record to its wire form and reading it back gives the record
    /// again, with or without details.
    pub proof fn lemma_wire_form_round_trip(p: ProblemView)
        requires
            p.well_formed(),
        ensures
            decoded_problem(problem_json(p)) == Some(p),
    {
        let members = problem_json(p)->Object_0;
        reveal_strlit("code");
        reveal_strlit("type");
        reveal_strlit("reason");
        reveal_strlit("details");
        assert(members.drop_last().drop_last().drop_last().last() == members[0]);
        assert(members.drop_last().drop_last().last() == members[1]);
        assert(members.drop_last().last() == members[2]);
        assert(members.last() == members[3]);
        reveal_with_fuel(crate::json::member_named, 5);
        assert("code"@.len() == 4 && "type"@.len() == 4);
        assert("reason"@.len() == 6 && "details"@.len() == 7);
        assert("code"@[0] != "type"@[0]);
    }
}

/// A failure below the level of the library's own results, with the words its
/// source has for it where it has any.
#[derive(Debug, PartialEq, Eq)]
pub enum Failure {
    /// A value the configuration needs is not in the environment.
    EnvironmentMissing,
    /// A value of the environment is not valid Unicode.
    EnvironmentNotUnicode,
    /// Reading or writing failed.
    Io(String),
    /// The worker that owns the token cache cannot be reached.
    Mailbox(String),
    /// The system clock reads a time before the epoch.
    SystemTime(String),
    /// The request took longer than it may.
    Timeout,
    /// No connection to the other side.
    Connect(String),
    /// The other side answered with what is no HTTP response.
    InvalidResponse(String),
    /// The request could not be written to the connection.
    Send(String),
    /// Any other failure of the HTTP client.
    HttpClient(String),
    /// The body of a message could not be read, or is larger than it may be.
    Payload(String),
    /// The body of a message is not the JSON that was expected of it.
    JsonPayload(String),
    /// A value could not be written as JSON, or a text is no JSON.
    Json(String),
    /// The request could not be built or carried out.
    Request(String),
    /// The token-issuing service answered without success; the words are those
    /// for the status of its answer.
    TokenRefused(String),
}

/// What a `Failure` holds, as mathematical values.
pub enum FailureView {
    EnvironmentMissing,
    EnvironmentNotUnicode,
    Io(Seq<char>),
    Mailbox(Seq<char>),
    SystemTime(Seq<char>),
    Timeout,
    Connect(Seq<char>),
    InvalidResponse(Seq<char>),
    Send(Seq<char>),
    HttpClient(Seq<char>),
    Payload(Seq<char>),
    JsonPayload(Seq<char>),
    Json(Seq<char>),
    Request(Seq<char>),
    TokenRefused(Seq<char>),
}

impl View for Failure {
    type V = FailureView;

    open spec fn view(&self) -> FailureView {
        match self {
            Failure::EnvironmentMissing => FailureView::EnvironmentMissing,
            Failure::EnvironmentNotUnicode => FailureView::EnvironmentNotUnicode,
            Failure::Io(text) => FailureView::Io(text@),
            Failure::Mailbox(text) => FailureView::Mailbox(text@),
            Failure::SystemTime(text) => FailureView::SystemTime(text@),
            Failure::Timeout => FailureView::Timeout,
            Failure::Connect(text) => FailureView::Connect(text@),
            Failure::InvalidResponse(text) => FailureView::InvalidResponse(text@),
            Failure::Send(text) => FailureView::Send(text@),
            Failure::HttpClient(text) => FailureView::HttpClient(text@),
            Failure::Payload(text) => FailureView::Payload(text@),
            Failure::JsonPayload(text) => FailureView::JsonPayload(text@),
            Failure::Json(text) => FailureView::Json(text@),
            Failure::Request(text) => FailureView::Request(text@),
            Failure::TokenRefused(text) => FailureView::TokenRefused(text@),
        }
    }
}

/// The fixed table from failures to the details of the record that reports them.
pub open spec fn failure_details(failure: FailureView) -> Seq<char> {
    match failure {
        FailureView::EnvironmentMissing => "Environment variable missing"@,
        FailureView::EnvironmentNotUnicode => "Environment variable not unicode"@,
        FailureView::Io(text) => "IO: "@ + text,
        FailureView::Mailbox(text) => "Actix mailbox error: "@ + text,
        FailureView::SystemTime(text) => "SystemTime error: "@ + text,
        FailureView::Timeout => "Request timeout"@,
        FailureView::Connect(text) => "HTTP connection error: "@ + text,
        FailureView::InvalidResponse(text) => "Invalid HTTP response: "@ + text,
        FailureView::Send(text) => "IO: "@ + text,
        FailureView::HttpClient(text) => "HTTP client error: "@ + text,
        FailureView::Payload(text) => "Http payload: "@ + text,
        FailureView::JsonPayload(text) => "Http json payload: "@ + text,
        FailureView::Json(text) => "Json: "@ + text,
        FailureView::Request(text) => "Request result: "@ + text,
        FailureView::TokenRefused(text) => "Token request failed: "@ + text,
    }
}

/// The record that reports a failure: an internal server error whose details
/// name the kind of failure.
pub open spec fn classified(failure: FailureView) -> ProblemView {
    detailed(status_problem(500, "Internal server error"@), failure_details(failure))
}

impl Failure {
    fn details(&self) -> (text: String)
        ensures
            text@ == failure_details(self@),
    {
        match self {
            Failure::EnvironmentMissing => String::from_str("Environment variable missing"),
            Failure::EnvironmentNotUnicode => String::from_str("Environment variable not unicode"),
            Failure::Io(text) => String::from_str("IO: ").concat(text.as_str()),
            Failure::Mailbox(text) => String::from_str("Actix mailbox error: ").concat(
                text.as_str(),
            ),
            Failure::SystemTime(text) => String::from_str("SystemTime error: ").concat(
                text.as_str(),
            ),
            Failure::Timeout => String::from_str("Request timeout"),
            Failure::Connect(text) => String::from_str("HTTP connection error: ").concat(
                text.as_str(),
            ),
            Failure::InvalidResponse(text) => String::from_str("Invalid HTTP response: ").concat(
                text.as_str(),
            ),
            Failure::Send(text) => String::from_str("IO: ").concat(text.as_str()),
            Failure::HttpClient(text) => String::from_str("HTTP client error: ").concat(
                text.as_str(),
            ),
            Failure::Payload(text) => String::from_str("Http payload: ").concat(text.as_str()),
            Failure::JsonPayload(text) => String::from_str("Http json payload: ").concat(
                text.as_str(),
            ),
            Failure::Json(text) => String::from_str("Json: ").concat(text.as_str()),
            Failure::Request(text) => String::from_str("Request result: ").concat(text.as_str()),
            Failure::TokenRefused(text) => String::from_str("Token request failed: ").concat(
                text.as_str(),
            ),
        }
    }
}

impl Problem {
    /// The record that reports `failure`. Every failure becomes an internal
    /// server error; which failure it was is in the details.
    pub fn from_failure(failure: Failure) -> (p: Problem)
        ensures
            p@ == classified(failure@),
            p@.well_formed(),
    {
        let details = failure.details();
        Problem::internal_server_error().with_details(details.as_str())
    }
}

impl ProblemView {
    /// Details only ever grow: what is appended second follows what was appended
    /// first after `": "`, and what the record said before both is still in front.
    pub proof fn lemma_details_accumulate(self, first: Seq<char>, second: Seq<char>)
        ensures
            detailed(detailed(self, first), second).details == Some(
                chained_details(self.details, first) + ": "@ + second,
            ),
            self.details is None ==> detailed(detailed(self, first), second).details == Some(
                first + ": "@ + second,
            ),
            detailed(detailed(self, first), second).code == self.code,
            detailed(detailed(self, first), second).problem_type == self.problem_type,
            detailed(detailed(self, first), second).reason == self.reason,
    {
    }
}

impl Clone for Problem {
    fn clone(&self) -> (p: Problem)
        ensures
            p@ == self@,
    {
        Problem {
            code: self.code,
            problem_type: self.problem_type.clone(),
            reason: self.reason.clone(),
            details: match &self.details {
                Some(d) => Some(d.clone()),
                None => None,
            },
        }
    }
}

impl PartialEq for Problem {
    fn eq(&self, other: &Problem) -> (r: bool) {
        let same_details = match (&self.details, &other.details) {
            (Some(a), Some(b)) => *a == *b,
            (None, None) => true,
            _ => false,
        };
        self.code == other.code && self.problem_type == other.problem_type && self.reason
            == other.reason && same_details
    }
}

impl PartialEqSpecImpl for Problem {
    open spec fn obeys_eq_spec() -> bool {
        true
    }

    open spec fn eq_spec(&self, other: &Problem) -> bool {
        self@ == other@
    }
}

impl Eq for Problem {

}

} // verus!
