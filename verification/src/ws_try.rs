use crate::business_result::BusinessResult;
use crate::problem::{classified, status_problem, Failure, FailureView, Problem, ProblemView};
use crate::types::Done;
use vstd::prelude::*;
use vstd::utf8::{decode_utf8, valid_utf8};

verus! {

/// The most bytes of a JSON body that are read: 100 MiB.
pub const JSON_RESPONSE_LIMIT: usize = 104857600;

/// The status of an HTTP response: a number of three digits.
#[derive(Clone, Copy, Debug, PartialEq, Eq)]
pub struct HttpStatus {
    code: u16,
}

impl View for HttpStatus {
    type V = u16;

    closed spec fn view(&self) -> u16 {
        self.code
    }
}

impl HttpStatus {
    #[verifier::type_invariant]
    spec fn three_digits(self) -> bool {
        100 <= self.code <= 999
    }

    /// The status with the number `code`, where `code` has three digits.
    pub fn from_u16(code: u16) -> (status: Option<HttpStatus>)
        ensures
            status is Some <==> 100 <= code <= 999,
            status is Some ==> status.unwrap()@ == code,
    {
        if 100 <= code && code <= 999 {
            Some(HttpStatus { code })
        } else {
            None
        }
    }

    /// The number of the status.
    pub fn as_u16(&self) -> (code: u16)
        ensures
            code == self@,
            100 <= code <= 999,
    {
        proof {
            use_type_invariant(self);
        }
        self.code
    }

    /// Whether the status reports success: a number from 200 to 299. A redirect
    /// is no success.
    pub fn is_success(&self) -> (yes: bool)
        ensures
            yes == (200 <= self@ <= 299),
    {
        200 <= self.code && self.code <= 299
    }
}

/// The words that `reqwest::StatusCode` prints for the status with this number.
pub uninterp spec fn status_line(code: u16) -> Seq<char>;

/// `reqwest::StatusCode::from_u16`, and `to_string` on the status it gives.
/// There is such a status for the numbers from 100 to 999 and for no others;
/// what is printed for it is `status_line` of the number.
#[verifier::external_body]
pub(crate) fn status_text(code: u16) -> (text: Option<String>)
    ensures
        text is Some <==> 100 <= code <= 999,
        text is Some ==> text.unwrap()@ == status_line(code),
{
    match reqwest::StatusCode::from_u16(code) {
        Ok(status) => Some(status.to_string()),
        Err(_) => None,
    }
}

/// The view of a body that was read, or of the failure to read it.
pub open spec fn body_view(body: Result<Vec<u8>, Failure>) -> Result<Seq<u8>, FailureView> {
    match body {
        Ok(bytes) => Ok(bytes@),
        Err(failure) => Err(failure@),
    }
}

/// The record with which the default handler reports a response without
/// success: the status as code, its printed form in the reason, and nothing of the body.
pub open spec fn default_problem(status: u16) -> ProblemView {
    status_problem(status, "Service request failed: "@ + status_line(status))
}

/// Reports a response without success by its status alone.
pub fn default_error_handler(status: HttpStatus, body: &Result<Vec<u8>, Failure>) -> (p: Problem)
    ensures
        p@ == default_problem(status@),
        p@.well_formed(),
{
    let code = status.as_u16();
    match status_text(code) {
        Some(text) => {
            let reason = String::from_str("Service request failed: ").concat(text.as_str());
            Problem::for_status(code, reason.as_str())
        },
        None => vstd::pervasive::unreached(),
    }
}

/// The strategy that turns a response without success into the record that reports it.
pub trait ClientErrorHandler {
    fn handle_error(&self, status: HttpStatus, body: &Result<Vec<u8>, Failure>) -> Problem;
}

/// The handler that reports the status alone.
pub struct DefaultClientErrorHandler();

impl ClientErrorHandler for DefaultClientErrorHandler {
    fn handle_error(&self, status: HttpStatus, body: &Result<Vec<u8>, Failure>) -> (p: Problem)
        ensures
            p@ == default_problem(status@),
            p@.well_formed(),
    {
        default_error_handler(status, body)
    }
}

/// `std::string::FromUtf8Error`. Nothing is known of what it holds.
#[verifier::external_type_specification]
#[verifier::external_body]
pub struct ExFromUtf8Error(std::string::FromUtf8Error);

/// `String::from_utf8`: the string that the bytes encode, where they are valid
/// UTF-8, and an error where they are not.
pub assume_specification[ std::string::String::from_utf8 ](bytes: std::vec::Vec<u8>) -> (text:
    Result<std::string::String, std::string::FromUtf8Error>)
    ensures
        text is Ok <==> valid_utf8(bytes@),
        text is Ok ==> text.unwrap()@ == decode_utf8(bytes@),
;

/// A body that is read piece by piece and never grows beyond its limit.
pub struct LimitedBody {
    limit: usize,
    bytes: Vec<u8>,
}

/// The record that reports a body larger than it may be.
pub open spec fn oversize_problem() -> ProblemView {
    classified(FailureView::Payload("payload reached size limit"@))
}

impl LimitedBody {
    /// The most bytes the body may have.
    pub closed spec fn limit(&self) -> usize {
        self.limit
    }

    /// The bytes read so far.
    pub closed spec fn bytes(&self) -> Seq<u8> {
        self.bytes@
    }

    /// The body is no larger than its limit.
    pub open spec fn within_limit(&self) -> bool {
        self.bytes().len() <= self.limit()
    }

    /// An empty body that may grow to `limit` bytes.
    pub fn new(limit: usize) -> (body: LimitedBody)
        ensures
            body.limit() == limit,
            body.bytes() == Seq::<u8>::empty(),
            body.within_limit(),
    {
        LimitedBody { limit, bytes: Vec::new() }
    }

    /// Appends the next piece, where the body stays within its limit with it;
    /// reports the body as too large, and keeps it as it is, where it does not.
    pub fn push(&mut self, chunk: &[u8]) -> (r: Result<(), Problem>)
        ensures
            final(self).limit() == old(self).limit(),
            old(self).within_limit() ==> final(self).within_limit(),
            old(self).bytes().len() + chunk@.len() <= old(self).limit() ==> r is Ok
                && final(self).bytes() == old(self).bytes() + chunk@,
            old(self).bytes().len() + chunk@.len() > old(self).limit() ==> final(self).bytes()
                == old(self).bytes() && r is Err && r.unwrap_err()@ == oversize_problem(),
    {
        if self.bytes.len() > self.limit || chunk.len() > self.limit - self.bytes.len() {
            return Err(
                Problem::from_failure(
                    Failure::Payload(String::from_str("payload reached size limit")),
                ),
            );
        }
        let mut i: usize = 0;
        while i < chunk.len()
            invariant
                i <= chunk@.len(),
                self.limit == old(self).limit,
                old(self).bytes@.len() + chunk@.len() <= self.limit,
                self.bytes@ == old(self).bytes@ + chunk@.take(i as int),
            decreases chunk.len() - i,
        {
            self.bytes.push(chunk[i]);
            assert(self.bytes@ =~= old(self).bytes@ + chunk@.take(i + 1));
            i += 1;
        }
        assert(chunk@.take(i as int) =~= chunk@);
        Ok(())
    }

    /// The bytes that were read.
    pub fn finish(self) -> (bytes: Vec<u8>)
        ensures
            bytes@ == self.bytes(),
    {
        self.bytes
    }
}

/// What a line is once the carriage return before its line feed is taken off.
pub open spec fn without_cr(line: Seq<u8>) -> Seq<u8> {
    if line.len() > 0 && line.last() == 13 {
        line.drop_last()
    } else {
        line
    }
}

/// The lines that the first `n` bytes of a body end, and what they hold of the
/// line that is not ended yet. A line feed ends a line.
pub open spec fn lines_within(body: Seq<u8>, n: nat) -> (Seq<Seq<u8>>, Seq<u8>)
    decreases n,
{
    if n == 0 || n > body.len() {
        (Seq::empty(), Seq::empty())
    } else {
        let (ended, open) = lines_within(body, (n - 1) as nat);
        if body[n - 1] == 10 {
            (ended.push(without_cr(open)), Seq::empty())
        } else {
            (ended, open.push(body[n - 1]))
        }
    }
}

/// The lines of a body, in order: each ends with a line feed, or with a carriage
/// return and a line feed, which are not part of it; the last may end with the
/// body instead, where it holds any byte.
pub open spec fn lines_of(body: Seq<u8>) -> Seq<Seq<u8>> {
    let (ended, open) = lines_within(body, body.len());
    if open.len() > 0 {
        ended.push(open)
    } else {
        ended
    }
}

/// The lines a vector of byte vectors holds.
pub open spec fn byte_lines(lines: &Vec<Vec<u8>>) -> Seq<Seq<u8>> {
    Seq::new(lines@.len(), |i: int| lines@[i]@)
}

/// The lines a vector of strings holds.
pub open spec fn text_lines(lines: &Vec<String>) -> Seq<Seq<char>> {
    Seq::new(lines@.len(), |i: int| lines@[i]@)
}

/// Splits a body into its lines.
pub fn split_lines(body: &[u8]) -> (lines: Vec<Vec<u8>>)
    ensures
        byte_lines(&lines) == lines_of(body@),
{
    let mut lines: Vec<Vec<u8>> = Vec::new();
    let mut open: Vec<u8> = Vec::new();
    let mut i: usize = 0;
    assert(byte_lines(&lines) =~= Seq::<Seq<u8>>::empty());
    while i < body.len()
        invariant
            i <= body@.len(),
            (byte_lines(&lines), open@) == lines_within(body@, i as nat),
        decreases body.len() - i,
    {
        let ghost ended = byte_lines(&lines);
        if body[i] == 10 {
            let n = open.len();
            if n > 0 && open[n - 1] == 13 {
                open.pop();
            }
            let ghost line = open@;
            assert(line =~= without_cr(lines_within(body@, i as nat).1));
            lines.push(open);
            assert(byte_lines(&lines) =~= ended.push(line));
            open = Vec::new();
        } else {
            open.push(body[i]);
        }
        i += 1;
    }
    if open.len() > 0 {
        let ghost ended = byte_lines(&lines);
        let ghost line = open@;
        lines.push(open);
        assert(byte_lines(&lines) =~= ended.push(line));
    }
    lines
}

/// Which kind of body the caller expects of a successful response.
#[derive(Clone, Copy, Debug, PartialEq, Eq, Structural)]
pub enum ResponseShape {
    /// No body that matters: whatever comes is thrown away.
    Done,
    /// A text of lines.
    Lines,
    /// A JSON document, of no more bytes than the limit.
    Json,
}

/// The body of a successful response, as far as it can be decoded without
/// knowing the type the caller wants.
#[derive(Debug, PartialEq, Eq)]
pub enum Decoded {
    Done(Done),
    /// The lines of the body, in order.
    Lines(Vec<String>),
    /// The bytes of a JSON document.
    Json(Vec<u8>),
}

/// What a `Decoded` holds, as mathematical values.
pub enum DecodedView {
    Done,
    Lines(Seq<Seq<char>>),
    Json(Seq<u8>),
}

impl View for Decoded {
    type V = DecodedView;

    open spec fn view(&self) -> DecodedView {
        match self {
            Decoded::Done(_) => DecodedView::Done,
            Decoded::Lines(lines) => DecodedView::Lines(text_lines(lines)),
            Decoded::Json(bytes) => DecodedView::Json(bytes@),
        }
    }
}

/// The record that reports a line that is no text.
pub open spec fn not_text_problem() -> ProblemView {
    classified(FailureView::Payload("body is not valid UTF-8"@))
}

/// The record that reports a JSON body larger than the limit.
pub open spec fn json_oversize_problem() -> ProblemView {
    classified(FailureView::JsonPayload("payload reached size limit"@))
}

/// What the body of a successful response decodes to.
pub open spec fn decoded_body(shape: ResponseShape, body: Seq<u8>, limit: usize) -> Result<
    DecodedView,
    ProblemView,
> {
    match shape {
        ResponseShape::Done => Ok(DecodedView::Done),
        ResponseShape::Lines => if forall|i: int|
            0 <= i < lines_of(body).len() ==> valid_utf8(#[trigger] lines_of(body)[i]) {
            Ok(
                DecodedView::Lines(
                    Seq::new(lines_of(body).len(), |i: int| decode_utf8(lines_of(body)[i])),
                ),
            )
        } else {
            Err(not_text_problem())
        },
        ResponseShape::Json => if body.len() <= limit {
            Ok(DecodedView::Json(body))
        } else {
            Err(json_oversize_problem())
        },
    }
}

/// The view of a decoded body or of the record that reports why there is none.
pub open spec fn decoded_view(r: BusinessResult<Decoded>) -> Result<DecodedView, ProblemView> {
    match r {
        Ok(decoded) => Ok(decoded@),
        Err(problem) => Err(problem@),
    }
}

/// Decodes the body of a successful response as the caller expects it: nothing
/// for `Done`, the lines of a text for `Lines`, and for `Json` the bytes of the
/// document, where they are no more than `limit`.
pub fn decode_body(shape: ResponseShape, body: Vec<u8>, limit: usize) -> (r: BusinessResult<
    Decoded,
>)
    ensures
        decoded_view(r) == decoded_body(shape, body@, limit),
{
    match shape {
        ResponseShape::Done => Ok(Decoded::Done(Done)),
        ResponseShape::Json => {
            if body.len() <= limit {
                Ok(Decoded::Json(body))
            } else {
                Err(
                    Problem::from_failure(
                        Failure::JsonPayload(String::from_str("payload reached size limit")),
                    ),
                )
            }
        },
        ResponseShape::Lines => {
            let mut raw = split_lines(body.as_slice());
            let ghost all = lines_of(body@);
            let mut texts: Vec<String> = Vec::new();
            let mut i: usize = 0;
            assert(text_lines(&texts) =~= Seq::<Seq<char>>::empty());
            let total = raw.len();
            while i < total
                invariant
                    i <= total,
                    shape is Lines,
                    total == all.len(),
                    raw@.len() == total,
                    all == lines_of(body@),
                    forall|k: int| i <= k < total ==> (#[trigger] raw@[k])@ == all[k],
                    forall|k: int| 0 <= k < i ==> valid_utf8(#[trigger] all[k]),
                    text_lines(&texts) == Seq::new(i as nat, |k: int| decode_utf8(all[k])),
                decreases total - i,
            {
                let mut line: Vec<u8> = Vec::new();
                std::mem::swap(&mut line, &mut raw[i]);
                assert(line@ == all[i as int]);
                match String::from_utf8(line) {
                    Ok(text) => {
                        let ghost held = text_lines(&texts);
                        let ghost chars = text@;
                        texts.push(text);
                        assert(text_lines(&texts) =~= held.push(chars));
                        assert(text_lines(&texts) =~= Seq::new(
                            (i + 1) as nat,
                            |k: int| decode_utf8(all[k]),
                        ));
                    },
                    Err(_) => {
                        assert(!valid_utf8(lines_of(body@)[i as int]));
                        return Err(
                            Problem::from_failure(
                                Failure::Payload(String::from_str("body is not valid UTF-8")),
                            ),
                        );
                    },
                }
                i += 1;
            }
            Ok(Decoded::Lines(texts))
        },
    }
}

/// A response as far as it was received: its status, and its body or the
/// failure to read it.
pub struct Received {
    pub status: HttpStatus,
    pub body: Result<Vec<u8>, Failure>,
}

/// What comes of a response with a status of success. Where the caller expects
/// no body, the body is thrown away and the call has succeeded, whatever came of
/// reading it. Otherwise it is the body decoded as the caller expects it, or the
/// failure to read it as it is classified.
pub open spec fn success_outcome(
    body: Result<Seq<u8>, FailureView>,
    shape: ResponseShape,
    limit: usize,
) -> Result<DecodedView, ProblemView> {
    match body {
        Ok(bytes) => decoded_body(shape, bytes, limit),
        Err(failure) => if shape is Done {
            Ok(DecodedView::Done)
        } else {
            Err(classified(failure))
        },
    }
}

/// Turns what came of sending a request into the caller's result. A failure to
/// get a response is reported as it is classified. A response with a status of
/// success is decoded as the caller expects it. Any other response, a redirect
/// too, is reported by the record that `handler` makes of its status and body.
pub fn expect_success_with_error<H: ClientErrorHandler>(
    sent: Result<Received, Failure>,
    shape: ResponseShape,
    limit: usize,
    handler: &H,
) -> (r: BusinessResult<Decoded>)
    ensures
        match sent {
            Err(failure) => decoded_view(r) == Err::<DecodedView, ProblemView>(
                classified(failure@),
            ),
            Ok(received) => if 200 <= received.status@ <= 299 {
                decoded_view(r) == success_outcome(body_view(received.body), shape, limit)
            } else {
                r matches Err(problem) && call_ensures(
                    H::handle_error,
                    (handler, received.status, &received.body),
                    problem,
                )
            },
        },
{
    match sent {
        Err(failure) => Err(Problem::from_failure(failure)),
        Ok(received) => {
            if received.status.is_success() {
                match received.body {
                    Ok(bytes) => decode_body(shape, bytes, limit),
                    Err(failure) => match shape {
                        ResponseShape::Done => Ok(Decoded::Done(Done)),
                        _ => Err(Problem::from_failure(failure)),
                    },
                }
            } else {
                Err(handler.handle_error(received.status, &received.body))
            }
        },
    }
}

/// As `expect_success_with_error`, with the handler that reports the status alone.
pub fn expect_success(sent: Result<Received, Failure>, shape: ResponseShape, limit: usize) -> (r:
    BusinessResult<Decoded>)
    ensures
        match sent {
            Err(failure) => decoded_view(r) == Err::<DecodedView, ProblemView>(
                classified(failure@),
            ),
            Ok(received) => if 200 <= received.status@ <= 299 {
                decoded_view(r) == success_outcome(body_view(received.body), shape, limit)
            } else {
                decoded_view(r) == Err::<DecodedView, ProblemView>(
                    default_problem(received.status@),
                )
            },
        },
{
    let handler = DefaultClientErrorHandler();
    expect_success_with_error(sent, shape, limit, &handler)
}

} // verus!
