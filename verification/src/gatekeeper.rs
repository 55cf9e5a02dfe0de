use crate::business_result::BusinessResult;
use crate::json::{
    all_members, as_text, as_unsigned, clone_members, field, items_view, push_item, push_member,
    set_member, with_member, Json, JsonView,
};
use crate::problem::{classified, json_problem, Failure, FailureView, Problem, ProblemView};
use crate::service_requester::{
    with_json, ClientRequest, ClientRequestView, IntoClientRequest, Method,
};
use crate::ws_try::{
    body_view, decoded_view, expect_success_with_error, status_line, status_text, success_outcome,
    ClientErrorHandler, Decoded, DecodedView, HttpStatus, Received, ResponseShape,
    JSON_RESPONSE_LIMIT,
};
use vstd::prelude::*;

verus! {

/// The seconds by which a token must outlive the moment it is handed out.
pub const GRACE_SECONDS: u64 = 60;

/// A bearer credential as the token-issuing service hands it out.
#[derive(Debug, PartialEq, Eq)]
pub struct Token {
    pub key_id: String,
    pub key_type: String,
    pub raw: String,
    pub crypted: String,
    pub expires: u64,
    pub claims: Vec<(String, Json)>,
}

/// What a `Token` holds, as mathematical values.
pub struct TokenView {
    pub key_id: Seq<char>,
    pub key_type: Seq<char>,
    pub raw: Seq<char>,
    pub crypted: Seq<char>,
    pub expires: u64,
    pub claims: Seq<(Seq<char>, JsonView)>,
}

impl View for Token {
    type V = TokenView;

    open spec fn view(&self) -> TokenView {
        TokenView {
            key_id: self.key_id@,
            key_type: self.key_type@,
            raw: self.raw@,
            crypted: self.crypted@,
            expires: self.expires,
            claims: all_members(&self.claims),
        }
    }
}

/// A token is usable at `now` while it outlives `now` by more than the grace window.
pub open spec fn usable(token: TokenView, now: u64) -> bool {
    now + GRACE_SECONDS < token.expires
}

/// The wire form of a token: an object with the members `keyId`, `keyType`, `raw`,
/// `crypted`, `expires` and `claims`.
pub open spec fn token_json(t: TokenView) -> JsonView {
    JsonView::Object(
        seq![
            ("keyId"@, JsonView::Str(t.key_id)),
            ("keyType"@, JsonView::Str(t.key_type)),
            ("raw"@, JsonView::Str(t.raw)),
            ("crypted"@, JsonView::Str(t.crypted)),
            ("expires"@, JsonView::UInt(t.expires)),
            ("claims"@, JsonView::Object(t.claims)),
        ],
    )
}

/// The members of a document that is an object.
pub open spec fn as_members(j: JsonView) -> Option<Seq<(Seq<char>, JsonView)>> {
    match j {
        JsonView::Object(members) => Some(members),
        _ => None,
    }
}

/// The token a wire form stands for; `None` where a member is missing or of the
/// wrong kind. Members the token does not know are ignored.
pub open spec fn decoded_token(j: JsonView) -> Option<TokenView> {
    match (
        field(j, "keyId"@),
        field(j, "keyType"@),
        field(j, "raw"@),
        field(j, "crypted"@),
        field(j, "expires"@),
        field(j, "claims"@),
    ) {
        (Some(key_id), Some(key_type), Some(raw), Some(crypted), Some(expires), Some(claims)) => {
            match (
                as_text(key_id),
                as_text(key_type),
                as_text(raw),
                as_text(crypted),
                as_unsigned(expires),
                as_members(claims),
            ) {
                (Some(key_id), Some(key_type), Some(raw), Some(crypted), Some(expires), Some(claims)) => {
                    Some(TokenView { key_id, key_type, raw, crypted, expires, claims })
                },
                _ => None,
            }
        },
        _ => None,
    }
}

impl Token {
    /// Whether the token may still be handed out at `now`, in seconds since the epoch.
    pub fn is_usable(&self, now: u64) -> (yes: bool)
        ensures
            yes == usable(self@, now),
    {
        match now.checked_add(GRACE_SECONDS) {
            Some(limit) => limit < self.expires,
            None => false,
        }
    }

    /// The wire form of the token.
    pub fn to_json(&self) -> (j: Json)
        ensures
            j@ == token_json(self@),
    {
        let mut members: Vec<(String, Json)> = Vec::new();
        assert(all_members(&members) =~= Seq::empty());
        push_member(&mut members, "keyId", Json::Str(self.key_id.clone()));
        push_member(&mut members, "keyType", Json::Str(self.key_type.clone()));
        push_member(&mut members, "raw", Json::Str(self.raw.clone()));
        push_member(&mut members, "crypted", Json::Str(self.crypted.clone()));
        push_member(&mut members, "expires", Json::UInt(self.expires));
        push_member(&mut members, "claims", Json::Object(clone_members(&self.claims)));
        assert(all_members(&members) =~= token_json(self@)->Object_0);
        Json::Object(members)
    }

    /// Reads a token from its wire form. A document that is no token is reported
    /// as an internal error.
    pub fn from_json(j: &Json) -> (r: BusinessResult<Token>)
        ensures
            match decoded_token(j@) {
                Some(t) => r matches Ok(read) && read@ == t,
                None => r matches Err(e) && e@ == json_problem("not a token"@),
            },
    {
        match (
            j.get("keyId"),
            j.get("keyType"),
            j.get("raw"),
            j.get("crypted"),
            j.get("expires"),
            j.get("claims"),
        ) {
            (Some(key_id), Some(key_type), Some(raw), Some(crypted), Some(expires), Some(claims)) => {
                match (
                    key_id.as_str(),
                    key_type.as_str(),
                    raw.as_str(),
                    crypted.as_str(),
                    expires.as_u64(),
                    claims,
                ) {
                    (
                        Some(key_id),
                        Some(key_type),
                        Some(raw),
                        Some(crypted),
                        Some(expires),
                        Json::Object(claims),
                    ) => {
                        return Ok(
                            Token {
                                key_id: String::from_str(key_id),
                                key_type: String::from_str(key_type),
                                raw: String::from_str(raw),
                                crypted: String::from_str(crypted),
                                expires,
                                claims: clone_members(claims),
                            },
                        );
                    },
                    _ => {},
                }
            },
            _ => {},
        }
        Err(Problem::invalid_json("not a token"))
    }
}

impl Token {
    /// Writing a token to its wire form and reading it back gives the token again.
    pub proof fn lemma_wire_form_round_trip(t: TokenView)
        ensures
            decoded_token(token_json(t)) == Some(t),
    {
        let members = token_json(t)->Object_0;
        reveal_strlit("keyId");
        reveal_strlit("keyType");
        reveal_strlit("raw");
        reveal_strlit("crypted");
        reveal_strlit("expires");
        reveal_strlit("claims");
        let m5 = members.drop_last();
        let m4 = m5.drop_last();
        let m3 = m4.drop_last();
        let m2 = m3.drop_last();
        let m1 = m2.drop_last();
        assert(members.last() == members[5]);
        assert(m5.last() == members[4]);
        assert(m4.last() == members[3]);
        assert(m3.last() == members[2]);
        assert(m2.last() == members[1]);
        assert(m1.last() == members[0]);
        reveal_with_fuel(crate::json::member_named, 7);
        assert("keyId"@.len() == 5 && "keyType"@.len() == 7 && "raw"@.len() == 3);
        assert("crypted"@.len() == 7 && "expires"@.len() == 7 && "claims"@.len() == 6);
        assert("keyType"@[0] != "crypted"@[0]);
        assert("keyType"@[0] != "expires"@[0]);
        assert("crypted"@[0] != "expires"@[0]);
    }
}

impl Clone for Token {
    fn clone(&self) -> (copy: Token)
        ensures
            copy@ == self@,
    {
        Token {
            key_id: self.key_id.clone(),
            key_type: self.key_type.clone(),
            raw: self.raw.clone(),
            crypted: self.crypted.clone(),
            expires: self.expires,
            claims: clone_members(&self.claims),
        }
    }
}

/// What the cache tells the caller of `handle` to do.
#[derive(Debug, PartialEq, Eq)]
pub enum TokenAction {
    /// Answer the caller with this result.
    Reply(BusinessResult<Token>),
    /// No usable token is cached and no fetch is under way: fetch one, hand the
    /// outcome to `fetched`, and answer the callers it lists.
    Fetch,
    /// A fetch is under way: the caller is answered when `fetched` lists it.
    Wait,
}

/// The single owner of the cached token. It also holds the payload that asks for
/// a token, and the callers that wait for the fetch under way.
pub struct TokenCreator {
    claims: Json,
    current: Option<Token>,
    fetching: bool,
    waiting: Vec<u64>,
}

/// What a `TokenCreator` holds, as mathematical values.
pub struct TokenCreatorView {
    pub claims: JsonView,
    pub current: Option<TokenView>,
    pub fetching: bool,
    pub waiting: Seq<u64>,
}

/// What a `TokenAction` holds, as mathematical values.
pub enum TokenActionView {
    Reply(Result<TokenView, ProblemView>),
    Fetch,
    Wait,
}

/// The view of a result that holds a token.
pub open spec fn outcome_view(outcome: BusinessResult<Token>) -> Result<TokenView, ProblemView> {
    match outcome {
        Ok(token) => Ok(token@),
        Err(problem) => Err(problem@),
    }
}

impl View for TokenAction {
    type V = TokenActionView;

    open spec fn view(&self) -> TokenActionView {
        match self {
            TokenAction::Reply(outcome) => TokenActionView::Reply(outcome_view(*outcome)),
            TokenAction::Fetch => TokenActionView::Fetch,
            TokenAction::Wait => TokenActionView::Wait,
        }
    }
}

impl View for TokenCreator {
    type V = TokenCreatorView;

    closed spec fn view(&self) -> TokenCreatorView {
        TokenCreatorView {
            claims: self.claims@,
            current: match self.current {
                Some(token) => Some(token@),
                None => None,
            },
            fetching: self.fetching,
            waiting: self.waiting@,
        }
    }
}

/// The record that reports a clock which reads a time before the epoch.
pub open spec fn clock_problem(text: Seq<char>) -> ProblemView {
    classified(FailureView::SystemTime(text))
}

/// The scopes of one namespace as a JSON array of strings.
pub open spec fn scope_list(scopes: Seq<&str>) -> JsonView {
    JsonView::Array(Seq::new(scopes.len(), |i: int| JsonView::Str(scopes[i]@)))
}

/// The members of the `scopes` object after the first `n` namespaces have been
/// set, in order: a namespace that is named again replaces what it had.
pub open spec fn scope_members(scopes: Seq<(&str, &[&str])>, n: nat) -> Seq<(Seq<char>, JsonView)>
    decreases n,
{
    if n == 0 || n > scopes.len() {
        Seq::empty()
    } else {
        with_member(
            scope_members(scopes, (n - 1) as nat),
            scopes[n - 1].0@,
            scope_list(scopes[n - 1].1@),
        )
    }
}

/// The payload that asks the token-issuing service for a token: the subject
/// `service/<name>` and, for each namespace, the scopes asked for.
pub open spec fn token_request(service_name: Seq<char>, scopes: Seq<(&str, &[&str])>) -> JsonView {
    JsonView::Object(
        seq![
            ("sub"@, JsonView::Str("service/"@ + service_name)),
            ("scopes"@, JsonView::Object(scope_members(scopes, scopes.len()))),
        ],
    )
}

impl TokenCreatorView {
    /// The state after the request of `caller` at the clock reading `clock`.
    pub open spec fn after_request(self, caller: u64, clock: Result<u64, Seq<char>>) -> Self {
        match clock {
            Err(_) => self,
            Ok(now) => match self.current {
                Some(token) if usable(token, now) => self,
                _ => TokenCreatorView {
                    claims: self.claims,
                    current: self.current,
                    fetching: true,
                    waiting: self.waiting.push(caller),
                },
            },
        }
    }

    /// What the request of `caller` at the clock reading `clock` is told to do.
    pub open spec fn action_for(self, caller: u64, clock: Result<u64, Seq<char>>) -> TokenActionView {
        match clock {
            Err(text) => TokenActionView::Reply(Err(clock_problem(text))),
            Ok(now) => match self.current {
                Some(token) if usable(token, now) => TokenActionView::Reply(Ok(token)),
                _ => if self.fetching {
                    TokenActionView::Wait
                } else {
                    TokenActionView::Fetch
                },
            },
        }
    }

    /// The state after a fetch has ended with `outcome`: a token replaces what was
    /// cached, a failure leaves it as it was, and nobody waits any more.
    pub open spec fn after_fetch(self, outcome: Result<TokenView, ProblemView>) -> Self {
        TokenCreatorView {
            claims: self.claims,
            current: match outcome {
                Ok(token) => Some(token),
                Err(_) => self.current,
            },
            fetching: false,
            waiting: Seq::empty(),
        }
    }
}

impl TokenCreator {
    /// The cache for the service `service_name`, empty, with the payload that asks
    /// for the given scopes.
    pub fn for_service(service_name: &str, scopes: &[(&str, &[&str])]) -> (creator: TokenCreator)
        ensures
            creator@ == (TokenCreatorView {
                claims: token_request(service_name@, scopes@),
                current: None,
                fetching: false,
                waiting: Seq::empty(),
            }),
    {
        let mut scope_map: Vec<(String, Json)> = Vec::new();
        assert(all_members(&scope_map) =~= Seq::empty());
        let mut i: usize = 0;
        while i < scopes.len()
            invariant
                i <= scopes.len(),
                all_members(&scope_map) == scope_members(scopes@, i as nat),
            decreases scopes.len() - i,
        {
            let (namespace, names) = scopes[i];
            let mut values: Vec<Json> = Vec::new();
            assert(items_view(values@, values@.len()) =~= Seq::empty());
            let mut k: usize = 0;
            while k < names.len()
                invariant
                    k <= names.len(),
                    items_view(values@, values@.len()) == Seq::new(
                        k as nat,
                        |n: int| JsonView::Str(names@[n]@),
                    ),
                decreases names.len() - k,
            {
                push_item(&mut values, Json::Str(String::from_str(names[k])));
                assert(items_view(values@, values@.len()) =~= Seq::new(
                    (k + 1) as nat,
                    |n: int| JsonView::Str(names@[n]@),
                ));
                k += 1;
            }
            set_member(&mut scope_map, namespace, Json::Array(values));
            i += 1;
        }
        let subject = String::from_str("service/").concat(service_name);
        let mut claims: Vec<(String, Json)> = Vec::new();
        assert(all_members(&claims) =~= Seq::empty());
        push_member(&mut claims, "sub", Json::Str(subject));
        push_member(&mut claims, "scopes", Json::Object(scope_map));
        assert(all_members(&claims) =~= token_request(service_name@, scopes@)->Object_0);
        TokenCreator { claims: Json::Object(claims), current: None, fetching: false, waiting: Vec::new() }
    }

    /// The payload to send to the token-issuing service.
    pub fn claims(&self) -> (payload: &Json)
        ensures
            payload@ == self@.claims,
    {
        &self.claims
    }

    /// Decides what the request of `caller` is told to do when the clock reads
    /// `clock`, in seconds since the epoch or with the reason why it cannot be
    /// read. A cached token that is still usable is handed out; otherwise the
    /// caller is put among those that wait, and told to fetch if nobody does yet.
    pub fn handle_at(&mut self, caller: u64, clock: Result<u64, String>) -> (action: TokenAction)
        ensures
            action@ == old(self)@.action_for(caller, clock_view(clock)),
            final(self)@ == old(self)@.after_request(caller, clock_view(clock)),
    {
        match clock {
            Err(text) => TokenAction::Reply(Err(Problem::from_failure(Failure::SystemTime(text)))),
            Ok(now) => {
                match &self.current {
                    Some(token) => {
                        if token.is_usable(now) {
                            return TokenAction::Reply(Ok(token.clone()));
                        }
                    },
                    None => {},
                }
                self.waiting.push(caller);
                if self.fetching {
                    TokenAction::Wait
                } else {
                    self.fetching = true;
                    TokenAction::Fetch
                }
            },
        }
    }

    /// Takes the outcome of the fetch: a token replaces the cached one, a failure
    /// is not kept. Returns the callers that waited, in the order in which they
    /// asked, each with the same outcome.
    pub fn fetched(&mut self, outcome: BusinessResult<Token>) -> (answers: Vec<
        (u64, BusinessResult<Token>),
    >)
        ensures
            final(self)@ == old(self)@.after_fetch(outcome_view(outcome)),
            answers_view(answers@) == old(self)@.answers_to(outcome_view(outcome)),
    {
        let mut answers: Vec<(u64, BusinessResult<Token>)> = Vec::new();
        let mut i: usize = 0;
        while i < self.waiting.len()
            invariant
                i <= self.waiting.len(),
                *self == *old(self),
                answers@.len() == i,
                forall|k: int|
                    0 <= k < i ==> (#[trigger] answers@[k]).0 == self.waiting@[k] && outcome_view(
                        answers@[k].1,
                    ) == outcome_view(outcome),
            decreases self.waiting.len() - i,
        {
            let copy = match &outcome {
                Ok(token) => Ok(token.clone()),
                Err(problem) => Err(problem.clone()),
            };
            answers.push((self.waiting[i], copy));
            i += 1;
        }
        match outcome {
            Ok(token) => {
                self.current = Some(token);
            },
            Err(_) => {},
        }
        proof {
            assert(answers_view(answers@) =~= old(self)@.answers_to(outcome_view(outcome)));
        }
        self.fetching = false;
        self.waiting = Vec::new();
        answers
    }
}

/// The view of a clock reading.
pub open spec fn clock_view(clock: Result<u64, String>) -> Result<u64, Seq<char>> {
    match clock {
        Ok(now) => Ok(now),
        Err(text) => Err(text@),
    }
}

/// `std::time::SystemTime`, a reading of the system clock. Nothing is known of what it holds.
#[verifier::external_type_specification]
#[verifier::external_body]
pub struct ExSystemTime(std::time::SystemTime);

/// `std::time::SystemTimeError`, the error of a clock that reads an earlier time than asked for.
#[verifier::external_type_specification]
#[verifier::external_body]
pub struct ExSystemTimeError(std::time::SystemTimeError);

/// `SystemTime::now`: the reading of the system clock. Nothing is claimed of it.
pub assume_specification[ std::time::SystemTime::now ]() -> std::time::SystemTime;

/// `SystemTime::duration_since`: the time that has passed since `earlier`, or an
/// error where `earlier` is the later of the two. Nothing is claimed of either.
pub assume_specification[ std::time::SystemTime::duration_since ](
    time: &std::time::SystemTime,
    earlier: std::time::SystemTime,
) -> Result<std::time::Duration, std::time::SystemTimeError>;

/// `Duration::as_secs`: the whole seconds of a duration. Nothing is claimed of them.
pub assume_specification[ std::time::Duration::as_secs ](duration: &std::time::Duration) -> u64;

/// The constant `std::time::UNIX_EPOCH`. Nothing is claimed of it.
#[verifier::external_body]
fn unix_epoch() -> std::time::SystemTime {
    std::time::UNIX_EPOCH
}

impl TokenCreator {
    /// Reads the system clock and decides what the request of `caller` is told to
    /// do: what `handle_at` decides for that reading, whatever it is.
    pub fn handle(&mut self, caller: u64) -> (action: TokenAction)
        ensures
            exists|clock: Result<u64, Seq<char>>|
                action@ == old(self)@.action_for(caller, clock)
                    && final(self)@ == old(self)@.after_request(caller, clock),
    {
        let clock = match std::time::SystemTime::now().duration_since(unix_epoch()) {
            Ok(elapsed) => Ok(elapsed.as_secs()),
            Err(error) => Err(error.to_string()),
        };
        let action = self.handle_at(caller, clock);
        proof {
            let reading = clock_view(clock);
            assert(action@ == old(self)@.action_for(caller, reading)
                && self@ == old(self)@.after_request(caller, reading));
        }
        action
    }
}

/// The views of the answers that `fetched` hands out.
pub open spec fn answers_view(answers: Seq<(u64, BusinessResult<Token>)>) -> Seq<
    (u64, Result<TokenView, ProblemView>),
> {
    Seq::new(answers.len(), |i: int| (answers[i].0, outcome_view(answers[i].1)))
}

impl TokenCreatorView {
    /// The answers that go out when a fetch ends with `outcome`: one for each
    /// caller that waits, in the order in which they asked, all with that outcome.
    pub open spec fn answers_to(self, outcome: Result<TokenView, ProblemView>) -> Seq<
        (u64, Result<TokenView, ProblemView>),
    > {
        Seq::new(self.waiting.len(), |i: int| (self.waiting[i], outcome))
    }

    /// The state after the first `n` of the requests, where request `i` comes from
    /// `callers[i]` at the clock reading `clocks[i]`.
    pub open spec fn after_requests(
        self,
        callers: Seq<u64>,
        clocks: Seq<Result<u64, Seq<char>>>,
        n: nat,
    ) -> Self
        decreases n,
    {
        if n == 0 {
            self
        } else {
            self.after_requests(callers, clocks, (n - 1) as nat).after_request(
                callers[n - 1],
                clocks[n - 1],
            )
        }
    }

    /// What request `i` is told to do.
    pub open spec fn action_of_request(
        self,
        callers: Seq<u64>,
        clocks: Seq<Result<u64, Seq<char>>>,
        i: nat,
    ) -> TokenActionView {
        self.after_requests(callers, clocks, i).action_for(callers[i as int], clocks[i as int])
    }

    /// What request `i` is told to do while nothing is cached: a caller whose
    /// clock cannot be read gets the clock's error; of the others, the first is
    /// told to fetch and every later one to wait.
    pub open spec fn single_flight_action(
        callers: Seq<u64>,
        clocks: Seq<Result<u64, Seq<char>>>,
        i: nat,
    ) -> TokenActionView {
        match clocks[i as int] {
            Err(text) => TokenActionView::Reply(Err(clock_problem(text))),
            Ok(_) => if askers(callers, clocks, i).len() == 0 {
                TokenActionView::Fetch
            } else {
                TokenActionView::Wait
            },
        }
    }

    /// Single flight: when any number of callers ask while nothing is cached,
    /// the first whose clock can be read is told to fetch and all later ones to
    /// wait, so exactly one fetch goes out; when it ends, every one of them gets
    /// its outcome, the same for all. A caller whose clock cannot be read is
    /// answered at once with the clock's error and takes no part.
    pub proof fn lemma_single_flight(
        self,
        callers: Seq<u64>,
        clocks: Seq<Result<u64, Seq<char>>>,
        outcome: Result<TokenView, ProblemView>,
    )
        requires
            self.current is None,
            !self.fetching,
            self.waiting.len() == 0,
            callers.len() == clocks.len(),
        ensures
            forall|i: nat|
                i < callers.len() ==> #[trigger] self.action_of_request(callers, clocks, i)
                    == Self::single_flight_action(callers, clocks, i),
            forall|i: nat, j: nat|
                i < j < callers.len() ==> !(#[trigger] self.action_of_request(callers, clocks, i)
                     is Fetch && #[trigger] self.action_of_request(callers, clocks, j) is Fetch),
            askers(callers, clocks, callers.len()).len() > 0 ==> exists|i: nat|
                i < callers.len() && #[trigger] self.action_of_request(callers, clocks, i)
                     is Fetch,
            self.after_requests(callers, clocks, callers.len()).answers_to(outcome) == Seq::new(
                askers(callers, clocks, callers.len()).len(),
                |k: int| (askers(callers, clocks, callers.len())[k], outcome),
            ),
            (forall|i: int| 0 <= i < clocks.len() ==> clocks[i] is Ok) ==> askers(
                callers,
                clocks,
                callers.len(),
            ) == callers,
    {
        let n = callers.len();
        self.lemma_requests_pile_up(callers, clocks, n);
        assert forall|i: nat| i < n implies #[trigger] self.action_of_request(callers, clocks, i)
            == Self::single_flight_action(callers, clocks, i) by {
            self.lemma_requests_pile_up(callers, clocks, i);
        }
        assert forall|i: nat, j: nat| i < j < n implies !(#[trigger] self.action_of_request(
            callers,
            clocks,
            i,
        ) is Fetch && #[trigger] self.action_of_request(callers, clocks, j) is Fetch) by {
            self.lemma_requests_pile_up(callers, clocks, i);
            self.lemma_requests_pile_up(callers, clocks, j);
            if clocks[i as int] is Ok {
                lemma_askers_grow(callers, clocks, i + 1, j);
            }
        }
        if askers(callers, clocks, n).len() > 0 {
            lemma_first_asker(callers, clocks, n);
            let first = choose|i: nat|
                i < n && clocks[i as int] is Ok && askers(callers, clocks, i).len() == 0;
            self.lemma_requests_pile_up(callers, clocks, first);
            assert(self.action_of_request(callers, clocks, first) is Fetch);
        }
        assert(self.after_requests(callers, clocks, n).answers_to(outcome) =~= Seq::new(
            askers(callers, clocks, n).len(),
            |k: int| (askers(callers, clocks, n)[k], outcome),
        ));
        if forall|i: int| 0 <= i < clocks.len() ==> clocks[i] is Ok {
            lemma_all_ask(callers, clocks, n);
            assert(callers.take(n as int) =~= callers);
        }
    }

    /// While nothing is cached, each request whose clock can be read joins those
    /// that wait, and a fetch is under way from the first of them on.
    pub proof fn lemma_requests_pile_up(
        self,
        callers: Seq<u64>,
        clocks: Seq<Result<u64, Seq<char>>>,
        n: nat,
    )
        requires
            self.current is None,
            !self.fetching,
            self.waiting.len() == 0,
            n <= callers.len() == clocks.len(),
        ensures
            self.after_requests(callers, clocks, n).current is None,
            self.after_requests(callers, clocks, n).claims == self.claims,
            self.after_requests(callers, clocks, n).fetching == (askers(callers, clocks, n).len()
                > 0),
            self.after_requests(callers, clocks, n).waiting == askers(callers, clocks, n),
        decreases n,
    {
        if n > 0 {
            self.lemma_requests_pile_up(callers, clocks, (n - 1) as nat);
        } else {
            assert(askers(callers, clocks, 0) =~= self.waiting);
        }
    }
}

/// The callers of the first `n` requests whose clock could be read, in the order
/// in which they asked.
pub open spec fn askers(callers: Seq<u64>, clocks: Seq<Result<u64, Seq<char>>>, n: nat) -> Seq<u64>
    decreases n,
{
    if n == 0 || n > callers.len() || n > clocks.len() {
        Seq::empty()
    } else {
        let before = askers(callers, clocks, (n - 1) as nat);
        if clocks[n - 1] is Ok {
            before.push(callers[n - 1])
        } else {
            before
        }
    }
}

/// Those that asked are never fewer after more requests.
pub proof fn lemma_askers_grow(
    callers: Seq<u64>,
    clocks: Seq<Result<u64, Seq<char>>>,
    n: nat,
    m: nat,
)
    requires
        n <= m <= callers.len() == clocks.len(),
    ensures
        askers(callers, clocks, n).len() <= askers(callers, clocks, m).len(),
        n > 0 && clocks[n - 1] is Ok ==> askers(callers, clocks, m).len() > 0,
    decreases m - n,
{
    if n < m {
        lemma_askers_grow(callers, clocks, n, (m - 1) as nat);
    }
}

/// Where anybody asked, somebody asked first.
pub proof fn lemma_first_asker(callers: Seq<u64>, clocks: Seq<Result<u64, Seq<char>>>, n: nat)
    requires
        n <= callers.len() == clocks.len(),
        askers(callers, clocks, n).len() > 0,
    ensures
        exists|i: nat|
            i < n && clocks[i as int] is Ok && (#[trigger] askers(callers, clocks, i)).len() == 0,
    decreases n,
{
    if n > 0 {
        let before = askers(callers, clocks, (n - 1) as nat);
        if before.len() > 0 {
            lemma_first_asker(callers, clocks, (n - 1) as nat);
        } else {
            assert(clocks[n - 1] is Ok);
            assert(askers(callers, clocks, (n - 1) as nat).len() == 0);
        }
    }
}

/// Where every clock can be read, everybody asks.
pub proof fn lemma_all_ask(callers: Seq<u64>, clocks: Seq<Result<u64, Seq<char>>>, n: nat)
    requires
        n <= callers.len() == clocks.len(),
        forall|i: int| 0 <= i < clocks.len() ==> clocks[i] is Ok,
    ensures
        askers(callers, clocks, n) == callers.take(n as int),
    decreases n,
{
    if n > 0 {
        lemma_all_ask(callers, clocks, (n - 1) as nat);
        assert(callers.take(n as int) =~= callers.take(n - 1).push(callers[n - 1]));
    } else {
        assert(callers.take(0) =~= Seq::<u64>::empty());
    }
}

/// The seconds that a request for a token may take.
pub const TOKEN_TIMEOUT_SECONDS: u64 = 30;

/// The request that asks the token-issuing service at `base_url` for a token:
/// the payload is posted as JSON to `/v1/tokens`, with half a minute for the exchange.
pub open spec fn token_call(base_url: Seq<char>, claims: JsonView) -> ClientRequestView {
    with_json(
        ClientRequestView {
            method: Method::Post,
            url: base_url + "/v1/tokens"@,
            headers: Seq::empty(),
            body: None,
            timeout_seconds: TOKEN_TIMEOUT_SECONDS,
            connect_timeout_seconds: TOKEN_TIMEOUT_SECONDS,
            follow_redirects: false,
        },
        claims,
    )
}

/// The record that reports an answer of the token-issuing service without
/// success: an internal error that names the status of the answer.
pub open spec fn token_refused(status: u16) -> ProblemView {
    classified(FailureView::TokenRefused(status_line(status)))
}

/// The handler for the answers of the token-issuing service without success.
pub struct TokenErrorHandler();

impl ClientErrorHandler for TokenErrorHandler {
    fn handle_error(&self, status: HttpStatus, body: &Result<Vec<u8>, Failure>) -> (p: Problem)
        ensures
            p@ == token_refused(status@),
    {
        match status_text(status.as_u16()) {
            Some(text) => Problem::from_failure(Failure::TokenRefused(text)),
            None => vstd::pervasive::unreached(),
        }
    }
}

/// Turns what came of the request for a token into the bytes of the token's
/// wire form. A failure to get an answer, an answer without success and a body
/// that cannot be read or is too large are each reported as an internal error.
pub fn token_response(sent: Result<Received, Failure>) -> (r: BusinessResult<Decoded>)
    ensures
        match sent {
            Err(failure) => decoded_view(r) == Err::<DecodedView, ProblemView>(
                classified(failure@),
            ),
            Ok(received) => if 200 <= received.status@ <= 299 {
                decoded_view(r) == success_outcome(
                    body_view(received.body),
                    ResponseShape::Json,
                    JSON_RESPONSE_LIMIT,
                )
            } else {
                decoded_view(r) == Err::<DecodedView, ProblemView>(
                    token_refused(received.status@),
                )
            },
        },
{
    let handler = TokenErrorHandler();
    expect_success_with_error(sent, ResponseShape::Json, JSON_RESPONSE_LIMIT, &handler)
}

impl TokenCreator {
    /// The request that asks the token-issuing service at `base_url` for a token.
    pub fn request(&self, base_url: &str) -> (request: ClientRequest)
        ensures
            request@ == token_call(base_url@, self@.claims),
    {
        let bare = ClientRequest {
            method: Method::Post,
            url: String::from_str(base_url).concat("/v1/tokens"),
            headers: Vec::new(),
            body: None,
            timeout_seconds: TOKEN_TIMEOUT_SECONDS,
            connect_timeout_seconds: TOKEN_TIMEOUT_SECONDS,
            follow_redirects: false,
        };
        assert(bare@.headers =~= Seq::empty());
        self.claims.clone().apply_body(bare)
    }
}

} // verus!
