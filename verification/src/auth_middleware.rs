use crate::business_result::BusinessResult;
use crate::problem::{detailed, status_problem, Problem, ProblemView};
use crate::subject::{parsed_subject, Subject, SubjectView};
use crate::text::{clone_strings, lowercase, remove_all, starts_with, strings_view, without_all};
use vstd::prelude::*;

verus! {

/// A header field of a request: its name, and its value where that is text.
pub type Header = (String, Option<String>);

/// The scopes of one service: its name and the scopes, in the order in which
/// they were granted.
pub type Scopes = (String, Vec<String>);

/// The identity of the caller of a request, as the headers of the request give it.
#[derive(Debug, PartialEq, Eq)]
pub struct AuthContext {
    subject: Subject,
    token: String,
    organization: Option<String>,
    scopes: Vec<Scopes>,
}

/// What an `AuthContext` holds, as mathematical values.
pub struct AuthContextView {
    pub subject: SubjectView,
    pub token: Seq<char>,
    pub organization: Option<Seq<char>>,
    pub scopes: Seq<(Seq<char>, Seq<Seq<char>>)>,
}

/// The header fields a vector holds.
pub open spec fn headers_view(headers: &Vec<Header>) -> Seq<(Seq<char>, Option<Seq<char>>)> {
    Seq::new(
        headers@.len(),
        |i: int|
            (
                headers@[i].0@,
                match headers@[i].1 {
                    Some(value) => Some(value@),
                    None => None,
                },
            ),
    )
}

/// The scopes a vector holds.
pub open spec fn scopes_view(scopes: &Vec<Scopes>) -> Seq<(Seq<char>, Seq<Seq<char>>)> {
    Seq::new(scopes@.len(), |i: int| (scopes@[i].0@, strings_view(&scopes@[i].1)))
}

impl View for AuthContext {
    type V = AuthContextView;

    closed spec fn view(&self) -> AuthContextView {
        AuthContextView {
            subject: self.subject@,
            token: self.token@,
            organization: match self.organization {
                Some(organization) => Some(organization@),
                None => None,
            },
            scopes: scopes_view(&self.scopes),
        }
    }
}

/// The first position at or after `from` that holds the scopes of `service`;
/// the number of entries where there is none.
pub open spec fn service_position(
    scopes: Seq<(Seq<char>, Seq<Seq<char>>)>,
    service: Seq<char>,
    from: int,
) -> int
    decreases scopes.len() - from,
{
    if from < 0 || from >= scopes.len() {
        scopes.len() as int
    } else if scopes[from].0 == service {
        from
    } else {
        service_position(scopes, service, from + 1)
    }
}

/// The scopes after `scope` has been granted for `service`: it is added after
/// those the service has, and a service that has none yet is added at the end.
pub open spec fn with_scope(
    scopes: Seq<(Seq<char>, Seq<Seq<char>>)>,
    service: Seq<char>,
    scope: Seq<char>,
) -> Seq<(Seq<char>, Seq<Seq<char>>)> {
    let at = service_position(scopes, service, 0);
    if at < scopes.len() {
        scopes.update(at, (service, scopes[at].1.push(scope)))
    } else {
        scopes.push((service, seq![scope]))
    }
}

/// The scopes that the first `n` header fields grant. A field grants a scope
/// where its name, in lower case, begins with `x-auth-scopes-` and its value is
/// text: the service is the rest of the name, the scope is the value.
pub open spec fn granted_scopes(headers: Seq<(Seq<char>, Option<Seq<char>>)>, n: nat) -> Seq<
    (Seq<char>, Seq<Seq<char>>),
>
    decreases n,
{
    if n == 0 || n > headers.len() {
        Seq::empty()
    } else {
        let before = granted_scopes(headers, (n - 1) as nat);
        let name = lowercase(headers[n - 1].0);
        match headers[n - 1].1 {
            Some(value) => if "x-auth-scopes-"@.is_prefix_of(name) {
                with_scope(before, without_all(name, "x-auth-scopes-"@), value)
            } else {
                before
            },
            None => before,
        }
    }
}

/// The value of the first of the first `n` header fields whose name, in lower
/// case, is `name`: `None` where there is no such field, and `Some(None)` where
/// its value is no text.
pub open spec fn header_named(
    headers: Seq<(Seq<char>, Option<Seq<char>>)>,
    name: Seq<char>,
    n: nat,
) -> Option<Option<Seq<char>>>
    decreases n,
{
    if n == 0 || n > headers.len() {
        None
    } else {
        match header_named(headers, name, (n - 1) as nat) {
            Some(value) => Some(value),
            None => if lowercase(headers[n - 1].0) == name {
                Some(headers[n - 1].1)
            } else {
                None
            },
        }
    }
}

/// Grants `scope` for `service`.
fn grant(scopes: &mut Vec<Scopes>, service: String, scope: &str)
    ensures
        scopes_view(final(scopes)) == with_scope(scopes_view(old(scopes)), service@, scope@),
{
    let ghost before = scopes_view(scopes);
    let mut i: usize = 0;
    while i < scopes.len()
        invariant
            i <= scopes.len(),
            *scopes == *old(scopes),
            before == scopes_view(scopes),
            service_position(before, service@, 0) == service_position(before, service@, i as int),
        decreases scopes.len() - i,
    {
        if scopes[i].0 == service {
            let mut granted = clone_strings(&scopes[i].1);
            let ghost held = strings_view(&granted);
            granted.push(String::from_str(scope));
            assert(strings_view(&granted) =~= held.push(scope@));
            scopes.set(i, (service, granted));
            assert(scopes_view(scopes) =~= before.update(
                i as int,
                (service@, before[i as int].1.push(scope@)),
            ));
            return ;
        }
        i += 1;
    }
    let mut granted: Vec<String> = Vec::new();
    granted.push(String::from_str(scope));
    assert(strings_view(&granted) =~= seq![scope@]);
    scopes.push((service, granted));
    assert(scopes_view(scopes) =~= before.push((service@, seq![scope@])));
}

/// The scopes that the header fields of a request grant, by service.
pub fn extract_scopes_from_headers(headers: &Vec<Header>) -> (scopes: Vec<Scopes>)
    ensures
        scopes_view(&scopes) == granted_scopes(headers_view(headers), headers@.len()),
{
    let mut scopes: Vec<Scopes> = Vec::new();
    assert(scopes_view(&scopes) =~= Seq::empty());
    let mut i: usize = 0;
    while i < headers.len()
        invariant
            i <= headers.len(),
            scopes_view(&scopes) == granted_scopes(headers_view(headers), i as nat),
        decreases headers.len() - i,
    {
        let name = headers[i].0.as_str().to_lowercase();
        match &headers[i].1 {
            Some(value) => {
                if starts_with(name.as_str(), "x-auth-scopes-") {
                    let service = remove_all(name.as_str(), "x-auth-scopes-");
                    grant(&mut scopes, service, value.as_str());
                }
            },
            None => {},
        }
        i += 1;
    }
    scopes
}

/// The organization a header field names, where there is such a field and its
/// value is text.
pub fn extract_organization(maybe_organization: Option<&Option<String>>) -> (organization: Option<
    String,
>)
    ensures
        match organization {
            Some(name) => maybe_organization matches Some(Some(value)) && name@ == value@,
            None => !(maybe_organization matches Some(Some(_))),
        },
{
    match maybe_organization {
        Some(Some(organization)) => Some(organization.clone()),
        _ => None,
    }
}

/// The value of the first header field called `name`, which is in lower case.
fn header<'a>(headers: &'a Vec<Header>, name: &str) -> (value: Option<&'a Option<String>>)
    ensures
        match value {
            Some(Some(text)) => header_named(headers_view(headers), name@, headers@.len())
                == Some(Some(text@)),
            Some(None) => header_named(headers_view(headers), name@, headers@.len()) == Some(
                None::<Seq<char>>,
            ),
            None => header_named(headers_view(headers), name@, headers@.len()).is_none(),
        },
{
    let wanted = String::from_str(name);
    let mut i: usize = 0;
    while i < headers.len()
        invariant
            i <= headers.len(),
            wanted@ == name@,
            header_named(headers_view(headers), name@, i as nat).is_none(),
        decreases headers.len() - i,
    {
        if headers[i].0.as_str().to_lowercase() == wanted {
            proof {
                lemma_header_found(headers_view(headers), name@, (i + 1) as nat, headers@.len());
            }
            return Some(&headers[i].1);
        }
        i += 1;
    }
    None
}

/// A header field that is found among the first `n` is found among more.
pub proof fn lemma_header_found(
    headers: Seq<(Seq<char>, Option<Seq<char>>)>,
    name: Seq<char>,
    n: nat,
    m: nat,
)
    requires
        n <= m <= headers.len(),
        header_named(headers, name, n) is Some,
    ensures
        header_named(headers, name, m) == header_named(headers, name, n),
    decreases m - n,
{
    if n < m {
        lemma_header_found(headers, name, n, (m - 1) as nat);
    }
}

/// The identity that the header fields of a request give: the subject from
/// `x-auth-sub`, the token from `x-auth-token`, the organization from
/// `x-auth-org` where it is there, and the scopes. `None` where the subject or
/// the token is missing or is no text.
pub open spec fn authenticated(headers: Seq<(Seq<char>, Option<Seq<char>>)>) -> Option<
    AuthContextView,
> {
    match (
        header_named(headers, "x-auth-sub"@, headers.len()),
        header_named(headers, "x-auth-token"@, headers.len()),
    ) {
        (Some(Some(subject)), Some(Some(token))) => Some(
            AuthContextView {
                subject: parsed_subject(subject),
                token,
                organization: match header_named(headers, "x-auth-org"@, headers.len()) {
                    Some(Some(organization)) => Some(organization),
                    _ => None,
                },
                scopes: granted_scopes(headers, headers.len()),
            },
        ),
        _ => None,
    }
}

/// Whether the caller is an administrator.
pub fn admin_scope(auth_context: &AuthContext) -> (yes: bool)
    ensures
        yes == (auth_context@.subject is Admin),
{
    auth_context.subject.is_admin()
}

/// The record that refuses a caller for the reason `why`.
pub open spec fn refusal(why: Seq<char>) -> ProblemView {
    detailed(status_problem(403, "Forbidden"@), why)
}

impl AuthContext {
    /// The identity that the header fields of a request give.
    pub fn from_headers(headers: &Vec<Header>) -> (context: Option<AuthContext>)
        ensures
            match context {
                Some(found) => authenticated(headers_view(headers)) == Some(found@),
                None => authenticated(headers_view(headers)).is_none(),
            },
    {
        match (header(headers, "x-auth-sub"), header(headers, "x-auth-token")) {
            (Some(Some(subject)), Some(Some(token))) => {
                let scopes = extract_scopes_from_headers(headers);
                Some(
                    AuthContext {
                        subject: Subject::parse(subject.as_str()),
                        token: token.clone(),
                        organization: extract_organization(header(headers, "x-auth-org")),
                        scopes,
                    },
                )
            },
            _ => None,
        }
    }

    pub fn subject(&self) -> (subject: &Subject)
        ensures
            subject@ == self@.subject,
    {
        &self.subject
    }

    pub fn token(&self) -> (token: &str)
        ensures
            token@ == self@.token,
    {
        self.token.as_str()
    }

    pub fn organization(&self) -> (organization: Option<&str>)
        ensures
            match organization {
                Some(name) => self@.organization == Some(name@),
                None => self@.organization.is_none(),
            },
    {
        match &self.organization {
            Some(name) => Some(name.as_str()),
            None => None,
        }
    }

    /// The scopes granted for `service`, where any are.
    pub fn scopes_of(&self, service: &str) -> (granted: Option<&Vec<String>>)
        ensures
            match granted {
                Some(scopes) => service_position(self@.scopes, service@, 0) < self@.scopes.len()
                    && strings_view(scopes) == self@.scopes[service_position(
                    self@.scopes,
                    service@,
                    0,
                )].1,
                None => service_position(self@.scopes, service@, 0) == self@.scopes.len(),
            },
    {
        let wanted = String::from_str(service);
        let mut i: usize = 0;
        while i < self.scopes.len()
            invariant
                i <= self.scopes.len(),
                wanted@ == service@,
                service_position(self@.scopes, service@, 0) == service_position(
                    self@.scopes,
                    service@,
                    i as int,
                ),
            decreases self.scopes.len() - i,
        {
            if self.scopes[i].0 == wanted {
                return Some(&self.scopes[i].1);
            }
            i += 1;
        }
        None
    }

    /// Runs `f` where the caller meets `requirements`, and refuses the caller
    /// where it does not.
    pub fn require<R, F, U>(self, requirements: R, f: F) -> (r: BusinessResult<U>)
        where R: FnOnce(&AuthContext) -> bool, F: FnOnce() -> BusinessResult<U>
        requires
            requirements.requires((&self,)),
            f.requires(()),
        ensures
            match r {
                Ok(_) => requirements.ensures((&self,), true) && f.ensures((), r),
                Err(problem) => (requirements.ensures((&self,), true) && f.ensures((), r)) || (
                requirements.ensures((&self,), false) && problem@ == status_problem(
                    403,
                    "Forbidden"@,
                )),
            },
    {
        if requirements(&self) {
            f()
        } else {
            Err(Problem::forbidden())
        }
    }
}

impl Clone for AuthContext {
    fn clone(&self) -> (copy: AuthContext)
        ensures
            copy@ == self@,
    {
        let mut scopes: Vec<Scopes> = Vec::new();
        let mut i: usize = 0;
        while i < self.scopes.len()
            invariant
                i <= self.scopes.len(),
                scopes@.len() == i,
                forall|k: int|
                    0 <= k < i ==> (#[trigger] scopes@[k]).0@ == self.scopes@[k].0@ && strings_view(
                        &scopes@[k].1,
                    ) == strings_view(&self.scopes@[k].1),
            decreases self.scopes.len() - i,
        {
            scopes.push((self.scopes[i].0.clone(), clone_strings(&self.scopes[i].1)));
            i += 1;
        }
        assert(scopes_view(&scopes) =~= scopes_view(&self.scopes));
        AuthContext {
            subject: self.subject.clone(),
            token: self.token.clone(),
            organization: match &self.organization {
                Some(name) => Some(name.clone()),
                None => None,
            },
            scopes,
        }
    }
}

/// Which kind of caller an action is for.
#[derive(Clone, Copy, Debug, PartialEq, Eq, Structural)]
pub enum CallerKind {
    Admin,
    Customer,
    Service,
}

/// Whether a subject is of the kind.
pub open spec fn is_of_kind(subject: SubjectView, kind: CallerKind) -> bool {
    match kind {
        CallerKind::Admin => subject is Admin,
        CallerKind::Customer => subject is Customer,
        CallerKind::Service => subject is Service,
    }
}

/// The words with which a caller of another kind is refused.
pub open spec fn only_allowed(kind: CallerKind) -> Seq<char> {
    match kind {
        CallerKind::Admin => "Only admins are allowed"@,
        CallerKind::Customer => "Only customers are allowed"@,
        CallerKind::Service => "Only services are allowed"@,
    }
}

/// Runs `f` with the identity of the caller where the caller is of the kind
/// `kind`. A caller of another kind is refused, and a request without an
/// identity is reported as unauthorized.
pub fn scoped_action<F, U>(kind: CallerKind, context: Option<&AuthContext>, f: F) -> (r:
    BusinessResult<U>)
    where F: FnOnce(AuthContext) -> BusinessResult<U>
    requires
        context is Some && is_of_kind(context.unwrap()@.subject, kind) ==> forall|
            given: AuthContext,
        |
            given@ == context.unwrap()@ ==> #[trigger] f.requires((given,)),
    ensures
        match context {
            None => r matches Err(problem) && problem@ == status_problem(401, "Unauthorized"@),
            Some(caller) => if is_of_kind(caller@.subject, kind) {
                exists|given: AuthContext| given@ == caller@ && #[trigger] f.ensures((given,), r)
            } else {
                r matches Err(problem) && problem@ == refusal(only_allowed(kind))
            },
        },
{
    match context {
        None => Err(Problem::unauthorized()),
        Some(caller) => {
            let allowed = match (kind, &caller.subject) {
                (CallerKind::Admin, Subject::Admin(_)) => true,
                (CallerKind::Customer, Subject::Customer(_)) => true,
                (CallerKind::Service, Subject::Service(_)) => true,
                _ => false,
            };
            if allowed {
                let given = caller.clone();
                let r = f(given);
                assert(given@ == caller@ && f.ensures((given,), r));
                r
            } else {
                let why = match kind {
                    CallerKind::Admin => "Only admins are allowed",
                    CallerKind::Customer => "Only customers are allowed",
                    CallerKind::Service => "Only services are allowed",
                };
                Err(Problem::forbidden().with_details(why))
            }
        },
    }
}

/// Runs `f` for an administrator.
pub fn admin_scoped_action<F, U>(context: Option<&AuthContext>, f: F) -> (r: BusinessResult<U>)
    where F: FnOnce(AuthContext) -> BusinessResult<U>
    requires
        context is Some && context.unwrap()@.subject is Admin ==> forall|given: AuthContext|
            given@ == context.unwrap()@ ==> #[trigger] f.requires((given,)),
    ensures
        match context {
            None => r matches Err(problem) && problem@ == status_problem(401, "Unauthorized"@),
            Some(caller) => if caller@.subject is Admin {
                exists|given: AuthContext| given@ == caller@ && #[trigger] f.ensures((given,), r)
            } else {
                r matches Err(problem) && problem@ == refusal("Only admins are allowed"@)
            },
        },
{
    scoped_action(CallerKind::Admin, context, f)
}

/// Runs `f` for a customer.
pub fn customer_scoped_action<F, U>(context: Option<&AuthContext>, f: F) -> (r: BusinessResult<U>)
    where F: FnOnce(AuthContext) -> BusinessResult<U>
    requires
        context is Some && context.unwrap()@.subject is Customer ==> forall|given: AuthContext|
            given@ == context.unwrap()@ ==> #[trigger] f.requires((given,)),
    ensures
        match context {
            None => r matches Err(problem) && problem@ == status_problem(401, "Unauthorized"@),
            Some(caller) => if caller@.subject is Customer {
                exists|given: AuthContext| given@ == caller@ && #[trigger] f.ensures((given,), r)
            } else {
                r matches Err(problem) && problem@ == refusal("Only customers are allowed"@)
            },
        },
{
    scoped_action(CallerKind::Customer, context, f)
}

/// Runs `f` for a service.
pub fn service_scoped_action<F, U>(context: Option<&AuthContext>, f: F) -> (r: BusinessResult<U>)
    where F: FnOnce(AuthContext) -> BusinessResult<U>
    requires
        context is Some && context.unwrap()@.subject is Service ==> forall|given: AuthContext|
            given@ == context.unwrap()@ ==> #[trigger] f.requires((given,)),
    ensures
        match context {
            None => r matches Err(problem) && problem@ == status_problem(401, "Unauthorized"@),
            Some(caller) => if caller@.subject is Service {
                exists|given: AuthContext| given@ == caller@ && #[trigger] f.ensures((given,), r)
            } else {
                r matches Err(problem) && problem@ == refusal("Only services are allowed"@)
            },
        },
{
    scoped_action(CallerKind::Service, context, f)
}

/// Makes the middleware that resolves the identity of the caller of each request.
pub struct AuthMiddlewareFactory();

/// The middleware around the service `S`: it resolves the identity of the
/// caller from the header fields before the service sees the request.
pub struct AuthMiddleware<S> {
    service: S,
}

impl AuthMiddlewareFactory {
    /// The middleware around `service`.
    pub fn new_transform<S>(&self, service: S) -> (middleware: AuthMiddleware<S>)
        ensures
            middleware.inner() == service,
    {
        AuthMiddleware { service }
    }
}

impl Default for AuthMiddlewareFactory {
    fn default() -> AuthMiddlewareFactory {
        AuthMiddlewareFactory()
    }
}

impl<S> AuthMiddleware<S> {
    pub closed spec fn inner(&self) -> S {
        self.service
    }

    /// The service the middleware stands before.
    pub fn service(&self) -> (service: &S)
        ensures
            *service == self.inner(),
    {
        &self.service
    }

    /// The identity to attach to a request with these header fields, where they
    /// give one. The request goes on to the service either way.
    pub fn call(&self, headers: &Vec<Header>) -> (context: Option<AuthContext>)
        ensures
            match context {
                Some(found) => authenticated(headers_view(headers)) == Some(found@),
                None => authenticated(headers_view(headers)).is_none(),
            },
    {
        AuthContext::from_headers(headers)
    }
}

} // verus!
