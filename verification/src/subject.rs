use crate::text::{remove_all, starts_with, without_all};
use vstd::prelude::*;

verus! {

/// Who a request comes from: the kind of caller, and its name within that kind.
#[derive(Debug, PartialEq, Eq)]
pub enum Subject {
    Admin(String),
    Customer(String),
    Api(String),
    Service(String),
    Generic(String),
}

/// What a `Subject` holds, as mathematical values.
pub enum SubjectView {
    Admin(Seq<char>),
    Customer(Seq<char>),
    Api(Seq<char>),
    Service(Seq<char>),
    Generic(Seq<char>),
}

impl View for Subject {
    type V = SubjectView;

    open spec fn view(&self) -> SubjectView {
        match self {
            Subject::Admin(name) => SubjectView::Admin(name@),
            Subject::Customer(name) => SubjectView::Customer(name@),
            Subject::Api(name) => SubjectView::Api(name@),
            Subject::Service(name) => SubjectView::Service(name@),
            Subject::Generic(name) => SubjectView::Generic(name@),
        }
    }
}

/// The subject a text stands for. The text begins with the word for the kind of
/// caller and a slash; the name is the text with every occurrence of that
/// beginning taken out. A text that begins with none of the words is the name of
/// a generic caller.
pub open spec fn parsed_subject(text: Seq<char>) -> SubjectView {
    if "admin/"@.is_prefix_of(text) {
        SubjectView::Admin(without_all(text, "admin/"@))
    } else if "customer/"@.is_prefix_of(text) {
        SubjectView::Customer(without_all(text, "customer/"@))
    } else if "service/"@.is_prefix_of(text) {
        SubjectView::Service(without_all(text, "service/"@))
    } else if "api/"@.is_prefix_of(text) {
        SubjectView::Api(without_all(text, "api/"@))
    } else {
        SubjectView::Generic(text)
    }
}

/// The text for a subject: the word for its kind and a slash before the name,
/// and the name alone for a generic caller.
pub open spec fn subject_text(subject: SubjectView) -> Seq<char> {
    match subject {
        SubjectView::Admin(name) => "admin/"@ + name,
        SubjectView::Customer(name) => "customer/"@ + name,
        SubjectView::Api(name) => "api/"@ + name,
        SubjectView::Service(name) => "service/"@ + name,
        SubjectView::Generic(name) => name,
    }
}

impl Subject {
    /// Reads a subject from its text. Every text is a subject.
    pub fn parse(text: &str) -> (subject: Subject)
        ensures
            subject@ == parsed_subject(text@),
    {
        if starts_with(text, "admin/") {
            Subject::Admin(remove_all(text, "admin/"))
        } else if starts_with(text, "customer/") {
            Subject::Customer(remove_all(text, "customer/"))
        } else if starts_with(text, "service/") {
            Subject::Service(remove_all(text, "service/"))
        } else if starts_with(text, "api/") {
            Subject::Api(remove_all(text, "api/"))
        } else {
            Subject::Generic(String::from_str(text))
        }
    }

    /// The text for the subject.
    pub fn to_string(&self) -> (text: String)
        ensures
            text@ == subject_text(self@),
    {
        match self {
            Subject::Admin(name) => String::from_str("admin/").concat(name.as_str()),
            Subject::Customer(name) => String::from_str("customer/").concat(name.as_str()),
            Subject::Api(name) => String::from_str("api/").concat(name.as_str()),
            Subject::Service(name) => String::from_str("service/").concat(name.as_str()),
            Subject::Generic(name) => name.clone(),
        }
    }

    /// Whether the subject is an administrator.
    pub fn is_admin(&self) -> (yes: bool)
        ensures
            yes == (self@ is Admin),
    {
        match self {
            Subject::Admin(_) => true,
            _ => false,
        }
    }
}

impl Clone for Subject {
    fn clone(&self) -> (copy: Subject)
        ensures
            copy@ == self@,
    {
        match self {
            Subject::Admin(name) => Subject::Admin(name.clone()),
            Subject::Customer(name) => Subject::Customer(name.clone()),
            Subject::Api(name) => Subject::Api(name.clone()),
            Subject::Service(name) => Subject::Service(name.clone()),
            Subject::Generic(name) => Subject::Generic(name.clone()),
        }
    }
}

impl std::str::FromStr for Subject {
    type Err = crate::problem::Problem;

    fn from_str(text: &str) -> (r: Result<Subject, crate::problem::Problem>)
        ensures
            r matches Ok(subject) && subject@ == parsed_subject(text@),
    {
        Ok(Subject::parse(text))
    }
}

} // verus!
