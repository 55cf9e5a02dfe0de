use crate::json::{all_members, push_member, Json, JsonView};
use vstd::prelude::*;

verus! {

/// What a process says of itself when it is asked for its status.
#[derive(Debug, PartialEq, Eq)]
pub struct Status {
    version: String,
}

/// The version to report: the one given, or `UNKNOWN` where none is.
pub open spec fn reported_version(version: Option<Seq<char>>) -> Seq<char> {
    match version {
        Some(version) => version,
        None => "UNKNOWN"@,
    }
}

/// The view of a version that may be missing.
pub open spec fn version_view(version: Option<&str>) -> Option<Seq<char>> {
    match version {
        Some(version) => Some(version@),
        None => None,
    }
}

impl View for Status {
    type V = Seq<char>;

    closed spec fn view(&self) -> Seq<char> {
        self.version@
    }
}

impl Status {
    pub fn new(version: Option<&str>) -> (status: Status)
        ensures
            status@ == reported_version(version_view(version)),
    {
        Status {
            version: match version {
                Some(version) => String::from_str(version),
                None => String::from_str("UNKNOWN"),
            },
        }
    }

    /// The version the status reports.
    pub fn version(&self) -> (version: &str)
        ensures
            version@ == self@,
    {
        self.version.as_str()
    }

    /// The body of the answer to a request for the status: an object with the
    /// member `version`.
    pub fn status(&self) -> (body: Json)
        ensures
            body@ == JsonView::Object(seq![("version"@, JsonView::Str(self@))]),
    {
        let mut members: Vec<(String, Json)> = Vec::new();
        assert(all_members(&members) =~= Seq::empty());
        push_member(&mut members, "version", Json::Str(self.version.clone()));
        assert(all_members(&members) =~= seq![("version"@, JsonView::Str(self@))]);
        Json::Object(members)
    }
}

impl Clone for Status {
    fn clone(&self) -> (copy: Status)
        ensures
            copy@ == self@,
    {
        Status { version: self.version.clone() }
    }
}

} // verus!
