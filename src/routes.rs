//! Routes: requests that name a controller and an action, and what the
//! registry says of them.
use crate::syntax::Node;
use crate::types::{endpoint_of, not_found, AppData};
use crate::utils::{concat, join, join_strings, str_eq, views};
use convert_case::{Case, Casing};
use vstd::prelude::*;

verus! {

/// An HTTP request method.
#[derive(Debug, PartialEq, Eq, Structural)]
pub enum RequestMethod {
    Get,
    Post,
    Delete,
    Put,
    Patch,
    Options,
}

/// The request method named by an upper-case method name.
pub open spec fn method_named(s: Seq<char>) -> Option<RequestMethod> {
    if s == "GET"@ {
        Some(RequestMethod::Get)
    } else if s == "POST"@ {
        Some(RequestMethod::Post)
    } else if s == "DELETE"@ {
        Some(RequestMethod::Delete)
    } else if s == "PUT"@ {
        Some(RequestMethod::Put)
    } else if s == "PATCH"@ {
        Some(RequestMethod::Patch)
    } else if s == "OPTIONS"@ {
        Some(RequestMethod::Options)
    } else {
        None
    }
}

/// The name under which a request method is shown.
pub open spec fn method_label(m: RequestMethod) -> Seq<char> {
    match m {
        RequestMethod::Get => "Get"@,
        RequestMethod::Post => "Post"@,
        RequestMethod::Delete => "Delete"@,
        RequestMethod::Put => "Put"@,
        RequestMethod::Patch => "Patch"@,
        RequestMethod::Options => "Options"@,
    }
}

impl RequestMethod {
    /// Reads an upper-case method name; fails, quoting it, on any other text.
    pub fn parse(s: &str) -> (r: Result<RequestMethod, String>)
        ensures
            match method_named(s@) {
                Some(m) => r == Ok::<RequestMethod, String>(m),
                None => r is Err && r->Err_0@ == "unknown Request method '"@ + s@ + "'"@,
            },
    {
        if str_eq(s, "GET") {
            Ok(RequestMethod::Get)
        } else if str_eq(s, "POST") {
            Ok(RequestMethod::Post)
        } else if str_eq(s, "DELETE") {
            Ok(RequestMethod::Delete)
        } else if str_eq(s, "PUT") {
            Ok(RequestMethod::Put)
        } else if str_eq(s, "PATCH") {
            Ok(RequestMethod::Patch)
        } else if str_eq(s, "OPTIONS") {
            Ok(RequestMethod::Options)
        } else {
            let mut msg = concat("unknown Request method '", s);
            msg.append("'");
            Err(msg)
        }
    }

    /// The name under which the method is shown.
    pub fn label(&self) -> (r: &'static str)
        ensures
            r@ == method_label(*self),
    {
        match self {
            RequestMethod::Get => "Get",
            RequestMethod::Post => "Post",
            RequestMethod::Delete => "Delete",
            RequestMethod::Put => "Put",
            RequestMethod::Patch => "Patch",
            RequestMethod::Options => "Options",
        }
    }
}

impl std::str::FromStr for RequestMethod {
    type Err = String;

    fn from_str(s: &str) -> Result<Self, Self::Err> {
        RequestMethod::parse(s)
    }
}

/// One route: a request method and path served by a controller's action.
pub struct Request {
    pub method: RequestMethod,
    pub prefix: String,
    pub uri: String,
    pub controller: String,
    pub action: String,
}

/// The result of the outside Pascal-case conversion of a controller name.
pub uninterp spec fn pascal_case_of(s: Seq<char>) -> Seq<char>;

/// Relies on convert_case's `Casing::to_case` with `Case::Pascal`: the
/// registry name of the controller that a route names; the result depends on
/// the text alone.
#[verifier::external_body]
fn pascal_case(s: &str) -> (r: String)
    ensures
        r@ == pascal_case_of(s@),
{
    s.to_case(Case::Pascal)
}

/// `s` with every trailing repetition of `suffix` removed.
pub open spec fn trim_end(s: Seq<char>, suffix: Seq<char>) -> Seq<char>
    decreases s.len(),
{
    if suffix.len() > 0 && suffix.len() <= s.len() && s.subrange(s.len() - suffix.len(), s.len() as int)
        == suffix {
        trim_end(s.subrange(0, s.len() - suffix.len()), suffix)
    } else {
        s
    }
}

/// Removes every trailing repetition of `suffix` from `s`.
pub fn trim_end_matches(s: &str, suffix: &str) -> (r: String)
    ensures
        r@ == trim_end(s@, suffix@),
{
    let k = suffix.unicode_len();
    let mut end = s.unicode_len();
    if k == 0 {
        return s.to_owned();
    }
    assert(s@.subrange(0, s@.len() as int) =~= s@);
    while end >= k && str_eq(s.substring_char(end - k, end), suffix)
        invariant
            end <= s@.len(),
            k == suffix@.len(),
            k > 0,
            trim_end(s@.subrange(0, end as int), suffix@) == trim_end(s@, suffix@),
        decreases end,
    {
        assert(s@.subrange(0, end as int).subrange(end - k, end as int) =~= s@.subrange(end - k, end as int));
        assert(s@.subrange(0, end as int).subrange(0, end - k) =~= s@.subrange(0, end - k));
        end = end - k;
    }
    proof {
        if end >= k {
            assert(s@.subrange(0, end as int).subrange(end - k, end as int) =~= s@.subrange(end - k, end as int));
        }
    }
    s.substring_char(0, end).to_owned()
}

/// The parameters of an endpoint given the registry name of its controller.
pub open spec fn route_params(data: AppData, controller: Seq<char>, action: Seq<char>, request: Seq<char>) -> Result<
    Set<Seq<char>>,
    Seq<char>,
> {
    if data.controllers@.contains_key(controller) {
        endpoint_of(data.controllers@[controller], data, action, request)
    } else {
        Err(not_found(action, controller, request))
    }
}

impl Request {
    /// The text under which the route is shown: its method and path.
    pub fn describe(&self) -> (r: String)
        ensures
            r@ == method_label(self.method) + " "@ + self.uri@,
    {
        let mut r = concat(self.method.label(), " ");
        r.append(self.uri.as_str());
        r
    }

    /// The parameters that serving the route touches: those of the action
    /// and of every hook target of the controller registered under the
    /// Pascal-case form of the route's controller, transitively. Fails,
    /// naming the action, the controller and the route's path, where the
    /// controller, the action or a hook target is missing.
    pub fn get_params(&self, app_data: &AppData) -> (r: Result<Vec<String>, String>)
        ensures
            match route_params(*app_data, pascal_case_of(self.controller@), self.action@, self.uri@) {
                Ok(s) => r is Ok && views(r->Ok_0@).to_set() == s && views(r->Ok_0@).no_duplicates(),
                Err(e) => r is Err && r->Err_0@ == e,
            },
    {
        let name = pascal_case(self.controller.as_str());
        app_data.endpoint_params(name.as_str(), self.action.as_str(), self.uri.as_str())
    }

    /// The fields that the route's response template renders, joined with
    /// commas; the template is looked up under the controller name without
    /// its `_controller` suffix, then under the action.
    pub fn get_view(&self, app_data: &AppData) -> (r: Result<String, String>)
        ensures
            ({
                let dir = trim_end(self.controller@, "_controller"@);
                if app_data.views@.contains_key(dir) && app_data.views@[dir]@.contains_key(self.action@) {
                    r is Ok && r->Ok_0@ == join(
                        views(app_data.views@[dir]@[self.action@].response@),
                        ","@,
                    )
                } else {
                    r is Err && r->Err_0@ == "not found"@
                }
            }),
    {
        let dir = trim_end_matches(self.controller.as_str(), "_controller");
        if let Some(actions) = app_data.views.get(dir.as_str()) {
            if let Some(view) = actions.get(self.action.as_str()) {
                return Ok(join_strings(&view.response, ","));
            }
        }
        Err("not found".to_owned())
    }
}

/// Reads the routes of a route-table syntax tree. No route-table form is
/// recognised: every tree is refused.
pub fn parse_routes(node: &Node) -> (r: Result<Vec<Request>, String>)
    ensures
        r is Err && r->Err_0@ == "failed to parse"@,
{
    Err("failed to parse".to_owned())
}

} // verus!
