//! The endpoint that serves the services: where it listens, and which request
//! goes to which handler.

use vstd::prelude::*;

verus! {

/// Where the endpoint listens.
#[derive(Clone, Debug, PartialEq, Eq)]
pub struct RestateEndpointOptions {
    pub listen_address: String,
    pub listen_port: u16,
}

impl Default for RestateEndpointOptions {
    fn default() -> (r: Self)
        ensures
            r.listen_address@ == "localhost"@,
            r.listen_port == 3000,
    {
        proof {
            reveal_strlit("localhost");
        }
        RestateEndpointOptions { listen_address: "localhost".to_string(), listen_port: 3000 }
    }
}

/// The endpoint that serves the services.
#[derive(Clone, Copy, Debug, PartialEq, Eq)]
pub struct RestateEndpoint {}

/// Where a request goes.
#[derive(Clone, Copy, Debug, PartialEq, Eq, Structural)]
pub enum Route {
    /// The discovery of the endpoint's services.
    Discover,
    /// The handler at this position of the endpoint's handlers.
    Invoke(usize),
    /// Nothing here.
    NotFound,
}

/// The path of the discovery request.
pub open spec fn discover_path() -> Seq<char> {
    "/discover"@
}

/// The path that invokes a service's handler.
pub open spec fn spec_invoke_path(service: Seq<char>, handler: Seq<char>) -> Seq<char> {
    "/invoke/"@ + service + "/"@ + handler
}

/// The path that invokes a service's handler.
pub fn invoke_path(service: &String, handler: &String) -> (r: String)
    ensures
        r@ == spec_invoke_path(service@, handler@),
{
    proof {
        reveal_strlit("/invoke/");
        reveal_strlit("/");
    }
    let mut path = "/invoke/".to_string();
    path.append(service.as_str());
    path.append("/");
    path.append(handler.as_str());
    path
}

/// The first of the handlers (service, handler) that `path` invokes, if any.
pub open spec fn spec_first_handler(path: Seq<char>, handlers: Seq<(String, String)>, from: int) -> Option<int>
    decreases handlers.len() - from,
{
    if from >= handlers.len() || from < 0 {
        None
    } else if path == spec_invoke_path(handlers[from].0@, handlers[from].1@) {
        Some(from)
    } else {
        spec_first_handler(path, handlers, from + 1)
    }
}

/// Where a request goes: a POST of the discovery path discovers, a POST of the
/// path of a handler invokes the first such handler; anything else is not found.
pub open spec fn spec_route(is_post: bool, path: Seq<char>, handlers: Seq<(String, String)>) -> Route {
    if !is_post {
        Route::NotFound
    } else if path == discover_path() {
        Route::Discover
    } else {
        match spec_first_handler(path, handlers, 0) {
            Some(i) => Route::Invoke(i as usize),
            None => Route::NotFound,
        }
    }
}

/// Where a request goes (see `spec_route`).
pub fn route(is_post: bool, path: &String, handlers: &Vec<(String, String)>) -> (r: Route)
    ensures
        r == spec_route(is_post, path@, handlers@),
{
    if !is_post {
        return Route::NotFound;
    }
    proof {
        reveal_strlit("/discover");
    }
    let discover = "/discover".to_string();
    if *path == discover {
        return Route::Discover;
    }
    let mut i: usize = handlers.len();
    let mut found: Option<usize> = None;
    // Search from the back, so that the first match wins.
    while i > 0
        invariant
            i <= handlers@.len(),
            path@ != discover_path(),
            match found {
                Some(k) => k >= i && spec_first_handler(path@, handlers@, i as int) == Some(k as int),
                None => spec_first_handler(path@, handlers@, i as int) is None,
            },
        decreases i,
    {
        i = i - 1;
        let candidate = invoke_path(&handlers[i].0, &handlers[i].1);
        if *path == candidate {
            found = Some(i);
        }
    }
    match found {
        Some(k) => Route::Invoke(k),
        None => Route::NotFound,
    }
}

/// The path of an attribute, its segments joined by `::`.
pub open spec fn spec_joined(segments: Seq<String>) -> Seq<char>
    decreases segments.len(),
{
    if segments.len() == 0 {
        Seq::empty()
    } else if segments.len() == 1 {
        segments[0]@
    } else {
        spec_joined(segments.drop_last()) + "::"@ + segments.last()@
    }
}

/// Whether an attribute's path, its segments joined by `::`, is `name`.
pub fn attribute_path_matches(segments: &Vec<String>, name: &String) -> (r: bool)
    ensures
        r == (spec_joined(segments@) == name@),
{
    proof {
        reveal_strlit("::");
    }
    let mut joined = String::new();
    let mut i: usize = 0;
    while i < segments.len()
        invariant
            i <= segments@.len(),
            joined@ == spec_joined(segments@.take(i as int)),
        decreases segments@.len() - i,
    {
        assert(segments@.take(i + 1).drop_last() =~= segments@.take(i as int));
        if i > 0 {
            joined.append("::");
        }
        joined.append(segments[i].as_str());
        i = i + 1;
    }
    assert(segments@.take(segments@.len() as int) =~= segments@);
    joined == *name
}

} // verus!
