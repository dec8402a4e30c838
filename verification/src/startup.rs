//! Server composition: a bound listener and a database handle are
//! assembled with the fixed route table into a server handle that is
//! not yet running. Binding happens strictly before composition — a
//! `Listener` already carries its address — and composition itself
//! starts nothing.

use vstd::prelude::*;

use crate::configuration::{spec_connection_string, DatabaseSettings};
use crate::routes::{health_check, subscribe, RequestStep, Response};
use crate::text::is_ascii_seq;

verus! {

/// An HTTP method this service routes.
#[derive(Clone, Copy, Debug, PartialEq, Eq, Structural)]
pub enum Method {
    Get,
    Post,
}

/// A handler the route table can point at.
#[derive(Clone, Copy, Debug, PartialEq, Eq, Structural)]
pub enum RouteTarget {
    HealthCheck,
    Subscriptions,
}

/// One entry of the route table.
#[derive(Clone)]
pub struct Route {
    pub method: Method,
    pub path: String,
    pub target: RouteTarget,
}

/// An already-bound network address: the caller acquired it (and so
/// knows the assigned port, even when it asked for port 0) before any
/// server is composed on it.
pub struct Listener {
    pub host: String,
    pub port: u16,
}

/// How the datastore is reached: a shareable pool that many in-flight
/// requests may use concurrently, or one exclusive connection, which
/// serializes every request that touches the datastore.
#[derive(Clone, Copy, Debug, PartialEq, Eq, Structural)]
pub enum DbMode {
    Pooled,
    Single,
}

/// The datastore handle a composed server carries: its mode and the
/// name of the database it is bound to.
pub struct DbHandle {
    pub mode: DbMode,
    pub database_name: String,
}

/// What a caller must open to obtain a datastore handle: the
/// connection string, and the mode the handle will serve in.
pub struct ConnectionPlan {
    pub url: String,
    pub mode: DbMode,
    pub handle: DbHandle,
}

/// Plans a datastore handle for `settings`: the full connection string
/// (the database included) and the chosen mode. Opening the connection
/// is the caller's; the plan fixes what it must open.
pub fn connect_plan(settings: &DatabaseSettings, mode: DbMode) -> (p: ConnectionPlan)
    requires
        is_ascii_seq(settings.username@),
        is_ascii_seq(settings.password@),
    ensures
        p.url@ == spec_connection_string(*settings),
        p.mode == mode,
        p.handle.mode == mode,
        p.handle.database_name@ == settings.database_name@,
{
    let url = settings.connection_string();
    let name = settings.database_name.clone();
    ConnectionPlan { url, mode, handle: DbHandle { mode, database_name: name } }
}

/// The fixed route table: the liveness probe under GET and the
/// subscription intake under POST, and nothing else.
pub open spec fn spec_route_table(routes: Seq<Route>) -> bool {
    &&& routes.len() == 2
    &&& routes[0].method is Get
    &&& routes[0].path@ == "/health_check"@
    &&& routes[0].target is HealthCheck
    &&& routes[1].method is Post
    &&& routes[1].path@ == "/subscriptions"@
    &&& routes[1].target is Subscriptions
}

/// A composed, not-yet-running server: the listener it was given, the
/// datastore handle every handler shares, and the route table.
pub struct ServerHandle {
    pub listener: Listener,
    pub db: DbHandle,
    pub routes: Vec<Route>,
    pub started: bool,
}

/// Composition can only fail while setting the transport up inside the
/// server; with a pre-bound listener there is nothing left to fail.
#[derive(Clone, Copy, Debug, PartialEq, Eq, Structural)]
pub enum BindError {
    ListenerSetup,
}

impl ServerHandle {
    /// A well-formed server carries exactly the fixed route table.
    pub open spec fn wf(self) -> bool {
        spec_route_table(self.routes@)
    }

    /// Marks the server as running. Only this starts it; composition
    /// leaves it stopped, so the caller controls the lifecycle.
    pub fn start(&mut self)
        ensures
            final(self).started,
            final(self).listener == old(self).listener,
            final(self).db == old(self).db,
            final(self).routes == old(self).routes,
    {
        self.started = true;
    }

    /// Dispatches one request against the route table. The liveness
    /// probe is answered 200 with an empty body from the route table
    /// alone — the datastore handle plays no part in it. A submission
    /// goes to the subscription handler. Anything else is 404.
    pub fn dispatch(&self, method: Method, path: &str, body: &str) -> (step: RequestStep)
        requires
            self.wf(),
        ensures
            method is Get && path@ == "/health_check"@ ==> {
                &&& step matches RequestStep::Respond(r)
                &&& r.status == 200
                &&& r.body@.len() == 0
            },
            method is Post && path@ == "/subscriptions"@ ==> {
                &&& (crate::form::spec_validate(body@) matches Ok(p) ==> {
                    &&& step matches RequestStep::Insert(f)
                    &&& f.name@ == p.0
                    &&& f.email@ == p.1
                })
                &&& (crate::form::spec_validate(body@) is Err ==> {
                    &&& step matches RequestStep::Respond(r)
                    &&& r.status == 400
                    &&& r.body@.len() == 0
                })
            },
            !(method is Get && path@ == "/health_check"@) && !(method is Post && path@
                == "/subscriptions"@) ==> {
                &&& step matches RequestStep::Respond(r)
                &&& r.status == 404
                &&& r.body@.len() == 0
            },
    {
        let mut k: usize = 0;
        while k < self.routes.len()
            invariant
                self.wf(),
                0 <= k <= self.routes@.len(),
                forall|j: int|
                    0 <= j < k ==> !(self.routes@[j].method == method && self.routes@[j].path@
                        == path@),
            decreases self.routes@.len() - k,
        {
            let route = &self.routes[k];
            let same_method = match (route.method, method) {
                (Method::Get, Method::Get) => true,
                (Method::Post, Method::Post) => true,
                _ => false,
            };
            if same_method && str_eq(route.path.as_str(), path) {
                match route.target {
                    RouteTarget::HealthCheck => {
                        return RequestStep::Respond(health_check());
                    },
                    RouteTarget::Subscriptions => {
                        return subscribe(body);
                    },
                }
            }
            k = k + 1;
        }
        RequestStep::Respond(Response { status: 404, body: String::new() })
    }
}

/// Decides whether two pieces of text are equal, character for
/// character.
pub fn str_eq(a: &str, b: &str) -> (r: bool)
    ensures
        r == (a@ == b@),
{
    let n = a.unicode_len();
    let m = b.unicode_len();
    if n != m {
        return false;
    }
    let mut i: usize = 0;
    while i < n
        invariant
            0 <= i <= n,
            n == a@.len(),
            n == b@.len(),
            forall|j: int| 0 <= j < i ==> a@[j] == b@[j],
        decreases n - i,
    {
        if a.get_char(i) != b.get_char(i) {
            return false;
        }
        i = i + 1;
    }
    proof {
        assert(a@ =~= b@);
    }
    true
}

/// Composes a server from an already-bound listener and a datastore
/// handle: the fixed route table, the handle shared by every handler,
/// and a lifecycle the caller owns — the result is not yet running.
/// With the listener pre-bound, composition is owed success.
pub fn run(listener: Listener, db_connection: DbHandle) -> (r: Result<ServerHandle, BindError>)
    ensures
        r.is_ok(),
        r matches Ok(s) ==> {
            &&& s.wf()
            &&& s.listener == listener
            &&& s.db == db_connection
            &&& !s.started
        },
{
    let mut routes: Vec<Route> = Vec::new();
    routes.push(
        Route {
            method: Method::Get,
            path: String::from_str("/health_check"),
            target: RouteTarget::HealthCheck,
        },
    );
    routes.push(
        Route {
            method: Method::Post,
            path: String::from_str("/subscriptions"),
            target: RouteTarget::Subscriptions,
        },
    );
    Result::Ok(ServerHandle { listener, db: db_connection, routes, started: false })
}

} // verus!
