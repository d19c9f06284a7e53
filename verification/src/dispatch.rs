use vstd::prelude::*;

use crate::errors::BridgeError;
use crate::remote::{
    body_view, wf_request, Method, RemoteProxy, RemoteRequest, RemoteResponse,
};
use crate::store::{enumerates, LocalStore};
use vstd::string::StrSliceExecFns;

verus! {

/// A named operation issued by the hosted UI against the bridge. Inputs
/// arrive as plain decoded values; the dispatch surface validates them
/// before any component is touched.
pub enum Command {
    GetOfflineData { key: String },
    SaveOfflineData { key: String, value: Vec<u8> },
    DeleteOfflineData { key: String },
    ClearOfflineData,
    GetOfflineKeys,
    CheckConnectivity,
    SupabaseGet { path: String },
    SupabasePost { path: String, body: Vec<u8> },
    SupabasePatch { path: String, body: Vec<u8> },
    SupabaseDelete { path: String },
    SaveFileLocally { name: String, bytes: Vec<u8> },
    OpenFile,
    ReadFileLocally { path: String },
}

/// Work that only the shell around the bridge can perform: carrying a
/// prepared request to the wire, probing reachability, showing a native
/// dialog, or touching the disk. The shell performs the action and feeds
/// the outcome back through the matching resolver.
pub enum Action {
    SendHttp(RemoteRequest),
    Probe { url: String },
    PickOpenFile,
    PickSaveFile { name: String, bytes: Vec<u8> },
    ReadFile { path: String },
}

/// A result serialized back to the UI.
pub enum Response {
    Value(Vec<u8>),
    Saved,
    Deleted,
    Cleared,
    Keys(Vec<String>),
    Reachable(bool),
    Remote(RemoteResponse),
    Path(String),
    FileBytes(Vec<u8>),
    Failure(BridgeError),
}

/// One dispatch step: either the command is finished with a response, or the
/// shell owes an action whose outcome completes it.
pub enum Step {
    Done(Response),
    Perform(Action),
}

/// A remote route must be relative — it names a path under the configured
/// base URL, never an absolute URL of its own.
pub open spec fn spec_valid_route(p: Seq<char>) -> bool {
    p.len() > 0 && p[0] == '/'
}

/// Checks that `path` is a non-empty relative route.
pub fn valid_route(path: &String) -> (b: bool)
    ensures
        b == spec_valid_route(path@),
{
    let s = path.as_str();
    if s.is_empty() {
        false
    } else {
        s.get_char(0) == '/'
    }
}

/// Routes one UI command, validating its inputs first: an empty key, name or
/// path and a non-relative remote route are rejected with `BadRequest`
/// before any component sees them. Store commands finish here; network,
/// dialog and disk commands hand the shell the action to perform. A remote
/// command with the configuration missing fails fast with
/// `ConfigurationError` — no request is built, so nothing can reach the
/// wire. No command but `save`, `delete` and `clear` changes the store.
pub fn run(store: &mut LocalStore, proxy: &RemoteProxy, cmd: Command, now: u64) -> (step: Step)
    requires
        old(store).wf(),
    ensures
        final(store).wf(),
        (match cmd {
            Command::GetOfflineData { key } => {
                &&& final(store)@ == old(store)@
                &&& if key@.len() == 0 {
                    step matches Step::Done(Response::Failure(e)) && e == BridgeError::BadRequest
                } else if old(store)@.contains_key(key@) {
                    step matches Step::Done(Response::Value(v)) && v@ == old(store)@[key@]
                } else {
                    step matches Step::Done(Response::Failure(e)) && e == BridgeError::NotFound
                }
            },
            Command::SaveOfflineData { key, value } => {
                if key@.len() == 0 {
                    &&& final(store)@ == old(store)@
                    &&& step matches Step::Done(Response::Failure(e)) && e
                        == BridgeError::BadRequest
                } else {
                    &&& final(store)@ == old(store)@.insert(key@, value@)
                    &&& step matches Step::Done(Response::Saved)
                }
            },
            Command::DeleteOfflineData { key } => {
                if key@.len() == 0 {
                    &&& final(store)@ == old(store)@
                    &&& step matches Step::Done(Response::Failure(e)) && e
                        == BridgeError::BadRequest
                } else {
                    &&& final(store)@ == old(store)@.remove(key@)
                    &&& step matches Step::Done(Response::Deleted)
                }
            },
            Command::ClearOfflineData => {
                &&& final(store)@ == Map::<Seq<char>, Seq<u8>>::empty()
                &&& step matches Step::Done(Response::Cleared)
            },
            Command::GetOfflineKeys => {
                &&& final(store)@ == old(store)@
                &&& step matches Step::Done(Response::Keys(ks)) && enumerates(ks@, old(store)@)
            },
            Command::CheckConnectivity => {
                &&& final(store)@ == old(store)@
                &&& if proxy.configured() {
                    step matches Step::Perform(Action::Probe { url }) && url@
                        == proxy.spec_base_url()
                } else {
                    step matches Step::Done(Response::Reachable(b)) && b == false
                }
            },
            Command::SupabaseGet { path } => {
                &&& final(store)@ == old(store)@
                &&& route_step(step, *proxy, Method::Get, path@, None)
            },
            Command::SupabasePost { path, body } => {
                &&& final(store)@ == old(store)@
                &&& route_step(step, *proxy, Method::Post, path@, Some(body@))
            },
            Command::SupabasePatch { path, body } => {
                &&& final(store)@ == old(store)@
                &&& route_step(step, *proxy, Method::Patch, path@, Some(body@))
            },
            Command::SupabaseDelete { path } => {
                &&& final(store)@ == old(store)@
                &&& route_step(step, *proxy, Method::Delete, path@, None)
            },
            Command::SaveFileLocally { name, bytes } => {
                &&& final(store)@ == old(store)@
                &&& if name@.len() == 0 {
                    step matches Step::Done(Response::Failure(e)) && e == BridgeError::BadRequest
                } else {
                    step matches Step::Perform(Action::PickSaveFile { name: n, bytes: b }) && n@
                        == name@ && b@ == bytes@
                }
            },
            Command::OpenFile => {
                &&& final(store)@ == old(store)@
                &&& step matches Step::Perform(Action::PickOpenFile)
            },
            Command::ReadFileLocally { path } => {
                &&& final(store)@ == old(store)@
                &&& if path@.len() == 0 {
                    step matches Step::Done(Response::Failure(e)) && e == BridgeError::BadRequest
                } else {
                    step matches Step::Perform(Action::ReadFile { path: p }) && p@ == path@
                }
            },
        }),
{
    match cmd {
        Command::GetOfflineData { key } => {
            if key.as_str().is_empty() {
                Step::Done(Response::Failure(BridgeError::BadRequest))
            } else {
                match store.get(&key) {
                    Ok(v) => Step::Done(Response::Value(v)),
                    Err(e) => Step::Done(Response::Failure(e)),
                }
            }
        },
        Command::SaveOfflineData { key, value } => {
            if key.as_str().is_empty() {
                Step::Done(Response::Failure(BridgeError::BadRequest))
            } else {
                store.save(key, value, now);
                Step::Done(Response::Saved)
            }
        },
        Command::DeleteOfflineData { key } => {
            if key.as_str().is_empty() {
                Step::Done(Response::Failure(BridgeError::BadRequest))
            } else {
                store.delete(&key);
                Step::Done(Response::Deleted)
            }
        },
        Command::ClearOfflineData => {
            store.clear();
            Step::Done(Response::Cleared)
        },
        Command::GetOfflineKeys => Step::Done(Response::Keys(store.list_keys())),
        Command::CheckConnectivity => {
            match proxy.base_url() {
                Some(url) => Step::Perform(Action::Probe { url }),
                None => Step::Done(Response::Reachable(false)),
            }
        },
        Command::SupabaseGet { path } => route(proxy, Method::Get, path, None),
        Command::SupabasePost { path, body } => route(proxy, Method::Post, path, Some(body)),
        Command::SupabasePatch { path, body } => route(proxy, Method::Patch, path, Some(body)),
        Command::SupabaseDelete { path } => route(proxy, Method::Delete, path, None),
        Command::SaveFileLocally { name, bytes } => {
            if name.as_str().is_empty() {
                Step::Done(Response::Failure(BridgeError::BadRequest))
            } else {
                Step::Perform(Action::PickSaveFile { name, bytes })
            }
        },
        Command::OpenFile => Step::Perform(Action::PickOpenFile),
        Command::ReadFileLocally { path } => {
            if path.as_str().is_empty() {
                Step::Done(Response::Failure(BridgeError::BadRequest))
            } else {
                Step::Perform(Action::ReadFile { path })
            }
        },
    }
}

/// What dispatch owes for a remote command: `BadRequest` for a route that is
/// not relative, `ConfigurationError` — and no request — when the proxy has
/// no configuration, and otherwise exactly the prepared request for the
/// shell to send.
pub open spec fn route_step(
    step: Step,
    proxy: RemoteProxy,
    method: Method,
    path: Seq<char>,
    body: Option<Seq<u8>>,
) -> bool {
    if !spec_valid_route(path) {
        step matches Step::Done(Response::Failure(e)) && e == BridgeError::BadRequest
    } else if !proxy.configured() {
        step matches Step::Done(Response::Failure(e)) && e == BridgeError::ConfigurationError
    } else {
        step matches Step::Perform(Action::SendHttp(req)) && wf_request(
            req,
            proxy.spec_base_url(),
            proxy.spec_api_key(),
            method,
            path,
            body,
        )
    }
}

/// Validates a remote route and lets the proxy prepare the request.
fn route(proxy: &RemoteProxy, method: Method, path: String, body: Option<Vec<u8>>) -> (step: Step)
    ensures
        route_step(step, *proxy, method, path@, body_view(body)),
{
    if !valid_route(&path) {
        Step::Done(Response::Failure(BridgeError::BadRequest))
    } else {
        match proxy.request(method, &path, body) {
            Ok(req) => Step::Perform(Action::SendHttp(req)),
            Err(e) => Step::Done(Response::Failure(e)),
        }
    }
}

} // verus!
