//! The router between the dealers, with a high-water mark of its own.
use vstd::prelude::*;

use crate::endpoints::ipc_file;
use crate::plans::{socket_at, SocketKind, SocketModel, SocketPlan};
use crate::router::Router;

verus! {

/// What a router is told.
#[derive(Debug, Clone)]
pub struct Args {
    pub bind_address: String,
    pub num_dealers: usize,
    pub num_messages_per_dealer: usize,
    pub hwm: i32,
}

/// A router to be started.
pub struct RouterPlan {
    pub socket: SocketPlan,
    pub router: Router,
    /// The file to be removed at the end.
    pub remove: Option<String>,
}

/// The socket of a router: the mark holds for both directions.
pub open spec fn router_socket(address: Seq<char>, hwm: i32) -> SocketModel {
    SocketModel {
        kind: SocketKind::Router,
        sndhwm: Some(hwm),
        rcvhwm: Some(hwm),
        identity: None,
        bind: true,
        addresses: seq![address],
    }
}

/// The router of `args`.
pub fn plan(args: &Args) -> (r: RouterPlan)
    requires
        args.num_dealers * args.num_messages_per_dealer <= usize::MAX,
    ensures
        r.socket@ == router_socket(args.bind_address@, args.hwm),
        r.router@.wf(),
        r.router@ == crate::router::router_for(
            args.num_dealers as nat,
            args.num_messages_per_dealer as nat,
        ),
        crate::plans::text_of(r.remove) == crate::endpoints::file_behind(args.bind_address@),
{
    RouterPlan {
        socket: socket_at(
            SocketKind::Router,
            Some(args.hwm),
            Some(args.hwm),
            true,
            args.bind_address.as_str(),
        ),
        router: Router::new(args.num_dealers, args.num_messages_per_dealer),
        remove: ipc_file(args.bind_address.as_str()),
    }
}

} // verus!
