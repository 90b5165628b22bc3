//! The introspection endpoint: the list of live connections.
use crate::config::ServerProtocol;
use crate::connection::{is_snapshot_of, ConnectionInfo, ConnectionTracker};
use crate::handlers::route::RouteInfo;
use crate::request::Method;
use crate::time::rfc3339;
use vstd::prelude::*;

verus! {

/// What the endpoint tells about one connection.
#[derive(Debug)]
pub struct ConnectionInfoDTO {
    pub connection_id: u64,
    /// When the connection was accepted, in the format of RFC 3339 with
    /// nanoseconds.
    pub creation_time: String,
    pub server_protocol: ServerProtocol,
}

impl ConnectionInfoDTO {
    /// Whether `self` tells of the connection `connection_info`.
    pub open spec fn describes(&self, connection_info: ConnectionInfo) -> bool {
        &&& self.connection_id == connection_info.connection_id.0
        &&& self.creation_time@ == rfc3339(connection_info.creation_time@)
        &&& self.server_protocol == connection_info.server_protocol
    }

    /// What the endpoint tells about the connection `connection_info`.
    pub fn from(connection_info: &ConnectionInfo) -> (dto: Self)
        ensures
            dto.describes(*connection_info),
    {
        Self {
            connection_id: connection_info.connection_id().as_u64(),
            creation_time: connection_info.creation_time().to_rfc3339(),
            server_protocol: connection_info.server_protocol(),
        }
    }
}

/// The body of the endpoint's response, before it is written as JSON.
#[derive(Debug)]
pub struct ConnectionInfoResponse {
    /// The live connections in ascending order of their identifiers.
    pub connections: Vec<ConnectionInfoDTO>,
}

/// Whether `listed` tells of exactly the connections `connections`, in the
/// same order.
pub open spec fn describes_all(listed: Seq<ConnectionInfoDTO>, connections: Seq<ConnectionInfo>)
    -> bool {
    &&& listed.len() == connections.len()
    &&& forall|i: int| 0 <= i < listed.len() ==> (#[trigger] listed[i]).describes(connections[i])
}

/// The path of the endpoint.
pub open spec fn connection_info_path() -> Seq<char> {
    "connection_info"@
}

/// Answers requests for the list of live connections.
#[derive(Debug)]
pub struct ConnectionInfoHandler {}

impl ConnectionInfoHandler {
    pub fn new() -> Self {
        Self {  }
    }

    /// The live connections of `connection_tracker` at this moment, in
    /// ascending order of their identifiers.
    pub fn handle(&self, connection_tracker: &ConnectionTracker) -> (response:
        ConnectionInfoResponse)
        ensures
            exists|snapshot: Seq<ConnectionInfo>|
                is_snapshot_of(snapshot, connection_tracker@.connections) && #[trigger] describes_all(
                    response.connections@,
                    snapshot,
                ),
            response.connections@.len() == connection_tracker@.connections.dom().len(),
            forall|i: int, j: int|
                0 <= i < j < response.connections@.len() ==> response.connections@[i].connection_id
                    < response.connections@[j].connection_id,
    {
        let snapshot = connection_tracker.snapshot();
        let mut connections: Vec<ConnectionInfoDTO> = Vec::with_capacity(snapshot.len());
        let mut i: usize = 0;
        while i < snapshot.len()
            invariant
                i <= snapshot@.len(),
                connections@.len() == i,
                forall|k: int| 0 <= k < i ==> (#[trigger] connections@[k]).describes(snapshot@[k]),
            decreases snapshot@.len() - i,
        {
            connections.push(ConnectionInfoDTO::from(&snapshot[i]));
            i += 1;
        }
        assert(describes_all(connections@, snapshot@));
        ConnectionInfoResponse { connections }
    }
}

/// The routes of the endpoint: `GET connection_info`.
pub fn create_routes() -> (routes: Vec<RouteInfo<ConnectionInfoHandler>>)
    ensures
        routes@.len() == 1,
        routes@[0].method@ == Method::Get@,
        routes@[0].path_suffix@ == connection_info_path(),
{
    let mut routes: Vec<RouteInfo<ConnectionInfoHandler>> = Vec::new();
    routes.push(
        RouteInfo {
            method: Method::Get,
            path_suffix: "connection_info".to_owned(),
            handler: ConnectionInfoHandler::new(),
        },
    );
    routes
}

} // verus!
