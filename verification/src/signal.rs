//! The signaling session handlers: per-connection protocol logic over the
//! session registry — room creation, join admission (with the no-room-id
//! discovery path), and disconnect cleanup. The embedding application owns
//! the sockets; these handlers decide, and hand back the payloads to emit.

use vstd::prelude::*;
use vstd::string::StringExecFns;

use crate::registry::find_host;
use crate::registry::find_joinable;
use crate::registry::find_meta;
use crate::registry::lemma_find_meta_props;
use crate::registry::registry_wf;
use crate::registry::spec_hash_token;
use crate::registry::MetaV;
use crate::registry::RoomManager;
use crate::registry::MAX_CLIENTS_PER_ROOM;
use crate::text::str_equal;

verus! {

/// A host's request to open a room.
pub struct CreateRoomPayload {
    pub room_id: String,
    pub join_token_hash: String,
    pub host_peer_id: Option<String>,
}

/// A client's request to join a room; no room id (or an empty or `default`
/// one) asks for the first joinable room, with no token check.
pub struct JoinRoomPayload {
    pub room_id: Option<String>,
    pub join_token: String,
    pub display_name: String,
}

/// The reply to a successful room creation.
#[derive(Debug)]
pub struct RoomCreatedPayload {
    pub room_id: String,
}

/// The reply to an admitted join.
pub struct JoinSuccessPayload {
    pub room_id: String,
    pub host_peer_id: String,
}

/// A typed error reply.
#[derive(Debug)]
pub struct ErrorPayload {
    pub code: String,
    pub message: String,
}

/// The reply to a refused join.
pub struct JoinRejectedPayload {
    pub reason: String,
}

/// What the host is told when a client is admitted.
pub struct ClientJoinedPayload {
    pub client_id: String,
    pub display_name: String,
    pub peer_id: String,
}

/// What the host is told when a client leaves.
pub struct ClientLeftPayload {
    pub client_id: String,
}

/// What the handler remembers about one live connection: its id and, once
/// it has joined, which room — explicit state, not a socket side channel.
pub struct ConnectionSession {
    pub connection_id: String,
    pub joined_room: Option<String>,
}

/// The view of an optional string.
pub open spec fn opt_view(o: Option<String>) -> Option<Seq<char>> {
    match o {
        Some(s) => Some(s@),
        None => None,
    }
}

/// What a connection is told after a join request.
pub enum JoinOutcome {
    Accepted {
        room_id: String,
        host_socket_id: String,
        success: JoinSuccessPayload,
        joined: ClientJoinedPayload,
    },
    Rejected(JoinRejectedPayload),
}

/// What the disconnect of a connection entails.
pub enum DisconnectEffect {
    HostDisconnected { room_id: String },
    ClientLeft { room_id: String, host_socket_id: String, departed: ClientLeftPayload },
    NoEffect,
}

/// Does this request take the discovery path (no explicit room)?
pub open spec fn spec_is_discovery(rid: Option<Seq<char>>) -> bool {
    match rid {
        None => true,
        Some(r) => r.len() == 0 || r == "default"@,
    }
}

/// The room a join request aims at: the named one, or the first joinable
/// room on the discovery path.
pub open spec fn spec_join_target(rooms: Seq<MetaV>, rid: Option<Seq<char>>) -> Option<Seq<char>> {
    if spec_is_discovery(rid) {
        match find_joinable(rooms) {
            Some(i) => Some(rooms[i].room_id),
            None => None,
        }
    } else {
        Some(rid->Some_0)
    }
}

/// Handles a host's `CREATE_ROOM`: registers the session, or reports a
/// typed error when the room id is already taken.
pub fn handle_create_room(mgr: &mut RoomManager, socket_id: &str, payload: CreateRoomPayload) -> (r:
    Result<RoomCreatedPayload, ErrorPayload>)
    requires
        registry_wf(old(mgr)@),
    ensures
        registry_wf(final(mgr)@),
        r is Ok <==> find_meta(old(mgr)@, payload.room_id@) is None,
        r matches Err(e) ==> e.code@ == "CREATE_ROOM_FAILED"@ && e.message@
            == "Room already exists"@ && final(mgr)@ == old(mgr)@,
        r matches Ok(p) ==> ({
            &&& p.room_id@ == payload.room_id@
            &&& final(mgr)@.len() == old(mgr)@.len() + 1
            &&& final(mgr)@.subrange(0, old(mgr)@.len() as int) == old(mgr)@
            &&& final(mgr)@.last().room_id == payload.room_id@
            &&& final(mgr)@.last().host_socket_id == socket_id@
            &&& final(mgr)@.last().host_peer_id == opt_view(payload.host_peer_id)
            &&& final(mgr)@.last().join_token_hash == payload.join_token_hash@
            &&& final(mgr)@.last().client_count == 0
        }),
{
    let room_id = payload.room_id.clone();
    match mgr.create_room(
        room_id,
        String::from_str(socket_id),
        payload.join_token_hash,
        payload.host_peer_id,
    ) {
        Ok(_) => Ok(RoomCreatedPayload { room_id: payload.room_id }),
        Err(e) => Err(
            ErrorPayload { code: String::from_str("CREATE_ROOM_FAILED"), message: e },
        ),
    }
}

/// Handles a client's `JOIN_ROOM`: resolves the target room (explicit id, or
/// discovery), admits through the registry's atomic check-and-increment
/// (skipping the token check only on the discovery path), and returns the
/// payloads to send — `JOIN_SUCCESS` and `CLIENT_JOINED` for the host, or
/// `JOIN_REJECTED` with the reason.
pub fn handle_join_room(mgr: &mut RoomManager, socket_id: &str, payload: JoinRoomPayload) -> (r:
    JoinOutcome)
    requires
        registry_wf(old(mgr)@),
    ensures
        registry_wf(final(mgr)@),
        match spec_join_target(old(mgr)@, opt_view(payload.room_id)) {
            None => r matches JoinOutcome::Rejected(p) && p.reason@ == "No active host found"@
                && final(mgr)@ == old(mgr)@,
            Some(target) => match find_meta(old(mgr)@, target) {
                None => r matches JoinOutcome::Rejected(p) && p.reason@ == "Room not found"@
                    && final(mgr)@ == old(mgr)@,
                Some(i) => {
                    let room = old(mgr)@[i];
                    if !spec_is_discovery(opt_view(payload.room_id)) && spec_hash_token(
                        payload.join_token@,
                    ) != room.join_token_hash {
                        r matches JoinOutcome::Rejected(p) && p.reason@ == "Invalid token"@
                            && final(mgr)@ == old(mgr)@
                    } else if room.client_count >= MAX_CLIENTS_PER_ROOM {
                        r matches JoinOutcome::Rejected(p) && p.reason@ == "Room is full"@
                            && final(mgr)@ == old(mgr)@
                    } else {
                        &&& final(mgr)@ == old(mgr)@.update(
                            i,
                            MetaV { client_count: (room.client_count + 1) as usize, ..room },
                        )
                        &&& r matches JoinOutcome::Accepted {
                            room_id,
                            host_socket_id,
                            success,
                            joined,
                        } && room_id@ == target && host_socket_id@ == room.host_socket_id
                            && success.room_id@ == target && success.host_peer_id@ == (
                        match room.host_peer_id {
                            Some(p) => p,
                            None => room.host_socket_id,
                        }) && joined.client_id@ == socket_id@ && joined.display_name@
                            == payload.display_name@ && joined.peer_id@ == socket_id@
                    }
                },
            },
        },
{
    let discovery = match &payload.room_id {
        None => true,
        Some(rid) => rid.as_str().is_empty() || str_equal(rid.as_str(), "default"),
    };
    let target: Option<String> = if discovery {
        match mgr.get_first_active_room() {
            Some(room) => Some(room.room_id),
            None => None,
        }
    } else {
        match &payload.room_id {
            Some(rid) => Some(rid.clone()),
            None => None,  // unreachable: a missing id always takes discovery
        }
    };
    let room_id = match target {
        Some(rid) => rid,
        None => {
            return JoinOutcome::Rejected(
                JoinRejectedPayload { reason: String::from_str("No active host found") },
            );
        },
    };
    let token_to_verify: Option<&str> = if discovery {
        None
    } else {
        Some(payload.join_token.as_str())
    };
    match mgr.try_join_room(room_id.as_str(), token_to_verify) {
        Ok(room) => {
            proof {
                lemma_find_meta_props(old(mgr)@, room_id@, 0);
            }
            let host_socket_for_reply = room.host_socket_id.clone();
            let host_peer = match room.host_peer_id {
                Some(p) => p,
                None => room.host_socket_id,
            };
            JoinOutcome::Accepted {
                room_id: room_id.clone(),
                host_socket_id: host_socket_for_reply,
                success: JoinSuccessPayload { room_id, host_peer_id: host_peer },
                joined: ClientJoinedPayload {
                    client_id: String::from_str(socket_id),
                    display_name: payload.display_name,
                    peer_id: String::from_str(socket_id),
                },
            }
        },
        Err(e) => JoinOutcome::Rejected(JoinRejectedPayload { reason: e }),
    }
}

/// Handles a disconnect: a host's departure deletes the room and tells the
/// members; a joined client's departure tells the host and frees the slot;
/// anything else has no effect.
pub fn handle_disconnect(mgr: &mut RoomManager, session: &ConnectionSession) -> (r:
    DisconnectEffect)
    requires
        registry_wf(old(mgr)@),
    ensures
        registry_wf(final(mgr)@),
        match find_host(old(mgr)@, session.connection_id@) {
            Some(i) => r matches DisconnectEffect::HostDisconnected { room_id } && room_id@ == old(
                mgr,
            )@[i].room_id && final(mgr)@ == old(mgr)@.remove(i),
            None => match opt_view(session.joined_room) {
                Some(rid) => match find_meta(old(mgr)@, rid) {
                    Some(j) => r matches DisconnectEffect::ClientLeft {
                        room_id,
                        host_socket_id,
                        departed,
                    } && room_id@ == rid && host_socket_id@ == old(mgr)@[j].host_socket_id
                        && departed.client_id@ == session.connection_id@ && final(mgr)@ == old(
                        mgr,
                    )@.update(
                        j,
                        MetaV {
                            client_count: if old(mgr)@[j].client_count > 0 {
                                (old(mgr)@[j].client_count - 1) as usize
                            } else {
                                0
                            },
                            ..old(mgr)@[j]
                        },
                    ),
                    None => r is NoEffect && final(mgr)@ == old(mgr)@,
                },
                None => r is NoEffect && final(mgr)@ == old(mgr)@,
            },
        },
{
    match mgr.get_room_by_host_socket(session.connection_id.as_str()) {
        Some(room) => {
            proof {
                crate::registry::lemma_find_host_props(old(mgr)@, session.connection_id@, 0);
                lemma_find_meta_props(old(mgr)@, room.room_id@, 0);
                let i = find_host(old(mgr)@, session.connection_id@)->Some_0;
                let j = find_meta(old(mgr)@, room.room_id@)->Some_0;
                // room ids are unique, so the id lookup lands on the hosted room
                assert(old(mgr)@[i].room_id == room.room_id@);
                assert(j == i) by {
                    if j != i {
                        assert(old(mgr)@[j].room_id == old(mgr)@[i].room_id);
                    }
                }
            }
            mgr.delete_room(room.room_id.as_str());
            DisconnectEffect::HostDisconnected { room_id: room.room_id }
        },
        None => {
            match &session.joined_room {
                Some(rid) => {
                    match mgr.get_room(rid.as_str()) {
                        Some(room) => {
                            proof {
                                lemma_find_meta_props(old(mgr)@, rid@, 0);
                            }
                            mgr.remove_client(rid.as_str());
                            DisconnectEffect::ClientLeft {
                                room_id: rid.clone(),
                                host_socket_id: room.host_socket_id,
                                departed: ClientLeftPayload {
                                    client_id: session.connection_id.clone(),
                                },
                            }
                        },
                        None => DisconnectEffect::NoEffect,
                    }
                },
                None => DisconnectEffect::NoEffect,
            }
        },
    }
}

} // verus!
