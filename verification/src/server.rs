//! Server-mode state: the table of accepted peer sessions and the identity
//! of the component that handles their inbound messages. The accept loop,
//! the sockets and the per-connection tasks live in the embedding; this
//! module owns every decision about the table.

use vstd::prelude::*;

use crate::errors::RelayError;
use crate::session::SessionInfo;
use crate::smap::{seq_get, StrMap};

verus! {

/// WebSocket server state: live peer sessions keyed by session id, and the
/// optional handler component for inbound messages.
pub struct ServerState {
    clients: StrMap<SessionInfo>,
    component_id: Option<String>,
}

impl ServerState {
    /// The session table, insertion order kept.
    pub closed spec fn clients_seq(&self) -> Seq<(String, SessionInfo)> {
        self.clients.seq()
    }

    pub closed spec fn handler_component_view(&self) -> Option<Seq<char>> {
        match self.component_id {
            Some(c) => Some(c@),
            None => None,
        }
    }

    pub closed spec fn wf(&self) -> bool {
        self.clients.wf()
    }

    pub fn new() -> (r: ServerState)
        ensures
            r.wf(),
            r.clients_seq() == Seq::<(String, SessionInfo)>::empty(),
            r.handler_component_view() is None,
    {
        ServerState { clients: StrMap::new(), component_id: None }
    }

    /// Names the component that will handle messages from peers.
    pub fn set_handler_component(&mut self, component_id: String)
        requires
            old(self).wf(),
        ensures
            final(self).wf(),
            final(self).handler_component_view() == Some(component_id@),
            final(self).clients_seq() == old(self).clients_seq(),
    {
        self.component_id = Some(component_id);
    }

    pub fn handler_component(&self) -> (r: Option<String>)
        ensures
            match r {
                Some(c) => self.handler_component_view() == Some(c@),
                None => self.handler_component_view() is None,
            },
    {
        match &self.component_id {
            Some(c) => Some(c.clone()),
            None => None,
        }
    }

    /// Enters an accepted peer into the table, replacing any session of the
    /// same id.
    pub fn register_client(&mut self, info: SessionInfo) -> (r: Option<SessionInfo>)
        requires
            old(self).wf(),
        ensures
            final(self).wf(),
            final(self).handler_component_view() == old(self).handler_component_view(),
            r == seq_get(old(self).clients_seq(), info.session_id@),
            seq_get(final(self).clients_seq(), info.session_id@) == Some(info),
            forall|k2: Seq<char>|
                k2 != info.session_id@ ==> seq_get(final(self).clients_seq(), k2) == seq_get(
                    old(self).clients_seq(),
                    k2,
                ),
            final(self).clients_seq().len() == old(self).clients_seq().len() + (
            if seq_get(old(self).clients_seq(), info.session_id@) is Some {
                0int
            } else {
                1int
            }),
    {
        let key = info.session_id.clone();
        let prior = self.clients.remove(key.as_str());
        self.clients.insert(key, info);
        prior
    }

    /// Drops a peer's entry, handing its record back.
    pub fn remove_client(&mut self, session_id: &str) -> (r: Option<SessionInfo>)
        requires
            old(self).wf(),
        ensures
            final(self).wf(),
            final(self).handler_component_view() == old(self).handler_component_view(),
            r == seq_get(old(self).clients_seq(), session_id@),
            seq_get(final(self).clients_seq(), session_id@) is None,
            forall|k2: Seq<char>|
                k2 != session_id@ ==> seq_get(final(self).clients_seq(), k2) == seq_get(
                    old(self).clients_seq(),
                    k2,
                ),
            final(self).clients_seq().len() == old(self).clients_seq().len() - (
            if seq_get(old(self).clients_seq(), session_id@) is Some {
                1int
            } else {
                0int
            }),
    {
        proof {
            if seq_get(self.clients_seq(), session_id@) is Some {
                crate::smap::lemma_seq_get_present(self.clients_seq(), session_id@);
            }
        }
        self.clients.remove(session_id)
    }

    /// A point-in-time snapshot of the live peer sessions.
    pub fn list_client_sessions(&self) -> (r: Vec<String>)
        requires
            self.wf(),
        ensures
            r@.len() == self.clients_seq().len(),
            forall|i: int|
                0 <= i < r@.len() ==> r@[i]@ == self.clients_seq()[i].0@,
    {
        let n = self.clients.len();
        let mut out: Vec<String> = Vec::new();
        let mut i: usize = 0;
        while i < n
            invariant
                self.wf(),
                n == self.clients_seq().len(),
                i <= n,
                out@.len() == i,
                forall|j: int| 0 <= j < i ==> out@[j]@ == self.clients_seq()[j].0@,
            decreases n - i,
        {
            let p = self.clients.pair_at(i);
            out.push(p.0.clone());
            i += 1;
        }
        out
    }

    /// Whether a frame addressed to `session_id` can be delivered: the frame
    /// to enqueue on that session's channel, or `SessionNotFound`.
    pub fn send_to_client(&self, session_id: &str, msg: String) -> (r: Result<String, RelayError>)
        requires
            self.wf(),
        ensures
            match r {
                Ok(f) => seq_get(self.clients_seq(), session_id@) is Some && f == msg,
                Err(e) => seq_get(self.clients_seq(), session_id@) is None && e
                    == RelayError::SessionNotFound,
            },
    {
        if self.clients.contains_key(session_id) {
            Ok(msg)
        } else {
            Err(RelayError::SessionNotFound)
        }
    }

    /// One copy of a frame per live peer: delivery is best effort, so the
    /// call itself always succeeds, whatever each send later does.
    pub fn broadcast(&self, msg: String) -> (r: Vec<(String, String)>)
        requires
            self.wf(),
        ensures
            r@.len() == self.clients_seq().len(),
            forall|i: int|
                0 <= i < r@.len() ==> r@[i].0@ == self.clients_seq()[i].0@ && r@[i].1@ == msg@,
    {
        let n = self.clients.len();
        let mut out: Vec<(String, String)> = Vec::new();
        let mut i: usize = 0;
        while i < n
            invariant
                self.wf(),
                n == self.clients_seq().len(),
                i <= n,
                out@.len() == i,
                forall|j: int|
                    0 <= j < i ==> out@[j].0@ == self.clients_seq()[j].0@ && out@[j].1@ == msg@,
            decreases n - i,
        {
            let p = self.clients.pair_at(i);
            out.push((p.0.clone(), msg.clone()));
            i += 1;
        }
        out
    }

    /// Drops every peer entry.
    pub fn clear_clients(&mut self)
        ensures
            final(self).wf(),
            final(self).clients_seq() == Seq::<(String, SessionInfo)>::empty(),
            final(self).handler_component_view() == old(self).handler_component_view(),
    {
        self.clients.clear();
    }
}

} // verus!
