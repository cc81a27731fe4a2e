//! Session identity: each live connection carries a fresh identifier and the
//! metadata captured when it was established. Never mutated after creation.

use vstd::prelude::*;

use crate::smap::{sview, StrMap};

verus! {

/// Mathematical image of a session.
pub ghost struct SessionModel {
    pub session_id: Seq<char>,
    pub connected_at: u64,
    pub metadata: Seq<(Seq<char>, Seq<char>)>,
}

/// Session information for one live connection. The identifier is generated
/// fresh per connection by the embedding (a UUID) and never reused; the
/// timestamp is in milliseconds.
pub struct SessionInfo {
    pub session_id: String,
    pub connected_at: u64,
    pub metadata: StrMap<String>,
}

impl View for SessionInfo {
    type V = SessionModel;

    open spec fn view(&self) -> SessionModel {
        SessionModel {
            session_id: self.session_id@,
            connected_at: self.connected_at,
            metadata: sview(self.metadata.seq()),
        }
    }
}

impl SessionInfo {
    pub open spec fn wf(&self) -> bool {
        self.metadata.wf()
    }

    /// A fresh session record with empty metadata.
    pub fn new(session_id: String, connected_at: u64) -> (r: SessionInfo)
        ensures
            r.wf(),
            r.session_id@ == session_id@,
            r.connected_at == connected_at,
            r.metadata.seq() == Seq::<(String, String)>::empty(),
    {
        SessionInfo { session_id, connected_at, metadata: StrMap::new() }
    }

    /// A field-for-field copy.
    pub fn duplicate(&self) -> (r: SessionInfo)
        requires
            self.wf(),
        ensures
            r.wf(),
            r@ == self@,
            r.session_id@ == self.session_id@,
    {
        SessionInfo {
            session_id: self.session_id.clone(),
            connected_at: self.connected_at,
            metadata: self.metadata.duplicate(),
        }
    }
}

} // verus!
