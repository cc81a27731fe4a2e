//! The router facade: one identity space over the client-mode component
//! directories and the server-mode session table. Every public operation
//! decides, under contract, which live connection a message reaches; the
//! embedding performs the sends, the connects and the teardown that the
//! decisions call for.

use vstd::prelude::*;

use crate::codec;
use crate::codec::encode_spec;
use crate::config::{merge_spec, mget, resolve_spec, ConfigModel, ConnectionConfig, Mode};
use crate::errors::RelayError;
use crate::message::{BrokerMessage, MessageModel};
use crate::server::ServerState;
use crate::session::SessionInfo;
use crate::smap::{seq_get, str_eq, sview, StrMap};

verus! {

/// One live client-mode connection, as the directory owns it: the session
/// it was given, and whether that session was entered into the registry.
/// The socket, the outbound channel and the task handle stay with the
/// embedding, keyed by the same component id; dropping an entry there must
/// cancel the task (cancel-on-drop), so a bundle handed back by an unlink
/// or a replacement is the embedding's signal to abort.
pub struct WebSocketClientBundle {
    pub session_info: SessionInfo,
    pub registered: bool,
}

// ---------------------------------------------------------------------------
// The derived session registry
// ---------------------------------------------------------------------------
/// The registry rows a directory contributes: one `(session id, component
/// id)` pair per registered bundle, in directory order.
pub open spec fn session_entries(s: Seq<(String, WebSocketClientBundle)>) -> Seq<
    (Seq<char>, Seq<char>),
>
    decreases s.len(),
{
    if s.len() == 0 {
        Seq::empty()
    } else {
        session_entries(s.drop_last()) + (if s.last().1.registered {
            seq![(s.last().1.session_info.session_id@, s.last().0@)]
        } else {
            Seq::empty()
        })
    }
}

proof fn lemma_session_entries_snoc(s: Seq<(String, WebSocketClientBundle)>, i: int)
    requires
        0 <= i < s.len(),
    ensures
        session_entries(s.subrange(0, i + 1)) == session_entries(s.subrange(0, i)) + (
        if s[i].1.registered {
            seq![(s[i].1.session_info.session_id@, s[i].0@)]
        } else {
            Seq::<(Seq<char>, Seq<char>)>::empty()
        }),
{
    let q = s.subrange(0, i + 1);
    assert(q.drop_last() =~= s.subrange(0, i));
    assert(q.last() == s[i]);
}

proof fn lemma_mget_append(a: Seq<(Seq<char>, Seq<char>)>, b: Seq<(Seq<char>, Seq<char>)>, k: Seq<char>)
    ensures
        mget(a + b, k) == (if mget(a, k) is Some {
            mget(a, k)
        } else {
            mget(b, k)
        }),
    decreases a.len(),
{
    if a.len() == 0 {
        assert(a + b =~= b);
    } else {
        assert((a + b)[0] == a[0]);
        assert((a + b).drop_first() =~= a.drop_first() + b);
        lemma_mget_append(a.drop_first(), b, k);
    }
}

proof fn lemma_entries_prefix_stable(s: Seq<(String, WebSocketClientBundle)>, j: int, k: Seq<char>)
    requires
        0 <= j <= s.len(),
        mget(session_entries(s.subrange(0, j)), k) is Some,
    ensures
        mget(session_entries(s.subrange(0, s.len() as int)), k) == mget(
            session_entries(s.subrange(0, j)),
            k,
        ),
    decreases s.len() - j,
{
    if j < s.len() {
        lemma_session_entries_snoc(s, j);
        let e = if s[j].1.registered {
            seq![(s[j].1.session_info.session_id@, s[j].0@)]
        } else {
            Seq::<(Seq<char>, Seq<char>)>::empty()
        };
        lemma_mget_append(session_entries(s.subrange(0, j)), e, k);
        lemma_entries_prefix_stable(s, j + 1, k);
    }
}

/// Looks a session up in one directory's derived registry rows.
fn find_session_in(m: &StrMap<WebSocketClientBundle>, session_id: &str) -> (r: Option<String>)
    requires
        m.wf(),
    ensures
        match r {
            Some(cid) => mget(session_entries(m.seq()), session_id@) == Some(cid@),
            None => mget(session_entries(m.seq()), session_id@) is None,
        },
{
    let n = m.len();
    let mut i: usize = 0;
    while i < n
        invariant
            m.wf(),
            n == m.seq().len(),
            i <= n,
            mget(session_entries(m.seq().subrange(0, i as int)), session_id@) is None,
        decreases n - i,
    {
        let p = m.pair_at(i);
        proof {
            lemma_session_entries_snoc(m.seq(), i as int);
        }
        if p.1.registered && str_eq(p.1.session_info.session_id.as_str(), session_id) {
            proof {
                let e = seq![(m.seq()[i as int].1.session_info.session_id@, m.seq()[i as int].0@)];
                lemma_mget_append(session_entries(m.seq().subrange(0, i as int)), e, session_id@);
                assert(mget(e, session_id@) == Some(m.seq()[i as int].0@));
                lemma_entries_prefix_stable(m.seq(), i + 1, session_id@);
                assert(m.seq().subrange(0, m.seq().len() as int) =~= m.seq());
            }
            return Some(p.0.clone());
        }
        proof {
            let e = if m.seq()[i as int].1.registered {
                seq![(m.seq()[i as int].1.session_info.session_id@, m.seq()[i as int].0@)]
            } else {
                Seq::<(Seq<char>, Seq<char>)>::empty()
            };
            lemma_mget_append(session_entries(m.seq().subrange(0, i as int)), e, session_id@);
            if m.seq()[i as int].1.registered {
                assert(m.seq()[i as int].1.session_info.session_id@ != session_id@);
                assert(e.drop_first() =~= Seq::<(Seq<char>, Seq<char>)>::empty());
                assert(mget(Seq::<(Seq<char>, Seq<char>)>::empty(), session_id@) is None);
                assert(mget(e, session_id@) is None);
            } else {
                assert(mget(e, session_id@) is None);
            }
        }
        i += 1;
    }
    proof {
        assert(m.seq().subrange(0, n as int) =~= m.seq());
    }
    None
}

// ---------------------------------------------------------------------------
// Session listing
// ---------------------------------------------------------------------------
/// The `list_sessions` rows a directory contributes, each tagged with its
/// owning component.
pub open spec fn client_session_rows(s: Seq<(String, WebSocketClientBundle)>) -> Seq<
    (Seq<char>, Seq<char>),
>
    decreases s.len(),
{
    if s.len() == 0 {
        Seq::empty()
    } else {
        client_session_rows(s.drop_last()) + (if s.last().1.registered {
            seq![(s.last().1.session_info.session_id@, "component:"@ + s.last().0@)]
        } else {
            Seq::empty()
        })
    }
}

/// The rows the server-mode session table contributes.
pub open spec fn ws_session_rows(s: Seq<(String, SessionInfo)>) -> Seq<(Seq<char>, Seq<char>)>
    decreases s.len(),
{
    if s.len() == 0 {
        Seq::empty()
    } else {
        ws_session_rows(s.drop_last()) + seq![(s.last().0@, "ws-client:"@ + s.last().0@)]
    }
}

// ---------------------------------------------------------------------------
// Routing models
// ---------------------------------------------------------------------------
/// Mathematical image of a routing decision.
pub ghost enum RouteModel {
    ToComponent(Seq<char>, Seq<char>),
    ToWsClient(Seq<char>, Seq<char>),
}

/// Where a session-addressed send goes: the frame to enqueue, on a linked
/// component's channel or on a server-mode peer's channel.
#[derive(Debug)]
pub enum SendRoute {
    ToComponent(String, String),
    ToWsClient(String, String),
}

impl View for SendRoute {
    type V = RouteModel;

    open spec fn view(&self) -> RouteModel {
        match self {
            SendRoute::ToComponent(c, f) => RouteModel::ToComponent(c@, f@),
            SendRoute::ToWsClient(s, f) => RouteModel::ToWsClient(s@, f@),
        }
    }
}

pub open spec fn res_view(r: Result<String, RelayError>) -> Result<Seq<char>, RelayError> {
    match r {
        Ok(f) => Ok(f@),
        Err(e) => Err(e),
    }
}

pub open spec fn route_view(r: Result<SendRoute, RelayError>) -> Result<RouteModel, RelayError> {
    match r {
        Ok(t) => Ok(t@),
        Err(e) => Err(e),
    }
}

/// What `publish` decides: the encoded frame for the linked consumer, or
/// `ComponentNotLinked` exactly when no consumer of that id is linked.
pub open spec fn spec_publish(
    cons: Seq<(String, WebSocketClientBundle)>,
    id: Seq<char>,
    m: MessageModel,
) -> Result<Seq<char>, RelayError> {
    if seq_get(cons, id) is Some {
        Ok(encode_spec(m))
    } else {
        Err(RelayError::ComponentNotLinked)
    }
}

// ---------------------------------------------------------------------------
// The provider
// ---------------------------------------------------------------------------
/// The WebSocket messaging provider: the two component directories, the
/// default configuration, and the server-mode state.
pub struct WebSocketMessagingProvider {
    consumer_components: StrMap<WebSocketClientBundle>,
    handler_components: StrMap<WebSocketClientBundle>,
    default_config: ConnectionConfig,
    server_state: ServerState,
    server_running: bool,
    server_addr: Option<String>,
}

impl WebSocketMessagingProvider {
    pub closed spec fn consumers(&self) -> Seq<(String, WebSocketClientBundle)> {
        self.consumer_components.seq()
    }

    pub closed spec fn handlers(&self) -> Seq<(String, WebSocketClientBundle)> {
        self.handler_components.seq()
    }

    pub closed spec fn default_config_view(&self) -> ConfigModel {
        self.default_config@
    }

    pub closed spec fn in_server_mode(&self) -> bool {
        self.server_running
    }

    pub closed spec fn ws_clients(&self) -> Seq<(String, SessionInfo)> {
        self.server_state.clients_seq()
    }

    pub closed spec fn server_addr_view(&self) -> Option<Seq<char>> {
        match self.server_addr {
            Some(a) => Some(a@),
            None => None,
        }
    }

    pub closed spec fn wf(&self) -> bool {
        self.consumer_components.wf() && self.handler_components.wf() && self.default_config.wf()
            && self.server_state.wf()
    }

    /// The session registry, derived: client-mode rows map a registered
    /// bundle's session to its component, consumers first.
    pub open spec fn spec_get_session(&self, sid: Seq<char>) -> Option<Seq<char>> {
        match mget(session_entries(self.consumers()), sid) {
            Some(cid) => Some(cid),
            None => mget(session_entries(self.handlers()), sid),
        }
    }

    /// Everything `list_sessions` reports: client-mode rows from both
    /// directories, then the server-mode peers.
    pub open spec fn spec_list_sessions(&self) -> Seq<(Seq<char>, Seq<char>)> {
        client_session_rows(self.consumers()) + client_session_rows(self.handlers()) + (
        if self.in_server_mode() {
            ws_session_rows(self.ws_clients())
        } else {
            Seq::empty()
        })
    }

    /// Where a session-addressed send goes: component-keyed resolution
    /// first, the server-mode table as fallback, `SessionNotFound` only
    /// when both fail.
    pub open spec fn spec_send_route(&self, sid: Seq<char>, m: MessageModel) -> Result<
        RouteModel,
        RelayError,
    > {
        match self.spec_get_session(sid) {
            Some(cid) => if seq_get(self.consumers(), cid) is Some || seq_get(
                self.handlers(),
                cid,
            ) is Some {
                Ok(RouteModel::ToComponent(cid, encode_spec(m)))
            } else {
                self.spec_ws_route(sid, m)
            },
            None => self.spec_ws_route(sid, m),
        }
    }

    pub open spec fn spec_ws_route(&self, sid: Seq<char>, m: MessageModel) -> Result<
        RouteModel,
        RelayError,
    > {
        if self.in_server_mode() && seq_get(self.ws_clients(), sid) is Some {
            Ok(RouteModel::ToWsClient(sid, encode_spec(m)))
        } else {
            Err(RelayError::SessionNotFound)
        }
    }

    /// A provider with no links, no sessions and the default configuration.
    pub fn new() -> (r: WebSocketMessagingProvider)
        ensures
            r.wf(),
            r.consumers() == Seq::<(String, WebSocketClientBundle)>::empty(),
            r.handlers() == Seq::<(String, WebSocketClientBundle)>::empty(),
            r.default_config_view() == crate::config::default_config_model(),
            !r.in_server_mode(),
            r.ws_clients() == Seq::<(String, SessionInfo)>::empty(),
            r.server_addr_view() is None,
    {
        WebSocketMessagingProvider {
            consumer_components: StrMap::new(),
            handler_components: StrMap::new(),
            default_config: ConnectionConfig::default(),
            server_state: ServerState::new(),
            server_running: false,
            server_addr: None,
        }
    }

    /// A provider whose default configuration is resolved from an option
    /// map. Never fails: resolution is total.
    pub fn from_config(opts: &StrMap<String>) -> (r: WebSocketMessagingProvider)
        requires
            opts.wf(),
        ensures
            r.wf(),
            r.consumers() == Seq::<(String, WebSocketClientBundle)>::empty(),
            r.handlers() == Seq::<(String, WebSocketClientBundle)>::empty(),
            r.default_config_view() == resolve_spec(sview(opts.seq())),
            !r.in_server_mode(),
            r.ws_clients() == Seq::<(String, SessionInfo)>::empty(),
            r.server_addr_view() is None,
    {
        WebSocketMessagingProvider {
            consumer_components: StrMap::new(),
            handler_components: StrMap::new(),
            default_config: ConnectionConfig::from_map(opts),
            server_state: ServerState::new(),
            server_running: false,
            server_addr: None,
        }
    }

    /// The provider's default configuration.
    pub fn default_configuration(&self) -> (r: &ConnectionConfig)
        ensures
            r@ == self.default_config_view(),
    {
        &self.default_config
    }

    /// The configuration a link gets: the provider's default when the link
    /// brings no options, else the default merged under the link's resolved
    /// options.
    pub fn link_config(&self, opts: &StrMap<String>) -> (r: ConnectionConfig)
        requires
            self.wf(),
            opts.wf(),
        ensures
            r.wf(),
            r@ == (if opts.seq().len() == 0 {
                self.default_config_view()
            } else {
                merge_spec(self.default_config_view(), resolve_spec(sview(opts.seq())))
            }),
    {
        if opts.is_empty() {
            self.default_config.duplicate()
        } else {
            let over = ConnectionConfig::from_map(opts);
            self.default_config.merge(&over)
        }
    }

    /// Decodes a text frame received on `session_id` (total; non-JSON text
    /// is wrapped as a plain message).
    pub fn parse_message_static(text: &str, session_id: &str) -> (r: BrokerMessage)
        ensures
            r@ == codec::parse_message_spec(
                crate::wire::json_parse(text@),
                text@,
                session_id@,
            ),
    {
        codec::parse_broker_message(text, session_id)
    }

    /// Writes a message as the text frame every send path uses.
    pub fn encode_message_static(msg: &BrokerMessage) -> (r: String)
        ensures
            r@ == encode_spec(msg@),
    {
        codec::encode_message(msg)
    }

    // -----------------------------------------------------------------------
    // Linking
    // -----------------------------------------------------------------------
    /// Enters a consumer link whose connection the embedding has
    /// established, replacing any earlier link of the same id. The returned
    /// bundle, if any, is the replaced link: the embedding must cancel its
    /// task.
    pub fn receive_link_config_as_target(
        &mut self,
        source_id: &str,
        config: &ConnectionConfig,
        session: SessionInfo,
    ) -> (r: Option<WebSocketClientBundle>)
        requires
            old(self).wf(),
        ensures
            final(self).wf(),
            r == seq_get(old(self).consumers(), source_id@),
            seq_get(final(self).consumers(), source_id@) == Some(
                (WebSocketClientBundle {
                    session_info: session,
                    registered: config.enable_session_tracking,
                }),
            ),
            forall|k2: Seq<char>|
                k2 != source_id@ ==> seq_get(final(self).consumers(), k2) == seq_get(
                    old(self).consumers(),
                    k2,
                ),
            final(self).handlers() == old(self).handlers(),
            final(self).ws_clients() == old(self).ws_clients(),
            final(self).in_server_mode() == old(self).in_server_mode(),
            final(self).default_config_view() == old(self).default_config_view(),
            final(self).server_addr_view() == old(self).server_addr_view(),
    {
        let bundle = WebSocketClientBundle {
            session_info: session,
            registered: config.enable_session_tracking,
        };
        let prior = self.consumer_components.remove(source_id);
        self.consumer_components.insert(String::from_str(source_id), bundle);
        prior
    }

    /// Enters a handler link, as `receive_link_config_as_target` does for
    /// consumers.
    pub fn receive_link_config_as_source(
        &mut self,
        target_id: &str,
        config: &ConnectionConfig,
        session: SessionInfo,
    ) -> (r: Option<WebSocketClientBundle>)
        requires
            old(self).wf(),
        ensures
            final(self).wf(),
            r == seq_get(old(self).handlers(), target_id@),
            seq_get(final(self).handlers(), target_id@) == Some(
                (WebSocketClientBundle {
                    session_info: session,
                    registered: config.enable_session_tracking,
                }),
            ),
            forall|k2: Seq<char>|
                k2 != target_id@ ==> seq_get(final(self).handlers(), k2) == seq_get(
                    old(self).handlers(),
                    k2,
                ),
            final(self).consumers() == old(self).consumers(),
            final(self).ws_clients() == old(self).ws_clients(),
            final(self).in_server_mode() == old(self).in_server_mode(),
            final(self).default_config_view() == old(self).default_config_view(),
            final(self).server_addr_view() == old(self).server_addr_view(),
    {
        let bundle = WebSocketClientBundle {
            session_info: session,
            registered: config.enable_session_tracking,
        };
        let prior = self.handler_components.remove(target_id);
        self.handler_components.insert(String::from_str(target_id), bundle);
        prior
    }

    /// Removes a consumer link. The returned bundle is the embedding's
    /// signal to cancel the connection's task; with the entry goes its
    /// session registry row (the registry is derived from the directories).
    pub fn delete_link_as_target(&mut self, source_id: &str) -> (r: Option<WebSocketClientBundle>)
        requires
            old(self).wf(),
        ensures
            final(self).wf(),
            r == seq_get(old(self).consumers(), source_id@),
            seq_get(final(self).consumers(), source_id@) is None,
            forall|k2: Seq<char>|
                k2 != source_id@ ==> seq_get(final(self).consumers(), k2) == seq_get(
                    old(self).consumers(),
                    k2,
                ),
            final(self).handlers() == old(self).handlers(),
            final(self).ws_clients() == old(self).ws_clients(),
            final(self).in_server_mode() == old(self).in_server_mode(),
            final(self).default_config_view() == old(self).default_config_view(),
            final(self).server_addr_view() == old(self).server_addr_view(),
    {
        self.consumer_components.remove(source_id)
    }

    /// Removes a handler link, as `delete_link_as_target` does.
    pub fn delete_link_as_source(&mut self, target_id: &str) -> (r: Option<WebSocketClientBundle>)
        requires
            old(self).wf(),
        ensures
            final(self).wf(),
            r == seq_get(old(self).handlers(), target_id@),
            seq_get(final(self).handlers(), target_id@) is None,
            forall|k2: Seq<char>|
                k2 != target_id@ ==> seq_get(final(self).handlers(), k2) == seq_get(
                    old(self).handlers(),
                    k2,
                ),
            final(self).consumers() == old(self).consumers(),
            final(self).ws_clients() == old(self).ws_clients(),
            final(self).in_server_mode() == old(self).in_server_mode(),
            final(self).default_config_view() == old(self).default_config_view(),
            final(self).server_addr_view() == old(self).server_addr_view(),
    {
        self.handler_components.remove(target_id)
    }

    // -----------------------------------------------------------------------
    // Sending
    // -----------------------------------------------------------------------
    /// The frame to enqueue on a linked consumer's channel;
    /// `ComponentNotLinked` exactly when the id has no consumer link. A
    /// failure of the enqueue itself is the embedding's `SendFailed`.
    pub fn publish(&self, component_id: &str, msg: &BrokerMessage) -> (r: Result<
        String,
        RelayError,
    >)
        requires
            self.wf(),
        ensures
            res_view(r) == spec_publish(self.consumers(), component_id@, msg@),
    {
        if self.consumer_components.contains_key(component_id) {
            Ok(codec::encode_message(msg))
        } else {
            Err(RelayError::ComponentNotLinked)
        }
    }

    /// The request frame for a consumer, carrying the caller-supplied reply
    /// inbox as its reply subject; `ComponentNotLinked` exactly when the id
    /// has no consumer link. Waiting for the reply is not implemented:
    /// after sending, the embedding reports a timeout-shaped failure.
    pub fn request(
        &self,
        component_id: &str,
        subject: String,
        body: Vec<u8>,
        reply_inbox: String,
    ) -> (r: Result<String, RelayError>)
        requires
            self.wf(),
        ensures
            res_view(r) == spec_publish(
                self.consumers(),
                component_id@,
                (MessageModel { subject: subject@, body: body@, reply_to: Some(reply_inbox@) }),
            ),
    {
        let msg = BrokerMessage { subject, body, reply_to: Some(reply_inbox) };
        if self.consumer_components.contains_key(component_id) {
            Ok(codec::encode_message(&msg))
        } else {
            Err(RelayError::ComponentNotLinked)
        }
    }

    /// The component owning a registered session, if any.
    pub fn get_session(&self, session_id: &str) -> (r: Option<String>)
        requires
            self.wf(),
        ensures
            match r {
                Some(cid) => self.spec_get_session(session_id@) == Some(cid@),
                None => self.spec_get_session(session_id@) is None,
            },
    {
        match find_session_in(&self.consumer_components, session_id) {
            Some(cid) => Some(cid),
            None => find_session_in(&self.handler_components, session_id),
        }
    }

    /// A point-in-time snapshot of every live session, each tagged with its
    /// origin: `component:<id>` for client-mode links, `ws-client:<id>` for
    /// server-mode peers.
    pub fn list_sessions(&self) -> (r: Vec<(String, String)>)
        requires
            self.wf(),
        ensures
            sview(r@) == self.spec_list_sessions(),
    {
        let mut out: Vec<(String, String)> = Vec::new();
        let ghost target1 = client_session_rows(self.consumers());
        let n1 = self.consumer_components.len();
        let mut i: usize = 0;
        proof {
            assert(sview(out@) =~= client_session_rows(self.consumers().subrange(0, 0)));
        }
        while i < n1
            invariant
                self.wf(),
                n1 == self.consumers().len(),
                i <= n1,
                sview(out@) == client_session_rows(self.consumers().subrange(0, i as int)),
            decreases n1 - i,
        {
            let p = self.consumer_components.pair_at(i);
            proof {
                let q = self.consumers().subrange(0, i + 1);
                assert(q.drop_last() =~= self.consumers().subrange(0, i as int));
                assert(q.last() == self.consumers()[i as int]);
            }
            if p.1.registered {
                let mut tag = String::from_str("component:");
                tag.append(p.0.as_str());
                out.push((p.1.session_info.session_id.clone(), tag));
                proof {
                    assert(sview(out@) =~= client_session_rows(
                        self.consumers().subrange(0, i + 1),
                    ));
                }
            } else {
                proof {
                    assert(sview(out@) =~= client_session_rows(
                        self.consumers().subrange(0, i + 1),
                    ));
                }
            }
            i += 1;
        }
        proof {
            assert(self.consumers().subrange(0, n1 as int) =~= self.consumers());
        }
        let n2 = self.handler_components.len();
        let mut j: usize = 0;
        proof {
            assert(client_session_rows(self.handlers().subrange(0, 0))
                =~= Seq::<(Seq<char>, Seq<char>)>::empty());
            assert(sview(out@) =~= target1 + client_session_rows(
                self.handlers().subrange(0, 0),
            ));
        }
        while j < n2
            invariant
                self.wf(),
                target1 == client_session_rows(self.consumers()),
                n2 == self.handlers().len(),
                j <= n2,
                sview(out@) == target1 + client_session_rows(self.handlers().subrange(0, j as int)),
            decreases n2 - j,
        {
            let p = self.handler_components.pair_at(j);
            let ghost hs = self.handlers();
            proof {
                let q = hs.subrange(0, j + 1);
                assert(q.drop_last() =~= hs.subrange(0, j as int));
                assert(q.last() == hs[j as int]);
                assert(client_session_rows(q) == client_session_rows(hs.subrange(0, j as int)) + (
                if hs[j as int].1.registered {
                    seq![(hs[j as int].1.session_info.session_id@, "component:"@ + hs[j as int].0@)]
                } else {
                    Seq::<(Seq<char>, Seq<char>)>::empty()
                }));
            }
            if p.1.registered {
                let mut tag = String::from_str("component:");
                tag.append(p.0.as_str());
                let row = (p.1.session_info.session_id.clone(), tag);
                let ghost grow = row;
                let ghost out0 = out@;
                out.push(row);
                proof {
                    assert(out@ == out0.push(grow));
                    assert(sview(out@) =~= sview(out0).push((grow.0@, grow.1@)));
                    assert(grow.0@ == hs[j as int].1.session_info.session_id@);
                    assert(grow.1@ == "component:"@ + hs[j as int].0@);
                    assert(sview(out@) =~= target1 + client_session_rows(
                        hs.subrange(0, j + 1),
                    ));
                }
            } else {
                proof {
                    assert(client_session_rows(hs.subrange(0, j + 1)) =~= client_session_rows(
                        hs.subrange(0, j as int),
                    ));
                    assert(sview(out@) =~= target1 + client_session_rows(
                        hs.subrange(0, j + 1),
                    ));
                }
            }
            j += 1;
        }
        proof {
            assert(self.handlers().subrange(0, n2 as int) =~= self.handlers());
        }
        let ghost target2 = target1 + client_session_rows(self.handlers());
        if self.server_running {
            let names = self.server_state.list_client_sessions();
            let n3 = names.len();
            let mut k: usize = 0;
            proof {
                assert(ws_session_rows(self.ws_clients().subrange(0, 0))
                    =~= Seq::<(Seq<char>, Seq<char>)>::empty());
                assert(sview(out@) =~= target2 + ws_session_rows(
                    self.ws_clients().subrange(0, 0),
                ));
            }
            while k < n3
                invariant
                    self.wf(),
                    target2 == client_session_rows(self.consumers()) + client_session_rows(
                        self.handlers(),
                    ),
                    n3 == names@.len(),
                    names@.len() == self.ws_clients().len(),
                    forall|t: int|
                        0 <= t < names@.len() ==> names@[t]@ == self.ws_clients()[t].0@,
                    k <= n3,
                    sview(out@) == target2 + ws_session_rows(self.ws_clients().subrange(0, k as int)),
                decreases n3 - k,
            {
                proof {
                    let ws = self.ws_clients();
                    let q = ws.subrange(0, k + 1);
                    assert(q.drop_last() =~= ws.subrange(0, k as int));
                    assert(q.last() == ws[k as int]);
                    assert(ws_session_rows(q) == ws_session_rows(ws.subrange(0, k as int))
                        + seq![(ws[k as int].0@, "ws-client:"@ + ws[k as int].0@)]);
                }
                let sid = names[k].clone();
                let mut tag = String::from_str("ws-client:");
                tag.append(sid.as_str());
                let row = (sid, tag);
                let ghost grow = row;
                let ghost out0 = out@;
                out.push(row);
                proof {
                    let ws = self.ws_clients();
                    assert(out@ == out0.push(grow));
                    assert(sview(out@) =~= sview(out0).push((grow.0@, grow.1@)));
                    assert(grow.0@ == ws[k as int].0@);
                    assert(grow.1@ == "ws-client:"@ + ws[k as int].0@);
                    assert(sview(out@) =~= target2 + ws_session_rows(ws.subrange(0, k + 1)));
                }
                k += 1;
            }
            proof {
                assert(self.ws_clients().subrange(0, n3 as int) =~= self.ws_clients());
                assert(sview(out@) =~= self.spec_list_sessions());
            }
        } else {
            proof {
                assert(target2 + Seq::<(Seq<char>, Seq<char>)>::empty() =~= target2);
                assert(sview(out@) =~= self.spec_list_sessions());
            }
        }
        out
    }

    /// Routes a session-addressed message: the client-mode registry first
    /// (session to component to live bundle), the server-mode table as
    /// fallback; `SessionNotFound` exactly when both fail.
    pub fn send_to_session(&self, session_id: &str, message: &BrokerMessage) -> (r: Result<
        SendRoute,
        RelayError,
    >)
        requires
            self.wf(),
        ensures
            route_view(r) == self.spec_send_route(session_id@, message@),
    {
        match self.get_session(session_id) {
            Some(cid) => {
                if self.consumer_components.contains_key(cid.as_str())
                    || self.handler_components.contains_key(cid.as_str()) {
                    Ok(SendRoute::ToComponent(cid, codec::encode_message(message)))
                } else {
                    self.ws_route(session_id, message)
                }
            },
            None => self.ws_route(session_id, message),
        }
    }

    fn ws_route(&self, session_id: &str, message: &BrokerMessage) -> (r: Result<
        SendRoute,
        RelayError,
    >)
        requires
            self.wf(),
        ensures
            route_view(r) == self.spec_ws_route(session_id@, message@),
    {
        if self.server_running {
            match self.server_state.send_to_client(session_id, codec::encode_message(message)) {
                Ok(f) => Ok(SendRoute::ToWsClient(String::from_str(session_id), f)),
                Err(e) => Err(e),
            }
        } else {
            Err(RelayError::SessionNotFound)
        }
    }

    /// One copy of the encoded frame per handler component: fan-out is best
    /// effort, each returned pair an enqueue for the embedding to attempt.
    pub fn broadcast_to_handlers(&self, msg: &BrokerMessage) -> (r: Vec<(String, String)>)
        requires
            self.wf(),
        ensures
            r@.len() == self.handlers().len(),
            forall|i: int|
                0 <= i < r@.len() ==> r@[i].0@ == self.handlers()[i].0@ && r@[i].1@ == encode_spec(
                    msg@,
                ),
    {
        let frame = codec::encode_message(msg);
        let n = self.handler_components.len();
        let mut out: Vec<(String, String)> = Vec::new();
        let mut i: usize = 0;
        while i < n
            invariant
                self.wf(),
                n == self.handlers().len(),
                i <= n,
                frame@ == encode_spec(msg@),
                out@.len() == i,
                forall|j: int|
                    0 <= j < i ==> out@[j].0@ == self.handlers()[j].0@ && out@[j].1@ == encode_spec(
                        msg@,
                    ),
            decreases n - i,
        {
            let p = self.handler_components.pair_at(i);
            out.push((p.0.clone(), frame.clone()));
            i += 1;
        }
        out
    }

    // -----------------------------------------------------------------------
    // Server mode
    // -----------------------------------------------------------------------
    /// In server mode, readies the server state and hands back the address
    /// to bind; in client mode, does nothing. The embedding binds the
    /// listener (surfacing `BindError` on failure) and reports the resolved
    /// address through `set_server_addr`.
    pub fn start_server_if_needed(&mut self) -> (r: Option<String>)
        requires
            old(self).wf(),
        ensures
            final(self).wf(),
            old(self).default_config_view().mode == Mode::Server ==> {
                &&& final(self).in_server_mode()
                &&& final(self).ws_clients() == Seq::<(String, SessionInfo)>::empty()
                &&& (match r {
                    Some(uri) => uri@ == old(self).default_config_view().uri,
                    None => false,
                })
            },
            old(self).default_config_view().mode != Mode::Server ==> *final(self) == *old(self)
                && r is None,
            final(self).consumers() == old(self).consumers(),
            final(self).handlers() == old(self).handlers(),
            final(self).default_config_view() == old(self).default_config_view(),
            final(self).server_addr_view() == old(self).server_addr_view(),
    {
        match self.default_config.mode {
            Mode::Server => {
                self.server_state = ServerState::new();
                self.server_running = true;
                Some(self.default_config.uri.clone())
            },
            Mode::Client => None,
        }
    }

    /// Records the listener's resolved address once the embedding has
    /// bound it.
    pub fn set_server_addr(&mut self, addr: String)
        requires
            old(self).wf(),
        ensures
            final(self).wf(),
            final(self).server_addr_view() == Some(addr@),
            final(self).consumers() == old(self).consumers(),
            final(self).handlers() == old(self).handlers(),
            final(self).ws_clients() == old(self).ws_clients(),
            final(self).in_server_mode() == old(self).in_server_mode(),
            final(self).default_config_view() == old(self).default_config_view(),
    {
        self.server_addr = Some(addr);
    }

    /// The server address, when the server has been bound.
    pub fn get_server_addr(&self) -> (r: Option<String>)
        ensures
            match r {
                Some(a) => self.server_addr_view() == Some(a@),
                None => self.server_addr_view() is None,
            },
    {
        match &self.server_addr {
            Some(a) => Some(a.clone()),
            None => None,
        }
    }

    /// Enters an accepted peer into the server-mode table;
    /// `NotInServerMode` when no server runs. The returned record, if any,
    /// is a replaced session of the same id.
    pub fn ws_client_connected(&mut self, info: SessionInfo) -> (r: Result<
        Option<SessionInfo>,
        RelayError,
    >)
        requires
            old(self).wf(),
        ensures
            final(self).wf(),
            final(self).consumers() == old(self).consumers(),
            final(self).handlers() == old(self).handlers(),
            final(self).in_server_mode() == old(self).in_server_mode(),
            final(self).default_config_view() == old(self).default_config_view(),
            final(self).server_addr_view() == old(self).server_addr_view(),
            !old(self).in_server_mode() ==> r == Err::<Option<SessionInfo>, RelayError>(
                RelayError::NotInServerMode,
            ) && *final(self) == *old(self),
            old(self).in_server_mode() ==> {
                &&& r == Ok::<Option<SessionInfo>, RelayError>(
                    seq_get(old(self).ws_clients(), info.session_id@),
                )
                &&& seq_get(final(self).ws_clients(), info.session_id@) == Some(info)
                &&& forall|k2: Seq<char>|
                    k2 != info.session_id@ ==> seq_get(final(self).ws_clients(), k2) == seq_get(
                        old(self).ws_clients(),
                        k2,
                    )
                &&& final(self).ws_clients().len() == old(self).ws_clients().len() + (
                if seq_get(old(self).ws_clients(), info.session_id@) is Some {
                    0int
                } else {
                    1int
                })
            },
    {
        if self.server_running {
            Ok(self.server_state.register_client(info))
        } else {
            Err(RelayError::NotInServerMode)
        }
    }

    /// Removes a peer's entry when its connection tears down.
    pub fn ws_client_disconnected(&mut self, session_id: &str) -> (r: Option<SessionInfo>)
        requires
            old(self).wf(),
        ensures
            final(self).wf(),
            final(self).consumers() == old(self).consumers(),
            final(self).handlers() == old(self).handlers(),
            final(self).in_server_mode() == old(self).in_server_mode(),
            final(self).default_config_view() == old(self).default_config_view(),
            final(self).server_addr_view() == old(self).server_addr_view(),
            r == seq_get(old(self).ws_clients(), session_id@),
            seq_get(final(self).ws_clients(), session_id@) is None,
            forall|k2: Seq<char>|
                k2 != session_id@ ==> seq_get(final(self).ws_clients(), k2) == seq_get(
                    old(self).ws_clients(),
                    k2,
                ),
            final(self).ws_clients().len() == old(self).ws_clients().len() - (
            if seq_get(old(self).ws_clients(), session_id@) is Some {
                1int
            } else {
                0int
            }),
    {
        self.server_state.remove_client(session_id)
    }

    /// The frame for one server-mode peer; `NotInServerMode` without a
    /// running server, `SessionNotFound` for an unknown session.
    pub fn send_to_ws_client(&self, session_id: &str, message: &BrokerMessage) -> (r: Result<
        String,
        RelayError,
    >)
        requires
            self.wf(),
        ensures
            !self.in_server_mode() ==> r == Err::<String, RelayError>(RelayError::NotInServerMode),
            self.in_server_mode() ==> match r {
                Ok(f) => seq_get(self.ws_clients(), session_id@) is Some && f@ == encode_spec(
                    message@,
                ),
                Err(e) => seq_get(self.ws_clients(), session_id@) is None && e
                    == RelayError::SessionNotFound,
            },
    {
        if self.server_running {
            self.server_state.send_to_client(session_id, codec::encode_message(message))
        } else {
            Err(RelayError::NotInServerMode)
        }
    }

    /// One copy of the frame per server-mode peer; the call succeeds
    /// whatever each later enqueue does. `NotInServerMode` without a
    /// running server.
    pub fn broadcast_to_clients(&self, message: &BrokerMessage) -> (r: Result<
        Vec<(String, String)>,
        RelayError,
    >)
        requires
            self.wf(),
        ensures
            !self.in_server_mode() ==> r == Err::<Vec<(String, String)>, RelayError>(
                RelayError::NotInServerMode,
            ),
            self.in_server_mode() ==> match r {
                Ok(v) => v@.len() == self.ws_clients().len() && forall|i: int|
                    0 <= i < v@.len() ==> v@[i].0@ == self.ws_clients()[i].0@ && v@[i].1@
                        == encode_spec(message@),
                Err(_) => false,
            },
    {
        if self.server_running {
            Ok(self.server_state.broadcast(codec::encode_message(message)))
        } else {
            Err(RelayError::NotInServerMode)
        }
    }

    /// The live server-mode sessions; `NotInServerMode` without a running
    /// server.
    pub fn list_ws_clients(&self) -> (r: Result<Vec<String>, RelayError>)
        requires
            self.wf(),
        ensures
            !self.in_server_mode() ==> r == Err::<Vec<String>, RelayError>(
                RelayError::NotInServerMode,
            ),
            self.in_server_mode() ==> match r {
                Ok(v) => v@.len() == self.ws_clients().len() && forall|i: int|
                    0 <= i < v@.len() ==> v@[i]@ == self.ws_clients()[i].0@,
                Err(_) => false,
            },
    {
        if self.server_running {
            Ok(self.server_state.list_client_sessions())
        } else {
            Err(RelayError::NotInServerMode)
        }
    }

    /// Clears both directories and the server-mode table and stops the
    /// server: afterwards no session is live. Idempotent, and safe to call
    /// with nothing running; the bundles the embedding still owns must be
    /// cancelled by it (cancel-on-drop).
    pub fn shutdown(&mut self)
        requires
            old(self).wf(),
        ensures
            final(self).wf(),
            final(self).consumers() == Seq::<(String, WebSocketClientBundle)>::empty(),
            final(self).handlers() == Seq::<(String, WebSocketClientBundle)>::empty(),
            final(self).ws_clients() == Seq::<(String, SessionInfo)>::empty(),
            !final(self).in_server_mode(),
            final(self).server_addr_view() is None,
            final(self).default_config_view() == old(self).default_config_view(),
            final(self).spec_list_sessions().len() == 0,
    {
        self.consumer_components.clear();
        self.handler_components.clear();
        self.server_state.clear_clients();
        self.server_running = false;
        self.server_addr = None;
        proof {
            assert(final(self).spec_list_sessions() =~= Seq::<(Seq<char>, Seq<char>)>::empty());
        }
    }
}

// ---------------------------------------------------------------------------
// Laws
// ---------------------------------------------------------------------------
/// After a consumer link of `id` succeeds, publishing to `id` yields
/// exactly one frame, and decoding that frame's envelope reproduces the
/// message's subject, body and reply subject.
pub proof fn lemma_publish_after_link(
    cons: Seq<(String, WebSocketClientBundle)>,
    id: Seq<char>,
    m: MessageModel,
    sid: Seq<char>,
)
    requires
        seq_get(cons, id) is Some,
    ensures
        spec_publish(cons, id, m) == Ok::<Seq<char>, RelayError>(encode_spec(m)),
        ({
            let d = codec::parse_message_spec(
                crate::wire::ParsedJsonModel::Obj(codec::encode_fields(m)),
                encode_spec(m),
                sid,
            );
            &&& d.subject == m.subject
            &&& d.body == m.body
            &&& m.reply_to is Some ==> d.reply_to == m.reply_to
        }),
{
    codec::lemma_codec_round_trip(m, encode_spec(m), sid);
}

/// After a consumer unlink of `id`, publishing to `id` fails with
/// `ComponentNotLinked`.
pub proof fn lemma_publish_after_unlink(
    cons: Seq<(String, WebSocketClientBundle)>,
    id: Seq<char>,
    m: MessageModel,
)
    requires
        seq_get(cons, id) is None,
    ensures
        spec_publish(cons, id, m) == Err::<Seq<char>, RelayError>(RelayError::ComponentNotLinked),
{
}

proof fn lemma_session_entries_concat(
    a: Seq<(String, WebSocketClientBundle)>,
    b: Seq<(String, WebSocketClientBundle)>,
)
    ensures
        session_entries(a + b) == session_entries(a) + session_entries(b),
    decreases b.len(),
{
    if b.len() == 0 {
        assert(a + b =~= a);
        assert(session_entries(a) + session_entries(b) =~= session_entries(a));
    } else {
        assert((a + b).drop_last() =~= a + b.drop_last());
        assert((a + b).last() == b.last());
        lemma_session_entries_concat(a, b.drop_last());
        let row = if b.last().1.registered {
            seq![(b.last().1.session_info.session_id@, b.last().0@)]
        } else {
            Seq::<(Seq<char>, Seq<char>)>::empty()
        };
        assert(session_entries(a + b) == session_entries(a) + session_entries(b.drop_last())
            + row);
        assert(session_entries(a) + session_entries(b.drop_last()) + row =~= session_entries(a)
            + (session_entries(b.drop_last()) + row));
    }
}

/// A session registry row is removed exactly once, by the teardown of its
/// own connection: dropping directory entry `i` takes with it exactly that
/// entry's registry row (one row when its session was tracked, none when it
/// was not) and no other.
pub proof fn lemma_unlink_removes_own_row(s: Seq<(String, WebSocketClientBundle)>, i: int)
    requires
        0 <= i < s.len(),
    ensures
        ({
            let row = if s[i].1.registered {
                seq![(s[i].1.session_info.session_id@, s[i].0@)]
            } else {
                Seq::<(Seq<char>, Seq<char>)>::empty()
            };
            &&& session_entries(s) == session_entries(s.subrange(0, i)) + row + session_entries(
                s.skip(i + 1),
            )
            &&& session_entries(s.remove(i)) == session_entries(s.subrange(0, i))
                + session_entries(s.skip(i + 1))
        }),
{
    let row = if s[i].1.registered {
        seq![(s[i].1.session_info.session_id@, s[i].0@)]
    } else {
        Seq::<(Seq<char>, Seq<char>)>::empty()
    };
    assert(s.remove(i) =~= s.subrange(0, i) + s.skip(i + 1));
    lemma_session_entries_concat(s.subrange(0, i), s.skip(i + 1));
    assert(s =~= s.subrange(0, i + 1) + s.skip(i + 1));
    lemma_session_entries_concat(s.subrange(0, i + 1), s.skip(i + 1));
    lemma_session_entries_snoc(s, i);
    assert(session_entries(s) == (session_entries(s.subrange(0, i)) + row) + session_entries(
        s.skip(i + 1),
    ));
    assert((session_entries(s.subrange(0, i)) + row) + session_entries(s.skip(i + 1))
        =~= session_entries(s.subrange(0, i)) + row + session_entries(s.skip(i + 1)));
}

proof fn lemma_rows_len_tracked(s: Seq<(String, WebSocketClientBundle)>)
    requires
        forall|i: int| 0 <= i < s.len() ==> s[i].1.registered,
    ensures
        client_session_rows(s).len() == s.len(),
    decreases s.len(),
{
    if s.len() > 0 {
        assert(forall|i: int| 0 <= i < s.len() - 1 ==> s.drop_last()[i] == s[i]);
        lemma_rows_len_tracked(s.drop_last());
    }
}

proof fn lemma_ws_rows_len(s: Seq<(String, SessionInfo)>)
    ensures
        ws_session_rows(s).len() == s.len(),
    decreases s.len(),
{
    if s.len() > 0 {
        lemma_ws_rows_len(s.drop_last());
    }
}

/// `list_sessions` reports exactly one row per live connection: when every
/// link was made with session tracking on, its length is the number of
/// linked consumers plus linked handlers plus server-mode peers.
pub proof fn lemma_list_sessions_counts(p: &WebSocketMessagingProvider)
    requires
        forall|i: int| 0 <= i < p.consumers().len() ==> p.consumers()[i].1.registered,
        forall|i: int| 0 <= i < p.handlers().len() ==> p.handlers()[i].1.registered,
    ensures
        p.spec_list_sessions().len() == p.consumers().len() + p.handlers().len() + (
        if p.in_server_mode() {
            p.ws_clients().len() as int
        } else {
            0int
        }),
{
    lemma_rows_len_tracked(p.consumers());
    lemma_rows_len_tracked(p.handlers());
    lemma_ws_rows_len(p.ws_clients());
}

} // verus!
