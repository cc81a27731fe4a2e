//! Connection configuration: a typed view of a string-to-string option map,
//! resolved with permissive defaults, and a per-field override-if-non-default
//! merge.

use vstd::prelude::*;
use vstd::string::StrSliceExecFns;

use crate::smap::{keys_distinct, seq_get, str_eq, sview, StrMap};

verus! {

/// The topology the relay runs in: one outbound socket per linked component,
/// or one listener accepting many inbound peers.
#[derive(Clone, Copy, Debug, PartialEq, Eq, Structural)]
pub enum Mode {
    Client,
    Server,
}

/// Mathematical image of a configuration.
pub ghost struct ConfigModel {
    pub uri: Seq<char>,
    pub auth_token: Option<Seq<char>>,
    pub connect_timeout_sec: u64,
    pub enable_session_tracking: bool,
    pub custom_headers: Seq<(Seq<char>, Seq<char>)>,
    pub mode: Mode,
}

/// Configuration for WebSocket connections.
pub struct ConnectionConfig {
    /// WebSocket server URI, or the bind address in server mode.
    pub uri: String,
    /// Optional authentication token to send with the connection.
    pub auth_token: Option<String>,
    /// Timeout for connection establishment, in seconds.
    pub connect_timeout_sec: u64,
    /// Whether sessions are entered into the session registry.
    pub enable_session_tracking: bool,
    /// Custom headers to send with the WebSocket upgrade request.
    pub custom_headers: StrMap<String>,
    /// Client or server topology.
    pub mode: Mode,
}

/// First-match lookup in a model map.
pub open spec fn mget(s: Seq<(Seq<char>, Seq<char>)>, k: Seq<char>) -> Option<Seq<char>>
    decreases s.len(),
{
    if s.len() == 0 {
        None
    } else if s[0].0 == k {
        Some(s[0].1)
    } else {
        mget(s.drop_first(), k)
    }
}

/// Lookup commutes with taking views.
pub proof fn lemma_mget_sview(s: Seq<(String, String)>, k: Seq<char>)
    ensures
        match seq_get(s, k) {
            Some(v) => mget(sview(s), k) == Some(v@),
            None => mget(sview(s), k) is None,
        },
    decreases s.len(),
{
    if s.len() > 0 {
        assert(sview(s)[0] == (s[0].0@, s[0].1@));
        if s[0].0@ != k {
            lemma_mget_sview(s.drop_first(), k);
            assert(sview(s).drop_first() =~= sview(s.drop_first()));
        }
    }
}

impl ConnectionConfig {
    /// The header map keeps its keys distinct.
    pub open spec fn wf(&self) -> bool {
        self.custom_headers.wf()
    }
}

impl View for ConnectionConfig {
    type V = ConfigModel;

    open spec fn view(&self) -> ConfigModel {
        ConfigModel {
            uri: self.uri@,
            auth_token: match self.auth_token {
                Some(t) => Some(t@),
                None => None,
            },
            connect_timeout_sec: self.connect_timeout_sec,
            enable_session_tracking: self.enable_session_tracking,
            custom_headers: sview(self.custom_headers.seq()),
            mode: self.mode,
        }
    }
}

pub open spec fn default_uri_seq() -> Seq<char> {
    "ws://127.0.0.1:8080"@
}

/// Default WebSocket endpoint used when no `URI` option is given.
pub fn default_uri() -> (r: String)
    ensures
        r@ == default_uri_seq(),
{
    String::from_str("ws://127.0.0.1:8080")
}

/// Default connection timeout in seconds.
pub fn default_timeout() -> (r: u64)
    ensures
        r == 30u64,
{
    30
}

/// Session tracking is on unless explicitly disabled.
pub fn default_session_tracking() -> (r: bool)
    ensures
        r == true,
{
    true
}

/// The configuration every field falls back to.
pub open spec fn default_config_model() -> ConfigModel {
    ConfigModel {
        uri: default_uri_seq(),
        auth_token: None,
        connect_timeout_sec: 30,
        enable_session_tracking: true,
        custom_headers: Seq::empty(),
        mode: Mode::Client,
    }
}

impl Default for ConnectionConfig {
    fn default() -> (r: ConnectionConfig)
        ensures
            r@ == default_config_model(),
            r.wf(),
    {
        let r = ConnectionConfig {
            uri: default_uri(),
            auth_token: None,
            connect_timeout_sec: default_timeout(),
            enable_session_tracking: default_session_tracking(),
            custom_headers: StrMap::new(),
            mode: Mode::Client,
        };
        proof {
            assert(sview(r.custom_headers.seq()) =~= Seq::<(Seq<char>, Seq<char>)>::empty());
        }
        r
    }
}

// ---------------------------------------------------------------------------
// Numeric and boolean option parsing
// ---------------------------------------------------------------------------
pub open spec fn is_dec_digit(c: char) -> bool {
    48 <= (c as u32) && (c as u32) <= 57
}

/// Value of a sequence of decimal digits, most significant first.
pub open spec fn digits_val(s: Seq<char>) -> int
    decreases s.len(),
{
    if s.len() == 0 {
        0
    } else {
        digits_val(s.drop_last()) * 10 + ((s.last() as u32) - 48)
    }
}

pub open spec fn all_dec_digits(s: Seq<char>) -> bool {
    forall|i: int| 0 <= i < s.len() ==> is_dec_digit(#[trigger] s[i])
}

/// The digit run of a decimal string: everything after an optional leading
/// plus sign.
pub open spec fn dec_digits_of(s: Seq<char>) -> Seq<char> {
    if s.len() > 0 && s[0] == '+' {
        s.drop_first()
    } else {
        s
    }
}

/// What `u64` parsing accepts: an optional plus sign, then one or more
/// decimal digits whose value fits in the type.
pub open spec fn parse_u64_spec(s: Seq<char>) -> Option<u64> {
    let d = dec_digits_of(s);
    if d.len() > 0 && all_dec_digits(d) && digits_val(d) <= u64::MAX {
        Some(digits_val(d) as u64)
    } else {
        None
    }
}

proof fn lemma_digits_val_nonneg(s: Seq<char>)
    requires
        all_dec_digits(s),
    ensures
        digits_val(s) >= 0,
    decreases s.len(),
{
    if s.len() > 0 {
        assert(all_dec_digits(s.drop_last())) by {
            assert(forall|i: int| 0 <= i < s.len() - 1 ==> s.drop_last()[i] == s[i]);
        }
        lemma_digits_val_nonneg(s.drop_last());
    }
}

/// A run of digits is worth at least any of its prefixes.
proof fn lemma_digits_val_prefix(s: Seq<char>, j: int)
    requires
        all_dec_digits(s),
        0 <= j <= s.len(),
    ensures
        digits_val(s) >= digits_val(s.subrange(0, j)),
    decreases s.len() - j,
{
    if j < s.len() {
        let p = s.subrange(0, j);
        let q = s.subrange(0, j + 1);
        assert(q.drop_last() =~= p);
        assert(q.last() == s[j]);
        assert(all_dec_digits(p)) by {
            assert(forall|i: int| 0 <= i < j ==> p[i] == s[i]);
        }
        lemma_digits_val_nonneg(p);
        assert(digits_val(q) == digits_val(p) * 10 + ((s[j] as u32) - 48));
        assert(digits_val(q) >= digits_val(p));
        lemma_digits_val_prefix(s, j + 1);
    } else {
        assert(s.subrange(0, j) =~= s);
    }
}

/// Decimal `u64` parsing: an optional plus sign and digits; anything else,
/// or a value over `u64::MAX`, is rejected.
pub fn parse_u64(s: &str) -> (r: Option<u64>)
    ensures
        r == parse_u64_spec(s@),
{
    let n = s.unicode_len();
    if n == 0 {
        return None;
    }
    let start: usize = if s.get_char(0) == '+' {
        1
    } else {
        0
    };
    if n == start {
        proof {
            assert(dec_digits_of(s@) =~= Seq::<char>::empty());
        }
        return None;
    }
    let ghost d = s@.subrange(start as int, n as int);
    proof {
        assert(dec_digits_of(s@) =~= d);
    }
    let mut acc: u64 = 0;
    let mut i: usize = start;
    while i < n
        invariant
            start <= i <= n,
            n == s@.len(),
            start == 0 || (start == 1 && s@[0] == '+'),
            d == s@.subrange(start as int, n as int),
            d == dec_digits_of(s@),
            forall|j: int| start <= j < i ==> is_dec_digit(#[trigger] s@[j]),
            acc == digits_val(s@.subrange(start as int, i as int)),
        decreases n - i,
    {
        let c = s.get_char(i);
        let u: u32 = c as u32;
        if u < 48 || u > 57 {
            proof {
                assert(d[i - start] == s@[i as int]);
                assert(!all_dec_digits(d));
            }
            return None;
        }
        let dg: u64 = (u - 48) as u64;
        let ghost p = s@.subrange(start as int, i as int);
        let ghost q = s@.subrange(start as int, i + 1);
        proof {
            assert(q.drop_last() =~= p);
            assert(q.last() == s@[i as int]);
            assert(digits_val(q) == digits_val(p) * 10 + dg);
        }
        if acc > (u64::MAX - dg) / 10 {
            proof {
                vstd::arithmetic::div_mod::lemma_fundamental_div_mod(
                    (u64::MAX - dg) as int,
                    10,
                );
                assert(digits_val(q) > u64::MAX);
                if all_dec_digits(d) {
                    assert(q =~= d.subrange(0, i + 1 - start));
                    lemma_digits_val_prefix(d, i + 1 - start);
                    assert(digits_val(d) > u64::MAX);
                }
            }
            return None;
        }
        acc = acc * 10 + dg;
        i += 1;
    }
    proof {
        assert(s@.subrange(start as int, n as int) =~= d);
        assert(all_dec_digits(d)) by {
            assert(forall|j: int| 0 <= j < d.len() ==> d[j] == s@[j + start]);
        }
        assert(digits_val(d) == acc);
    }
    Some(acc)
}

/// What boolean options accept: exactly `true` or `false`.
pub open spec fn parse_bool_spec(s: Seq<char>) -> Option<bool> {
    if s == "true"@ {
        Some(true)
    } else if s == "false"@ {
        Some(false)
    } else {
        None
    }
}

pub fn parse_bool(s: &str) -> (r: Option<bool>)
    ensures
        r == parse_bool_spec(s@),
{
    if str_eq(s, "true") {
        Some(true)
    } else if str_eq(s, "false") {
        Some(false)
    } else {
        None
    }
}

// ---------------------------------------------------------------------------
// Header collection and the two configuration operations
// ---------------------------------------------------------------------------
/// Option keys of the shape `HEADER_<name>` carry a custom header.
pub open spec fn is_header_key(k: Seq<char>) -> bool {
    k.len() >= 7 && k.subrange(0, 7) == "HEADER_"@
}

/// The `<name>` part of a `HEADER_<name>` key.
pub open spec fn header_name(k: Seq<char>) -> Seq<char> {
    k.skip(7)
}

/// Binding `k` to `v` in a model map: replace in place, or append.
pub open spec fn hdr_insert(
    h: Seq<(Seq<char>, Seq<char>)>,
    k: Seq<char>,
    v: Seq<char>,
) -> Seq<(Seq<char>, Seq<char>)> {
    if exists|i: int| 0 <= i < h.len() && h[i].0 == k {
        h.update(choose|i: int| 0 <= i < h.len() && h[i].0 == k, (k, v))
    } else {
        h.push((k, v))
    }
}

/// The header map collected from the first `n` option pairs.
pub open spec fn headers_resolved(o: Seq<(Seq<char>, Seq<char>)>, n: int) -> Seq<
    (Seq<char>, Seq<char>),
>
    decreases n,
{
    if n <= 0 {
        Seq::empty()
    } else {
        let h = headers_resolved(o, n - 1);
        if is_header_key(o[n - 1].0) {
            hdr_insert(h, header_name(o[n - 1].0), o[n - 1].1)
        } else {
            h
        }
    }
}

/// An exec-level insertion into a distinct-key string map is, in the model,
/// exactly `hdr_insert`.
proof fn lemma_insert_view(
    s0: Seq<(String, String)>,
    s1: Seq<(String, String)>,
    k: String,
    v: String,
)
    requires
        keys_distinct(s0),
        seq_get(s0, k@) is Some ==> exists|i: int|
            0 <= i < s0.len() && s0[i].0@ == k@ && s1 == s0.update(i, (k, v)),
        seq_get(s0, k@) is None ==> s1 == s0.push((k, v)),
    ensures
        sview(s1) == hdr_insert(sview(s0), k@, v@),
{
    let h = sview(s0);
    assert(forall|j: int| 0 <= j < s0.len() ==> h[j] == (s0[j].0@, s0[j].1@));
    if seq_get(s0, k@) is Some {
        let i = choose|i: int|
            0 <= i < s0.len() && s0[i].0@ == k@ && s1 == s0.update(i, (k, v));
        assert(h[i].0 == k@);
        let c = choose|m: int| 0 <= m < h.len() && h[m].0 == k@;
        assert(c == i);
        assert(sview(s1) =~= h.update(i, (k@, v@)));
    } else {
        crate::smap::lemma_seq_get_absent(s0, k@);
        assert(forall|m: int| 0 <= m < h.len() ==> h[m].0 != k@);
        assert(sview(s1) =~= h.push((k@, v@)));
    }
}

/// A resolved configuration: every option read with its documented default,
/// malformed numeric and boolean fields falling back rather than failing.
pub open spec fn resolve_spec(o: Seq<(Seq<char>, Seq<char>)>) -> ConfigModel {
    ConfigModel {
        uri: match mget(o, "URI"@) {
            Some(u) => u,
            None => default_uri_seq(),
        },
        auth_token: mget(o, "AUTH_TOKEN"@),
        connect_timeout_sec: match mget(o, "CONNECT_TIMEOUT_SEC"@) {
            Some(s) => match parse_u64_spec(s) {
                Some(t) => t,
                None => 30,
            },
            None => 30,
        },
        enable_session_tracking: match mget(o, "ENABLE_SESSION_TRACKING"@) {
            Some(s) => match parse_bool_spec(s) {
                Some(b) => b,
                None => true,
            },
            None => true,
        },
        custom_headers: headers_resolved(o, o.len() as int),
        mode: match mget(o, "MODE"@) {
            Some(s) => if s == "server"@ {
                Mode::Server
            } else {
                Mode::Client
            },
            None => Mode::Client,
        },
    }
}

/// The merge of `base` under `over`: a field of `over` wins exactly when it
/// differs from that field's hard-coded default; headers of `over` are laid
/// over those of `base` key by key.
pub open spec fn headers_merged(
    a: Seq<(Seq<char>, Seq<char>)>,
    b: Seq<(Seq<char>, Seq<char>)>,
    n: int,
) -> Seq<(Seq<char>, Seq<char>)>
    decreases n,
{
    if n <= 0 {
        a
    } else {
        hdr_insert(headers_merged(a, b, n - 1), b[n - 1].0, b[n - 1].1)
    }
}

pub open spec fn merge_spec(a: ConfigModel, b: ConfigModel) -> ConfigModel {
    ConfigModel {
        uri: if b.uri != default_uri_seq() {
            b.uri
        } else {
            a.uri
        },
        auth_token: if b.auth_token is Some {
            b.auth_token
        } else {
            a.auth_token
        },
        connect_timeout_sec: if b.connect_timeout_sec != 30 {
            b.connect_timeout_sec
        } else {
            a.connect_timeout_sec
        },
        enable_session_tracking: if b.enable_session_tracking != true {
            b.enable_session_tracking
        } else {
            a.enable_session_tracking
        },
        custom_headers: headers_merged(
            a.custom_headers,
            b.custom_headers,
            b.custom_headers.len() as int,
        ),
        mode: if b.mode != Mode::Client {
            b.mode
        } else {
            a.mode
        },
    }
}

/// Resolution is permissive: it is defined on every option map (missing
/// keys alone never make it fail), and a numeric or boolean field that does
/// not parse falls back to its documented default rather than erroring.
pub proof fn lemma_resolve_permissive(o: Seq<(Seq<char>, Seq<char>)>)
    ensures
        mget(o, "CONNECT_TIMEOUT_SEC"@) is None ==> resolve_spec(o).connect_timeout_sec == 30,
        forall|s: Seq<char>|
            mget(o, "CONNECT_TIMEOUT_SEC"@) == Some(s) && parse_u64_spec(s) is None ==> resolve_spec(
                o,
            ).connect_timeout_sec == 30,
        mget(o, "ENABLE_SESSION_TRACKING"@) is None ==> resolve_spec(o).enable_session_tracking
            == true,
        forall|s: Seq<char>|
            mget(o, "ENABLE_SESSION_TRACKING"@) == Some(s) && parse_bool_spec(s) is None
                ==> resolve_spec(o).enable_session_tracking == true,
        mget(o, "URI"@) is None ==> resolve_spec(o).uri == default_uri_seq(),
        mget(o, "MODE"@) is None ==> resolve_spec(o).mode == Mode::Client,
{
}

/// Merging any configuration with the defaults changes nothing: every
/// default-valued field of the override yields to the base, and the default
/// header map is empty.
pub proof fn lemma_merge_defaults(a: ConfigModel)
    ensures
        merge_spec(a, default_config_model()) == a,
{
    assert(headers_merged(a.custom_headers, Seq::empty(), 0) == a.custom_headers);
}

impl ConnectionConfig {
    /// Resolves a string option map into a typed configuration. Missing keys
    /// take their documented defaults; malformed numeric or boolean values
    /// fall back to those defaults rather than failing.
    pub fn from_map(opts: &StrMap<String>) -> (r: ConnectionConfig)
        requires
            opts.wf(),
        ensures
            r.wf(),
            r@ == resolve_spec(sview(opts.seq())),
    {
        let ghost o = sview(opts.seq());
        proof {
            lemma_mget_sview(opts.seq(), "URI"@);
            lemma_mget_sview(opts.seq(), "AUTH_TOKEN"@);
            lemma_mget_sview(opts.seq(), "CONNECT_TIMEOUT_SEC"@);
            lemma_mget_sview(opts.seq(), "ENABLE_SESSION_TRACKING"@);
            lemma_mget_sview(opts.seq(), "MODE"@);
        }
        let uri = match opts.get("URI") {
            Some(v) => v.clone(),
            None => default_uri(),
        };
        let auth_token = match opts.get("AUTH_TOKEN") {
            Some(v) => Some(v.clone()),
            None => None,
        };
        let connect_timeout_sec = match opts.get("CONNECT_TIMEOUT_SEC") {
            Some(v) => match parse_u64(v.as_str()) {
                Some(t) => t,
                None => default_timeout(),
            },
            None => default_timeout(),
        };
        let enable_session_tracking = match opts.get("ENABLE_SESSION_TRACKING") {
            Some(v) => match parse_bool(v.as_str()) {
                Some(b) => b,
                None => default_session_tracking(),
            },
            None => default_session_tracking(),
        };
        let mode = match opts.get("MODE") {
            Some(v) => if str_eq(v.as_str(), "server") {
                Mode::Server
            } else {
                Mode::Client
            },
            None => Mode::Client,
        };
        let mut custom_headers: StrMap<String> = StrMap::new();
        proof {
            assert(sview(custom_headers.seq()) =~= headers_resolved(o, 0));
        }
        let n = opts.len();
        let mut i: usize = 0;
        while i < n
            invariant
                opts.wf(),
                n == opts.seq().len(),
                i <= n,
                o == sview(opts.seq()),
                custom_headers.wf(),
                sview(custom_headers.seq()) == headers_resolved(o, i as int),
            decreases n - i,
        {
            let p = opts.pair_at(i);
            proof {
                assert(o[i as int] == (p.0@, p.1@));
            }
            let klen = p.0.as_str().unicode_len();
            if klen >= 7 {
                let pref = p.0.as_str().substring_char(0, 7);
                if str_eq(pref, "HEADER_") {
                    let name = String::from_str(p.0.as_str().substring_char(7, klen));
                    let value = p.1.clone();
                    let ghost gname = name;
                    let ghost gvalue = value;
                    let ghost h0 = custom_headers.seq();
                    proof {
                        assert(is_header_key(o[i as int].0));
                        assert(gname@ =~= header_name(o[i as int].0));
                    }
                    custom_headers.insert(name, value);
                    proof {
                        lemma_insert_view(h0, custom_headers.seq(), gname, gvalue);
                    }
                } else {
                    proof {
                        assert(!is_header_key(o[i as int].0));
                    }
                }
            } else {
                proof {
                    assert(!is_header_key(o[i as int].0));
                }
            }
            i += 1;
        }
        ConnectionConfig {
            uri,
            auth_token,
            connect_timeout_sec,
            enable_session_tracking,
            custom_headers,
            mode,
        }
    }

    /// A field-for-field copy.
    pub fn duplicate(&self) -> (r: ConnectionConfig)
        requires
            self.wf(),
        ensures
            r.wf(),
            r@ == self@,
    {
        ConnectionConfig {
            uri: self.uri.clone(),
            auth_token: match &self.auth_token {
                Some(t) => Some(t.clone()),
                None => None,
            },
            connect_timeout_sec: self.connect_timeout_sec,
            enable_session_tracking: self.enable_session_tracking,
            custom_headers: self.custom_headers.duplicate(),
            mode: self.mode,
        }
    }

    /// Merges `self` (the base) with `other` (the override): a field of
    /// `other` replaces the base field only when it differs from that field's
    /// hard-coded default; header maps are unioned with `other` winning on a
    /// shared key.
    pub fn merge(&self, other: &ConnectionConfig) -> (r: ConnectionConfig)
        requires
            self.wf(),
            other.wf(),
        ensures
            r.wf(),
            r@ == merge_spec(self@, other@),
    {
        let uri = if !str_eq(other.uri.as_str(), "ws://127.0.0.1:8080") {
            other.uri.clone()
        } else {
            self.uri.clone()
        };
        let auth_token = match &other.auth_token {
            Some(t) => Some(t.clone()),
            None => match &self.auth_token {
                Some(t) => Some(t.clone()),
                None => None,
            },
        };
        let connect_timeout_sec = if other.connect_timeout_sec != 30 {
            other.connect_timeout_sec
        } else {
            self.connect_timeout_sec
        };
        let enable_session_tracking = if other.enable_session_tracking != true {
            other.enable_session_tracking
        } else {
            self.enable_session_tracking
        };
        let mode = match other.mode {
            Mode::Server => Mode::Server,
            Mode::Client => self.mode,
        };
        let ghost ha = sview(self.custom_headers.seq());
        let ghost hb = sview(other.custom_headers.seq());
        let mut custom_headers = self.custom_headers.duplicate();
        let n = other.custom_headers.len();
        let mut i: usize = 0;
        while i < n
            invariant
                self.wf(),
                other.wf(),
                ha == sview(self.custom_headers.seq()),
                hb == sview(other.custom_headers.seq()),
                n == other.custom_headers.seq().len(),
                i <= n,
                custom_headers.wf(),
                sview(custom_headers.seq()) == headers_merged(ha, hb, i as int),
            decreases n - i,
        {
            let p = other.custom_headers.pair_at(i);
            proof {
                assert(hb[i as int] == (p.0@, p.1@));
            }
            let k = p.0.clone();
            let v = p.1.clone();
            let ghost gk = k;
            let ghost gv = v;
            let ghost h0 = custom_headers.seq();
            custom_headers.insert(k, v);
            proof {
                lemma_insert_view(h0, custom_headers.seq(), gk, gv);
            }
            i += 1;
        }
        ConnectionConfig {
            uri,
            auth_token,
            connect_timeout_sec,
            enable_session_tracking,
            custom_headers,
            mode,
        }
    }
}

} // verus!
