//! A configuration as text for developers, without its secrets.

use vstd::prelude::*;
use crate::config::{
    opt_timer, AppConfig, ConfigModel, ServerConfig, ServerModel, ServerTimerConfig, TimerModel,
};
use crate::number::{decimal, decimal_text};
use crate::text::{join, joined, opt_text, texts};

verus! {

/// A text in quotes, with what is not printable escaped.
pub uninterp spec fn debug_str(s: Seq<char>) -> Seq<char>;

/// The text that `format!` of std gives for a `str` with `{:?}`.
#[verifier::external_body]
fn debug_text_of(s: &str) -> (r: String)
    ensures
        r@ == debug_str(s@),
{
    format!("{:?}", s)
}

pub open spec fn some_of(inner: Option<Seq<char>>) -> Seq<char> {
    match inner {
        Some(t) => "Some("@ + t + ")"@,
        None => "None"@,
    }
}

fn some_text(inner: Option<String>) -> (r: String)
    ensures
        r@ == some_of(opt_text(inner)),
{
    match inner {
        Some(t) => {
            let mut r = "Some(".to_owned();
            r.append(t.as_str());
            r.append(")");
            r
        },
        None => "None".to_owned(),
    }
}

pub open spec fn opt_debug(o: Option<Seq<char>>) -> Seq<char> {
    some_of(
        match o {
            Some(s) => Some(debug_str(s)),
            None => None,
        },
    )
}

fn opt_debug_text(o: &Option<String>) -> (r: String)
    ensures
        r@ == opt_debug(opt_text(*o)),
{
    match o {
        Some(s) => some_text(Some(debug_text_of(s.as_str()))),
        None => some_text(None),
    }
}

/// What is shown of a secret: that there is one.
pub open spec fn hidden_debug(present: bool) -> Seq<char> {
    if present {
        "Some(\"<redacted>\")"@
    } else {
        "None"@
    }
}

fn hidden_text(present: bool) -> (r: String)
    ensures
        r@ == hidden_debug(present),
{
    if present {
        "Some(\"<redacted>\")".to_owned()
    } else {
        "None".to_owned()
    }
}

pub open spec fn bool_debug(b: bool) -> Seq<char> {
    if b {
        "true"@
    } else {
        "false"@
    }
}

fn bool_text(b: bool) -> (r: &'static str)
    ensures
        r@ == bool_debug(b),
{
    if b {
        "true"
    } else {
        "false"
    }
}

pub open spec fn timer_debug(t: Option<TimerModel>) -> Seq<char> {
    some_of(
        match t {
            Some(m) => Some(
                "ServerTimerConfig { enabled: "@ + bool_debug(m.enabled) + ", cron: "@ + opt_debug(
                    m.cron,
                ) + " }"@,
            ),
            None => None,
        },
    )
}

fn timer_text(t: &Option<ServerTimerConfig>) -> (r: String)
    ensures
        r@ == timer_debug(opt_timer(*t)),
{
    match t {
        Some(m) => {
            let mut s = "ServerTimerConfig { enabled: ".to_owned();
            s.append(bool_text(m.enabled));
            s.append(", cron: ");
            s.append(opt_debug_text(&m.cron).as_str());
            s.append(" }");
            some_text(Some(s))
        },
        None => some_text(None),
    }
}

pub open spec fn server_debug(s: ServerModel) -> Seq<char> {
    "ServerConfig { id: "@ + debug_str(s.id) + ", name: "@ + debug_str(s.name)
        + ", token: <redacted>, enabled: "@ + bool_debug(s.enabled) + ", address: "@ + opt_debug(
        s.address,
    ) + ", country: "@ + opt_debug(s.country) + ", flag: "@ + opt_debug(s.flag)
        + ", resolved_ip: "@ + opt_debug(s.resolved_ip) + ", timer: "@ + timer_debug(s.timer)
        + " }"@
}

impl ServerConfig {
    /// The server as text, without its token.
    pub fn debug_text(&self) -> (r: String)
        ensures
            r@ == server_debug(self@),
    {
        let mut r = "ServerConfig { id: ".to_owned();
        r.append(debug_text_of(self.id.as_str()).as_str());
        r.append(", name: ");
        r.append(debug_text_of(self.name.as_str()).as_str());
        r.append(", token: <redacted>, enabled: ");
        r.append(bool_text(self.enabled));
        r.append(", address: ");
        r.append(opt_debug_text(&self.address).as_str());
        r.append(", country: ");
        r.append(opt_debug_text(&self.country).as_str());
        r.append(", flag: ");
        r.append(opt_debug_text(&self.flag).as_str());
        r.append(", resolved_ip: ");
        r.append(opt_debug_text(&self.resolved_ip).as_str());
        r.append(", timer: ");
        r.append(timer_text(&self.timer).as_str());
        r.append(" }");
        r
    }
}

pub open spec fn server_debugs(servers: Seq<ServerModel>) -> Seq<Seq<char>> {
    Seq::new(servers.len(), |i: int| server_debug(servers[i]))
}

/// A configuration as text, without tokens and pairing code.
pub open spec fn config_debug(c: ConfigModel) -> Seq<char> {
    "AppConfig { servers: ["@ + joined(server_debugs(c.servers), ", "@) + "], global_timer: "@
        + timer_debug(c.global_timer) + ", tg_token: "@ + hidden_debug(c.tg_token is Some)
        + ", tg_chat_id: "@ + opt_debug(c.tg_chat_id) + ", tg_pair_code: "@ + hidden_debug(
        c.tg_pair_code is Some,
    ) + ", tg_pair_expires_at: "@ + some_of(
        match c.tg_pair_expires_at {
            Some(t) => Some(decimal(t as nat)),
            None => None,
        },
    ) + ", migration_notice: "@ + opt_debug(c.migration_notice) + " }"@
}

impl AppConfig {
    /// The configuration as text, without tokens and pairing code.
    pub fn debug_text(&self) -> (r: String)
        ensures
            r@ == config_debug(self@),
    {
        let mut parts: Vec<String> = Vec::new();
        let mut i: usize = 0;
        while i < self.servers.len()
            invariant
                i <= self.servers@.len(),
                parts@.len() == i,
                forall|k: int|
                    0 <= k < i ==> (#[trigger] parts@[k])@ == server_debug(self.servers@[k]@),
            decreases self.servers@.len() - i,
        {
            parts.push(self.servers[i].debug_text());
            i += 1;
        }
        assert(texts(parts@) =~= server_debugs(self@.servers));
        let mut r = "AppConfig { servers: [".to_owned();
        r.append(join(&parts, ", ").as_str());
        r.append("], global_timer: ");
        r.append(timer_text(&self.global_timer).as_str());
        r.append(", tg_token: ");
        r.append(hidden_text(self.tg_token.is_some()).as_str());
        r.append(", tg_chat_id: ");
        r.append(opt_debug_text(&self.tg_chat_id).as_str());
        r.append(", tg_pair_code: ");
        r.append(hidden_text(self.tg_pair_code.is_some()).as_str());
        r.append(", tg_pair_expires_at: ");
        let expires = match self.tg_pair_expires_at {
            Some(t) => some_text(Some(decimal_text(t))),
            None => some_text(None),
        };
        r.append(expires.as_str());
        r.append(", migration_notice: ");
        r.append(opt_debug_text(&self.migration_notice).as_str());
        r.append(" }");
        r
    }
}

/// The servers are the same but for the token.
pub open spec fn alike(a: ServerModel, b: ServerModel) -> bool {
    a == (ServerModel { token: a.token, ..b })
}

pub open spec fn all_alike(a: Seq<ServerModel>, b: Seq<ServerModel>) -> bool {
    &&& a.len() == b.len()
    &&& forall|i: int| 0 <= i < a.len() ==> alike(#[trigger] a[i], b[i])
}

/// Two configurations that differ in their secrets only.
pub open spec fn same_but_secrets(a: ConfigModel, b: ConfigModel) -> bool {
    &&& all_alike(a.servers, b.servers)
    &&& a.global_timer == b.global_timer
    &&& (a.tg_token is Some) == (b.tg_token is Some)
    &&& a.tg_chat_id == b.tg_chat_id
    &&& (a.tg_pair_code is Some) == (b.tg_pair_code is Some)
    &&& a.tg_pair_expires_at == b.tg_pair_expires_at
    &&& a.migration_notice == b.migration_notice
}

/// The text shows nothing of the secrets: it is the same whatever they are.
pub proof fn debug_text_hides_secrets(a: ConfigModel, b: ConfigModel)
    requires
        same_but_secrets(a, b),
    ensures
        config_debug(a) == config_debug(b),
{
    assert(server_debugs(a.servers) =~= server_debugs(b.servers)) by {
        assert forall|i: int| 0 <= i < a.servers.len() implies server_debug(a.servers[i])
            == server_debug(b.servers[i]) by {
            assert(alike(a.servers[i], b.servers[i]));
        }
    }
}

} // verus!
