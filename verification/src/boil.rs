//! The Boil Token API: where requests go, and what the replies mean.

use vstd::prelude::*;
use crate::config::SecretToken;
use crate::number::decimal;
use crate::redact::{redact, redacted};
use crate::text::{
    at_most, chars_of, ends_with, first_index, has_char, has_suffix, index_from, is_blank,
    is_blank_text, opt_text, rest, slice_text, take_chars,
};

verus! {

// ---------------------------------------------------------------------------
// Addresses and status codes
// ---------------------------------------------------------------------------

/// An IP address, held as the text that it is shown by. Each address has one such text.
#[derive(Debug, PartialEq, Eq)]
pub struct IpAddress {
    pub text: String,
}

impl View for IpAddress {
    type V = Seq<char>;

    open spec fn view(&self) -> Seq<char> {
        self.text@
    }
}

impl Clone for IpAddress {
    fn clone(&self) -> (r: Self)
        ensures
            r == *self,
    {
        IpAddress { text: self.text.clone() }
    }
}

impl IpAddress {
    pub fn same(&self, other: &IpAddress) -> (r: bool)
        ensures
            r == (self@ == other@),
    {
        self.text == other.text
    }
}

pub open spec fn opt_ip(o: Option<IpAddress>) -> Option<Seq<char>> {
    match o {
        Some(ip) => Some(ip@),
        None => None,
    }
}

/// The phrase that belongs to an HTTP status code.
pub uninterp spec fn http_reason(code: u16) -> Seq<char>;

/// The text by which an HTTP status code is shown.
pub open spec fn http_status_text(code: u16) -> Seq<char> {
    decimal(code as nat) + " "@ + http_reason(code)
}

/// `StatusCode::to_string` of the crate `reqwest` gives the text of a status code: the
/// number, a space and the phrase that belongs to it. A code has three digits.
#[verifier::external_body]
fn status_code_text(code: u16) -> (r: String)
    requires
        100 <= code <= 999,
    ensures
        r@ == decimal(code as nat) + " "@ + http_reason(code),
{
    reqwest::StatusCode::from_u16(code).map_or_else(|e| e.to_string(), |s| s.to_string())
}

/// An HTTP status code: a number of three digits.
#[derive(Clone, Copy, Debug, PartialEq, Eq)]
pub struct HttpStatus {
    code: u16,
}

impl HttpStatus {
    #[verifier::type_invariant]
    spec fn three_digits(self) -> bool {
        100 <= self.code <= 999
    }

    pub closed spec fn view(&self) -> u16 {
        self.code
    }

    pub fn from_u16(code: u16) -> (r: Option<HttpStatus>)
        ensures
            match r {
                Some(s) => 100 <= code <= 999 && s@ == code,
                None => !(100 <= code <= 999),
            },
    {
        if 100 <= code && code <= 999 {
            Some(HttpStatus { code })
        } else {
            None
        }
    }

    pub fn as_u16(&self) -> (r: u16)
        ensures
            r == self@,
            100 <= r <= 999,
    {
        proof {
            use_type_invariant(self);
        }
        self.code
    }

    pub fn is_success(&self) -> (r: bool)
        ensures
            r == (200 <= self@ <= 299),
    {
        200 <= self.code && self.code <= 299
    }

    pub fn text(&self) -> (r: String)
        ensures
            r@ == http_status_text(self@),
    {
        status_code_text(self.as_u16())
    }
}

// ---------------------------------------------------------------------------
// Replies
// ---------------------------------------------------------------------------

#[derive(Debug, PartialEq, Eq)]
pub struct GetIpResponse {
    pub ok: bool,
    pub ip: IpAddress,
}

#[derive(Clone, Debug, PartialEq, Eq)]
pub struct ChangeIpResponse {
    pub ok: bool,
    pub message: String,
    pub uses_left: Option<u32>,
    pub next_allowed_at: Option<i64>,
}

#[derive(Clone, Debug, PartialEq, Eq)]
pub struct ApiErrorResponse {
    pub error: String,
}

/// The fields of a reply to a query of the address.
#[derive(Clone, Debug, PartialEq, Eq)]
pub struct RawGetIpResponse {
    pub ok: bool,
    pub ip: Option<String>,
    pub error: Option<String>,
}

/// The fields of a reply to a change of the address.
#[derive(Clone, Debug, PartialEq, Eq)]
pub struct RawChangeIpResponse {
    pub ok: bool,
    pub message: Option<String>,
    pub uses_left: Option<u32>,
    pub next_allowed_at: Option<i64>,
    pub error: Option<String>,
}

#[allow(inconsistent_fields)]
#[derive(Debug, PartialEq, Eq)]
pub enum BoilApiError {
    Transport(String),
    HttpStatus { status: HttpStatus },
    ApiRejected { status: Option<HttpStatus>, message: String },
    InvalidJson { status: HttpStatus },
    InvalidResponse(String),
}

/// The text of an error.
pub open spec fn api_error_text(e: BoilApiError) -> Seq<char> {
    match e {
        BoilApiError::Transport(m) => "Boil API transport error: "@ + m@,
        BoilApiError::HttpStatus { status } => "Boil API returned HTTP status "@
            + http_status_text(status@),
        BoilApiError::ApiRejected { status, message } => match status {
            Some(s) => "Boil API rejected request with HTTP "@ + http_status_text(s@) + ": "@
                + message@,
            None => "Boil API rejected request: "@ + message@,
        },
        BoilApiError::InvalidJson { status } => "Boil API returned invalid JSON with HTTP "@
            + http_status_text(status@),
        BoilApiError::InvalidResponse(m) => "Boil API invalid response: "@ + m@,
    }
}

impl BoilApiError {
    pub fn text(&self) -> (r: String)
        ensures
            r@ == api_error_text(*self),
    {
        match self {
            BoilApiError::Transport(m) => {
                let mut r = "Boil API transport error: ".to_owned();
                r.append(m.as_str());
                r
            },
            BoilApiError::HttpStatus { status } => {
                let mut r = "Boil API returned HTTP status ".to_owned();
                r.append(status.text().as_str());
                r
            },
            BoilApiError::ApiRejected { status, message } => match status {
                Some(s) => {
                    let mut r = "Boil API rejected request with HTTP ".to_owned();
                    r.append(s.text().as_str());
                    r.append(": ");
                    r.append(message.as_str());
                    r
                },
                None => {
                    let mut r = "Boil API rejected request: ".to_owned();
                    r.append(message.as_str());
                    r
                },
            },
            BoilApiError::InvalidJson { status } => {
                let mut r = "Boil API returned invalid JSON with HTTP ".to_owned();
                r.append(status.text().as_str());
                r
            },
            BoilApiError::InvalidResponse(m) => {
                let mut r = "Boil API invalid response: ".to_owned();
                r.append(m.as_str());
                r
            },
        }
    }
}

/// Line ends become spaces.
pub open spec fn flat_char(c: char) -> char {
    if c == '\r' || c == '\n' {
        ' '
    } else {
        c
    }
}

/// A message of the API on one line, cut after two hundred characters.
pub open spec fn safe_message(message: Seq<char>) -> Seq<char> {
    at_most(Seq::new(message.len(), |i: int| flat_char(message[i])), 200)
}

pub fn safe_api_message(message: &str) -> (r: String)
    ensures
        r@ == safe_message(message@),
{
    let cs = chars_of(message);
    let mut flat = String::new();
    let mut i: usize = 0;
    let ghost whole = Seq::new(message@.len(), |i: int| flat_char(message@[i]));
    while i < cs.len()
        invariant
            cs@ == message@,
            whole == Seq::new(message@.len(), |i: int| flat_char(message@[i])),
            i <= cs@.len(),
            flat@ == whole.subrange(0, i as int),
        decreases cs@.len() - i,
    {
        let c = cs[i];
        flat.push(
            if c == '\r' || c == '\n' {
                ' '
            } else {
                c
            },
        );
        i += 1;
        assert(flat@ =~= whole.subrange(0, i as int));
    }
    assert(flat@ =~= whole);
    take_chars(flat.as_str(), 200)
}

/// A message of the API is shown on one line: its first two hundred characters, with a space
/// for each line end.
pub proof fn shown_message_is_one_short_line(message: Seq<char>, i: int)
    ensures
        safe_message(message).len() <= 200,
        message.len() <= 200 ==> safe_message(message).len() == message.len(),
        message.len() > 200 ==> safe_message(message).len() == 200,
        0 <= i < safe_message(message).len() ==> {
            let c = safe_message(message)[i];
            &&& c != '\n' && c != '\r'
            &&& message[i] == '\n' || message[i] == '\r' ==> c == ' '
            &&& message[i] != '\n' && message[i] != '\r' ==> c == message[i]
        },
{
}

/// What is said of a reply that is not ok.
pub open spec fn rejection(error: Option<Seq<char>>) -> Seq<char> {
    match error {
        Some(e) => safe_message(e),
        None => safe_message("ok=false"@),
    }
}

/// A reply that is not ok is told with its own message, where it has one.
pub proof fn rejection_tells_the_message(message: Seq<char>, i: int)
    requires
        message.len() <= 200,
        forall|k: int| 0 <= k < message.len() ==> #[trigger] message[k] != '\n' && message[k] != '\r',
    ensures
        rejection(Some(message)) == message,
        rejection(None) == "ok=false"@,
{
    assert(rejection(Some(message)) =~= message);
    reveal_strlit("ok=false");
    assert(rejection(None) =~= "ok=false"@);
}

fn rejected(error: &Option<String>) -> (r: BoilApiError)
    ensures
        r matches BoilApiError::ApiRejected { status, message } && status is None && message@
            == rejection(opt_text(*error)),
{
    let message = match error {
        Some(e) => safe_api_message(e.as_str()),
        None => safe_api_message("ok=false"),
    };
    BoilApiError::ApiRejected { status: None, message }
}

/// Reads the reply to a query of the address. `raw` holds the fields of the body, or
/// `None` where it is no such JSON object; `address` is the address that the text of
/// the field `ip` denotes, if it is there and denotes one.
pub fn parse_get_ip_response(
    status: HttpStatus,
    raw: Option<RawGetIpResponse>,
    address: Option<IpAddress>,
) -> (r: Result<GetIpResponse, BoilApiError>)
    ensures
        match raw {
            None => r matches Err(BoilApiError::InvalidJson { status: s }) && s == status,
            Some(raw) => if !raw.ok {
                r matches Err(BoilApiError::ApiRejected { status: s, message }) && s is None
                    && message@ == rejection(opt_text(raw.error))
            } else if raw.ip is None {
                r matches Err(BoilApiError::InvalidResponse(m)) && m@ == "getIP missing ip"@
            } else {
                match address {
                    None => r matches Err(BoilApiError::InvalidResponse(m)) && m@
                        == "getIP returned invalid ip"@,
                    Some(ip) => r matches Ok(reply) && reply.ok && reply.ip == ip,
                }
            },
        },
{
    match raw {
        None => Err(BoilApiError::InvalidJson { status }),
        Some(raw) => {
            if !raw.ok {
                return Err(rejected(&raw.error));
            }
            if raw.ip.is_none() {
                return Err(BoilApiError::InvalidResponse("getIP missing ip".to_owned()));
            }
            match address {
                None => Err(BoilApiError::InvalidResponse("getIP returned invalid ip".to_owned())),
                Some(ip) => Ok(GetIpResponse { ok: raw.ok, ip }),
            }
        },
    }
}

/// Reads the reply to a change of the address; `raw` as above.
pub fn parse_change_ip_response(status: HttpStatus, raw: Option<RawChangeIpResponse>) -> (r: Result<
    ChangeIpResponse,
    BoilApiError,
>)
    ensures
        match raw {
            None => r matches Err(BoilApiError::InvalidJson { status: s }) && s == status,
            Some(raw) => if !raw.ok {
                r matches Err(BoilApiError::ApiRejected { status: s, message }) && s is None
                    && message@ == rejection(opt_text(raw.error))
            } else {
                match raw.message {
                    None => r matches Err(BoilApiError::InvalidResponse(m)) && m@
                        == "changeIP missing message"@,
                    Some(message) => r == Ok::<_, BoilApiError>(
                        (ChangeIpResponse {
                            ok: true,
                            message,
                            uses_left: raw.uses_left,
                            next_allowed_at: raw.next_allowed_at,
                        }),
                    ),
                }
            },
        },
{
    match raw {
        None => Err(BoilApiError::InvalidJson { status }),
        Some(raw) => {
            if !raw.ok {
                return Err(rejected(&raw.error));
            }
            match raw.message {
                None => Err(BoilApiError::InvalidResponse("changeIP missing message".to_owned())),
                Some(message) => Ok(
                    ChangeIpResponse {
                        ok: raw.ok,
                        message,
                        uses_left: raw.uses_left,
                        next_allowed_at: raw.next_allowed_at,
                    },
                ),
            }
        },
    }
}

/// The message of an error reply. `error` is what the body decodes to, or `None` where
/// it is no JSON object with an error.
pub fn parse_api_error(status: HttpStatus, body: &str, error: Option<ApiErrorResponse>) -> (r:
    Result<String, BoilApiError>)
    ensures
        if is_blank(body@) {
            r matches Err(BoilApiError::HttpStatus { status: s }) && s == status
        } else {
            match error {
                Some(e) => r matches Ok(m) && m@ == safe_message(e.error@),
                None => if status@ == 400 {
                    r matches Err(BoilApiError::InvalidJson { status: s }) && s == status
                } else {
                    r matches Err(BoilApiError::HttpStatus { status: s }) && s == status
                },
            }
        },
{
    if is_blank_text(body) {
        return Err(BoilApiError::HttpStatus { status });
    }
    match error {
        Some(e) => Ok(safe_api_message(e.error.as_str())),
        None => {
            if status.as_u16() == 400 {
                Err(BoilApiError::InvalidJson { status })
            } else {
                Err(BoilApiError::HttpStatus { status })
            }
        },
    }
}

pub fn redact_token(value: &str, token: &SecretToken) -> (r: String)
    ensures
        r@ == redacted(value@, token@),
{
    redact(value, token.expose_secret())
}

/// What a reply comes to: its body, where the status is a success, and otherwise an
/// error. `body` is without the token; `error` is what it decodes to as an error.
pub fn accept_reply(status: HttpStatus, body: String, error: Option<ApiErrorResponse>) -> (r:
    Result<(HttpStatus, String), BoilApiError>)
    ensures
        if 200 <= status@ <= 299 {
            r == Ok::<_, BoilApiError>((status, body))
        } else if is_blank(body@) {
            r matches Err(BoilApiError::HttpStatus { status: s }) && s == status
        } else {
            match error {
                Some(e) => r matches Err(BoilApiError::ApiRejected { status: s, message }) && s
                    == Some(status) && message@ == safe_message(e.error@),
                None => if status@ == 400 {
                    r matches Err(BoilApiError::InvalidJson { status: s }) && s == status
                } else {
                    r matches Err(BoilApiError::HttpStatus { status: s }) && s == status
                },
            }
        },
{
    if status.is_success() {
        Ok((status, body))
    } else {
        match parse_api_error(status, body.as_str(), error) {
            Ok(message) => Err(BoilApiError::ApiRejected { status: Some(status), message }),
            Err(e) => Err(e),
        }
    }
}

/// What is said of a request that brought no reply.
pub fn sanitize_transport_error(timed_out: bool, not_connected: bool) -> (r: &'static str)
    ensures
        r@ == (if timed_out {
            "request timed out"@
        } else if not_connected {
            "connection failed"@
        } else {
            "request failed"@
        }),
{
    if timed_out {
        "request timed out"
    } else if not_connected {
        "connection failed"
    } else {
        "request failed"
    }
}

// ---------------------------------------------------------------------------
// Where requests go
// ---------------------------------------------------------------------------

/// The path of a URL; `None` for a text that is no URL.
pub uninterp spec fn url_path(url: Seq<char>) -> Option<Seq<char>>;

/// A URL in its normal form; `None` for a text that is no URL.
pub uninterp spec fn url_text(url: Seq<char>) -> Option<Seq<char>>;

/// A URL with another path; `None` for a text that is no URL.
pub uninterp spec fn url_with_path(url: Seq<char>, path: Seq<char>) -> Option<Seq<char>>;

/// The URL that a reference denotes on a page with the URL `base`; `None` where `base`
/// is no URL or there is none.
pub uninterp spec fn url_joined(base: Seq<char>, reference: Seq<char>) -> Option<Seq<char>>;

/// `Url::path` of the crate `reqwest`, on the URL that the text denotes.
#[verifier::external_body]
fn path_of_url(url: &str) -> (r: Option<String>)
    ensures
        opt_text(r) == url_path(url@),
{
    reqwest::Url::parse(url).ok().map(|u| u.path().to_string())
}

/// `Url::to_string` of the crate `reqwest`, on the URL that the text denotes.
#[verifier::external_body]
fn normal_url(url: &str) -> (r: Option<String>)
    ensures
        opt_text(r) == url_text(url@),
{
    reqwest::Url::parse(url).ok().map(|u| u.to_string())
}

/// How many bytes a character of a path takes in a URL at most: those that stand for
/// themselves take one, others are written as `%` and two digits for each byte.
pub open spec fn path_char_len(c: char) -> nat {
    if '!' <= c <= '~' && c != '"' && c != '#' && c != '<' && c != '>' && c != '?' && c != '`' && c
        != '{' && c != '}' {
        1
    } else if c <= '\u{7f}' {
        3
    } else {
        12
    }
}

pub open spec fn path_len(path: Seq<char>) -> nat
    decreases path.len(),
{
    if path.len() == 0 {
        0
    } else {
        path_len(path.drop_last()) + path_char_len(path.last())
    }
}

/// The last position in a URL that is counted in 32 bits: where the fragment begins, else
/// where the query begins, else the end.
pub open spec fn last_mark(url: Seq<char>) -> nat {
    if has_char(url, '#') {
        first_index(url, '#')
    } else {
        first_index(url, '?')
    }
}

/// Whether the positions in the URL can be counted in 32 bits, with its own path and with
/// this one. Four bytes are left for what may be put in front of a path.
pub open spec fn path_fits(url: Seq<char>, path: Seq<char>) -> bool {
    match (url_text(url), url_path(url)) {
        (Some(t), Some(p)) => {
            &&& last_mark(t) <= u32::MAX
            &&& last_mark(t) + path_len(path) + 4 <= u32::MAX + p.len()
        },
        _ => true,
    }
}

/// `Url::set_path` of the crate `reqwest`, on the URL that the text denotes. It panics
/// where a position in the URL cannot be counted in 32 bits.
#[verifier::external_body]
fn set_url_path(url: &str, path: &str) -> (r: Option<String>)
    requires
        path_fits(url@, path@),
    ensures
        opt_text(r) == url_with_path(url@, path@),
{
    let mut parsed = reqwest::Url::parse(url).ok()?;
    parsed.set_path(path);
    Some(parsed.to_string())
}

/// `Url::join` of the crate `reqwest`, on the URL that the text denotes.
#[verifier::external_body]
fn join_url(base: &str, reference: &str) -> (r: Option<String>)
    ensures
        opt_text(r) == url_joined(base@, reference@),
{
    let parsed = reqwest::Url::parse(base).ok()?;
    parsed.join(reference).ok().map(|u| u.to_string())
}

/// A path that does not end with a slash, with one.
pub fn directory_path(path: &str) -> (r: Option<String>)
    ensures
        opt_text(r) == (if ends_with(path@, seq!['/']) {
            None
        } else {
            Some(path@.push('/'))
        }),
{
    proof {
        reveal_strlit("/");
        assert("/"@ =~= seq!['/']);
    }
    if has_suffix(path, "/") {
        None
    } else {
        let mut p = path.to_owned();
        p.push('/');
        Some(p)
    }
}

/// The URL that a base URL is used as: one whose path ends with a slash. `None` for a
/// text that is no URL.
pub open spec fn base_url(url: Seq<char>) -> Option<Seq<char>> {
    match url_path(url) {
        None => None,
        Some(p) => if ends_with(p, seq!['/']) {
            url_text(url)
        } else {
            url_with_path(url, p.push('/'))
        },
    }
}

/// There is room for a slash at the end of the path, where it is missing.
pub open spec fn base_url_fits(url: Seq<char>) -> bool {
    url_path(url) matches Some(p) ==> ends_with(p, seq!['/']) || path_fits(url, p.push('/'))
}

fn measure_path(path: &str) -> (r: u128)
    ensures
        r == path_len(path@),
        r <= 12 * path@.len(),
{
    let cs = chars_of(path);
    let mut n: u128 = 0;
    let mut i: usize = 0;
    while i < cs.len()
        invariant
            cs@ == path@,
            i <= cs@.len(),
            n == path_len(path@.subrange(0, i as int)),
            n <= 12 * i,
        decreases cs@.len() - i,
    {
        let c = cs[i];
        let ghost t = path@.subrange(0, i + 1);
        assert(t.drop_last() =~= path@.subrange(0, i as int));
        assert(t.last() == c);
        n = n + if '!' <= c && c <= '~' && c != '"' && c != '#' && c != '<' && c != '>' && c != '?'
            && c != '`' && c != '{' && c != '}' {
            1
        } else if c <= '\u{7f}' {
            3
        } else {
            12
        };
        i += 1;
    }
    assert(path@.subrange(0, i as int) =~= path@);
    n
}

fn find_last_mark(url: &str) -> (r: usize)
    ensures
        r == last_mark(url@),
{
    let cs = chars_of(url);
    assert(rest(url@, 0) =~= url@);
    let n = index_from(&cs, '#', 0);
    if n < cs.len() {
        n
    } else {
        index_from(&cs, '?', 0)
    }
}

fn has_room_for_slash(url: &str) -> (r: bool)
    ensures
        r == base_url_fits(url@),
{
    match (path_of_url(url), normal_url(url)) {
        (Some(p), Some(t)) => match directory_path(p.as_str()) {
            None => true,
            Some(q) => {
                let mark: u128 = find_last_mark(t.as_str()) as u128;
                let old_len: u128 = p.as_str().unicode_len() as u128;
                let new_len: u128 = measure_path(q.as_str());
                mark <= u32::MAX as u128 && mark + new_len + 4 <= u32::MAX as u128 + old_len
            },
        },
        _ => true,
    }
}

pub fn parse_base_url(url: &str) -> (r: Option<String>)
    requires
        base_url_fits(url@),
    ensures
        opt_text(r) == base_url(url@),
{
    match path_of_url(url) {
        None => None,
        Some(p) => match directory_path(p.as_str()) {
            None => normal_url(url),
            Some(q) => set_url_path(url, q.as_str()),
        },
    }
}

/// `s` without leading slashes.
pub open spec fn without_slashes(s: Seq<char>) -> Seq<char>
    decreases s.len(),
{
    if s.len() > 0 && s[0] == '/' {
        without_slashes(rest(s, 1))
    } else {
        s
    }
}

fn trim_slashes(s: &str) -> (r: String)
    ensures
        r@ == without_slashes(s@),
{
    let cs = chars_of(s);
    let mut i: usize = 0;
    assert(rest(s@, 0) =~= s@);
    while i < cs.len() && cs[i] == '/'
        invariant
            cs@ == s@,
            i <= cs@.len(),
            without_slashes(rest(s@, i as int)) == without_slashes(s@),
        decreases cs@.len() - i,
    {
        let ghost t = rest(s@, i as int);
        assert(t[0] == s@[i as int]);
        assert(rest(t, 1) =~= rest(s@, i + 1));
        i += 1;
    }
    proof {
        if i < cs@.len() {
            assert(rest(s@, i as int)[0] == s@[i as int]);
        }
    }
    slice_text(&cs, i, cs.len())
}

/// Where the API is found.
#[derive(Debug, PartialEq, Eq)]
pub struct BoilClient {
    api_base_url: String,
}

impl View for BoilClient {
    type V = Seq<char>;

    closed spec fn view(&self) -> Seq<char> {
        self.api_base_url@
    }
}

pub const DEFAULT_BOIL_API_BASE_URL: &'static str = "https://ippanel.boil.network";

/// The requests that there are.
#[derive(Clone, Copy, Debug, PartialEq, Eq, Structural)]
pub enum ApiCall {
    GetIp,
    ChangeIp,
}

pub open spec fn call_path(call: ApiCall) -> Seq<char> {
    match call {
        ApiCall::GetIp => "/api/v1/getIP"@,
        ApiCall::ChangeIp => "/api/v1/changeIP/"@,
    }
}

/// A request goes to its own path below the base URL, not below the host.
pub proof fn requests_have_their_paths(call: ApiCall)
    ensures
        without_slashes(call_path(call)) == (match call {
            ApiCall::GetIp => "api/v1/getIP"@,
            ApiCall::ChangeIp => "api/v1/changeIP/"@,
        }),
{
    reveal_strlit("/api/v1/getIP");
    reveal_strlit("/api/v1/changeIP/");
    reveal_strlit("api/v1/getIP");
    reveal_strlit("api/v1/changeIP/");
    let p = call_path(call);
    assert(p[0] == '/');
    assert(rest(p, 1)[0] == 'a');
    match call {
        ApiCall::GetIp => {
            assert(rest(p, 1) =~= "api/v1/getIP"@);
        },
        ApiCall::ChangeIp => {
            assert(rest(p, 1) =~= "api/v1/changeIP/"@);
        },
    }
    reveal_with_fuel(without_slashes, 3);
}

/// The slashes that a text begins with are taken away, all of them and nothing else.
pub proof fn leading_slashes_are_taken_away(s: Seq<char>) -> (n: int)
    ensures
        0 <= n <= s.len(),
        without_slashes(s) == s.subrange(n, s.len() as int),
        forall|i: int| 0 <= i < n ==> #[trigger] s[i] == '/',
        n < s.len() ==> s[n] != '/',
    decreases s.len(),
{
    if s.len() > 0 && s[0] == '/' {
        let t = rest(s, 1);
        let m = leading_slashes_are_taken_away(t);
        assert(t.subrange(m, t.len() as int) =~= s.subrange(m + 1, s.len() as int));
        assert forall|i: int| 0 <= i < m + 1 implies #[trigger] s[i] == '/' by {
            if i > 0 {
                assert(t[i - 1] == s[i]);
            }
        }
        if m < t.len() {
            assert(t[m] == s[m + 1]);
        }
        m + 1
    } else {
        assert(s.subrange(0, s.len() as int) =~= s);
        0
    }
}

/// The text of the error for a base URL that is none.
pub open spec fn bad_base_url() -> Seq<char> {
    "Boil API base URL 无效"@
}

impl BoilClient {
    /// The API at its usual place.
    pub fn new() -> (r: Result<Self, String>)
        ensures
            match r {
                Ok(c) => base_url_fits(DEFAULT_BOIL_API_BASE_URL@) && base_url(
                    DEFAULT_BOIL_API_BASE_URL@,
                ) == Some(c@),
                Err(m) => (base_url_fits(DEFAULT_BOIL_API_BASE_URL@) ==> base_url(
                    DEFAULT_BOIL_API_BASE_URL@,
                ) is None) && m@ == bad_base_url(),
            },
    {
        match Self::at(DEFAULT_BOIL_API_BASE_URL) {
            Some(r) => r,
            None => Err("Boil API base URL 无效".to_owned()),
        }
    }

    /// The API at another place; `None` where its URL is too long for a slash behind it.
    pub fn at(api_base_url: &str) -> (r: Option<Result<Self, String>>)
        ensures
            match r {
                Some(Ok(c)) => base_url_fits(api_base_url@) && base_url(api_base_url@) == Some(c@),
                Some(Err(m)) => base_url_fits(api_base_url@) && base_url(api_base_url@) is None
                    && m@ == bad_base_url(),
                None => !base_url_fits(api_base_url@),
            },
    {
        if has_room_for_slash(api_base_url) {
            Some(Self::with_api_base_url(api_base_url))
        } else {
            None
        }
    }

    pub fn with_api_base_url(api_base_url: &str) -> (r: Result<Self, String>)
        requires
            base_url_fits(api_base_url@),
        ensures
            match r {
                Ok(c) => base_url(api_base_url@) == Some(c@),
                Err(m) => base_url(api_base_url@) is None && m@ == bad_base_url(),
            },
    {
        match parse_base_url(api_base_url) {
            Some(u) => Ok(BoilClient { api_base_url: u }),
            None => Err("Boil API base URL 无效".to_owned()),
        }
    }

    /// The URL that a request goes to.
    pub fn request_url(&self, call: ApiCall) -> (r: Result<String, BoilApiError>)
        ensures
            match url_joined(self@, without_slashes(call_path(call))) {
                Some(u) => r matches Ok(v) && v@ == u,
                None => r matches Err(BoilApiError::InvalidResponse(m)) && m@
                    == "invalid Boil API path"@,
            },
    {
        let path = match call {
            ApiCall::GetIp => trim_slashes("/api/v1/getIP"),
            ApiCall::ChangeIp => trim_slashes("/api/v1/changeIP/"),
        };
        match join_url(self.api_base_url.as_str(), path.as_str()) {
            Some(u) => Ok(u),
            None => Err(BoilApiError::InvalidResponse("invalid Boil API path".to_owned())),
        }
    }
}

} // verus!
