//! What is known of an address: who owns it and how it is used.

use vstd::prelude::*;
use crate::text::{is_blank, lemma_trimmed_blank, opt_text, same_text, trim, trimmed};

verus! {

pub struct IpQuality {
    pub country: String,
    pub isp: String,
    pub is_proxy: bool,
    pub is_hosting: bool,
}

impl IpQuality {
    pub fn cf_risk(&self) -> (r: &'static str)
        ensures
            r@ == (if self.is_proxy || self.is_hosting { "高 ⚠️"@ } else { "低 ✅"@ }),
    {
        if self.is_proxy || self.is_hosting {
            "高 ⚠️"
        } else {
            "低 ✅"
        }
    }

    pub fn ip_type(&self) -> (r: &'static str)
        ensures
            r@ == (if self.is_proxy {
                "代理 ❌"@
            } else if self.is_hosting {
                "机房 ⚠️"@
            } else {
                "住宅 ✅"@
            }),
    {
        if self.is_proxy {
            "代理 ❌"
        } else if self.is_hosting {
            "机房 ⚠️"
        } else {
            "住宅 ✅"
        }
    }
}

/// The text that a field of a JSON object holds; `None` where it holds none.
pub uninterp spec fn json_text_field(json: Seq<char>, field: Seq<char>) -> Option<Seq<char>>;

/// The truth value that a field of a JSON object holds; `None` where it holds none.
pub uninterp spec fn json_bool_field(json: Seq<char>, field: Seq<char>) -> Option<bool>;

/// `Value::as_str` of the crate `serde_json`, on a field of the value that the text
/// denotes. Nothing is claimed of which texts are JSON.
#[verifier::external_body]
fn text_field(json: &str, field: &str) -> (r: Option<String>)
    ensures
        opt_text(r) == json_text_field(json@, field@),
{
    let value = serde_json::from_str::<serde_json::Value>(json).ok()?;
    value[field].as_str().map(str::to_string)
}

/// `Value::as_bool` of the crate `serde_json`, on a field of the value that the text
/// denotes. Nothing is claimed of which texts are JSON.
#[verifier::external_body]
fn bool_field(json: &str, field: &str) -> (r: Option<bool>)
    ensures
        r == json_bool_field(json@, field@),
{
    let value = serde_json::from_str::<serde_json::Value>(json).ok()?;
    value[field].as_bool()
}

pub open spec fn or_unknown(o: Option<Seq<char>>) -> Seq<char> {
    match o {
        Some(s) => s,
        None => "未知"@,
    }
}

pub open spec fn or_false(o: Option<bool>) -> bool {
    match o {
        Some(b) => b,
        None => false,
    }
}

fn text_or_unknown(o: Option<String>) -> (r: String)
    ensures
        r@ == or_unknown(opt_text(o)),
{
    match o {
        Some(s) => s,
        None => "未知".to_owned(),
    }
}

fn bool_or_false(o: Option<bool>) -> (r: bool)
    ensures
        r == or_false(o),
{
    match o {
        Some(b) => b,
        None => false,
    }
}

/// What the fields of a reply say, where its status is `success`.
pub fn quality_from_fields(
    status: Option<String>,
    country: Option<String>,
    isp: Option<String>,
    proxy: Option<bool>,
    hosting: Option<bool>,
) -> (r: Option<IpQuality>)
    ensures
        match r {
            Some(q) => opt_text(status) == Some("success"@) && q.country@ == or_unknown(
                opt_text(country),
            ) && q.isp@ == or_unknown(opt_text(isp)) && q.is_proxy == or_false(proxy)
                && q.is_hosting == or_false(hosting),
            None => opt_text(status) != Some("success"@),
        },
{
    let known = match &status {
        Some(s) => same_text(s.as_str(), "success"),
        None => false,
    };
    if !known {
        return None;
    }
    Some(
        IpQuality {
            country: text_or_unknown(country),
            isp: text_or_unknown(isp),
            is_proxy: bool_or_false(proxy),
            is_hosting: bool_or_false(hosting),
        },
    )
}

/// What a reply of the address service says; `None` where it is no success.
pub fn ip_quality_from_json(body: &str) -> (r: Option<IpQuality>)
    ensures
        match r {
            Some(q) => {
                &&& json_text_field(body@, "status"@) == Some("success"@)
                &&& q.country@ == or_unknown(json_text_field(body@, "country"@))
                &&& q.isp@ == or_unknown(json_text_field(body@, "isp"@))
                &&& q.is_proxy == or_false(json_bool_field(body@, "proxy"@))
                &&& q.is_hosting == or_false(json_bool_field(body@, "hosting"@))
            },
            None => json_text_field(body@, "status"@) != Some("success"@),
        },
{
    quality_from_fields(
        text_field(body, "status"),
        text_field(body, "country"),
        text_field(body, "isp"),
        bool_field(body, "proxy"),
        bool_field(body, "hosting"),
    )
}

/// The address of the service that is asked about an IP address.
pub fn quality_url(ip: &str) -> (r: String)
    ensures
        r@ == "http://ip-api.com/json/"@ + ip@ + "?fields=status,country,isp,proxy,hosting"@,
{
    let mut r = "http://ip-api.com/json/".to_owned();
    r.append(ip);
    r.append("?fields=status,country,isp,proxy,hosting");
    r
}

/// The port that is tried next, after `tried` ports could not be reached: an address is
/// reachable where one of them can.
pub fn probe_port(tried: usize) -> (r: Option<u16>)
    ensures
        r == (if tried == 0 {
            Some(80u16)
        } else if tried == 1 {
            Some(443u16)
        } else if tried == 2 {
            Some(22u16)
        } else {
            None
        }),
{
    match tried {
        0 => Some(80),
        1 => Some(443),
        2 => Some(22),
        _ => None,
    }
}

/// The service that is asked next for the own address, after `tried` services gave none.
pub fn own_address_service(tried: usize) -> (r: Option<&'static str>)
    ensures
        match r {
            Some(url) => (tried == 0 && url@ == "https://api.ipify.org"@) || (tried == 1 && url@
                == "https://ifconfig.me/ip"@) || (tried == 2 && url@ == "https://icanhazip.com"@),
            None => tried > 2,
        },
{
    match tried {
        0 => Some("https://api.ipify.org"),
        1 => Some("https://ifconfig.me/ip"),
        2 => Some("https://icanhazip.com"),
        _ => None,
    }
}

/// The address in the reply of such a service.
pub fn own_address(reply: &str) -> (r: Option<String>)
    ensures
        match r {
            Some(ip) => !is_blank(reply@) && ip@ == trimmed(reply@),
            None => is_blank(reply@),
        },
{
    proof {
        lemma_trimmed_blank(reply@);
    }
    let t = trim(reply);
    if t.as_str().is_empty() {
        None
    } else {
        Some(t)
    }
}

/// What a reply does not say is not known; of an address of which nothing is said, it is not
/// taken that it is a proxy or in a data centre.
pub proof fn unsaid_fields_are_unknown(s: Seq<char>, b: bool)
    ensures
        or_unknown(Some(s)) == s,
        or_unknown(None) == "未知"@,
        or_false(Some(b)) == b,
        or_false(None) == false,
{
}

} // verus!
