//! Texts about servers and places.

use vstd::prelude::*;
use crate::address::{
    has_address_chars, is_address_char, is_ipv4, is_ipv6, is_ipv6_text, lemma_ipv4_chars,
    lemma_ipv4_has_no_colon, lemma_ipv6_chars,
};
use crate::bot::ui::{plain, Reply, ReplyModel};
use crate::config::{ServerConfig, ServerModel};
use crate::ip_quality::IpQuality;
use crate::text::parts::{
    characters_are_mapped_one_by_one, first_occurrence_splits_in_two,
    lemma_parts_are_in_the_whole, lines_stand_between_line_ends, nothing_else_is_replaced,
};
use crate::text::{
    after_first, at_most, before_first, chars_of, contains_text, first_index, has_char, index_from, is_blank,
    is_blank_text, is_space, lemma_first_index, lemma_trimmed_blank, lemma_trimmed_end_at,
    lemma_trimmed_start_at, lines, lines_of, mapped, replace_text, replaced, rest, same_text,
    slice_text, split_once, starts_with, strip_prefix, take_chars, texts, trim, trimmed,
    trimming_takes_the_ends_away,
};

verus! {

// ---------------------------------------------------------------------------
// HTML
// ---------------------------------------------------------------------------

/// What a character is written as in HTML.
pub open spec fn html_char(c: char) -> Seq<char> {
    if c == '&' {
        "&amp;"@
    } else if c == '<' {
        "&lt;"@
    } else if c == '>' {
        "&gt;"@
    } else {
        seq![c]
    }
}

/// A text as it is written in HTML.
pub open spec fn escaped(s: Seq<char>) -> Seq<char> {
    mapped(s, |c: char| html_char(c))
}

pub fn html_escape(value: &str) -> (r: String)
    ensures
        r@ == escaped(value@),
{
    let cs = chars_of(value);
    let mut r = String::new();
    let mut i: usize = 0;
    let ghost f = |c: char| html_char(c);
    assert(mapped(value@.subrange(0, 0), f) =~= r@);
    while i < cs.len()
        invariant
            cs@ == value@,
            i <= cs@.len(),
            f == (|c: char| html_char(c)),
            r@ == mapped(value@.subrange(0, i as int), f),
        decreases cs@.len() - i,
    {
        let c = cs[i];
        let ghost t = value@.subrange(0, i + 1);
        assert(t.drop_last() =~= value@.subrange(0, i as int));
        assert(t.last() == c);
        let ghost before = r@;
        if c == '&' {
            r.append("&amp;");
        } else if c == '<' {
            r.append("&lt;");
        } else if c == '>' {
            r.append("&gt;");
        } else {
            r.push(c);
            assert(r@ =~= before + seq![c]);
        }
        i += 1;
    }
    assert(value@.subrange(0, value@.len() as int) =~= value@);
    r
}

/// No text can open or close a tag of the message it stands in.
pub proof fn escaped_text_has_no_tags(s: Seq<char>)
    ensures
        forall|i: int|
            0 <= i < escaped(s).len() ==> escaped(s)[i] != '<' && escaped(s)[i] != '>',
    decreases s.len(),
{
    reveal_strlit("&amp;");
    reveal_strlit("&lt;");
    reveal_strlit("&gt;");
    if s.len() > 0 {
        escaped_text_has_no_tags(s.drop_last());
        let a = escaped(s.drop_last());
        let b = html_char(s.last());
        assert(escaped(s) == a + b);
        assert forall|i: int| 0 <= i < escaped(s).len() implies escaped(s)[i] != '<' && escaped(
            s,
        )[i] != '>' by {
            if i < a.len() {
                assert(escaped(s)[i] == a[i]);
            } else {
                assert(escaped(s)[i] == b[i - a.len()]);
            }
        }
    }
}

// ---------------------------------------------------------------------------
// Places
// ---------------------------------------------------------------------------

#[derive(Clone, Debug, PartialEq, Eq)]
pub struct GeoLabel {
    pub flag: String,
    pub country: String,
}

#[verifier::ext_equal]
pub struct GeoModel {
    pub flag: Seq<char>,
    pub country: Seq<char>,
}

impl View for GeoLabel {
    type V = GeoModel;

    open spec fn view(&self) -> GeoModel {
        GeoModel { flag: self.flag@, country: self.country@ }
    }
}

pub open spec fn geo(flag: Seq<char>, country: Seq<char>) -> GeoModel {
    GeoModel { flag, country }
}

pub open spec fn unknown_geo() -> GeoModel {
    geo("🌐"@, "未知地区"@)
}

pub open spec fn geo_text(g: GeoModel) -> Seq<char> {
    g.flag + " "@ + g.country
}

fn geo_label(flag: &str, country: &str) -> (r: GeoLabel)
    ensures
        r@ == geo(flag@, country@),
{
    GeoLabel { flag: flag.to_owned(), country: country.to_owned() }
}

impl GeoLabel {
    pub fn unknown() -> (r: Self)
        ensures
            r@ == unknown_geo(),
    {
        geo_label("🌐", "未知地区")
    }

    pub fn display(&self) -> (r: String)
        ensures
            r@ == geo_text(self@),
    {
        let mut r = self.flag.clone();
        r.append(" ");
        r.append(self.country.as_str());
        r
    }
}

/// What is found out about an address.
#[derive(Clone, Debug, PartialEq, Eq)]
pub struct AddressMetadata {
    pub geo: GeoLabel,
    pub resolved_ip: Option<String>,
}

/// The place of a country, in the names that are shown.
pub open spec fn geo_of_country(country: Seq<char>) -> GeoModel {
    let c = trimmed(country);
    if c == "Japan"@ || c == "日本"@ {
        geo("🇯🇵"@, "日本"@)
    } else if c == "Singapore"@ || c == "新加坡"@ {
        geo("🇸🇬"@, "新加坡"@)
    } else if c == "Hong Kong"@ || c == "Hong Kong SAR"@ || c == "香港"@ || c == "中国香港"@ {
        geo("🇭🇰"@, "中国香港"@)
    } else if c == "United States"@ || c == "美国"@ {
        geo("🇺🇸"@, "美国"@)
    } else if c == "Taiwan"@ || c == "台湾"@ || c == "中国台湾"@ {
        geo("🇹🇼"@, "中国台湾"@)
    } else if c.len() == 0 {
        unknown_geo()
    } else {
        geo("🌐"@, c)
    }
}

pub fn geo_from_country(country: &str) -> (r: GeoLabel)
    ensures
        r@ == geo_of_country(country@),
{
    let t = trim(country);
    let c = t.as_str();
    if same_text(c, "Japan") || same_text(c, "日本") {
        geo_label("🇯🇵", "日本")
    } else if same_text(c, "Singapore") || same_text(c, "新加坡") {
        geo_label("🇸🇬", "新加坡")
    } else if same_text(c, "Hong Kong") || same_text(c, "Hong Kong SAR") || same_text(c, "香港")
        || same_text(c, "中国香港") {
        geo_label("🇭🇰", "中国香港")
    } else if same_text(c, "United States") || same_text(c, "美国") {
        geo_label("🇺🇸", "美国")
    } else if same_text(c, "Taiwan") || same_text(c, "台湾") || same_text(c, "中国台湾") {
        geo_label("🇹🇼", "中国台湾")
    } else if c.is_empty() {
        GeoLabel::unknown()
    } else {
        geo_label("🌐", c)
    }
}

/// What is known of an address: the IP address that it stands for, if there is one,
/// and the country that is known of that.
pub fn address_metadata(resolved_ip: Option<String>, quality: Option<IpQuality>) -> (r:
    AddressMetadata)
    ensures
        r.resolved_ip == resolved_ip,
        r.geo@ == (match (resolved_ip, quality) {
            (Some(_), Some(q)) => geo_of_country(q.country@),
            _ => unknown_geo(),
        }),
{
    let geo = match (&resolved_ip, &quality) {
        (Some(_), Some(q)) => geo_from_country(q.country.as_str()),
        _ => GeoLabel::unknown(),
    };
    AddressMetadata { geo, resolved_ip }
}

// ---------------------------------------------------------------------------
// Servers
// ---------------------------------------------------------------------------

pub open spec fn server_geo(s: ServerModel) -> GeoModel {
    geo(
        match s.flag {
            Some(f) => f,
            None => "🌐"@,
        },
        match s.country {
            Some(c) => c,
            None => "未知地区"@,
        },
    )
}

pub fn server_geo_label(server: &ServerConfig) -> (r: GeoLabel)
    ensures
        r@ == server_geo(server@),
{
    GeoLabel {
        flag: match &server.flag {
            Some(f) => f.clone(),
            None => "🌐".to_owned(),
        },
        country: match &server.country {
            Some(c) => c.clone(),
            None => "未知地区".to_owned(),
        },
    }
}

/// Name, place and address of a server, as HTML.
pub open spec fn display_parts(name: Seq<char>, address: Seq<char>, g: GeoModel) -> Seq<char> {
    "📡 <b>"@ + escaped(name) + "</b>\n\n"@ + escaped(geo_text(g)) + "\n"@ + escaped(address)
}

pub fn format_server_display_parts(name: &str, address: &str, geo: &GeoLabel) -> (r: String)
    ensures
        r@ == display_parts(name@, address@, geo@),
{
    let mut r = "📡 <b>".to_owned();
    r.append(html_escape(name).as_str());
    r.append("</b>\n\n");
    r.append(html_escape(geo.display().as_str()).as_str());
    r.append("\n");
    r.append(html_escape(address).as_str());
    r
}

/// The address of a server, where it has one.
pub open spec fn address_or_unset(s: ServerModel) -> Seq<char> {
    match s.address {
        Some(a) => if is_blank(a) {
            "地址未设置"@
        } else {
            a
        },
        None => "地址未设置"@,
    }
}

/// What is shown of a server: neither its id nor its token.
pub open spec fn server_card(s: ServerModel) -> Seq<char> {
    display_parts(s.name, address_or_unset(s), server_geo(s))
}

pub fn format_server_card(server: &ServerConfig) -> (r: String)
    ensures
        r@ == server_card(server@),
{
    let geo = server_geo_label(server);
    let address: &str = match &server.address {
        Some(a) => if is_blank_text(a.as_str()) {
            "地址未设置"
        } else {
            a.as_str()
        },
        None => "地址未设置",
    };
    format_server_display_parts(server.name.as_str(), address, &geo)
}

/// What is shown of a server is the same whatever its token and its id are.
pub proof fn server_card_hides_token_and_id(a: ServerModel, b: ServerModel)
    requires
        a == (ServerModel { token: a.token, id: a.id, ..b }),
    ensures
        server_card(a) == server_card(b),
{
}

/// A card shows the name, the flag and the country, and the address of a server, or says that
/// they are not known.
pub proof fn card_shows_name_place_and_address(s: ServerModel)
    ensures
        contains_text(server_card(s), escaped(s.name)),
        s.address matches Some(a) ==> (!is_blank(a) ==> contains_text(server_card(s), escaped(a))),
        !(s.address matches Some(a) && !is_blank(a)) ==> contains_text(
            server_card(s),
            escaped("地址未设置"@),
        ),
        contains_text(
            server_card(s),
            escaped(
                (match s.flag {
                    Some(f) => f,
                    None => "🌐"@,
                }) + " "@ + (match s.country {
                    Some(c) => c,
                    None => "未知地区"@,
                }),
            ),
        ),
{
    lemma_parts_are_in_the_whole();
}

/// A country is shown by the name and the flag that it has here, if it is one of those that are
/// known, and then a shown name stands for itself. Others are shown as they are, with a globe;
/// white space around a name is nothing to it.
pub proof fn shown_country_stands_for_itself(country: Seq<char>)
    ensures
        geo_of_country(geo_of_country(country).country) == geo_of_country(country),
        geo_of_country(trimmed(country)) == geo_of_country(country),
        is_blank(country) ==> geo_of_country(country).country == "未知地区"@,
        geo_of_country(country).country != trimmed(country) && !is_blank(country) ==> ({
            let c = trimmed(country);
            c == "Japan"@ || c == "Singapore"@ || c == "Hong Kong"@ || c == "Hong Kong SAR"@ || c
                == "香港"@ || c == "United States"@ || c == "Taiwan"@ || c == "台湾"@
        }),
{
    let _ = trimming_takes_the_ends_away(country);
    lemma_trimmed_blank(country);
    reveal_strlit("Japan");
    reveal_strlit("日本");
    reveal_strlit("Singapore");
    reveal_strlit("新加坡");
    reveal_strlit("Hong Kong");
    reveal_strlit("Hong Kong SAR");
    reveal_strlit("香港");
    reveal_strlit("中国香港");
    reveal_strlit("United States");
    reveal_strlit("美国");
    reveal_strlit("Taiwan");
    reveal_strlit("台湾");
    reveal_strlit("中国台湾");
    reveal_strlit("未知地区");
    lemma_no_white_space_is_trimmed("日本"@);
    lemma_no_white_space_is_trimmed("新加坡"@);
    lemma_no_white_space_is_trimmed("中国香港"@);
    lemma_no_white_space_is_trimmed("美国"@);
    lemma_no_white_space_is_trimmed("中国台湾"@);
    lemma_no_white_space_is_trimmed("未知地区"@);
    assert("日本"@[0] == '日');
    assert("新加坡"@[0] == '新');
    assert("中国香港"@[2] == '香');
    assert("香港"@[0] == '香');
    assert("美国"@[0] == '美');
    assert("中国台湾"@[2] == '台');
    assert("台湾"@[0] == '台');
    assert("未知地区"@[0] == '未');
}

/// What follows the scheme of a URL, where there is one.
pub open spec fn without_scheme(s: Seq<char>) -> Seq<char> {
    if starts_with(s, "https://"@) {
        rest(s, "https://"@.len() as int)
    } else if starts_with(s, "http://"@) {
        rest(s, "http://"@.len() as int)
    } else {
        s
    }
}

/// An IPv6 address in square brackets, alone or with a port behind it.
pub open spec fn is_bracketed_ipv6(s: Seq<char>) -> bool {
    let inside = rest(s, 1);
    &&& s.len() > 0
    &&& s[0] == '['
    &&& has_char(inside, ']')
    &&& is_ipv6(before_first(inside, ']'))
    &&& after_first(inside, ']').len() == 0 || after_first(inside, ']')[0] == ':'
}

/// A host without its port, which follows the first colon. The colons of an IPv6 address
/// belong to it; with a port it stands in square brackets, which do not.
pub open spec fn without_port(s: Seq<char>) -> Seq<char> {
    if is_ipv6(s) {
        s
    } else if is_bracketed_ipv6(s) {
        before_first(rest(s, 1), ']')
    } else {
        before_first(s, ':')
    }
}

/// The host that an input names: without scheme, path and port.
pub open spec fn host_of(input: Seq<char>) -> Seq<char> {
    trimmed(without_port(before_first(without_scheme(trimmed(input)), '/')))
}

/// A text of address characters names itself, but for a port.
proof fn lemma_plain_address(s: Seq<char>)
    requires
        s.len() > 0,
        has_address_chars(s),
    ensures
        !is_blank(s),
        host_of(s) == trimmed(without_port(s)),
        trimmed(s) == s,
{
    assert(is_address_char(s[0]));
    assert(is_address_char(s[s.len() - 1]));
    assert(!is_space(s[0]));
    lemma_trimmed_start_at(s, 0);
    assert(s.subrange(0, s.len() as int) =~= s);
    lemma_trimmed_end_at(s, s.len() as int);
    reveal_strlit("https://");
    reveal_strlit("http://");
    if starts_with(s, "https://"@) {
        assert(s.subrange(0, 8)[0] == 'h');
    }
    if starts_with(s, "http://"@) {
        assert(s.subrange(0, 7)[0] == 'h');
    }
    lemma_first_index(s, '/');
    if has_char(s, '/') {
        assert(is_address_char(s[first_index(s, '/') as int]));
    }
    assert(before_first(s, '/') =~= s);
}

/// The address of a server can be an IPv4 or an IPv6 address: it is kept as it is.
pub proof fn ip_address_is_kept(s: Seq<char>)
    requires
        is_ipv4(s) || is_ipv6(s),
    ensures
        !is_blank(s),
        host_of(s) == s,
{
    if is_ipv6(s) {
        lemma_ipv6_chars(s);
        lemma_plain_address(s);
    } else {
        lemma_ipv4_chars(s);
        lemma_plain_address(s);
        lemma_ipv4_has_no_colon(s);
        lemma_first_index(s, ':');
        assert(!is_bracketed_ipv6(s)) by {
            assert(is_address_char(s[0]));
        }
        assert(before_first(s, ':') =~= s);
    }
}

fn text_before(s: &str, c: char) -> (r: String)
    ensures
        r@ == before_first(s@, c),
{
    let cs = chars_of(s);
    let n = index_from(&cs, c, 0);
    assert(rest(s@, 0) =~= s@);
    slice_text(&cs, 0, n)
}

/// The IPv6 address that stands in square brackets.
fn bracketed_ipv6(s: &str) -> (r: Option<String>)
    ensures
        match r {
            Some(ip) => is_bracketed_ipv6(s@) && ip@ == before_first(rest(s@, 1), ']'),
            None => !is_bracketed_ipv6(s@),
        },
{
    let cs = chars_of(s);
    if cs.len() == 0 || cs[0] != '[' {
        return None;
    }
    let inside = slice_text(&cs, 1, cs.len());
    assert(inside@ =~= rest(s@, 1));
    match split_once(inside.as_str(), ']') {
        None => None,
        Some((ip, after)) => {
            let more = chars_of(after.as_str());
            if is_ipv6_text(ip.as_str()) && (more.len() == 0 || more[0] == ':') {
                Some(ip)
            } else {
                None
            }
        },
    }
}

fn drop_port(s: &str) -> (r: String)
    ensures
        r@ == without_port(s@),
{
    if is_ipv6_text(s) {
        return s.to_owned();
    }
    match bracketed_ipv6(s) {
        Some(ip) => ip,
        None => text_before(s, ':'),
    }
}

pub fn normalize_server_address(input: &str) -> (r: Option<String>)
    ensures
        match r {
            Some(h) => !is_blank(input@) && host_of(input@).len() > 0 && h@ == host_of(input@),
            None => is_blank(input@) || host_of(input@).len() == 0,
        },
{
    proof {
        lemma_trimmed_blank(input@);
    }
    let t = trim(input);
    if t.as_str().is_empty() {
        return None;
    }
    let value = match strip_prefix(t.as_str(), "https://") {
        Some(v) => v,
        None => match strip_prefix(t.as_str(), "http://") {
            Some(v) => v,
            None => t,
        },
    };
    let before_path = text_before(value.as_str(), '/');
    let without_port = drop_port(before_path.as_str());
    let host = trim(without_port.as_str());
    if host.as_str().is_empty() {
        None
    } else {
        Some(host)
    }
}

// ---------------------------------------------------------------------------
// Errors
// ---------------------------------------------------------------------------

/// The first line of an error, without words about authorization, cut after eighty
/// characters.
pub open spec fn short_error(error: Seq<char>) -> Seq<char> {
    let first = if lines_of(error).len() > 0 {
        lines_of(error)[0]
    } else {
        "查询失败"@
    };
    at_most(
        replaced(
            replaced(trimmed(first), "Authorization"@, "认证信息"@),
            "Bearer"@,
            "认证信息"@,
        ),
        80,
    )
}

pub fn short_safe_error(error: &str) -> (r: String)
    ensures
        r@ == short_error(error@),
{
    let all = lines(error);
    assert(texts(all@).len() == all@.len());
    let first = if all.len() > 0 {
        assert(texts(all@)[0] == all@[0]@);
        trim(all[0].as_str())
    } else {
        trim("查询失败")
    };
    let a = replace_text(first.as_str(), "Authorization", "认证信息");
    let b = replace_text(a.as_str(), "Bearer", "认证信息");
    take_chars(b.as_str(), 80)
}

/// A message that says why something failed.
pub open spec fn failed(why: Seq<char>) -> ReplyModel {
    plain("❌ "@ + escaped(why))
}

pub fn failure(why: &str) -> (r: Reply)
    ensures
        r@ == failed(why@),
{
    let mut text = "❌ ".to_owned();
    text.append(html_escape(why).as_str());
    Reply::plain(text)
}

/// A text is written in HTML character by character: the three that HTML reads otherwise as
/// their names, all others as they are.
pub proof fn escaping_goes_by_character(a: Seq<char>, b: Seq<char>, c: char)
    ensures
        escaped(a + b) == escaped(a) + escaped(b),
        escaped(seq!['&']) == "&amp;"@,
        escaped(seq!['<']) == "&lt;"@,
        escaped(seq!['>']) == "&gt;"@,
        c != '&' && c != '<' && c != '>' ==> escaped(seq![c]) == seq![c],
{
    let f = |c: char| html_char(c);
    characters_are_mapped_one_by_one(a, b, c, f);
    characters_are_mapped_one_by_one(a, b, '&', f);
    characters_are_mapped_one_by_one(a, b, '<', f);
    characters_are_mapped_one_by_one(a, b, '>', f);
}

/// The characters of a host name, or of an IPv4 address.
pub open spec fn is_host_name(s: Seq<char>) -> bool {
    &&& s.len() > 0
    &&& forall|i: int|
        0 <= i < s.len() ==> !is_space(#[trigger] s[i]) && s[i] != '/' && s[i] != ':' && s[i] != '['
}

proof fn lemma_no_white_space_is_trimmed(s: Seq<char>)
    requires
        forall|i: int| 0 <= i < s.len() ==> !is_space(#[trigger] s[i]),
    ensures
        trimmed(s) == s,
{
    lemma_trimmed_start_at(s, 0);
    assert(s.subrange(0, s.len() as int) =~= s);
    if s.len() > 0 {
        assert(!is_space(s[s.len() - 1]));
    }
    lemma_trimmed_end_at(s, s.len() as int);
}

proof fn lemma_host_before_port(host: Seq<char>, port: Seq<char>)
    requires
        is_host_name(host),
        !is_ipv6(host + seq![':'] + port),
        !is_ipv6(host),
    ensures
        without_port(host) == host,
        without_port(host + seq![':'] + port) == host,
{
    let s = host + seq![':'] + port;
    first_occurrence_splits_in_two(host, ':', port);
    assert(s[0] == host[0]);
}

/// The host of a URL is what stands between the scheme and the port or the path: neither of
/// the two schemes, no port and no path takes part in it.
pub proof fn host_stands_between_scheme_and_path(
    scheme: Seq<char>,
    host: Seq<char>,
    port: Seq<char>,
    path: Seq<char>,
)
    requires
        scheme == "http://"@ || scheme == "https://"@ || (scheme == ""@ && !starts_with(
            host + port + path,
            "http://"@,
        ) && !starts_with(host + port + path, "https://"@)),
        is_host_name(host),
        !is_ipv6(host),
        port.len() > 0 ==> port[0] == ':' && !is_ipv6(host + port),
        forall|i: int| 0 <= i < port.len() ==> !is_space(#[trigger] port[i]) && port[i] != '/',
        path.len() > 0 ==> path[0] == '/',
        forall|i: int| 0 <= i < path.len() ==> !is_space(#[trigger] path[i]),
    ensures
        host_of(scheme + host + port + path) == host,
{
    reveal_strlit("");
    reveal_strlit("http://");
    reveal_strlit("https://");
    let all = scheme + host + port + path;
    assert forall|i: int| 0 <= i < all.len() implies !is_space(#[trigger] all[i]) by {
        let n = scheme.len() as int;
        let h = n + host.len();
        let p = h + port.len();
        if i < n {
            assert(all[i] == scheme[i]);
        } else if i < h {
            assert(all[i] == host[i - n]);
        } else if i < p {
            assert(all[i] == port[i - h]);
        } else {
            assert(all[i] == path[i - p]);
        }
    }
    lemma_no_white_space_is_trimmed(all);
    let place = host + port + path;
    assert(all =~= scheme + place);
    assert(without_scheme(all) == place) by {
        if scheme == ""@ {
            assert(all =~= place);
        } else if scheme == "http://"@ {
            assert(all[4] == ':');
            if starts_with(all, "https://"@) {
                assert(all.subrange(0, 8)[4] == 's');
            }
            assert(all.subrange(0, 7) =~= "http://"@);
            assert(rest(all, 7) =~= place);
        } else {
            assert(all.subrange(0, 8) =~= "https://"@);
            assert(rest(all, 8) =~= place);
        }
    }
    lemma_place(host, port, path);
    lemma_no_white_space_is_trimmed(host);
}

/// Where a host comes first, the path and the port follow it.
proof fn lemma_place(host: Seq<char>, port: Seq<char>, path: Seq<char>)
    requires
        is_host_name(host),
        !is_ipv6(host),
        port.len() > 0 ==> port[0] == ':' && !is_ipv6(host + port),
        forall|i: int| 0 <= i < port.len() ==> !is_space(#[trigger] port[i]) && port[i] != '/',
        path.len() > 0 ==> path[0] == '/',
    ensures
        without_port(before_first(host + port + path, '/')) == host,
{
    let place = host + port + path;
    let hp = host + port;
    assert forall|i: int| 0 <= i < hp.len() implies #[trigger] hp[i] != '/' by {
        if i < host.len() {
            assert(hp[i] == host[i]);
        } else {
            assert(hp[i] == port[i - host.len()]);
        }
    }
    if path.len() > 0 {
        let more = rest(path, 1);
        assert(place =~= hp + seq!['/'] + more);
        first_occurrence_splits_in_two(hp, '/', more);
    } else {
        assert(place =~= hp);
        first_occurrence_splits_in_two(hp, '/', path);
    }
    if port.len() > 0 {
        let number = rest(port, 1);
        assert(hp =~= host + seq![':'] + number);
        lemma_host_before_port(host, number);
    } else {
        assert(hp =~= host);
        first_occurrence_splits_in_two(host, ':', port);
    }
}

/// An error is told on one line of eighty characters at most, and as it is where it is no
/// longer and holds no word about authorization.
pub proof fn told_error_is_short(error: Seq<char>)
    ensures
        short_error(error).len() <= 80,
        0 < error.len() <= 80 && trimmed(error) == error && error.last() != '\r' && (forall|i: int|
            0 <= i < error.len() ==> #[trigger] error[i] != '\n') && !contains_text(
            error,
            "Authorization"@,
        ) && !contains_text(error, "Bearer"@) ==> short_error(error) == error,
{
    if 0 < error.len() <= 80 && trimmed(error) == error && error.last() != '\r' && (forall|i: int|
        0 <= i < error.len() ==> #[trigger] error[i] != '\n') && !contains_text(
        error,
        "Authorization"@,
    ) && !contains_text(error, "Bearer"@) {
        lines_stand_between_line_ends(error, Seq::empty());
        nothing_else_is_replaced(error, "Authorization"@, "认证信息"@);
        nothing_else_is_replaced(error, "Bearer"@, "认证信息"@);
    }
}

} // verus!
