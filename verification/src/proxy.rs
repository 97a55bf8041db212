//! The rules of the HTTP client: which headers a request to each music site
//! carries, how the configured proxy is applied, which method a request uses,
//! and how a response body becomes text.
use vstd::prelude::*;
use crate::text::{
    chars_of, contains, contains_str, eq_str, lower, lower_vec, trim, trim_slice, split_once,
    split_once_slice, strip_char_both, strip_char_slice, find_char, find_char_exec,
    find_map_pieces, lemma_find_char_bounds, decimal, decimal_string, push_str, string_of,
    opt_str, opt_view,
};
use crate::headers::HeaderMap;
use crate::codec::{
    decodable_len, utf8_decoding, gb18030_decoding, label_decoding, decode_utf8_lossy,
    decode_gb18030, decode_with_label,
};

verus! {

pub const MOBILE_UA: &'static str = "Mozilla/5.0 (iPhone; CPU iPhone OS 14_3 like Mac OS X) AppleWebKit/534.30 (KHTML, like Gecko) Version/4.0 Mobile Safari/534.30";

pub const DESKTOP_UA: &'static str = "Mozilla/5.0 (Macintosh; Intel Mac OS X 10_14_2) AppleWebKit/537.36 (KHTML, like Gecko) Chrome/72.0.3626.119 Safari/537.36";

/// The headers that a site's servers insist on, read off the request URL:
/// `(referer, origin, user_agent, origin_defaults_to_referer)`. An empty text
/// means that the site asks for nothing there. Later rules override earlier
/// ones.
pub open spec fn site_rules(url: Seq<char>) -> (Seq<char>, Seq<char>, Seq<char>, bool) {
    let referer1 = if contains(url, "://music.163.com/"@) || contains(url, "://interface3.music.163.com/"@) {
        "http://music.163.com/"@
    } else {
        Seq::<char>::empty()
    };
    let referer2 = if contains(url, "://gist.githubusercontent.com/"@) {
        "https://gist.githubusercontent.com/"@
    } else {
        referer1
    };
    let referer3 = if contains(url, ".xiami.com/"@) {
        "https://www.xiami.com/"@
    } else {
        referer2
    };
    let c_y_qq = contains(url, "c.y.qq.com/"@);
    let referer4 = if c_y_qq {
        "https://y.qq.com/"@
    } else {
        referer3
    };
    let origin4 = if c_y_qq {
        "https://y.qq.com"@
    } else {
        Seq::<char>::empty()
    };
    let referer5 = if contains(url, "y.qq.com/"@) || contains(url, "qpic.y.qq.com/"@) || contains(
        url,
        "y.gtimg.cn/"@,
    ) || contains(url, "qqmusic.qq.com/"@) || contains(url, "imgcache.qq.com/"@) {
        "https://y.qq.com/"@
    } else {
        referer4
    };
    let kugou = contains(url, ".kugou.com/"@);
    let referer6 = if kugou {
        "https://www.kugou.com/"@
    } else {
        referer5
    };
    let ua6 = if kugou {
        MOBILE_UA@
    } else {
        Seq::<char>::empty()
    };
    let referer7 = if contains(url, ".kuwo.cn/"@) {
        "http://www.kuwo.cn/"@
    } else {
        referer6
    };
    let bili = contains(url, ".bilibili.com/"@) || contains(url, ".bilivideo.com/"@) || contains(
        url,
        ".hdslb.com/"@,
    );
    let referer8 = if bili {
        "https://www.bilibili.com/"@
    } else {
        referer7
    };
    let bili_cn = contains(url, ".bilivideo.cn"@);
    let referer9 = if bili_cn {
        "https://www.bilibili.com/"@
    } else {
        referer8
    };
    let origin9 = if bili_cn {
        "https://www.bilibili.com/"@
    } else {
        origin4
    };
    let default9 = !bili && !bili_cn;
    let referer10 = if contains(url, ".migu.cn"@) {
        "http://music.migu.cn/v3/music/player/audio?from=migu"@
    } else {
        referer9
    };
    let referer11 = if contains(url, "m.music.migu.cn"@) {
        "https://m.music.migu.cn/"@
    } else {
        referer10
    };
    let referer12 = if contains(url, ".taihe.com/"@) || contains(url, "music.91q.com"@) {
        "https://music.taihe.com/"@
    } else {
        referer11
    };
    (referer12, origin9, ua6, default9)
}

/// `map.entry(k).or_insert(v)` on the model.
pub open spec fn with_default(
    h: Map<Seq<char>, Seq<char>>,
    k: Seq<char>,
    v: Seq<char>,
) -> Map<Seq<char>, Seq<char>> {
    if h.contains_key(k) {
        h
    } else {
        h.insert(k, v)
    }
}

/// The headers of a request to `url` once the site's rules are applied to the
/// caller's headers `h`: Referer and Origin only where the caller set none, the
/// site's User-Agent always, else a desktop User-Agent where the caller set none.
pub open spec fn injected(url: Seq<char>, h: Map<Seq<char>, Seq<char>>) -> Map<Seq<char>, Seq<char>> {
    let (referer, origin, ua, default_origin) = site_rules(url);
    let h1 = if referer.len() > 0 {
        with_default(h, "Referer"@, referer)
    } else {
        h
    };
    let h2 = if origin.len() > 0 {
        with_default(h1, "Origin"@, origin)
    } else if default_origin && referer.len() > 0 {
        with_default(h1, "Origin"@, referer)
    } else {
        h1
    };
    if ua.len() > 0 {
        h2.insert("User-Agent"@, ua)
    } else {
        with_default(h2, "User-Agent"@, DESKTOP_UA@)
    }
}

/// `site_rules`, computed.
fn site_rules_exec(url: &str) -> (r: (&'static str, &'static str, &'static str, bool))
    ensures
        (r.0@, r.1@, r.2@, r.3) == site_rules(url@),
{
    let u = chars_of(url);
    let u = u.as_slice();
    let mut referer: &'static str = "";
    let mut origin: &'static str = "";
    let mut ua: &'static str = "";
    let mut default_origin = true;
    proof {
        reveal_strlit("");
    }
    if contains_str(u, "://music.163.com/") || contains_str(u, "://interface3.music.163.com/") {
        referer = "http://music.163.com/";
    }
    if contains_str(u, "://gist.githubusercontent.com/") {
        referer = "https://gist.githubusercontent.com/";
    }
    if contains_str(u, ".xiami.com/") {
        referer = "https://www.xiami.com/";
    }
    if contains_str(u, "c.y.qq.com/") {
        referer = "https://y.qq.com/";
        origin = "https://y.qq.com";
    }
    if contains_str(u, "y.qq.com/") || contains_str(u, "qpic.y.qq.com/") || contains_str(
        u,
        "y.gtimg.cn/",
    ) || contains_str(u, "qqmusic.qq.com/") || contains_str(u, "imgcache.qq.com/") {
        referer = "https://y.qq.com/";
    }
    if contains_str(u, ".kugou.com/") {
        referer = "https://www.kugou.com/";
        ua = MOBILE_UA;
    }
    if contains_str(u, ".kuwo.cn/") {
        referer = "http://www.kuwo.cn/";
    }
    if contains_str(u, ".bilibili.com/") || contains_str(u, ".bilivideo.com/") || contains_str(
        u,
        ".hdslb.com/",
    ) {
        referer = "https://www.bilibili.com/";
        default_origin = false;
    }
    if contains_str(u, ".bilivideo.cn") {
        referer = "https://www.bilibili.com/";
        origin = "https://www.bilibili.com/";
        default_origin = false;
    }
    if contains_str(u, ".migu.cn") {
        referer = "http://music.migu.cn/v3/music/player/audio?from=migu";
    }
    if contains_str(u, "m.music.migu.cn") {
        referer = "https://m.music.migu.cn/";
    }
    if contains_str(u, ".taihe.com/") || contains_str(u, "music.91q.com") {
        referer = "https://music.taihe.com/";
    }
    (referer, origin, ua, default_origin)
}

/// Adds the headers that the site of `url` insists on to `headers`.
pub fn inject_headers(url: &str, headers: &mut HeaderMap)
    ensures
        final(headers)@ == injected(url@, old(headers)@),
{
    let (referer, origin, ua, default_origin) = site_rules_exec(url);
    let has_referer = !referer.is_empty();
    if has_referer {
        headers.insert_default("Referer".to_owned(), referer.to_owned());
    }
    if !origin.is_empty() {
        headers.insert_default("Origin".to_owned(), origin.to_owned());
    } else if default_origin && has_referer {
        headers.insert_default("Origin".to_owned(), referer.to_owned());
    }
    if !ua.is_empty() {
        headers.insert("User-Agent".to_owned(), ua.to_owned());
    } else {
        headers.insert_default("User-Agent".to_owned(), DESKTOP_UA.to_owned());
    }
}

/// The site rules never take away a header of the caller, and change the value
/// of none but User-Agent.
pub proof fn lemma_injected_keeps_caller_headers(
    url: Seq<char>,
    h: Map<Seq<char>, Seq<char>>,
    k: Seq<char>,
)
    requires
        h.contains_key(k),
    ensures
        injected(url, h).contains_key(k),
        k != "User-Agent"@ ==> injected(url, h)[k] == h[k],
{
}

/// Every request leaves with a User-Agent.
pub proof fn lemma_injected_has_user_agent(url: Seq<char>, h: Map<Seq<char>, Seq<char>>)
    ensures
        injected(url, h).contains_key("User-Agent"@),
{
}

/// A request to a Kuwo host (one that no later rule claims) carries Kuwo's
/// page as Referer and as Origin where the caller set none, and the desktop
/// User-Agent where the caller set none.
pub proof fn lemma_kuwo_headers(url: Seq<char>, h: Map<Seq<char>, Seq<char>>)
    requires
        contains(url, ".kuwo.cn/"@),
        !contains(url, "c.y.qq.com/"@),
        !contains(url, ".kugou.com/"@),
        !contains(url, ".bilibili.com/"@),
        !contains(url, ".bilivideo.com/"@),
        !contains(url, ".hdslb.com/"@),
        !contains(url, ".bilivideo.cn"@),
        !contains(url, ".migu.cn"@),
        !contains(url, "m.music.migu.cn"@),
        !contains(url, ".taihe.com/"@),
        !contains(url, "music.91q.com"@),
    ensures
        site_rules(url).0 == "http://www.kuwo.cn/"@,
        !h.contains_key("Referer"@) ==> injected(url, h)["Referer"@] == "http://www.kuwo.cn/"@,
        !h.contains_key("Origin"@) ==> injected(url, h)["Origin"@] == "http://www.kuwo.cn/"@,
        !h.contains_key("User-Agent"@) ==> injected(url, h)["User-Agent"@] == DESKTOP_UA@,
{
    reveal_strlit("http://www.kuwo.cn/");
    reveal_strlit("Referer");
    reveal_strlit("Origin");
    reveal_strlit("User-Agent");
    reveal_strlit("");
    assert("Referer"@ != "Origin"@) by {
        assert("Referer"@[0] != "Origin"@[0]);
    }
    assert("Referer"@ != "User-Agent"@) by {
        assert("Referer"@[0] != "User-Agent"@[0]);
    }
    assert("Origin"@ != "User-Agent"@) by {
        assert("Origin"@[0] != "User-Agent"@[0]);
    }
}

/// A request to a Kugou host always leaves with the mobile User-Agent, over
/// the caller's; where no later rule claims the URL it carries Kugou's page as
/// Referer and as Origin where the caller set none.
pub proof fn lemma_kugou_headers(url: Seq<char>, h: Map<Seq<char>, Seq<char>>)
    requires
        contains(url, ".kugou.com/"@),
    ensures
        injected(url, h)["User-Agent"@] == MOBILE_UA@,
        !contains(url, "c.y.qq.com/"@) && !contains(url, ".kuwo.cn/"@) && !contains(
            url,
            ".bilibili.com/"@,
        ) && !contains(url, ".bilivideo.com/"@) && !contains(url, ".hdslb.com/"@) && !contains(
            url,
            ".bilivideo.cn"@,
        ) && !contains(url, ".migu.cn"@) && !contains(url, "m.music.migu.cn"@) && !contains(
            url,
            ".taihe.com/"@,
        ) && !contains(url, "music.91q.com"@) ==> {
            &&& !h.contains_key("Referer"@) ==> injected(url, h)["Referer"@]
                == "https://www.kugou.com/"@
            &&& !h.contains_key("Origin"@) ==> injected(url, h)["Origin"@]
                == "https://www.kugou.com/"@
        },
{
    reveal_strlit("https://www.kugou.com/");
    reveal_strlit("Referer");
    reveal_strlit("Origin");
    reveal_strlit("User-Agent");
    reveal_strlit("");
    reveal_strlit(
        "Mozilla/5.0 (iPhone; CPU iPhone OS 14_3 like Mac OS X) AppleWebKit/534.30 (KHTML, like Gecko) Version/4.0 Mobile Safari/534.30",
    );
    assert("Referer"@[0] != "Origin"@[0]);
    assert("Referer"@[0] != "User-Agent"@[0]);
    assert("Origin"@[0] != "User-Agent"@[0]);
}

/// A request to a Bilibili host where no later rule claims the URL carries
/// Bilibili's page as Referer where the caller set none, and gets no Origin
/// that the caller did not set.
pub proof fn lemma_bilibili_headers(url: Seq<char>, h: Map<Seq<char>, Seq<char>>)
    requires
        contains(url, ".bilibili.com/"@) || contains(url, ".bilivideo.com/"@) || contains(
            url,
            ".hdslb.com/"@,
        ),
        !contains(url, "c.y.qq.com/"@),
        !contains(url, ".bilivideo.cn"@),
        !contains(url, ".migu.cn"@),
        !contains(url, "m.music.migu.cn"@),
        !contains(url, ".taihe.com/"@),
        !contains(url, "music.91q.com"@),
    ensures
        !h.contains_key("Referer"@) ==> injected(url, h)["Referer"@]
            == "https://www.bilibili.com/"@,
        injected(url, h).contains_key("Origin"@) == h.contains_key("Origin"@),
{
    reveal_strlit("https://www.bilibili.com/");
    reveal_strlit("Referer");
    reveal_strlit("Origin");
    reveal_strlit("User-Agent");
    reveal_strlit("");
    assert("Referer"@[0] != "Origin"@[0]);
    assert("Referer"@[0] != "User-Agent"@[0]);
    assert("Origin"@[0] != "User-Agent"@[0]);
}

/// A request to a NetEase Cloud Music host where no later rule claims the URL
/// carries NetEase's page as Referer and as Origin where the caller set none.
pub proof fn lemma_netease_headers(url: Seq<char>, h: Map<Seq<char>, Seq<char>>)
    requires
        contains(url, "://music.163.com/"@) || contains(url, "://interface3.music.163.com/"@),
        !contains(url, "://gist.githubusercontent.com/"@),
        !contains(url, ".xiami.com/"@),
        !contains(url, "c.y.qq.com/"@),
        !contains(url, "y.qq.com/"@),
        !contains(url, "qpic.y.qq.com/"@),
        !contains(url, "y.gtimg.cn/"@),
        !contains(url, "qqmusic.qq.com/"@),
        !contains(url, "imgcache.qq.com/"@),
        !contains(url, ".kugou.com/"@),
        !contains(url, ".kuwo.cn/"@),
        !contains(url, ".bilibili.com/"@),
        !contains(url, ".bilivideo.com/"@),
        !contains(url, ".hdslb.com/"@),
        !contains(url, ".bilivideo.cn"@),
        !contains(url, ".migu.cn"@),
        !contains(url, "m.music.migu.cn"@),
        !contains(url, ".taihe.com/"@),
        !contains(url, "music.91q.com"@),
    ensures
        !h.contains_key("Referer"@) ==> injected(url, h)["Referer"@] == "http://music.163.com/"@,
        !h.contains_key("Origin"@) ==> injected(url, h)["Origin"@] == "http://music.163.com/"@,
        !h.contains_key("User-Agent"@) ==> injected(url, h)["User-Agent"@] == DESKTOP_UA@,
{
    reveal_strlit("http://music.163.com/");
    reveal_strlit("Referer");
    reveal_strlit("Origin");
    reveal_strlit("User-Agent");
    reveal_strlit("");
    assert("Referer"@[0] != "Origin"@[0]);
    assert("Referer"@[0] != "User-Agent"@[0]);
    assert("Origin"@[0] != "User-Agent"@[0]);
}

/// A request to `c.y.qq.com` carries QQ Music's site as Origin where the
/// caller set none (unless a Bilibili video host is named too), and QQ
/// Music's page as Referer where no later rule claims the URL.
pub proof fn lemma_qq_headers(url: Seq<char>, h: Map<Seq<char>, Seq<char>>)
    requires
        contains(url, "c.y.qq.com/"@),
        !contains(url, ".bilivideo.cn"@),
    ensures
        !h.contains_key("Origin"@) ==> injected(url, h)["Origin"@] == "https://y.qq.com"@,
        !contains(url, ".kugou.com/"@) && !contains(url, ".kuwo.cn/"@) && !contains(
            url,
            ".bilibili.com/"@,
        ) && !contains(url, ".bilivideo.com/"@) && !contains(url, ".hdslb.com/"@) && !contains(
            url,
            ".migu.cn"@,
        ) && !contains(url, "m.music.migu.cn"@) && !contains(url, ".taihe.com/"@) && !contains(
            url,
            "music.91q.com"@,
        ) && !h.contains_key("Referer"@) ==> injected(url, h)["Referer"@] == "https://y.qq.com/"@,
{
    reveal_strlit("https://y.qq.com/");
    reveal_strlit("https://y.qq.com");
    reveal_strlit("Referer");
    reveal_strlit("Origin");
    reveal_strlit("User-Agent");
    reveal_strlit("");
    assert("Referer"@[0] != "Origin"@[0]);
    assert("Referer"@[0] != "User-Agent"@[0]);
    assert("Origin"@[0] != "User-Agent"@[0]);
}

/// The Taihe rule comes last and so always decides the Referer of a Taihe
/// request; before it, the mobile Migu host gets the mobile Migu page and any
/// other Migu host the Migu player page (where the caller set none).
pub proof fn lemma_taihe_and_migu_referers(url: Seq<char>, h: Map<Seq<char>, Seq<char>>)
    requires
        !h.contains_key("Referer"@),
    ensures
        contains(url, ".taihe.com/"@) || contains(url, "music.91q.com"@) ==> injected(url, h)["Referer"@]
            == "https://music.taihe.com/"@,
        !contains(url, ".taihe.com/"@) && !contains(url, "music.91q.com"@) && contains(
            url,
            "m.music.migu.cn"@,
        ) ==> injected(url, h)["Referer"@] == "https://m.music.migu.cn/"@,
        !contains(url, ".taihe.com/"@) && !contains(url, "music.91q.com"@) && !contains(
            url,
            "m.music.migu.cn"@,
        ) && contains(url, ".migu.cn"@) ==> injected(url, h)["Referer"@]
            == "http://music.migu.cn/v3/music/player/audio?from=migu"@,
{
    reveal_strlit("https://music.taihe.com/");
    reveal_strlit("https://m.music.migu.cn/");
    reveal_strlit("http://music.migu.cn/v3/music/player/audio?from=migu");
    reveal_strlit("Referer");
    reveal_strlit("Origin");
    reveal_strlit("User-Agent");
    reveal_strlit("");
    assert("Referer"@[0] != "Origin"@[0]);
    assert("Referer"@[0] != "User-Agent"@[0]);
}

/// How requests reach the network: `mode` is "system", "direct" or "manual";
/// a manual proxy is `protocol://host:port`.
#[derive(Debug, Clone)]
pub struct ProxyConfig {
    pub mode: String,
    pub host: Option<String>,
    pub port: Option<u16>,
    pub protocol: Option<String>,
}

impl Default for ProxyConfig {
    /// The system's proxy settings.
    fn default() -> (r: Self)
        ensures
            r.mode@ == "system"@,
            r.host is None,
            r.port is None,
            r.protocol is None,
    {
        ProxyConfig { mode: "system".to_owned(), host: None, port: None, protocol: None }
    }
}

/// What the HTTP client is built with.
#[derive(Debug)]
pub enum ProxyPlan {
    /// The system's proxy settings (the client's default).
    System,
    /// Every request through this proxy URL.
    Manual { url: String },
    /// No proxy at all.
    Direct,
}

/// The proxy URL of a manual configuration.
pub open spec fn manual_proxy_url(host: Seq<char>, port: u16, protocol: Option<Seq<char>>) -> Seq<char> {
    let scheme = match protocol {
        Some(p) => p,
        None => "http"@,
    };
    scheme + "://"@ + host + ":"@ + decimal(port as nat)
}

/// The mode in force: an empty mode means "direct".
pub open spec fn effective_mode(mode: Seq<char>) -> Seq<char> {
    if mode.len() == 0 {
        "direct"@
    } else {
        mode
    }
}

/// The proxy plan for `config`: "system" keeps the system settings, "manual"
/// with both host and port uses that proxy (and keeps the system settings
/// without them), any other mode goes direct.
pub fn proxy_plan(config: &ProxyConfig) -> (r: ProxyPlan)
    ensures
        effective_mode(config.mode@) == "system"@ ==> r is System,
        effective_mode(config.mode@) == "manual"@ ==> match (config.host, config.port) {
            (Some(h), Some(p)) => r matches ProxyPlan::Manual { url } && url@ == manual_proxy_url(
                h@,
                p,
                opt_str(config.protocol),
            ),
            _ => r is System,
        },
        effective_mode(config.mode@) != "system"@ && effective_mode(config.mode@) != "manual"@
            ==> r is Direct,
{
    let mode = chars_of(config.mode.as_str());
    let mode = mode.as_slice();
    proof {
        reveal_strlit("direct");
        reveal_strlit("system");
        reveal_strlit("manual");
        assert("direct"@ != "system"@) by {
            assert("direct"@[0] != "system"@[0]);
        }
        assert("direct"@ != "manual"@) by {
            assert("direct"@[0] != "manual"@[0]);
        }
    }
    if mode.len() == 0 {
        return ProxyPlan::Direct;
    }
    if eq_str(mode, "system") {
        ProxyPlan::System
    } else if eq_str(mode, "manual") {
        match (&config.host, config.port) {
            (Some(host), Some(port)) => {
                let mut url = String::new();
                match &config.protocol {
                    Some(p) => push_str(&mut url, p.as_str()),
                    None => push_str(&mut url, "http"),
                }
                push_str(&mut url, "://");
                push_str(&mut url, host.as_str());
                push_str(&mut url, ":");
                let digits = decimal_string(port as u64);
                push_str(&mut url, digits.as_str());
                ProxyPlan::Manual { url }
            },
            _ => ProxyPlan::System,
        }
    } else {
        ProxyPlan::Direct
    }
}

/// The methods that `http_request` sends.
#[derive(Debug, Clone, Copy, PartialEq, Eq)]
pub enum HttpMethod {
    Get,
    Post,
    Put,
    Delete,
    Patch,
}

/// The method that an upper-cased method name selects; any other name is GET.
pub open spec fn method_for(upper: Seq<char>) -> HttpMethod {
    if upper == "POST"@ {
        HttpMethod::Post
    } else if upper == "PUT"@ {
        HttpMethod::Put
    } else if upper == "DELETE"@ {
        HttpMethod::Delete
    } else if upper == "PATCH"@ {
        HttpMethod::Patch
    } else {
        HttpMethod::Get
    }
}

/// `str::to_uppercase` (full Unicode case mapping).
pub uninterp spec fn unicode_upper(s: Seq<char>) -> Seq<char>;

/// `str::to_uppercase`.
#[verifier::external_body]
fn to_upper_text(s: &str) -> (r: String)
    ensures
        r@ == unicode_upper(s@),
{
    s.to_uppercase()
}

/// The method for an already upper-cased name.
pub fn method_from_upper(upper: &str) -> (r: HttpMethod)
    ensures
        r == method_for(upper@),
{
    let u = chars_of(upper);
    let u = u.as_slice();
    if eq_str(u, "POST") {
        HttpMethod::Post
    } else if eq_str(u, "PUT") {
        HttpMethod::Put
    } else if eq_str(u, "DELETE") {
        HttpMethod::Delete
    } else if eq_str(u, "PATCH") {
        HttpMethod::Patch
    } else {
        HttpMethod::Get
    }
}

/// The method of a request: the given name (GET where none is given),
/// upper-cased, as `method_for` reads it.
pub fn request_method(method: Option<&str>) -> (r: HttpMethod)
    ensures
        r == method_for(
            unicode_upper(
                match method {
                    Some(m) => m@,
                    None => "GET"@,
                },
            ),
        ),
{
    let name = match method {
        Some(m) => m,
        None => "GET",
    };
    let upper = to_upper_text(name);
    method_from_upper(upper.as_str())
}

/// A request as the front end describes it.
pub struct HttpRequestOptions {
    pub url: String,
    pub method: Option<String>,
    pub headers: Option<HeaderMap>,
    pub body: Option<String>,
}

/// The value of one `key=value` part of a cookie list whose key is `name`.
pub open spec fn cookie_part(part: Seq<char>, name: Seq<char>) -> Option<Seq<char>> {
    match split_once(trim(part), '=') {
        Some(kv) => if kv.0 == name {
            Some(kv.1)
        } else {
            None
        },
        None => None,
    }
}

/// The value of the first cookie called `name` in a `Cookie` header value.
pub open spec fn cookie_in(cookies: Seq<char>, name: Seq<char>) -> Option<Seq<char>> {
    find_map_pieces(cookies, ';', |p: Seq<char>| cookie_part(p, name))
}

fn cookie_part_exec<'a>(part: &'a [char], name: &[char]) -> (r: Option<&'a [char]>)
    ensures
        opt_view(r) == cookie_part(part@, name@),
{
    let t = trim_slice(part);
    match split_once_slice(t, '=') {
        Some((k, v)) => {
            if k.len() == name.len() && crate::text::occurs_at_exec(k, name, 0) {
                assert(k@.subrange(0, k@.len() as int) =~= k@);
                Some(v)
            } else {
                proof {
                    if k@ == name@ {
                        assert(k@.subrange(0, name@.len() as int) =~= k@);
                    }
                }
                None
            }
        },
        None => None,
    }
}

/// The value of the cookie `name` in the `Cookie` header value `cookies`.
pub fn cookie_value(cookies: &str, name: &str) -> (r: Option<String>)
    ensures
        opt_str(r) == cookie_in(cookies@, name@),
{
    let v = chars_of(cookies);
    let nv = chars_of(name);
    let mut pos: usize = 0;
    assert(v@.skip(0) =~= v@);
    loop
        invariant
            pos <= v@.len(),
            v@ == cookies@,
            nv@ == name@,
            cookie_in(v@, name@) == cookie_in(v@.skip(pos as int), name@),
        decreases v@.len() - pos,
    {
        let rest = &v.as_slice()[pos..v.len()];
        assert(rest@ =~= v@.skip(pos as int));
        let i = find_char_exec(rest, ';', 0);
        let part = &rest[0..i];
        assert(part@ =~= rest@.take(i as int));
        proof {
            assert(cookie_in(rest@, name@) == (if cookie_part(rest@.take(i as int), name@) is Some {
                cookie_part(rest@.take(i as int), name@)
            } else if i < rest@.len() {
                cookie_in(rest@.skip(i + 1), name@)
            } else {
                None
            }));
        }
        match cookie_part_exec(part, nv.as_slice()) {
            Some(value) => {
                return Some(string_of(value));
            },
            None => {},
        }
        if i < rest.len() {
            assert(v@.skip(pos + i + 1) =~= rest@.skip(i + 1));
            pos = pos + i + 1;
        } else {
            return None;
        }
    }
}

/// The charset named by one `key=value` part of a Content-Type value.
pub open spec fn charset_part(part: Seq<char>) -> Option<Seq<char>> {
    match split_once(trim(part), '=') {
        Some(kv) => if lower(trim(kv.0)) == "charset"@ {
            Some(strip_char_both(trim(kv.1), '"'))
        } else {
            None
        },
        None => None,
    }
}

/// The charset of a Content-Type value: the first `charset=` parameter, the
/// key in any ASCII case, the value without white space or double quotes.
pub open spec fn charset_in(content_type: Seq<char>) -> Option<Seq<char>> {
    find_map_pieces(content_type, ';', |p: Seq<char>| charset_part(p))
}

fn charset_part_exec<'a>(part: &'a [char]) -> (r: Option<&'a [char]>)
    ensures
        opt_view(r) == charset_part(part@),
{
    let t = trim_slice(part);
    match split_once_slice(t, '=') {
        Some((k, v)) => {
            let key = lower_vec(trim_slice(k));
            if eq_str(key.as_slice(), "charset") {
                Some(strip_char_slice(trim_slice(v), '"'))
            } else {
                None
            }
        },
        None => None,
    }
}

/// The charset named in a Content-Type value.
pub fn charset_from_content_type(content_type: &str) -> (r: Option<String>)
    ensures
        opt_str(r) == charset_in(content_type@),
{
    let v = chars_of(content_type);
    let mut pos: usize = 0;
    assert(v@.skip(0) =~= v@);
    loop
        invariant
            pos <= v@.len(),
            v@ == content_type@,
            charset_in(v@) == charset_in(v@.skip(pos as int)),
        decreases v@.len() - pos,
    {
        let rest = &v.as_slice()[pos..v.len()];
        assert(rest@ =~= v@.skip(pos as int));
        let i = find_char_exec(rest, ';', 0);
        let part = &rest[0..i];
        assert(part@ =~= rest@.take(i as int));
        proof {
            assert(charset_in(rest@) == (if charset_part(rest@.take(i as int)) is Some {
                charset_part(rest@.take(i as int))
            } else if i < rest@.len() {
                charset_in(rest@.skip(i + 1))
            } else {
                None
            }));
        }
        match charset_part_exec(part) {
            Some(value) => {
                return Some(string_of(value));
            },
            None => {},
        }
        if i < rest.len() {
            assert(v@.skip(pos + i + 1) =~= rest@.skip(i + 1));
            pos = pos + i + 1;
        } else {
            return None;
        }
    }
}

/// The Content-Type of a response, looked up as "content-type", then as
/// "Content-Type"; empty where neither is there.
pub open spec fn content_type_of(h: Map<Seq<char>, Seq<char>>) -> Seq<char> {
    if h.contains_key("content-type"@) {
        h["content-type"@]
    } else if h.contains_key("Content-Type"@) {
        h["Content-Type"@]
    } else {
        Seq::<char>::empty()
    }
}

/// The text of a response body: UTF-8 where it decodes without error, else
/// the charset that the Content-Type names where `encoding_rs` knows it, else
/// GB18030.
pub open spec fn response_text(h: Map<Seq<char>, Seq<char>>, bytes: Seq<u8>) -> Seq<char> {
    let (utf8, had_errors) = utf8_decoding(bytes);
    if !had_errors {
        utf8
    } else {
        match charset_in(content_type_of(h)) {
            Some(label) => match label_decoding(label, bytes) {
                Some(t) => t,
                None => gb18030_decoding(bytes),
            },
            None => gb18030_decoding(bytes),
        }
    }
}

/// Decodes a response body to text.
pub fn decode_text_response(headers: &HeaderMap, bytes: &[u8]) -> (r: String)
    requires
        decodable_len(bytes@.len() as int),
    ensures
        r@ == response_text(headers@, bytes@),
{
    let (text, had_errors) = decode_utf8_lossy(bytes);
    if !had_errors {
        return text;
    }
    let content_type: &str = match headers.get("content-type") {
        Some(v) => v.as_str(),
        None => match headers.get("Content-Type") {
            Some(v) => v.as_str(),
            None => "",
        },
    };
    proof {
        reveal_strlit("");
    }
    match charset_from_content_type(content_type) {
        Some(label) => match decode_with_label(label.as_str(), bytes) {
            Some(t) => t,
            None => decode_gb18030(bytes),
        },
        None => decode_gb18030(bytes),
    }
}

} // verus!
