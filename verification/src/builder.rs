//! The client: how it reaches the instance, and how it presents itself.

use vstd::prelude::*;

use crate::client::{base_url, normalize_base_url};
use crate::config::{AuthMethod, ResolvedProfile};
use crate::error::{dup_option, text_option, Error, Fault};
use crate::json::Json;
use crate::raw::{header_values, no_headers, no_values};
use crate::request::{Method, Request};
use crate::text::starts_with;

verus! {

/// How a request presents its credentials.
#[derive(Debug)]
pub enum Auth {
    Basic { username: String, password: String },
    Bearer { token: String },
    /// Not at all: the body of the request does.
    Anonymous,
}

/// How a request presents its credentials, as a view.
pub ghost enum AuthView {
    Basic(Seq<char>, Seq<char>),
    Bearer(Seq<char>),
    Anonymous,
}

impl Auth {
    pub open spec fn view(&self) -> AuthView {
        match self {
            Auth::Basic { username, password } => AuthView::Basic(username@, password@),
            Auth::Bearer { token } => AuthView::Bearer(token@),
            Auth::Anonymous => AuthView::Anonymous,
        }
    }
}

/// The settings of a client.
#[derive(Debug)]
pub struct ClientBuilder {
    pub timeout_secs: u64,
    pub user_agent: String,
    pub proxy: Option<String>,
    pub no_proxy: Option<String>,
    pub insecure: bool,
    pub ca_cert: Option<String>,
    pub proxy_ca_cert: Option<String>,
    pub proxy_username: Option<String>,
    pub proxy_password: Option<String>,
    pub auth: Option<Auth>,
    pub extra_headers: reqwest::header::HeaderMap<reqwest::header::HeaderValue>,
}

/// The proxy of a client: its address, the credentials for it where both parts are
/// known, and the hosts that go past it.
#[derive(Debug)]
pub struct ProxyPlan {
    pub url: String,
    pub credentials: Option<(String, String)>,
    pub no_proxy: Option<String>,
}

/// A client: the address of the instance, the credentials, the connection, and the
/// headers that go out last, so that they win.
#[derive(Debug)]
pub struct Client {
    pub base_url: String,
    pub auth: Auth,
    pub timeout_secs: u64,
    pub user_agent: String,
    pub proxy: Option<ProxyPlan>,
    pub insecure: bool,
    pub ca_cert: Option<String>,
    pub proxy_ca_cert: Option<String>,
    pub extra_headers: reqwest::header::HeaderMap<reqwest::header::HeaderValue>,
}

impl Default for ClientBuilder {
    fn default() -> (r: Self)
        ensures
            r.timeout_secs == 30,
            r.user_agent@ == "sn/0.13.0"@,
            r.proxy is None,
            r.no_proxy is None,
            !r.insecure,
            r.ca_cert is None,
            r.proxy_ca_cert is None,
            r.proxy_username is None,
            r.proxy_password is None,
            r.auth is None,
            header_values(r.extra_headers) == no_values(),
    {
        ClientBuilder {
            timeout_secs: 30,
            user_agent: "sn/0.13.0".to_owned(),
            proxy: None,
            no_proxy: None,
            insecure: false,
            ca_cert: None,
            proxy_ca_cert: None,
            proxy_username: None,
            proxy_password: None,
            auth: None,
            extra_headers: no_headers(),
        }
    }
}

/// What `reqwest` says of an address that cannot be that of a proxy.
pub uninterp spec fn proxy_refusal(url: Seq<char>) -> Option<Seq<char>>;

/// Whether an address can be that of a proxy, by `reqwest`'s `Proxy::all`: what it
/// says where it cannot. The answer is named, not described: it is a function of
/// the address alone.
#[verifier::external_body]
fn refuse_proxy(url: &str) -> (r: Option<String>)
    ensures
        text_option(r) == proxy_refusal(url@),
{
    match reqwest::Proxy::all(url) {
        Ok(_) => None,
        Err(e) => Some(e.to_string()),
    }
}

/// The beginnings that the address of a proxy can have.
pub open spec fn proxy_scheme(url: Seq<char>) -> bool {
    "http://"@.is_prefix_of(url) || "https://"@.is_prefix_of(url) || "socks5://"@.is_prefix_of(url)
        || "socks5h://"@.is_prefix_of(url)
}

/// The failure of the address of a proxy.
pub open spec fn proxy_fault(url: Seq<char>, refusal: Option<Seq<char>>) -> Option<Fault> {
    if !proxy_scheme(url) {
        Some(
            Fault::Config(
                "invalid proxy URL '"@ + url
                    + "': must start with http://, https://, or socks5://"@,
            ),
        )
    } else {
        match refusal {
            Some(m) => Some(Fault::Config("invalid proxy URL '"@ + url + "': "@ + m)),
            None => None,
        }
    }
}

/// Whether the beginning of an address is that of a proxy.
fn has_proxy_scheme(url: &str) -> (r: bool)
    ensures
        r == proxy_scheme(url@),
{
    starts_with(url, "http://") || starts_with(url, "https://") || starts_with(url, "socks5://")
        || starts_with(url, "socks5h://")
}

/// Decides on the address of a proxy, given what is said of it.
pub fn judge_proxy(url: &str, refusal: &Option<String>) -> (r: Result<(), Error>)
    ensures
        match proxy_fault(url@, text_option(*refusal)) {
            Some(f) => r matches Err(e) && e@ == f,
            None => r is Ok,
        },
{
    let start = "invalid proxy URL '".to_owned().concat(url);
    if !has_proxy_scheme(url) {
        return Err(
            Error::Config(start.concat("': must start with http://, https://, or socks5://")),
        );
    }
    match refusal {
        Some(m) => Err(Error::Config(start.concat("': ").concat(m.as_str()))),
        None => Ok(()),
    }
}

/// The proxy that the settings come to.
pub open spec fn planned_proxy(b: ClientBuilder, p: Option<ProxyPlan>) -> bool {
    match b.proxy {
        None => p is None,
        Some(url) => p matches Some(p) && p.url@ == url@ && text_option(p.no_proxy) == text_option(
            b.no_proxy,
        ) && match (b.proxy_username, b.proxy_password) {
            (Some(u), Some(w)) => p.credentials matches Some(c) && c.0@ == u@ && c.1@ == w@,
            _ => p.credentials is None,
        },
    }
}

/// How the client presents its credentials: as it was told to, else with the name
/// and the password of the profile.
pub open spec fn planned_auth(auth: Option<Auth>, profile: ResolvedProfile) -> AuthView {
    match auth {
        Some(a) => a@,
        None => AuthView::Basic(profile.username@, profile.password@),
    }
}

impl ClientBuilder {
    /// Sets how long a request may take.
    pub fn timeout(self, secs: u64) -> (r: Self)
        ensures
            r == (ClientBuilder { timeout_secs: secs, ..self }),
    {
        let mut b = self;
        b.timeout_secs = secs;
        b
    }

    /// Sets the address of the proxy.
    pub fn proxy(self, url: Option<String>) -> (r: Self)
        ensures
            r == (ClientBuilder { proxy: url, ..self }),
    {
        let mut b = self;
        b.proxy = url;
        b
    }

    /// Sets the hosts that go past the proxy.
    pub fn no_proxy(self, hosts: Option<String>) -> (r: Self)
        ensures
            r == (ClientBuilder { no_proxy: hosts, ..self }),
    {
        let mut b = self;
        b.no_proxy = hosts;
        b
    }

    /// Sets whether certificates go unchecked.
    pub fn insecure(self, yes: bool) -> (r: Self)
        ensures
            r == (ClientBuilder { insecure: yes, ..self }),
    {
        let mut b = self;
        b.insecure = yes;
        b
    }

    /// Sets the file of the instance's certificate.
    pub fn ca_cert(self, path: Option<String>) -> (r: Self)
        ensures
            r == (ClientBuilder { ca_cert: path, ..self }),
    {
        let mut b = self;
        b.ca_cert = path;
        b
    }

    /// Sets the file of the proxy's certificate.
    pub fn proxy_ca_cert(self, path: Option<String>) -> (r: Self)
        ensures
            r == (ClientBuilder { proxy_ca_cert: path, ..self }),
    {
        let mut b = self;
        b.proxy_ca_cert = path;
        b
    }

    /// Sets the credentials for the proxy.
    pub fn proxy_auth(self, username: Option<String>, password: Option<String>) -> (r: Self)
        ensures
            r == (ClientBuilder { proxy_username: username, proxy_password: password, ..self }),
    {
        let mut b = self;
        b.proxy_username = username;
        b.proxy_password = password;
        b
    }

    /// Sets how requests present their credentials.
    pub fn auth(self, auth: Auth) -> (r: Self)
        ensures
            r == (ClientBuilder { auth: Some(auth), ..self }),
    {
        let mut b = self;
        b.auth = Some(auth);
        b
    }

    /// Sets the headers that go out last.
    pub fn extra_headers(
        self,
        headers: reqwest::header::HeaderMap<reqwest::header::HeaderValue>,
    ) -> (r: Self)
        ensures
            r == (ClientBuilder { extra_headers: headers, ..self }),
    {
        let mut b = self;
        b.extra_headers = headers;
        b
    }

    /// Makes the client for a profile. Only an address of a proxy can be refused.
    pub fn build(self, profile: &ResolvedProfile) -> (r: Result<Client, Error>)
        ensures
            self.proxy matches Some(url) ==> (proxy_fault(url@, proxy_refusal(url@)) matches Some(
                f,
            ) ==> (r matches Err(e) && e@ == f)),
            (self.proxy matches Some(url) ==> proxy_fault(url@, proxy_refusal(url@)) is None) ==> (r
                matches Ok(c) && c.base_url@ == base_url(profile.instance@) && c.auth@
                == planned_auth(self.auth, *profile) && c.timeout_secs == self.timeout_secs
                && c.user_agent == self.user_agent && planned_proxy(self, c.proxy) && c.insecure
                == self.insecure && c.ca_cert == self.ca_cert && c.proxy_ca_cert
                == self.proxy_ca_cert && c.extra_headers == self.extra_headers),
    {
        let proxy = match &self.proxy {
            None => None,
            Some(url) => {
                let refusal = refuse_proxy(url.as_str());
                if let Err(e) = judge_proxy(url.as_str(), &refusal) {
                    return Err(e);
                }
                let credentials = match (&self.proxy_username, &self.proxy_password) {
                    (Some(u), Some(w)) => Some((u.clone(), w.clone())),
                    _ => None,
                };
                Some(
                    ProxyPlan {
                        url: url.clone(),
                        credentials,
                        no_proxy: dup_option(&self.no_proxy),
                    },
                )
            },
        };
        let auth = match self.auth {
            Some(a) => a,
            None => Auth::Basic {
                username: profile.username.clone(),
                password: profile.password.clone(),
            },
        };
        Ok(
            Client {
                base_url: normalize_base_url(profile.instance.as_str()),
                auth,
                timeout_secs: self.timeout_secs,
                user_agent: self.user_agent,
                proxy,
                insecure: self.insecure,
                ca_cert: self.ca_cert,
                proxy_ca_cert: self.proxy_ca_cert,
                extra_headers: self.extra_headers,
            },
        )
    }
}

/// What goes over the wire for a request.
#[derive(Debug)]
pub struct Wire {
    pub method: Method,
    pub url: String,
    pub query: Vec<(String, String)>,
    pub content_type: Option<String>,
    pub body: Option<Json>,
}

impl Client {
    /// The settings that a client begins with.
    pub fn builder() -> (r: ClientBuilder)
        ensures
            r.timeout_secs == 30,
            r.user_agent@ == "sn/0.13.0"@,
            r.proxy is None,
            r.no_proxy is None,
            !r.insecure,
            r.ca_cert is None,
            r.proxy_ca_cert is None,
            r.proxy_username is None,
            r.proxy_password is None,
            r.auth is None,
            header_values(r.extra_headers) == no_values(),
    {
        ClientBuilder::default()
    }

    /// The address of the instance.
    pub fn base_url(&self) -> (r: &str)
        ensures
            r@ == self.base_url@,
    {
        self.base_url.as_str()
    }

    /// The address of a path.
    pub fn url(&self, path: &str) -> (r: String)
        ensures
            r@ == self.base_url@ + path@,
    {
        self.base_url.clone().concat(path)
    }

    /// What goes over the wire for a request: the type of the body is named where
    /// there is one.
    pub fn request(&self, r: Request) -> (w: Wire)
        ensures
            w.method == r.method,
            w.url@ == self.base_url@ + r.path@,
            w.query == r.query,
            w.body == r.body,
            text_option(w.content_type) == (if r.body is Some {
                Some("application/json"@)
            } else {
                None
            }),
    {
        let url = self.url(r.path.as_str());
        let content_type = if r.body.is_some() {
            Some("application/json".to_owned())
        } else {
            None
        };
        Wire { method: r.method, url, query: r.query, content_type, body: r.body }
    }

    /// What is shown of a client: never a password, never a token.
    pub fn describe(&self) -> (r: (String, String))
        ensures
            r.0@ == self.base_url@,
            r.1@ == match self.auth@ {
                AuthView::Basic(u, _) => "basic("@ + u + ")"@,
                AuthView::Bearer(_) => "bearer"@,
                AuthView::Anonymous => "none"@,
            },
    {
        let scheme = match &self.auth {
            Auth::Basic { username, .. } => "basic(".to_owned().concat(username.as_str()).concat(
                ")",
            ),
            Auth::Bearer { .. } => "bearer".to_owned(),
            Auth::Anonymous => "none".to_owned(),
        };
        (self.base_url.clone(), scheme)
    }
}

/// The settings of the client for a profile, with a token where the profile logs
/// in by one.
pub fn build_client(profile: &ResolvedProfile, timeout: Option<u64>, token: Option<String>) -> (r:
    ClientBuilder)
    ensures
        r.timeout_secs == (match timeout {
            Some(secs) => secs,
            None => 30,
        }),
        r.user_agent@ == "sn/0.13.0"@,
        text_option(r.proxy) == text_option(profile.proxy),
        text_option(r.no_proxy) == text_option(profile.no_proxy),
        r.insecure == profile.insecure,
        text_option(r.ca_cert) == text_option(profile.ca_cert),
        text_option(r.proxy_ca_cert) == text_option(profile.proxy_ca_cert),
        text_option(r.proxy_username) == text_option(profile.proxy_username),
        text_option(r.proxy_password) == text_option(profile.proxy_password),
        match token {
            Some(t) => r.auth matches Some(a) && a@ == AuthView::Bearer(t@),
            None => r.auth is None,
        },
        header_values(r.extra_headers) == no_values(),
{
    let b = Client::builder().proxy(dup_option(&profile.proxy)).no_proxy(
        dup_option(&profile.no_proxy),
    ).insecure(profile.insecure).ca_cert(dup_option(&profile.ca_cert)).proxy_ca_cert(
        dup_option(&profile.proxy_ca_cert),
    ).proxy_auth(dup_option(&profile.proxy_username), dup_option(&profile.proxy_password));
    let b = match token {
        Some(t) => b.auth(Auth::Bearer { token: t }),
        None => b,
    };
    match timeout {
        Some(secs) => b.timeout(secs),
        None => b,
    }
}

/// Whether the client of a profile needs a token.
pub fn needs_token(profile: &ResolvedProfile) -> (r: bool)
    ensures
        r == (profile.auth_method == AuthMethod::Oauth),
{
    match profile.auth_method {
        AuthMethod::Oauth => true,
        AuthMethod::Basic => false,
    }
}

/// The address of a proxy is accepted where it has one of the schemes and is no refused
/// one, and only there.
pub proof fn a_proxy_has_a_scheme(url: Seq<char>, rest: Seq<char>, refusal: Option<Seq<char>>)
    ensures
        proxy_fault("http://"@ + rest, None) is None,
        proxy_fault("https://"@ + rest, None) is None,
        proxy_fault("socks5://"@ + rest, None) is None,
        proxy_fault("socks5h://"@ + rest, None) is None,
        refusal is Some ==> proxy_fault(url, refusal) is Some,
        proxy_fault(url, refusal) is None ==> "http://"@.is_prefix_of(url)
            || "https://"@.is_prefix_of(url) || "socks5://"@.is_prefix_of(url)
            || "socks5h://"@.is_prefix_of(url),
        proxy_fault(url, refusal) matches Some(f) ==> f is Config,
{
    assert("http://"@.is_prefix_of("http://"@ + rest));
    assert("https://"@.is_prefix_of("https://"@ + rest));
    assert("socks5://"@.is_prefix_of("socks5://"@ + rest));
    assert("socks5h://"@.is_prefix_of("socks5h://"@ + rest));
}

/// The proxy is the one that was set, with its own credentials and exceptions.
pub proof fn a_proxy_is_planned_as_set(b: ClientBuilder, p: Option<ProxyPlan>)
    requires
        planned_proxy(b, p),
    ensures
        b.proxy is None <==> p is None,
        p matches Some(q) ==> {
            &&& text_option(b.proxy) == Some(q.url@)
            &&& text_option(q.no_proxy) == text_option(b.no_proxy)
            &&& q.credentials is Some <==> b.proxy_username is Some && b.proxy_password is Some
            &&& q.credentials matches Some(c) ==> text_option(b.proxy_username) == Some(c.0@)
                && text_option(b.proxy_password) == Some(c.1@)
        },
{
}

/// Without other credentials the client presents the name and the password of the
/// profile, in that order.
pub proof fn the_profile_stands_in_for_credentials(auth: Option<Auth>, profile: ResolvedProfile)
    ensures
        auth is None ==> planned_auth(auth, profile) == AuthView::Basic(
            profile.username@,
            profile.password@,
        ),
        auth matches Some(Auth::Bearer { token }) ==> planned_auth(auth, profile)
            == AuthView::Bearer(token@),
        auth matches Some(Auth::Basic { username, password }) ==> planned_auth(auth, profile)
            == AuthView::Basic(username@, password@),
        auth matches Some(Auth::Anonymous) ==> planned_auth(auth, profile) is Anonymous,
{
}

} // verus!
