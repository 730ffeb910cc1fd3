//! Profiles: where an instance is, how to log in to it, and which settings of
//! the command line, the environment and the files apply.

use vstd::prelude::*;

use crate::error::{dup_option, text_option, Error, Fault};
use crate::named::Named;
use crate::text::{ascii_lowered, same, same_ignoring_case, trim, trimmed};

verus! {

/// The profiles of a user, without their secrets.
#[derive(Debug)]
pub struct Config {
    pub default_profile: Option<String>,
    pub profiles: Named<ProfileConfig>,
}

/// One profile, without its secrets.
#[derive(Debug, PartialEq, Eq)]
pub struct ProfileConfig {
    pub instance: String,
    pub proxy: Option<String>,
    pub no_proxy: Option<String>,
    pub insecure: bool,
    pub ca_cert: Option<String>,
    pub proxy_ca_cert: Option<String>,
    pub auth: AuthMethod,
    pub oauth: Option<OAuthConfig>,
}

/// Which credential mechanism a profile authenticates with.
#[derive(Debug, Clone, Copy, PartialEq, Eq, Structural)]
pub enum AuthMethod {
    Basic,
    Oauth,
}

/// The OAuth grant: the interactive flow, or service to service.
#[derive(Debug, Clone, Copy, PartialEq, Eq, Structural)]
pub enum OAuthGrant {
    AuthorizationCode,
    ClientCredentials,
}

/// The OAuth settings of a profile, without its secrets.
#[derive(Debug, PartialEq, Eq)]
pub struct OAuthConfig {
    pub client_id: String,
    pub redirect_uri: Option<String>,
    pub auth_path: Option<String>,
    pub token_path: Option<String>,
    pub grant: OAuthGrant,
    pub pkce: bool,
}

/// The OAuth tokens of a profile.
#[derive(Debug, PartialEq, Eq)]
pub struct TokenSet {
    pub access_token: String,
    pub refresh_token: Option<String>,
    /// When the access token ends, in seconds since 1970.
    pub expires_at: Option<u64>,
    pub token_type: Option<String>,
}

/// The secrets of the profiles.
#[derive(Debug)]
pub struct Credentials {
    pub profiles: Named<ProfileCredentials>,
}

/// The secrets of one profile.
#[derive(Debug, PartialEq, Eq)]
pub struct ProfileCredentials {
    pub username: String,
    pub password: String,
    pub proxy_username: Option<String>,
    pub proxy_password: Option<String>,
    pub client_secret: Option<String>,
    pub oauth_tokens: Option<TokenSet>,
}

impl AuthMethod {
    /// Whether the profile logs in with a password.
    pub fn is_basic(&self) -> (r: bool)
        ensures
            r == (*self is Basic),
    {
        matches!(self, AuthMethod::Basic)
    }
}

impl OAuthGrant {
    /// Whether the grant is the interactive one.
    pub fn is_default(&self) -> (r: bool)
        ensures
            r == (*self is AuthorizationCode),
    {
        matches!(self, OAuthGrant::AuthorizationCode)
    }
}

impl TokenSet {
    /// Whether the token ends within `skew_secs` of a moment. A token of
    /// unknown end is never expired.
    pub open spec fn expired_at(self, now: u64, skew_secs: u64) -> bool {
        match self.expires_at {
            Some(end) => now + skew_secs >= end,
            None => false,
        }
    }

    /// Whether the token ends within `skew_secs` of the given moment.
    pub fn is_expired_at(&self, now: u64, skew_secs: u64) -> (r: bool)
        ensures
            r == self.expired_at(now, skew_secs),
    {
        match self.expires_at {
            Some(end) => now.saturating_add(skew_secs) >= end,
            None => false,
        }
    }

    /// Whether the token ends within `skew_secs` of now.
    pub fn is_expired(&self, skew_secs: u64) -> (r: bool)
        ensures
            exists|now: u64| r == #[trigger] self.expired_at(now, skew_secs),
            self.expires_at is None ==> !r,
    {
        self.is_expired_at(now_unix(), skew_secs)
    }

    /// A copy.
    pub fn dup(&self) -> (r: Self)
        ensures
            r == *self,
    {
        TokenSet {
            access_token: self.access_token.clone(),
            refresh_token: dup_option(&self.refresh_token),
            expires_at: self.expires_at,
            token_type: dup_option(&self.token_type),
        }
    }
}

/// `std::time::SystemTime::now`, in whole seconds since 1970. Nothing is
/// claimed of the result: it is the time.
#[verifier::external_body]
pub fn now_unix() -> u64 {
    std::time::SystemTime::now()
        .duration_since(std::time::UNIX_EPOCH)
        .map(|d| d.as_secs())
        .unwrap_or(0)
}

/// Where the interactive flow comes back to unless a profile says otherwise.
pub fn default_redirect_uri() -> (r: String)
    ensures
        r@ == "http://localhost:8400/callback"@,
{
    "http://localhost:8400/callback".to_owned()
}

impl OAuthConfig {
    /// A copy.
    pub fn dup(&self) -> (r: Self)
        ensures
            r == *self,
    {
        OAuthConfig {
            client_id: self.client_id.clone(),
            redirect_uri: dup_option(&self.redirect_uri),
            auth_path: dup_option(&self.auth_path),
            token_path: dup_option(&self.token_path),
            grant: self.grant,
            pkce: self.pkce,
        }
    }
}

/// A copy of optional OAuth settings.
pub fn dup_oauth(o: &Option<OAuthConfig>) -> (r: Option<OAuthConfig>)
    ensures
        r == *o,
{
    match o {
        Some(o) => Some(o.dup()),
        None => None,
    }
}

/// A copy of optional tokens.
pub fn dup_tokens(t: &Option<TokenSet>) -> (r: Option<TokenSet>)
    ensures
        r == *t,
{
    match t {
        Some(t) => Some(t.dup()),
        None => None,
    }
}

impl ProfileConfig {
    /// A copy.
    pub fn dup(&self) -> (r: Self)
        ensures
            r == *self,
    {
        ProfileConfig {
            instance: self.instance.clone(),
            proxy: dup_option(&self.proxy),
            no_proxy: dup_option(&self.no_proxy),
            insecure: self.insecure,
            ca_cert: dup_option(&self.ca_cert),
            proxy_ca_cert: dup_option(&self.proxy_ca_cert),
            auth: self.auth,
            oauth: dup_oauth(&self.oauth),
        }
    }
}

impl ProfileCredentials {
    /// A copy.
    pub fn dup(&self) -> (r: Self)
        ensures
            r == *self,
    {
        ProfileCredentials {
            username: self.username.clone(),
            password: self.password.clone(),
            proxy_username: dup_option(&self.proxy_username),
            proxy_password: dup_option(&self.proxy_password),
            client_secret: dup_option(&self.client_secret),
            oauth_tokens: dup_tokens(&self.oauth_tokens),
        }
    }
}

impl Default for AuthMethod {
    fn default() -> (r: Self)
        ensures
            r == AuthMethod::Basic,
    {
        AuthMethod::Basic
    }
}

impl Default for OAuthGrant {
    fn default() -> (r: Self)
        ensures
            r == OAuthGrant::AuthorizationCode,
    {
        OAuthGrant::AuthorizationCode
    }
}

impl Default for ProfileConfig {
    fn default() -> (r: Self)
        ensures
            r.instance@ == Seq::<char>::empty(),
            r.proxy is None,
            r.no_proxy is None,
            !r.insecure,
            r.ca_cert is None,
            r.proxy_ca_cert is None,
            r.auth == AuthMethod::Basic,
            r.oauth is None,
    {
        ProfileConfig {
            instance: String::new(),
            proxy: None,
            no_proxy: None,
            insecure: false,
            ca_cert: None,
            proxy_ca_cert: None,
            auth: AuthMethod::Basic,
            oauth: None,
        }
    }
}

impl Default for ProfileCredentials {
    fn default() -> (r: Self)
        ensures
            r.username@ == Seq::<char>::empty(),
            r.password@ == Seq::<char>::empty(),
            r.proxy_username is None,
            r.proxy_password is None,
            r.client_secret is None,
            r.oauth_tokens is None,
    {
        ProfileCredentials {
            username: String::new(),
            password: String::new(),
            proxy_username: None,
            proxy_password: None,
            client_secret: None,
            oauth_tokens: None,
        }
    }
}

impl Default for Config {
    fn default() -> (r: Self)
        ensures
            r.default_profile is None,
            r.profiles@ == Map::<Seq<char>, ProfileConfig>::empty(),
    {
        Config { default_profile: None, profiles: Named::new() }
    }
}

impl Default for Credentials {
    fn default() -> (r: Self)
        ensures
            r.profiles@ == Map::<Seq<char>, ProfileCredentials>::empty(),
    {
        Credentials { profiles: Named::new() }
    }
}

/// A profile that is ready for use. What comes from several places is settled:
/// a flag beats the environment, which beats the file.
#[derive(Debug, PartialEq, Eq)]
pub struct ResolvedProfile {
    pub name: String,
    pub instance: String,
    pub username: String,
    pub password: String,
    pub proxy: Option<String>,
    pub no_proxy: Option<String>,
    pub insecure: bool,
    pub ca_cert: Option<String>,
    pub proxy_ca_cert: Option<String>,
    pub proxy_username: Option<String>,
    pub proxy_password: Option<String>,
    pub auth_method: AuthMethod,
    pub oauth: Option<ResolvedOauth>,
}

/// The OAuth side of a profile, with every default applied.
#[derive(Debug, PartialEq, Eq)]
pub struct ResolvedOauth {
    pub client_id: String,
    pub client_secret: Option<String>,
    pub redirect_uri: String,
    pub auth_path: String,
    pub token_path: String,
    pub grant: OAuthGrant,
    pub pkce: bool,
    pub tokens: Option<TokenSet>,
}

/// Everything that a profile is resolved from.
pub struct ProfileResolverInputs<'a> {
    pub cli_profile: Option<&'a str>,
    pub cli_proxy: Option<&'a str>,
    pub env_proxy: Option<&'a str>,
    pub cli_no_proxy: bool,
    pub env_no_proxy: Option<&'a str>,
    pub cli_insecure: bool,
    pub env_insecure: Option<&'a str>,
    pub cli_ca_cert: Option<&'a str>,
    pub env_ca_cert: Option<&'a str>,
    pub cli_proxy_ca_cert: Option<&'a str>,
    pub env_proxy_ca_cert: Option<&'a str>,
    pub config: &'a Config,
    pub credentials: &'a Credentials,
}

/// The text of an optional borrowed string.
pub open spec fn str_option(s: Option<&str>) -> Option<Seq<char>> {
    match s {
        Some(t) => Some(t@),
        None => None,
    }
}

/// The first of two values that is there.
pub open spec fn either<T>(a: Option<T>, b: Option<T>) -> Option<T> {
    match a {
        Some(x) => Some(x),
        None => b,
    }
}

/// A value, or what stands in for it.
pub open spec fn or_else<T>(a: Option<T>, b: T) -> T {
    match a {
        Some(x) => x,
        None => b,
    }
}

/// The OAuth side of a resolved profile, as a view.
pub ghost struct OauthView {
    pub client_id: Seq<char>,
    pub client_secret: Option<Seq<char>>,
    pub redirect_uri: Seq<char>,
    pub auth_path: Seq<char>,
    pub token_path: Seq<char>,
    pub grant: OAuthGrant,
    pub pkce: bool,
    pub tokens: Option<TokenSet>,
}

/// Who a profile is: what it is called, where it goes and how it logs in.
pub ghost struct Identity {
    pub name: Seq<char>,
    pub instance: Seq<char>,
    pub username: Seq<char>,
    pub password: Seq<char>,
    pub proxy_username: Option<Seq<char>>,
    pub proxy_password: Option<Seq<char>>,
    pub auth_method: AuthMethod,
    pub oauth: Option<OauthView>,
}

/// How a profile gets to the instance.
pub ghost struct Transport {
    pub proxy: Option<Seq<char>>,
    pub no_proxy: Option<Seq<char>>,
    pub insecure: bool,
    pub ca_cert: Option<Seq<char>>,
    pub proxy_ca_cert: Option<Seq<char>>,
}

impl ResolvedOauth {
    pub open spec fn view(&self) -> OauthView {
        OauthView {
            client_id: self.client_id@,
            client_secret: text_option(self.client_secret),
            redirect_uri: self.redirect_uri@,
            auth_path: self.auth_path@,
            token_path: self.token_path@,
            grant: self.grant,
            pkce: self.pkce,
            tokens: self.tokens,
        }
    }
}

impl ResolvedProfile {
    /// Who the profile is.
    pub open spec fn identity(&self) -> Identity {
        Identity {
            name: self.name@,
            instance: self.instance@,
            username: self.username@,
            password: self.password@,
            proxy_username: text_option(self.proxy_username),
            proxy_password: text_option(self.proxy_password),
            auth_method: self.auth_method,
            oauth: match self.oauth {
                Some(o) => Some(o@),
                None => None,
            },
        }
    }

    /// How the profile gets to the instance.
    pub open spec fn transport(&self) -> Transport {
        Transport {
            proxy: text_option(self.proxy),
            no_proxy: text_option(self.no_proxy),
            insecure: self.insecure,
            ca_cert: text_option(self.ca_cert),
            proxy_ca_cert: text_option(self.proxy_ca_cert),
        }
    }
}

/// The profile that a command is for: the one it names, else the default.
pub open spec fn selected(cli: Option<Seq<char>>, config: Config) -> Option<Seq<char>> {
    either(cli, text_option(config.default_profile))
}

/// Picks the profile that a command is for.
pub fn resolve_profile_name(cli_profile: Option<&str>, config: &Config) -> (r: Result<String, Error>)
    ensures
        match r {
            Ok(name) => selected(str_option(cli_profile), *config) == Some(name@),
            Err(e) => selected(str_option(cli_profile), *config) is None && e@ == Fault::Config(
                "no profile selected; pass --profile <name> or run `sn init`"@,
            ),
        },
{
    match cli_profile {
        Some(p) => Ok(p.to_owned()),
        None => match &config.default_profile {
            Some(p) => Ok(p.clone()),
            None => Err(
                Error::Config(
                    "no profile selected; pass --profile <name> or run `sn init`".to_owned(),
                ),
            ),
        },
    }
}

/// The entry of a name in a table.
pub open spec fn entry<V>(m: Map<Seq<char>, V>, name: Seq<char>) -> Option<V> {
    if m.contains_key(name) {
        Some(m[name])
    } else {
        None
    }
}

/// The OAuth side that settings and secrets give.
pub open spec fn oauth_side(o: OAuthConfig, cred: Option<ProfileCredentials>) -> OauthView {
    OauthView {
        client_id: o.client_id@,
        client_secret: match cred {
            Some(c) => text_option(c.client_secret),
            None => None,
        },
        redirect_uri: or_else(text_option(o.redirect_uri), "http://localhost:8400/callback"@),
        auth_path: or_else(text_option(o.auth_path), "/oauth_auth.do"@),
        token_path: or_else(text_option(o.token_path), "/oauth_token.do"@),
        grant: o.grant,
        pkce: o.pkce,
        tokens: match cred {
            Some(c) => c.oauth_tokens,
            None => None,
        },
    }
}

/// Who a profile is, by the two files alone.
pub open spec fn identity_of(
    name: Seq<char>,
    cfg: Option<ProfileConfig>,
    cred: Option<ProfileCredentials>,
) -> Result<Identity, Fault> {
    match cfg {
        Some(p) => if trimmed(p.instance@).len() == 0 {
            Err(no_setting("instance"@, name))
        } else if p.auth is Basic {
            match cred {
                Some(c) => Ok(
                    Identity {
                        name,
                        instance: p.instance@,
                        username: c.username@,
                        password: c.password@,
                        proxy_username: text_option(c.proxy_username),
                        proxy_password: text_option(c.proxy_password),
                        auth_method: AuthMethod::Basic,
                        oauth: None,
                    },
                ),
                None => Err(no_setting("username"@, name)),
            }
        } else {
            match p.oauth {
                Some(o) => Ok(
                    Identity {
                        name,
                        instance: p.instance@,
                        username: match cred {
                            Some(c) => c.username@,
                            None => Seq::empty(),
                        },
                        password: match cred {
                            Some(c) => c.password@,
                            None => Seq::empty(),
                        },
                        proxy_username: match cred {
                            Some(c) => text_option(c.proxy_username),
                            None => None,
                        },
                        proxy_password: match cred {
                            Some(c) => text_option(c.proxy_password),
                            None => None,
                        },
                        auth_method: AuthMethod::Oauth,
                        oauth: Some(oauth_side(o, cred)),
                    },
                ),
                None => Err(
                    Fault::Config(
                        "profile '"@ + name
                            + "' uses oauth but has no [oauth] config; run `sn init`"@,
                    ),
                ),
            }
        },
        None => Err(no_setting("instance"@, name)),
    }
}

/// The failure of a profile that lacks a setting.
pub open spec fn no_setting(what: Seq<char>, name: Seq<char>) -> Fault {
    Fault::Config("no "@ + what + " configured for profile '"@ + name + "'; run `sn init`"@)
}

/// Whether the value of the environment switches checks off.
pub open spec fn switched_on(v: Option<Seq<char>>) -> bool {
    v matches Some(t) && (t == "1"@ || ascii_lowered(t) == ascii_lowered("true"@))
}

/// How the profile gets to the instance: flags before the environment before
/// the file. The user name and the password are never among these.
pub open spec fn transport_of(i: ProfileResolverInputs<'_>, p: ProfileConfig) -> Transport {
    Transport {
        proxy: if i.cli_no_proxy {
            None
        } else {
            either(either(str_option(i.cli_proxy), str_option(i.env_proxy)), text_option(p.proxy))
        },
        no_proxy: either(str_option(i.env_no_proxy), text_option(p.no_proxy)),
        insecure: i.cli_insecure || switched_on(str_option(i.env_insecure)) || p.insecure,
        ca_cert: either(
            either(str_option(i.cli_ca_cert), str_option(i.env_ca_cert)),
            text_option(p.ca_cert),
        ),
        proxy_ca_cert: either(
            either(str_option(i.cli_proxy_ca_cert), str_option(i.env_proxy_ca_cert)),
            text_option(p.proxy_ca_cert),
        ),
    }
}

/// What a profile resolves to.
pub open spec fn resolution(i: ProfileResolverInputs<'_>) -> Result<(Identity, Transport), Fault> {
    match selected(str_option(i.cli_profile), *i.config) {
        None => Err(Fault::Config("no profile selected; pass --profile <name> or run `sn init`"@)),
        Some(name) => match identity_of(
            name,
            entry(i.config.profiles@, name),
            entry(i.credentials.profiles@, name),
        ) {
            Err(f) => Err(f),
            Ok(id) => Ok((id, transport_of(i, i.config.profiles@[name]))),
        },
    }
}

/// The setting that counts: a flag, else the environment, else the file.
fn settle(cli: Option<&str>, env: Option<&str>, file: &Option<String>) -> (r: Option<String>)
    ensures
        text_option(r) == either(either(str_option(cli), str_option(env)), text_option(*file)),
{
    match cli {
        Some(s) => Some(s.to_owned()),
        None => match env {
            Some(s) => Some(s.to_owned()),
            None => dup_option(file),
        },
    }
}

/// A setting of a file, or its default.
fn or_default(file: &Option<String>, default: &str) -> (r: String)
    ensures
        r@ == or_else(text_option(*file), default@),
{
    match file {
        Some(s) => s.clone(),
        None => default.to_owned(),
    }
}

/// The failure of a profile that lacks a setting.
fn missing_setting(what: &str, name: &str) -> (e: Error)
    ensures
        e@ == no_setting(what@, name@),
{
    Error::Config(
        "no ".to_owned().concat(what).concat(" configured for profile '").concat(name).concat(
            "'; run `sn init`",
        ),
    )
}

/// The OAuth side of a profile.
fn resolve_oauth(o: &OAuthConfig, cred: Option<&ProfileCredentials>) -> (r: ResolvedOauth)
    ensures
        r@ == oauth_side(
            *o,
            match cred {
                Some(c) => Some(*c),
                None => None,
            },
        ),
{
    ResolvedOauth {
        client_id: o.client_id.clone(),
        client_secret: match cred {
            Some(c) => dup_option(&c.client_secret),
            None => None,
        },
        redirect_uri: match &o.redirect_uri {
            Some(u) => u.clone(),
            None => default_redirect_uri(),
        },
        auth_path: or_default(&o.auth_path, "/oauth_auth.do"),
        token_path: or_default(&o.token_path, "/oauth_token.do"),
        grant: o.grant,
        pkce: o.pkce,
        tokens: match cred {
            Some(c) => dup_tokens(&c.oauth_tokens),
            None => None,
        },
    }
}

/// Whether the environment switches checks off.
fn is_switched_on(v: Option<&str>) -> (r: bool)
    ensures
        r == switched_on(str_option(v)),
{
    match v {
        Some(t) => same(t, "1") || same_ignoring_case(t, "true"),
        None => false,
    }
}

/// Settles a profile from the command line, the environment and the files.
pub fn resolve_profile(inputs: ProfileResolverInputs<'_>) -> (r: Result<ResolvedProfile, Error>)
    ensures
        match r {
            Ok(p) => resolution(inputs) == Ok::<(Identity, Transport), Fault>(
                (p.identity(), p.transport()),
            ),
            Err(e) => resolution(inputs) == Err::<(Identity, Transport), Fault>(e@),
        },
{
    let name = match resolve_profile_name(inputs.cli_profile, inputs.config) {
        Ok(n) => n,
        Err(e) => {
            return Err(e);
        },
    };
    let cred = inputs.credentials.profiles.get(name.as_str());
    let profile = match inputs.config.profiles.get(name.as_str()) {
        Some(p) => p,
        None => {
            return Err(missing_setting("instance", name.as_str()));
        },
    };
    if trim(profile.instance.as_str()).as_str().is_empty() {
        return Err(missing_setting("instance", name.as_str()));
    }
    let (username, password) = match (profile.auth, cred) {
        (AuthMethod::Basic, None) => {
            return Err(missing_setting("username", name.as_str()));
        },
        (_, Some(c)) => (c.username.clone(), c.password.clone()),
        (AuthMethod::Oauth, None) => (String::new(), String::new()),
    };
    let oauth = match profile.auth {
        AuthMethod::Basic => None,
        AuthMethod::Oauth => match &profile.oauth {
            Some(o) => Some(resolve_oauth(o, cred)),
            None => {
                return Err(
                    Error::Config(
                        "profile '".to_owned().concat(name.as_str()).concat(
                            "' uses oauth but has no [oauth] config; run `sn init`",
                        ),
                    ),
                );
            },
        },
    };
    let proxy = if inputs.cli_no_proxy {
        None
    } else {
        settle(inputs.cli_proxy, inputs.env_proxy, &profile.proxy)
    };
    let (proxy_username, proxy_password) = match cred {
        Some(c) => (dup_option(&c.proxy_username), dup_option(&c.proxy_password)),
        None => (None, None),
    };
    Ok(
        ResolvedProfile {
            name,
            instance: profile.instance.clone(),
            username,
            password,
            proxy,
            no_proxy: settle(None, inputs.env_no_proxy, &profile.no_proxy),
            insecure: inputs.cli_insecure || is_switched_on(inputs.env_insecure)
                || profile.insecure,
            ca_cert: settle(inputs.cli_ca_cert, inputs.env_ca_cert, &profile.ca_cert),
            proxy_ca_cert: settle(
                inputs.cli_proxy_ca_cert,
                inputs.env_proxy_ca_cert,
                &profile.proxy_ca_cert,
            ),
            proxy_username,
            proxy_password,
            auth_method: profile.auth,
            oauth,
        },
    )
}

/// Neither a flag of the network nor the environment touches who a profile is:
/// with the same files and the same choice of a profile, two commands log in
/// alike, or fail alike.
pub proof fn environment_never_changes_the_identity(
    a: ProfileResolverInputs<'_>,
    b: ProfileResolverInputs<'_>,
)
    requires
        str_option(a.cli_profile) == str_option(b.cli_profile),
        a.config == b.config,
        a.credentials == b.credentials,
    ensures
        match (resolution(a), resolution(b)) {
            (Ok(x), Ok(y)) => x.0 == y.0,
            (Err(x), Err(y)) => x == y,
            _ => false,
        },
{
}

/// A flag beats the environment and the environment beats the file, for every
/// setting that can come from all three.
pub proof fn flags_beat_environment_beats_file(i: ProfileResolverInputs<'_>, p: ProfileConfig)
    ensures
        i.cli_no_proxy ==> transport_of(i, p).proxy is None,
        !i.cli_no_proxy && i.cli_proxy is Some ==> transport_of(i, p).proxy == str_option(
            i.cli_proxy,
        ),
        !i.cli_no_proxy && i.cli_proxy is None && i.env_proxy is Some ==> transport_of(i, p).proxy
            == str_option(i.env_proxy),
        !i.cli_no_proxy && i.cli_proxy is None && i.env_proxy is None ==> transport_of(i, p).proxy
            == text_option(p.proxy),
        i.cli_ca_cert is Some ==> transport_of(i, p).ca_cert == str_option(i.cli_ca_cert),
        i.cli_ca_cert is None && i.env_ca_cert is Some ==> transport_of(i, p).ca_cert
            == str_option(i.env_ca_cert),
        i.cli_ca_cert is None && i.env_ca_cert is None ==> transport_of(i, p).ca_cert
            == text_option(p.ca_cert),
        i.cli_proxy_ca_cert is Some ==> transport_of(i, p).proxy_ca_cert == str_option(
            i.cli_proxy_ca_cert,
        ),
        i.cli_proxy_ca_cert is None && i.env_proxy_ca_cert is Some ==> transport_of(
            i,
            p,
        ).proxy_ca_cert == str_option(i.env_proxy_ca_cert),
        i.cli_proxy_ca_cert is None && i.env_proxy_ca_cert is None ==> transport_of(
            i,
            p,
        ).proxy_ca_cert == text_option(p.proxy_ca_cert),
{
}

/// The stored tokens of a name.
pub open spec fn tokens_of(m: Map<Seq<char>, ProfileCredentials>, name: Seq<char>) -> Option<
    TokenSet,
> {
    match entry(m, name) {
        Some(c) => c.oauth_tokens,
        None => None,
    }
}

/// Stores the tokens of a profile; every other field stays as it was, and a
/// profile without secrets gets an entry.
pub fn save_oauth_tokens(creds: &mut Credentials, profile_name: &str, tokens: &TokenSet)
    ensures
        final(creds).profiles@.dom() == old(creds).profiles@.dom().insert(profile_name@),
        tokens_of(final(creds).profiles@, profile_name@) == Some(*tokens),
        old(creds).profiles@.contains_key(profile_name@) ==> final(creds).profiles@[profile_name@]
            == (ProfileCredentials {
            oauth_tokens: Some(*tokens),
            ..old(creds).profiles@[profile_name@]
        }),
        !old(creds).profiles@.contains_key(profile_name@) ==> ({
            let c = final(creds).profiles@[profile_name@];
            &&& c.username@.len() == 0
            &&& c.password@.len() == 0
            &&& c.proxy_username is None
            &&& c.proxy_password is None
            &&& c.client_secret is None
        }),
        forall|other: Seq<char>|
            other != profile_name@ && old(creds).profiles@.contains_key(other)
                ==> #[trigger] final(creds).profiles@[other] == old(creds).profiles@[other],
{
    let mut c = match creds.profiles.get(profile_name) {
        Some(c) => c.dup(),
        None => ProfileCredentials::default(),
    };
    c.oauth_tokens = Some(tokens.dup());
    let ghost prior = creds.profiles@;
    creds.profiles.insert(profile_name, c);
    assert(creds.profiles@.dom() =~= prior.dom().insert(profile_name@));
}

/// The stored tokens of a profile.
pub fn load_oauth_tokens(creds: &Credentials, profile_name: &str) -> (r: Option<TokenSet>)
    ensures
        r == tokens_of(creds.profiles@, profile_name@),
{
    match creds.profiles.get(profile_name) {
        Some(c) => dup_tokens(&c.oauth_tokens),
        None => None,
    }
}

/// Forgets the tokens of a profile; nothing else changes.
pub fn clear_oauth_tokens(creds: &mut Credentials, profile_name: &str)
    ensures
        final(creds).profiles@ == (match entry(old(creds).profiles@, profile_name@) {
            Some(c) => old(creds).profiles@.insert(
                profile_name@,
                ProfileCredentials { oauth_tokens: None, ..c },
            ),
            None => old(creds).profiles@,
        }),
        tokens_of(final(creds).profiles@, profile_name@) is None,
{
    let mut found: Option<ProfileCredentials> = None;
    if let Some(c) = creds.profiles.get(profile_name) {
        found = Some(c.dup());
    }
    if let Some(c) = found {
        let mut c = c;
        c.oauth_tokens = None;
        creds.profiles.insert(profile_name, c);
    }
}

/// A command is for the profile that it names, else for the default.
pub proof fn a_named_profile_beats_the_default(cli: Option<Seq<char>>, config: Config)
    ensures
        cli is Some ==> selected(cli, config) == cli,
        cli is None ==> selected(cli, config) == text_option(config.default_profile),
{
}

/// A profile is who the two files say under its name: the settings from the one, the
/// secrets from the other.
pub proof fn an_identity_comes_from_the_files(
    name: Seq<char>,
    p: ProfileConfig,
    cred: Option<ProfileCredentials>,
)
    ensures
        identity_of(name, None, cred) is Err,
        trimmed(p.instance@).len() == 0 ==> identity_of(name, Some(p), cred) is Err,
        identity_of(name, Some(p), cred) is Ok <==> trimmed(p.instance@).len() > 0 && (
        p.auth is Basic ==> cred is Some) && (p.auth is Oauth ==> p.oauth is Some),
        identity_of(name, Some(p), cred) matches Ok(i) ==> {
            &&& i.name == name
            &&& i.instance == p.instance@
            &&& i.auth_method == p.auth
            &&& cred matches Some(c) ==> i.username == c.username@ && i.password == c.password@
                && i.proxy_username == text_option(c.proxy_username) && i.proxy_password
                == text_option(c.proxy_password)
            &&& p.auth is Basic ==> i.oauth is None
            &&& p.auth is Oauth ==> (p.oauth matches Some(o) && i.oauth matches Some(v) && {
                &&& v.client_id == o.client_id@
                &&& v.grant == o.grant
                &&& v.pkce == o.pkce
                &&& o.redirect_uri matches Some(u) ==> v.redirect_uri == u@
                &&& o.redirect_uri is None ==> v.redirect_uri == "http://localhost:8400/callback"@
                &&& o.auth_path matches Some(u) ==> v.auth_path == u@
                &&& o.auth_path is None ==> v.auth_path == "/oauth_auth.do"@
                &&& o.token_path matches Some(u) ==> v.token_path == u@
                &&& o.token_path is None ==> v.token_path == "/oauth_token.do"@
                &&& cred matches Some(c) ==> v.client_secret == text_option(c.client_secret)
                    && v.tokens == c.oauth_tokens
                &&& cred is None ==> v.client_secret is None && v.tokens is None
            })
        },
{
}

/// Checks are switched off by any of the three places, and by none where none does.
pub proof fn checks_are_off_where_one_place_says_so(i: ProfileResolverInputs<'_>, p: ProfileConfig)
    ensures
        i.cli_insecure || p.insecure ==> transport_of(i, p).insecure,
        str_option(i.env_insecure) == Some("1"@) || str_option(i.env_insecure) == Some("true"@)
            ==> transport_of(i, p).insecure,
        !i.cli_insecure && !p.insecure && i.env_insecure is None ==> !transport_of(i, p).insecure,
        i.env_no_proxy is Some ==> transport_of(i, p).no_proxy == str_option(i.env_no_proxy),
        i.env_no_proxy is None ==> transport_of(i, p).no_proxy == text_option(p.no_proxy),
        switched_on(str_option(i.env_insecure)) ==> (str_option(i.env_insecure) == Some("1"@) || (
        str_option(i.env_insecure) matches Some(t) && ascii_lowered(t) == ascii_lowered("true"@))),
{
}

/// A token has expired once its end is reached, reckoned ahead by the skew, and never
/// comes back.
pub proof fn a_token_expires_at_its_end(t: TokenSet, now: u64, later: u64, skew: u64)
    ensures
        t.expires_at is None ==> !t.expired_at(now, skew),
        t.expires_at matches Some(end) ==> (t.expired_at(now, 0) <==> now >= end),
        t.expired_at(now, 0) ==> t.expired_at(now, skew),
        now <= later && t.expired_at(now, skew) ==> t.expired_at(later, skew),
        t.expires_at matches Some(end) ==> (end > now + skew ==> !t.expired_at(now, skew)),
{
}

/// A profile resolves from the entries of its own name, and not at all where the
/// settings have none.
pub proof fn a_profile_resolves_by_its_name(i: ProfileResolverInputs<'_>, name: Seq<char>)
    requires
        selected(str_option(i.cli_profile), *i.config) == Some(name),
    ensures
        !i.config.profiles@.contains_key(name) ==> resolution(i) is Err,
        i.config.profiles@.contains_key(name) && i.credentials.profiles@.contains_key(name) ==> (
        resolution(i) matches Ok(r) ==> r.0.name == name && r.0.instance
            == i.config.profiles@[name].instance@ && r.0.username
            == i.credentials.profiles@[name].username@ && r.1 == transport_of(
            i,
            i.config.profiles@[name],
        )),
        i.config.profiles@.contains_key(name) && i.credentials.profiles@.contains_key(name)
            && i.config.profiles@[name].auth is Basic && trimmed(
            i.config.profiles@[name].instance@,
        ).len() > 0 ==> resolution(i) is Ok,
{
}

/// The tokens of a profile are those of its own entry.
pub proof fn tokens_are_those_of_the_entry(
    m: Map<Seq<char>, ProfileCredentials>,
    name: Seq<char>,
)
    ensures
        m.contains_key(name) ==> tokens_of(m, name) == m[name].oauth_tokens,
        !m.contains_key(name) ==> tokens_of(m, name) is None,
{
}

} // verus!
