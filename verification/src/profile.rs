//! Adding, changing, showing and removing profiles.

use vstd::prelude::*;

use crate::config::{
    default_redirect_uri, entry, resolve_profile_name, selected, str_option, AuthMethod, Config,
    Credentials, OAuthConfig, OAuthGrant, ProfileConfig, ProfileCredentials,
};
use crate::error::{dup_option, put_text, text_option, with_text, Error, Fault};
use crate::flags::GlobalFlags;
use crate::json::{docs, lemma_docs, lemma_docs_push, put, Doc, Json};
use crate::order::{in_order, listing, texts};
use crate::text::{contains, digits, has, same, starts_with, strip_end, stripped_end, trim, trimmed};

verus! {

/// The commands on profiles.
#[derive(Debug)]
pub enum ProfileSub {
    Add(ProfileAddArgs),
    List,
    Show { name: Option<String> },
    Remove { name: String, yes: bool },
    Use { name: String },
    Login,
    Logout,
    Status,
    Refresh,
}

/// The flags of `profile add`.
#[derive(Debug)]
pub struct ProfileAddArgs {
    pub name: Option<String>,
    pub instance: Option<String>,
    pub auth: Option<AuthMethod>,
    pub username: Option<String>,
    pub password: Option<String>,
    pub password_stdin: bool,
    pub client_id: Option<String>,
    pub client_secret: Option<String>,
    pub client_secret_stdin: bool,
    pub redirect_uri: Option<String>,
    pub grant: Option<OAuthGrant>,
    pub no_pkce: bool,
    pub force: bool,
    pub skip_verify: bool,
    pub set_default: bool,
    pub non_interactive: bool,
}

/// The name of a credential mechanism.
pub open spec fn auth_text(method: AuthMethod) -> Seq<char> {
    match method {
        AuthMethod::Basic => "basic"@,
        AuthMethod::Oauth => "oauth"@,
    }
}

/// The name of a credential mechanism.
pub fn auth_str(method: AuthMethod) -> (r: &'static str)
    ensures
        r@ == auth_text(method),
{
    match method {
        AuthMethod::Basic => "basic",
        AuthMethod::Oauth => "oauth",
    }
}

/// The name of a grant.
pub open spec fn grant_text(grant: OAuthGrant) -> Seq<char> {
    match grant {
        OAuthGrant::AuthorizationCode => "authorization_code"@,
        OAuthGrant::ClientCredentials => "client_credentials"@,
    }
}

/// The name of a grant.
pub fn grant_str(grant: OAuthGrant) -> (r: &'static str)
    ensures
        r@ == grant_text(grant),
{
    match grant {
        OAuthGrant::AuthorizationCode => "authorization_code",
        OAuthGrant::ClientCredentials => "client_credentials",
    }
}

/// The command whose flags a message may name.
#[derive(Debug, Clone, Copy, PartialEq, Eq, Structural)]
pub enum Caller {
    Init,
    ProfileAdd,
}

impl Caller {
    pub open spec fn hint(self) -> Seq<char> {
        match self {
            Caller::Init => ""@,
            Caller::ProfileAdd => " (or with --non-interactive)"@,
        }
    }

    /// The other way to run without questions, where the command has one.
    pub fn non_interactive_hint(self) -> (r: &'static str)
        ensures
            r@ == self.hint(),
    {
        match self {
            Caller::Init => "",
            Caller::ProfileAdd => " (or with --non-interactive)",
        }
    }

    pub open spec fn password_text(self) -> Seq<char> {
        match self {
            Caller::Init => "--password"@,
            Caller::ProfileAdd => "--password (or --password-stdin)"@,
        }
    }

    /// The flags that give a password.
    pub fn password_flag(self) -> (r: &'static str)
        ensures
            r@ == self.password_text(),
    {
        match self {
            Caller::Init => "--password",
            Caller::ProfileAdd => "--password (or --password-stdin)",
        }
    }

    pub open spec fn client_secret_text(self) -> Seq<char> {
        match self {
            Caller::Init => "--client-secret"@,
            Caller::ProfileAdd => "--client-secret (or --client-secret-stdin)"@,
        }
    }

    /// The flags that give a client secret.
    pub fn client_secret_flag(self) -> (r: &'static str)
        ensures
            r@ == self.client_secret_text(),
    {
        match self {
            Caller::Init => "--client-secret",
            Caller::ProfileAdd => "--client-secret (or --client-secret-stdin)",
        }
    }
}

/// An instance as it is stored: without blanks around it and slashes at the
/// end; a short name gets the domain of the service.
pub open spec fn stored_instance(input: Seq<char>) -> Seq<char> {
    let t = stripped_end(trimmed(input), '/');
    if t.len() == 0 {
        t
    } else if "http://"@.is_prefix_of(t) || "https://"@.is_prefix_of(t) || has(t, "."@) {
        t
    } else {
        t + ".service-now.com"@
    }
}

/// Turns what was typed as an instance into what is stored.
pub fn normalize_instance(input: &str) -> (r: String)
    ensures
        r@ == stored_instance(input@),
        r@.len() == 0 <==> stripped_end(trimmed(input@), '/').len() == 0,
{
    let t = strip_end(trim(input).as_str(), '/');
    if t.as_str().is_empty() {
        assert(t@ =~= Seq::<char>::empty());
        return String::new();
    }
    if starts_with(t.as_str(), "http://") || starts_with(t.as_str(), "https://") || contains(
        t.as_str(),
        ".",
    ) {
        t
    } else {
        t.concat(".service-now.com")
    }
}

/// The settings of one profile, with every question answered.
#[derive(Debug)]
pub struct ProfileInput {
    pub name: String,
    pub instance: String,
    pub auth: AuthMethod,
    pub username: String,
    pub password: String,
    pub client_id: String,
    pub client_secret: Option<String>,
    pub redirect_uri: Option<String>,
    pub grant: OAuthGrant,
    pub pkce: bool,
}

/// The settings of one profile, as a view.
pub ghost struct Settings {
    pub name: Seq<char>,
    pub instance: Seq<char>,
    pub auth: AuthMethod,
    pub username: Seq<char>,
    pub password: Seq<char>,
    pub client_id: Seq<char>,
    pub client_secret: Option<Seq<char>>,
    pub redirect_uri: Option<Seq<char>>,
    pub grant: OAuthGrant,
    pub pkce: bool,
}

impl ProfileInput {
    pub open spec fn view(&self) -> Settings {
        Settings {
            name: self.name@,
            instance: self.instance@,
            auth: self.auth,
            username: self.username@,
            password: self.password@,
            client_id: self.client_id@,
            client_secret: text_option(self.client_secret),
            redirect_uri: text_option(self.redirect_uri),
            grant: self.grant,
            pkce: self.pkce,
        }
    }
}

/// What one write displaced, so that exactly this much can be put back.
#[derive(Debug)]
pub struct Snapshot {
    pub name: String,
    pub config: Option<ProfileConfig>,
    pub credentials: Option<ProfileCredentials>,
    pub prior_default: Option<String>,
    pub claimed_default: bool,
}

/// The policies that tell the first-run wizard from `profile add`.
#[derive(Debug, Clone, Copy)]
pub struct SavePolicy {
    pub set_default: bool,
    pub verify: bool,
    pub refuse_existing: bool,
}

/// The entry that a profile has after a write: what the run configures is
/// replaced, what it cannot set stays.
pub open spec fn written_config(
    prior: Option<ProfileConfig>,
    g: GlobalFlags,
    input: ProfileInput,
) -> ProfileConfig {
    ProfileConfig {
        instance: input.instance,
        proxy: if g.no_proxy {
            None
        } else if g.proxy is Some {
            g.proxy
        } else {
            match prior {
                Some(p) => p.proxy,
                None => None,
            }
        },
        no_proxy: match prior {
            Some(p) => p.no_proxy,
            None => None,
        },
        insecure: g.insecure || (prior matches Some(p) && p.insecure),
        ca_cert: if g.ca_cert is Some {
            g.ca_cert
        } else {
            match prior {
                Some(p) => p.ca_cert,
                None => None,
            }
        },
        proxy_ca_cert: if g.proxy_ca_cert is Some {
            g.proxy_ca_cert
        } else {
            match prior {
                Some(p) => p.proxy_ca_cert,
                None => None,
            }
        },
        auth: input.auth,
        oauth: match input.auth {
            AuthMethod::Basic => None,
            AuthMethod::Oauth => Some(
                OAuthConfig {
                    client_id: input.client_id,
                    redirect_uri: input.redirect_uri,
                    auth_path: match prior {
                        Some(ProfileConfig { oauth: Some(o), .. }) => o.auth_path,
                        _ => None,
                    },
                    token_path: match prior {
                        Some(ProfileConfig { oauth: Some(o), .. }) => o.token_path,
                        _ => None,
                    },
                    grant: input.grant,
                    pkce: input.pkce,
                },
            ),
        },
    }
}

/// The secrets that a profile has after a write. A password profile keeps no
/// OAuth secret, an OAuth profile keeps no password.
pub open spec fn written_credentials(
    prior: Option<ProfileCredentials>,
    input: ProfileInput,
    c: ProfileCredentials,
) -> bool {
    &&& c.proxy_username == (match prior {
        Some(p) => p.proxy_username,
        None => None,
    })
    &&& c.proxy_password == (match prior {
        Some(p) => p.proxy_password,
        None => None,
    })
    &&& match input.auth {
        AuthMethod::Basic => {
            &&& c.username == input.username
            &&& c.password == input.password
            &&& c.client_secret is None
            &&& c.oauth_tokens is None
        },
        AuthMethod::Oauth => {
            &&& c.username@ == (match prior {
                Some(p) => p.username@,
                None => Seq::empty(),
            })
            &&& c.password@.len() == 0
            &&& c.client_secret == input.client_secret
            &&& c.oauth_tokens == (match prior {
                Some(p) => p.oauth_tokens,
                None => None,
            })
        },
    }
}

/// The failure of an addition that would overwrite a profile.
pub open spec fn already_exists(name: Seq<char>) -> Fault {
    Fault::Usage("profile '"@ + name + "' already exists; pass --force to overwrite it"@)
}

/// The failure of an addition that would overwrite a profile.
fn exists_error(name: &str) -> (e: Error)
    ensures
        e@ == already_exists(name@),
{
    Error::Usage(
        "profile '".to_owned().concat(name).concat(
            "' already exists; pass --force to overwrite it",
        ),
    )
}

/// The snapshot of a write to a profile.
pub open spec fn snapshot_of(
    s: Snapshot,
    name: Seq<char>,
    config: Map<Seq<char>, ProfileConfig>,
    creds: Map<Seq<char>, ProfileCredentials>,
    prior_default: Option<String>,
    set_default: bool,
) -> bool {
    &&& s.name@ == name
    &&& s.config == entry(config, name)
    &&& s.credentials == entry(creds, name)
    &&& s.prior_default == prior_default
    &&& s.claimed_default == set_default
}

/// Merges a profile into both files. Only its own entry changes, and the
/// default where it is claimed; the snapshot says what was there before. Where
/// overwriting is refused and the profile exists, nothing changes.
pub fn save_profile_locked(
    config: &mut Config,
    creds: &mut Credentials,
    global: &GlobalFlags,
    input: &ProfileInput,
    set_default: bool,
    refuse_existing: bool,
) -> (r: Result<Snapshot, Error>)
    ensures
        r is Err <==> refuse_existing && old(config).profiles@.contains_key(input.name@),
        r matches Err(e) ==> e@ == already_exists(input.name@) && *final(config) == *old(config)
            && *final(creds) == *old(creds),
        r matches Ok(s) ==> {
            &&& snapshot_of(
                s,
                input.name@,
                old(config).profiles@,
                old(creds).profiles@,
                old(config).default_profile,
                set_default,
            )
            &&& final(config).profiles@ == old(config).profiles@.insert(
                input.name@,
                written_config(entry(old(config).profiles@, input.name@), *global, *input),
            )
            &&& final(creds).profiles@.dom() == old(creds).profiles@.dom().insert(input.name@)
            &&& final(creds).profiles@.remove(input.name@) == old(creds).profiles@.remove(
                input.name@,
            )
            &&& written_credentials(
                entry(old(creds).profiles@, input.name@),
                *input,
                final(creds).profiles@[input.name@],
            )
            &&& final(config).default_profile == (if set_default {
                Some(input.name)
            } else {
                old(config).default_profile
            })
        },
{
    let name = input.name.as_str();
    if refuse_existing && config.profiles.has(name) {
        return Err(exists_error(name));
    }
    let prior_config = match config.profiles.get(name) {
        Some(p) => Some(p.dup()),
        None => None,
    };
    let prior_credentials = match creds.profiles.get(name) {
        Some(c) => Some(c.dup()),
        None => None,
    };
    let snapshot = Snapshot {
        name: input.name.clone(),
        config: match &prior_config {
            Some(p) => Some(p.dup()),
            None => None,
        },
        credentials: match &prior_credentials {
            Some(c) => Some(c.dup()),
            None => None,
        },
        prior_default: dup_option(&config.default_profile),
        claimed_default: set_default,
    };
    let mut pc = match prior_config {
        Some(p) => p,
        None => ProfileConfig::default(),
    };
    let mut cred = match prior_credentials {
        Some(c) => c,
        None => ProfileCredentials::default(),
    };
    pc.instance = input.instance.clone();
    if global.no_proxy {
        pc.proxy = None;
    } else if global.proxy.is_some() {
        pc.proxy = dup_option(&global.proxy);
    }
    if global.insecure {
        pc.insecure = true;
    }
    if global.ca_cert.is_some() {
        pc.ca_cert = dup_option(&global.ca_cert);
    }
    if global.proxy_ca_cert.is_some() {
        pc.proxy_ca_cert = dup_option(&global.proxy_ca_cert);
    }
    match input.auth {
        AuthMethod::Basic => {
            pc.auth = AuthMethod::Basic;
            pc.oauth = None;
            cred.client_secret = None;
            cred.oauth_tokens = None;
            cred.username = input.username.clone();
            cred.password = input.password.clone();
        },
        AuthMethod::Oauth => {
            let (auth_path, token_path) = match &pc.oauth {
                Some(o) => (dup_option(&o.auth_path), dup_option(&o.token_path)),
                None => (None, None),
            };
            pc.auth = AuthMethod::Oauth;
            pc.oauth = Some(
                OAuthConfig {
                    client_id: input.client_id.clone(),
                    redirect_uri: dup_option(&input.redirect_uri),
                    auth_path,
                    token_path,
                    grant: input.grant,
                    pkce: input.pkce,
                },
            );
            cred.password = String::new();
            cred.client_secret = dup_option(&input.client_secret);
        },
    }
    if set_default {
        config.default_profile = Some(input.name.clone());
    }
    let ghost prior = creds.profiles@;
    config.profiles.insert(name, pc);
    creds.profiles.insert(name, cred);
    assert(creds.profiles@.dom() =~= prior.dom().insert(input.name@));
    assert(creds.profiles@.remove(input.name@) =~= prior.remove(input.name@));
    Ok(snapshot)
}

/// A table with an entry put back as it was.
pub open spec fn put_back<V>(m: Map<Seq<char>, V>, name: Seq<char>, prior: Option<V>) -> Map<
    Seq<char>,
    V,
> {
    match prior {
        Some(v) => m.insert(name, v),
        None => m.remove(name),
    }
}

/// The default profile after a write has been undone: the one before, where the
/// write claimed it and nobody has chosen another since.
pub open spec fn default_back(now: Option<String>, snap: Snapshot) -> Option<String> {
    if snap.claimed_default && text_option(now) == Some(snap.name@) {
        snap.prior_default
    } else {
        now
    }
}

/// Undoes one write and touches nothing else: profiles that others have added or
/// changed since stay as they are.
pub fn restore(config: &mut Config, creds: &mut Credentials, snap: &Snapshot)
    ensures
        final(config).profiles@ == put_back(old(config).profiles@, snap.name@, snap.config),
        final(creds).profiles@ == put_back(old(creds).profiles@, snap.name@, snap.credentials),
        final(config).default_profile == default_back(old(config).default_profile, *snap),
{
    let name = snap.name.as_str();
    match &snap.config {
        Some(pc) => {
            config.profiles.insert(name, pc.dup());
        },
        None => {
            config.profiles.remove(name);
        },
    }
    match &snap.credentials {
        Some(c) => {
            creds.profiles.insert(name, c.dup());
        },
        None => {
            creds.profiles.remove(name);
        },
    }
    let still_claimed = match &config.default_profile {
        Some(d) => same(d.as_str(), name),
        None => false,
    };
    if snap.claimed_default && still_claimed {
        config.default_profile = dup_option(&snap.prior_default);
    }
}

/// Undoing a write gives back what was there: the tables are those from before,
/// and so is the default profile.
pub proof fn restore_undoes_save(
    snap: Snapshot,
    config: Map<Seq<char>, ProfileConfig>,
    creds: Map<Seq<char>, ProfileCredentials>,
    prior_default: Option<String>,
    set_default: bool,
    pc: ProfileConfig,
    creds_after: Map<Seq<char>, ProfileCredentials>,
    default_after: Option<String>,
)
    requires
        snapshot_of(snap, snap.name@, config, creds, prior_default, set_default),
        creds_after.dom() == creds.dom().insert(snap.name@),
        creds_after.remove(snap.name@) == creds.remove(snap.name@),
        set_default ==> text_option(default_after) == Some(snap.name@),
        !set_default ==> default_after == prior_default,
    ensures
        put_back(config.insert(snap.name@, pc), snap.name@, snap.config) == config,
        put_back(creds_after, snap.name@, snap.credentials) == creds,
        default_back(default_after, snap) == prior_default,
{
    let name = snap.name@;
    assert(put_back(config.insert(name, pc), name, snap.config) =~= config);
    assert forall|k: Seq<char>| k != name && creds.contains_key(k) implies #[trigger] creds_after[k]
        == creds[k] by {
        assert(creds_after.remove(name)[k] == creds_after[k]);
        assert(creds.remove(name)[k] == creds[k]);
        assert(creds_after.remove(name).dom().contains(k));
    }
    assert(put_back(creds_after, name, snap.credentials) =~= creds);
}

/// Undoing a write leaves every other profile alone, whatever has happened to it
/// since, and keeps a default that somebody else has chosen.
pub proof fn restore_spares_the_others(
    snap: Snapshot,
    config: Map<Seq<char>, ProfileConfig>,
    now: Option<String>,
    other: Seq<char>,
)
    requires
        other != snap.name@,
    ensures
        put_back(config, snap.name@, snap.config).contains_key(other) == config.contains_key(
            other,
        ),
        config.contains_key(other) ==> put_back(config, snap.name@, snap.config)[other]
            == config[other],
        text_option(now) != Some(snap.name@) ==> default_back(now, snap) == now,
{
}

/// The flags of an addition with its name settled as far as flags go: the name of the
/// addition itself, else that of `--profile`.
pub fn named_addition(args: ProfileAddArgs, profile: &Option<String>) -> (r: ProfileAddArgs)
    ensures
        args.name is Some ==> r == args,
        args.name is None ==> text_option(r.name) == text_option(*profile) && r
            == (ProfileAddArgs { name: r.name, ..args }),
{
    let mut out = args;
    if out.name.is_none() {
        out.name = dup_option(profile);
    }
    out
}

/// Whether there is somebody to ask.
pub fn is_interactive(args: &ProfileAddArgs, stdin_is_terminal: bool) -> (r: bool)
    ensures
        r == (!args.non_interactive && stdin_is_terminal),
{
    !args.non_interactive && stdin_is_terminal
}

/// How an addition saves: it spares the default and what is there, and verifies,
/// unless the flags say otherwise.
pub fn add_policy(args: &ProfileAddArgs) -> (r: SavePolicy)
    ensures
        r.set_default == args.set_default,
        r.verify == !args.skip_verify,
        r.refuse_existing == !args.force,
{
    SavePolicy {
        set_default: args.set_default,
        verify: !args.skip_verify,
        refuse_existing: !args.force,
    }
}

/// What becomes of a profile that has been saved.
#[derive(Debug)]
pub enum SaveStep {
    /// Try the profile and hand in what came of it.
    Verify,
    /// It stays. The name is that of the user, where the instance named one.
    Keep(Option<String>),
    /// Undo the write with [`restore`], then report this.
    TakeBack(Error),
}

/// Decides what becomes of a profile that has been saved, given what came of trying
/// it, if it was tried. One that cannot log in does not stay, and the reason is what
/// is reported.
pub fn save_and_verify(policy: SavePolicy, verdict: Option<Result<Option<String>, Error>>) -> (r:
    SaveStep)
    ensures
        !policy.verify ==> r == SaveStep::Keep(None),
        policy.verify ==> r == (match verdict {
            None => SaveStep::Verify,
            Some(Ok(user)) => SaveStep::Keep(user),
            Some(Err(e)) => SaveStep::TakeBack(e),
        }),
{
    if !policy.verify {
        return SaveStep::Keep(None);
    }
    match verdict {
        None => SaveStep::Verify,
        Some(Ok(user)) => SaveStep::Keep(user),
        Some(Err(e)) => SaveStep::TakeBack(e),
    }
}

/// Refuses to overwrite a profile unless that is asked for.
pub fn refuse_existing(config: &Config, name: &str, force: bool) -> (r: Result<(), Error>)
    ensures
        r is Err <==> config.profiles@.contains_key(name@) && !force,
        r matches Err(e) ==> e@ == already_exists(name@),
{
    if config.profiles.has(name) && !force {
        return Err(exists_error(name));
    }
    Ok(())
}

/// Refuses to save credentials that could only be checked in a browser where
/// there is none.
pub fn refuse_unverifiable(input: &ProfileInput, interactive: bool, skip_verify: bool) -> (r: Result<
    (),
    Error,
>)
    ensures
        r is Err <==> input.auth is Oauth && input.grant is AuthorizationCode && !interactive
            && !skip_verify,
        r matches Err(e) ==> e@ == Fault::Usage(
            "the authorization_code grant cannot be verified without a browser; re-run with --no-verify, then run `sn profile login --profile "@
                + input.name@ + "`"@,
        ),
{
    let needs_browser = matches!(input.auth, AuthMethod::Oauth) && matches!(
        input.grant,
        OAuthGrant::AuthorizationCode
    );
    if needs_browser && !interactive && !skip_verify {
        return Err(
            Error::Usage(
                "the authorization_code grant cannot be verified without a browser; re-run with --no-verify, then run `sn profile login --profile ".to_owned().concat(
                    input.name.as_str(),
                ).concat("`"),
            ),
        );
    }
    Ok(())
}

/// What an addition reports. What to do next is a login where one is pending,
/// else the choice of a default where there is none.
pub open spec fn addition(
    i: Settings,
    skip_verify: bool,
    user: Option<Seq<char>>,
    default_profile: Option<Seq<char>>,
) -> Map<Seq<char>, Doc> {
    let m = Map::empty().insert("ok"@, Doc::Bool(true)).insert("profile"@, Doc::Str(i.name)).insert(
        "instance"@,
        Doc::Str(i.instance),
    ).insert("auth"@, Doc::Str(auth_text(i.auth))).insert("verified"@, Doc::Bool(!skip_verify));
    let m = if i.auth is Oauth {
        let n = m.insert("grant"@, Doc::Str(grant_text(i.grant))).insert(
            "loggedIn"@,
            Doc::Bool(!skip_verify),
        );
        if skip_verify {
            n.insert("next"@, Doc::Str("sn profile login --profile "@ + i.name))
        } else {
            n
        }
    } else {
        m
    };
    let m = with_text(m, "user"@, user).insert(
        "default"@,
        Doc::Bool(default_profile == Some(i.name)),
    );
    if default_profile is None && !(i.auth is Oauth && skip_verify) {
        m.insert("next"@, Doc::Str("sn profile use "@ + i.name))
    } else {
        m
    }
}

/// Whether a profile is the default.
fn is_default(default_profile: &Option<String>, name: &str) -> (r: bool)
    ensures
        r == (text_option(*default_profile) == Some(name@)),
{
    match default_profile {
        Some(d) => same(d.as_str(), name),
        None => false,
    }
}

/// Reports an addition.
pub fn add(
    input: &ProfileInput,
    skip_verify: bool,
    user: &Option<String>,
    default_profile: &Option<String>,
) -> (r: Json)
    ensures
        r@ == Doc::Object(
            addition(input@, skip_verify, text_option(*user), text_option(*default_profile)),
        ),
{
    let mut out: Vec<(String, Json)> = Vec::new();
    put(&mut out, "ok", Json::Bool(true));
    put(&mut out, "profile", Json::str(input.name.as_str()));
    put(&mut out, "instance", Json::str(input.instance.as_str()));
    put(&mut out, "auth", Json::str(auth_str(input.auth)));
    put(&mut out, "verified", Json::Bool(!skip_verify));
    let mut pending = false;
    if matches!(input.auth, AuthMethod::Oauth) {
        put(&mut out, "grant", Json::str(grant_str(input.grant)));
        put(&mut out, "loggedIn", Json::Bool(!skip_verify));
        if skip_verify {
            pending = true;
            let next = "sn profile login --profile ".to_owned().concat(input.name.as_str());
            put(&mut out, "next", Json::Str(next));
        }
    }
    put_text(&mut out, "user", user);
    put(&mut out, "default", Json::Bool(is_default(default_profile, input.name.as_str())));
    if default_profile.is_none() && !pending {
        let next = "sn profile use ".to_owned().concat(input.name.as_str());
        put(&mut out, "next", Json::Str(next));
    }
    Json::Object(out)
}

/// The line of one profile in the list.
pub open spec fn list_line(name: Seq<char>, p: ProfileConfig, default_profile: Option<Seq<char>>) -> Doc {
    Doc::Object(
        Map::empty().insert("name"@, Doc::Str(name)).insert(
            "instance"@,
            Doc::Str(p.instance@),
        ).insert("auth"@, Doc::Str(auth_text(p.auth))).insert(
            "default"@,
            Doc::Bool(default_profile == Some(name)),
        ),
    )
}

/// Lists the profiles in the order of their names.
pub fn list(cfg: &Config) -> (r: Json)
    ensures
        r@ == Doc::Array(
            in_order(cfg.profiles@.dom()).map_values(
                |n: Seq<char>|
                    list_line(n, cfg.profiles@[n], text_option(cfg.default_profile)),
            ),
        ),
{
    broadcast use lemma_docs_push, lemma_docs;

    let names = cfg.profiles.names();
    let ghost ks = texts(names@);
    let ghost line = |n: Seq<char>|
        list_line(n, cfg.profiles@[n], text_option(cfg.default_profile));
    let mut out: Vec<Json> = Vec::new();
    let mut i: usize = 0;
    while i < names.len()
        invariant
            i <= names.len(),
            ks == texts(names@),
            listing(ks, cfg.profiles@.dom()),
            line == (|n: Seq<char>|
                list_line(n, cfg.profiles@[n], text_option(cfg.default_profile))),
            docs(out@) == ks.take(i as int).map_values(line),
        decreases names.len() - i,
    {
        broadcast use lemma_docs_push;

        let name = names[i].as_str();
        assert(ks[i as int] == name@);
        assert(ks.contains(name@));
        if let Some(p) = cfg.profiles.get(name) {
            let mut entry: Vec<(String, Json)> = Vec::new();
            put(&mut entry, "name", Json::str(name));
            put(&mut entry, "instance", Json::str(p.instance.as_str()));
            put(&mut entry, "auth", Json::str(auth_str(p.auth)));
            put(&mut entry, "default", Json::Bool(is_default(&cfg.default_profile, name)));
            out.push(Json::Object(entry));
        }
        assert(ks.take(i + 1).map_values(line) =~= ks.take(i as int).map_values(line).push(
            line(name@),
        ));
        i = i + 1;
    }
    assert(ks.take(i as int) =~= ks);
    Json::Array(out)
}

/// What is shown of one profile. Passwords, client secrets and tokens are not.
pub open spec fn shown(name: Seq<char>, p: ProfileConfig, cred: Option<ProfileCredentials>) -> Map<
    Seq<char>,
    Doc,
> {
    let m = Map::empty().insert("name"@, Doc::Str(name)).insert(
        "instance"@,
        Doc::Str(p.instance@),
    ).insert("auth"@, Doc::Str(auth_text(p.auth)));
    match p.auth {
        AuthMethod::Basic => match cred {
            Some(c) => m.insert("username"@, Doc::Str(c.username@)),
            None => m,
        },
        AuthMethod::Oauth => {
            let m = match p.oauth {
                Some(o) => m.insert("client_id"@, Doc::Str(o.client_id@)).insert(
                    "grant"@,
                    Doc::Str(grant_text(o.grant)),
                ).insert(
                    "redirect_uri"@,
                    Doc::Str(
                        match o.redirect_uri {
                            Some(u) => u@,
                            None => "http://localhost:8400/callback"@,
                        },
                    ),
                ).insert("pkce"@, Doc::Bool(o.pkce)),
                None => m,
            };
            let tokens = match cred {
                Some(c) => c.oauth_tokens,
                None => None,
            };
            let m = m.insert("loggedIn"@, Doc::Bool(tokens is Some));
            match tokens {
                Some(t) => {
                    let m = m.insert("hasRefreshToken"@, Doc::Bool(t.refresh_token is Some));
                    match t.expires_at {
                        Some(end) => m.insert("expiresAt"@, Doc::Number(digits(end as nat))),
                        None => m,
                    }
                },
                None => m,
            }
        },
    }
}

/// The failure of a command on a profile that is not there.
pub open spec fn not_found(name: Seq<char>) -> Fault {
    Fault::Usage("profile '"@ + name + "' not found"@)
}

fn not_found_error(name: &str) -> (e: Error)
    ensures
        e@ == not_found(name@),
{
    Error::Usage("profile '".to_owned().concat(name).concat("' not found"))
}

/// Shows one profile: the one that is named, else the default.
pub fn show(cfg: &Config, creds: &Credentials, name: Option<&str>) -> (r: Result<Json, Error>)
    ensures
        match selected(str_option(name), *cfg) {
            None => r matches Err(e) && e@ == Fault::Config(
                "no profile selected; pass --profile <name> or run `sn init`"@,
            ),
            Some(n) => match entry(cfg.profiles@, n) {
                None => r matches Err(e) && e@ == not_found(n),
                Some(p) => r matches Ok(j) && j@ == Doc::Object(
                    shown(n, p, entry(creds.profiles@, n)),
                ),
            },
        },
{
    let name = match resolve_profile_name(name, cfg) {
        Ok(n) => n,
        Err(e) => {
            return Err(e);
        },
    };
    let p = match cfg.profiles.get(name.as_str()) {
        Some(p) => p,
        None => {
            return Err(not_found_error(name.as_str()));
        },
    };
    let cred = creds.profiles.get(name.as_str());
    let mut out: Vec<(String, Json)> = Vec::new();
    put(&mut out, "name", Json::str(name.as_str()));
    put(&mut out, "instance", Json::str(p.instance.as_str()));
    put(&mut out, "auth", Json::str(auth_str(p.auth)));
    match p.auth {
        AuthMethod::Basic => {
            if let Some(c) = cred {
                put(&mut out, "username", Json::str(c.username.as_str()));
            }
        },
        AuthMethod::Oauth => {
            if let Some(o) = &p.oauth {
                put(&mut out, "client_id", Json::str(o.client_id.as_str()));
                put(&mut out, "grant", Json::str(grant_str(o.grant)));
                let redirect = match &o.redirect_uri {
                    Some(u) => u.clone(),
                    None => default_redirect_uri(),
                };
                put(&mut out, "redirect_uri", Json::Str(redirect));
                put(&mut out, "pkce", Json::Bool(o.pkce));
            }
            match cred {
                Some(ProfileCredentials { oauth_tokens: Some(t), .. }) => {
                    put(&mut out, "loggedIn", Json::Bool(true));
                    put(&mut out, "hasRefreshToken", Json::Bool(t.refresh_token.is_some()));
                    if let Some(end) = t.expires_at {
                        put(&mut out, "expiresAt", Json::number(end));
                    }
                },
                _ => {
                    put(&mut out, "loggedIn", Json::Bool(false));
                },
            }
        },
    }
    Ok(Json::Object(out))
}

/// What is shown of a profile does not depend on its password, its client
/// secret, its proxy password or the text of its tokens.
pub proof fn showing_a_profile_keeps_its_secrets(
    name: Seq<char>,
    p: ProfileConfig,
    a: ProfileCredentials,
    b: ProfileCredentials,
)
    requires
        a.username == b.username,
        (a.oauth_tokens is Some) == (b.oauth_tokens is Some),
        a.oauth_tokens matches Some(t) ==> {
            &&& (t.refresh_token is Some) == (b.oauth_tokens->0.refresh_token is Some)
            &&& t.expires_at == b.oauth_tokens->0.expires_at
        },
    ensures
        shown(name, p, Some(a)) == shown(name, p, Some(b)),
{
}

/// What a removal reports.
pub open spec fn removal(name: Seq<char>, removed: bool, was_default: bool) -> Map<Seq<char>, Doc> {
    let m = Map::empty().insert("ok"@, Doc::Bool(true)).insert("profile"@, Doc::Str(name)).insert(
        "removed"@,
        Doc::Bool(removed),
    ).insert("wasDefault"@, Doc::Bool(was_default));
    if was_default {
        m.insert("next"@, Doc::Str("sn profile use <name>"@))
    } else {
        m
    }
}

/// Removes a profile from both files and reports what happened. Removing one
/// that is not there is no error; the default is forgotten where it was the one.
pub fn remove(cfg: &mut Config, creds: &mut Credentials, name: &str) -> (r: Json)
    ensures
        final(cfg).profiles@ == old(cfg).profiles@.remove(name@),
        final(creds).profiles@ == old(creds).profiles@.remove(name@),
        final(cfg).default_profile == (if text_option(old(cfg).default_profile) == Some(name@) {
            None
        } else {
            old(cfg).default_profile
        }),
        r@ == Doc::Object(
            removal(
                name@,
                old(cfg).profiles@.contains_key(name@) || old(creds).profiles@.contains_key(name@),
                text_option(old(cfg).default_profile) == Some(name@),
            ),
        ),
{
    let had_config = cfg.profiles.remove(name).is_some();
    let had_creds = creds.profiles.remove(name).is_some();
    let was_default = is_default(&cfg.default_profile, name);
    if was_default {
        cfg.default_profile = None;
    }
    let mut out: Vec<(String, Json)> = Vec::new();
    put(&mut out, "ok", Json::Bool(true));
    put(&mut out, "profile", Json::str(name));
    put(&mut out, "removed", Json::Bool(had_config || had_creds));
    put(&mut out, "wasDefault", Json::Bool(was_default));
    if was_default {
        put(&mut out, "next", Json::str("sn profile use <name>"));
    }
    Json::Object(out)
}

/// Removing a profile twice leaves what removing it once leaves, and the second
/// time there is nothing to remove.
pub proof fn removal_is_idempotent(
    config: Map<Seq<char>, ProfileConfig>,
    creds: Map<Seq<char>, ProfileCredentials>,
    name: Seq<char>,
)
    ensures
        config.remove(name).remove(name) == config.remove(name),
        creds.remove(name).remove(name) == creds.remove(name),
        !config.remove(name).contains_key(name) && !creds.remove(name).contains_key(name),
{
    assert(config.remove(name).remove(name) =~= config.remove(name));
    assert(creds.remove(name).remove(name) =~= creds.remove(name));
}

/// The two files that hold profiles.
#[derive(Clone, Copy, Debug, PartialEq, Eq, Structural)]
pub enum ProfileFile {
    Config,
    Credentials,
}

/// The changes to a profile that write both files.
#[derive(Clone, Copy, Debug, PartialEq, Eq, Structural)]
pub enum ProfileChange {
    /// A profile is added or overwritten.
    Addition,
    /// A profile is removed.
    Removal,
    /// An addition is taken back.
    Undoing,
}

/// The file that a change writes first.
pub open spec fn first_file(change: ProfileChange) -> ProfileFile {
    match change {
        ProfileChange::Addition => ProfileFile::Credentials,
        ProfileChange::Removal => ProfileFile::Config,
        ProfileChange::Undoing => ProfileFile::Config,
    }
}

/// The order in which a change writes the two files.
pub fn write_order(change: ProfileChange) -> (r: (ProfileFile, ProfileFile))
    ensures
        r.0 == first_file(change),
        r.1 == (match first_file(change) {
            ProfileFile::Config => ProfileFile::Credentials,
            ProfileFile::Credentials => ProfileFile::Config,
        }),
{
    match change {
        ProfileChange::Addition => (ProfileFile::Credentials, ProfileFile::Config),
        ProfileChange::Removal => (ProfileFile::Config, ProfileFile::Credentials),
        ProfileChange::Undoing => (ProfileFile::Config, ProfileFile::Credentials),
    }
}

/// What the two files hold.
pub ghost struct Files {
    pub config: Map<Seq<char>, ProfileConfig>,
    pub creds: Map<Seq<char>, ProfileCredentials>,
}

/// Whether a file has been written after so many writes of a change.
pub open spec fn is_written(change: ProfileChange, file: ProfileFile, writes: nat) -> bool {
    if file == first_file(change) {
        writes >= 1
    } else {
        writes >= 2
    }
}

/// What a reader finds who takes no lock: the profiles after the first number of
/// writes, and then, never earlier, the credentials after the second.
pub open spec fn found(
    change: ProfileChange,
    before: Files,
    after: Files,
    at_config: nat,
    at_creds: nat,
) -> Files {
    Files {
        config: if is_written(change, ProfileFile::Config, at_config) {
            after.config
        } else {
            before.config
        },
        creds: if is_written(change, ProfileFile::Credentials, at_creds) {
            after.creds
        } else {
            before.creds
        },
    }
}

/// A reader never finds a profile without its credentials because of an addition,
/// whenever the two files are loaded: who finds the new profile finds the new
/// credentials, and a profile that had credentials before is found with some.
pub proof fn an_addition_is_found_with_its_credentials(
    before: Files,
    after: Files,
    name: Seq<char>,
    pc: ProfileConfig,
    at_config: nat,
    at_creds: nat,
    other: Seq<char>,
)
    requires
        after.config == before.config.insert(name, pc),
        after.creds.dom() == before.creds.dom().insert(name),
        at_config <= at_creds,
    ensures
        ({
            let f = found(ProfileChange::Addition, before, after, at_config, at_creds);
            &&& !before.config.contains_key(name) && f.config.contains_key(name) ==> f.config
                == after.config && f.creds == after.creds && f.creds.contains_key(name)
            &&& (before.config.contains_key(other) ==> before.creds.contains_key(other))
                && f.config.contains_key(other) ==> f.creds.contains_key(other)
        }),
{
    assert(after.creds.dom().contains(name));
    assert(before.creds.dom().contains(other) ==> after.creds.dom().contains(other));
}

/// A reader who does not span both writes of a removal finds the profile with its
/// credentials or does not find it.
pub proof fn a_removal_is_found_whole(
    before: Files,
    name: Seq<char>,
    at_config: nat,
    at_creds: nat,
    other: Seq<char>,
)
    requires
        at_config <= at_creds,
        at_config >= 1 || at_creds <= 1,
        before.config.contains_key(other) ==> before.creds.contains_key(other),
    ensures
        ({
            let after = Files {
                config: before.config.remove(name),
                creds: before.creds.remove(name),
            };
            let f = found(ProfileChange::Removal, before, after, at_config, at_creds);
            &&& f.config.contains_key(other) ==> f.creds.contains_key(other)
            &&& at_config >= 1 ==> !f.config.contains_key(name)
        }),
{
}

/// A reader who does not span both writes that take an addition back finds every
/// profile with its credentials, or does not find it.
pub proof fn an_undoing_is_found_whole(
    before: Files,
    snap: Snapshot,
    at_config: nat,
    at_creds: nat,
    other: Seq<char>,
)
    requires
        at_config <= at_creds,
        at_config >= 1 || at_creds <= 1,
        before.creds.contains_key(snap.name@),
        snap.config is Some ==> snap.credentials is Some,
        before.config.contains_key(other) ==> before.creds.contains_key(other),
    ensures
        ({
            let after = Files {
                config: put_back(before.config, snap.name@, snap.config),
                creds: put_back(before.creds, snap.name@, snap.credentials),
            };
            let f = found(ProfileChange::Undoing, before, after, at_config, at_creds);
            &&& f.config.contains_key(other) ==> f.creds.contains_key(other)
            &&& at_config >= 1 && snap.config is None ==> !f.config.contains_key(snap.name@)
        }),
{
}

/// Makes a profile the default; one that is not there cannot be.
pub fn set_default(cfg: &mut Config, name: &str) -> (r: Result<Json, Error>)
    ensures
        final(cfg).profiles == old(cfg).profiles,
        r is Ok <==> old(cfg).profiles@.contains_key(name@),
        r matches Ok(j) ==> text_option(final(cfg).default_profile) == Some(name@) && j@
            == Doc::Object(
            Map::empty().insert("ok"@, Doc::Bool(true)).insert(
                "profile"@,
                Doc::Str(name@),
            ).insert("default"@, Doc::Bool(true)),
        ),
        r matches Err(e) ==> e@ == not_found(name@) && *final(cfg) == *old(cfg),
{
    if !cfg.profiles.has(name) {
        return Err(not_found_error(name));
    }
    cfg.default_profile = Some(name.to_owned());
    let mut out: Vec<(String, Json)> = Vec::new();
    put(&mut out, "ok", Json::Bool(true));
    put(&mut out, "profile", Json::str(name));
    put(&mut out, "default", Json::Bool(true));
    Ok(Json::Object(out))
}

/// An instance is stored as an address: what has a dot or a scheme stays, a short name
/// gets the domain, and nothing ends in a slash.
pub proof fn an_instance_is_stored_as_an_address(input: Seq<char>)
    ensures
        stored_instance(input).len() > 0 ==> stored_instance(input).last() != '/',
        stored_instance(input).len() == 0 <==> stripped_end(trimmed(input), '/').len() == 0,
        crate::text::has(stripped_end(trimmed(input), '/'), "."@) ==> stored_instance(input)
            == stripped_end(trimmed(input), '/'),
        stored_instance(input).len() > 0 ==> "http://"@.is_prefix_of(stored_instance(input))
            || "https://"@.is_prefix_of(stored_instance(input)) || crate::text::has(
            stored_instance(input),
            "."@,
        ),
        stored_instance(input) == stripped_end(trimmed(input), '/') || stored_instance(input)
            == stripped_end(trimmed(input), '/') + ".service-now.com"@,
{
    reveal_strlit(".service-now.com");
    reveal_strlit(".");
    let t = stripped_end(trimmed(input), '/');
    crate::client::lemma_stripped_end(trimmed(input), '/');
    let s = stored_instance(input);
    if s != t {
        assert(s.last() == 'm');
        assert(s.subrange(t.len() as int, t.len() as int + 1) =~= "."@);
    }
}

/// A write replaces what the run configures and keeps what it cannot set: the places of
/// the endpoints, the exceptions of the proxy, and of the transport whatever no flag
/// names.
pub proof fn a_write_keeps_what_it_cannot_set(
    p: ProfileConfig,
    g: GlobalFlags,
    input: ProfileInput,
)
    ensures
        ({
            let w = written_config(Some(p), g, input);
            &&& w.instance == input.instance
            &&& w.auth == input.auth
            &&& w.no_proxy == p.no_proxy
            &&& g.no_proxy ==> w.proxy is None
            &&& !g.no_proxy && g.proxy is Some ==> w.proxy == g.proxy
            &&& !g.no_proxy && g.proxy is None ==> w.proxy == p.proxy
            &&& w.insecure <==> g.insecure || p.insecure
            &&& g.ca_cert is Some ==> w.ca_cert == g.ca_cert
            &&& g.ca_cert is None ==> w.ca_cert == p.ca_cert
            &&& g.proxy_ca_cert is Some ==> w.proxy_ca_cert == g.proxy_ca_cert
            &&& g.proxy_ca_cert is None ==> w.proxy_ca_cert == p.proxy_ca_cert
            &&& input.auth is Basic ==> w.oauth is None
            &&& input.auth is Oauth ==> (w.oauth matches Some(o) && {
                &&& o.client_id == input.client_id
                &&& o.redirect_uri == input.redirect_uri
                &&& o.grant == input.grant
                &&& o.pkce == input.pkce
                &&& p.oauth matches Some(q) ==> o.auth_path == q.auth_path && o.token_path
                    == q.token_path
                &&& p.oauth is None ==> o.auth_path is None && o.token_path is None
            })
        }),
        ({
            let w = written_config(None, g, input);
            &&& w.instance == input.instance && w.auth == input.auth
            &&& w.no_proxy is None
            &&& w.insecure == g.insecure
            &&& w.ca_cert == g.ca_cert && w.proxy_ca_cert == g.proxy_ca_cert
            &&& !g.no_proxy ==> w.proxy == g.proxy
            &&& g.no_proxy ==> w.proxy is None
        }),
{
}

/// A profile holds the secrets of its own mechanism and none of the other; those of the
/// proxy stay.
pub proof fn a_profile_holds_the_secrets_of_its_mechanism(
    p: ProfileCredentials,
    input: ProfileInput,
    c: ProfileCredentials,
)
    requires
        written_credentials(Some(p), input, c),
    ensures
        c.proxy_username == p.proxy_username && c.proxy_password == p.proxy_password,
        input.auth is Basic ==> c.username == input.username && c.password == input.password
            && c.client_secret is None && c.oauth_tokens is None,
        input.auth is Oauth ==> c.password@.len() == 0 && c.client_secret == input.client_secret
            && c.oauth_tokens == p.oauth_tokens && c.username@ == p.username@,
{
}

/// What is shown of a profile stands under its name.
#[verifier::rlimit(40)]
pub proof fn a_profile_is_shown_part_by_part(
    name: Seq<char>,
    p: ProfileConfig,
    cred: Option<ProfileCredentials>,
)
    ensures
        ({
            let d = Doc::Object(shown(name, p, cred));
            &&& d.field("name"@) == Some(Doc::Str(name))
            &&& d.field("instance"@) == Some(Doc::Str(p.instance@))
            &&& p.auth is Basic <==> d.field("auth"@) == Some(Doc::Str("basic"@))
            &&& p.auth is Oauth <==> d.field("auth"@) == Some(Doc::Str("oauth"@))
            &&& p.auth is Basic ==> (cred matches Some(c) ==> d.field("username"@) == Some(
                Doc::Str(c.username@),
            )) && d.field("loggedIn"@) is None
            &&& p.auth is Oauth ==> d.field("username"@) is None && {
                &&& p.oauth matches Some(o) ==> {
                    &&& d.field("client_id"@) == Some(Doc::Str(o.client_id@))
                    &&& d.field("grant"@) == Some(
                        Doc::Str(
                            match o.grant {
                                OAuthGrant::AuthorizationCode => "authorization_code"@,
                                OAuthGrant::ClientCredentials => "client_credentials"@,
                            },
                        ),
                    )
                    &&& o.redirect_uri matches Some(u) ==> d.field("redirect_uri"@) == Some(
                        Doc::Str(u@),
                    )
                    &&& d.field("pkce"@) == Some(Doc::Bool(o.pkce))
                }
                &&& d.field("loggedIn"@) == Some(
                    Doc::Bool(cred matches Some(c) && c.oauth_tokens is Some),
                )
                &&& cred matches Some(c) ==> (c.oauth_tokens matches Some(t) ==> d.field(
                    "hasRefreshToken"@,
                ) == Some(Doc::Bool(t.refresh_token is Some)) && (t.expires_at matches Some(end)
                    ==> d.field("expiresAt"@) == Some(Doc::Number(digits(end as nat)))) && (
                t.expires_at is None ==> d.field("expiresAt"@) is None))
            }
        }),
{
    reveal_strlit("name");
    reveal_strlit("instance");
    reveal_strlit("auth");
    reveal_strlit("username");
    reveal_strlit("client_id");
    reveal_strlit("grant");
    reveal_strlit("redirect_uri");
    reveal_strlit("pkce");
    reveal_strlit("loggedIn");
    reveal_strlit("hasRefreshToken");
    reveal_strlit("expiresAt");
    assert("name"@.len() == 4 && "instance"@.len() == 8 && "auth"@.len() == 4 && "username"@.len() == 8 && "client_id"@.len() == 9 && "grant"@.len() == 5 && "redirect_uri"@.len() == 12 && "pkce"@.len() == 4 && "loggedIn"@.len() == 8 && "hasRefreshToken"@.len() == 15 && "expiresAt"@.len() == 9);
    assert("name"@[0] != "auth"@[0]);
    assert("name"@[0] != "pkce"@[0]);
    assert("instance"@[0] != "username"@[0]);
    assert("instance"@[0] != "loggedIn"@[0]);
    assert("auth"@[0] != "pkce"@[0]);
    assert("username"@[0] != "loggedIn"@[0]);
    assert("client_id"@[0] != "expiresAt"@[0]);
    reveal_strlit("basic");
    reveal_strlit("oauth");
    assert("basic"@.len() == 5 && "oauth"@.len() == 5);
    assert("basic"@[0] != "oauth"@[0]);
}

/// The line of a profile says which it is, where it leads, how it logs in and whether
/// it is the default.
pub proof fn a_line_says_whether_it_is_the_default(
    name: Seq<char>,
    p: ProfileConfig,
    default_profile: Option<Seq<char>>,
)
    ensures
        ({
            let d = list_line(name, p, default_profile);
            &&& d.field("name"@) == Some(Doc::Str(name))
            &&& d.field("instance"@) == Some(Doc::Str(p.instance@))
            &&& p.auth is Basic ==> d.field("auth"@) == Some(Doc::Str("basic"@))
            &&& p.auth is Oauth ==> d.field("auth"@) == Some(Doc::Str("oauth"@))
            &&& d.field("default"@) == Some(Doc::Bool(true)) <==> default_profile == Some(name)
        }),
{
    reveal_strlit("name");
    reveal_strlit("instance");
    reveal_strlit("auth");
    reveal_strlit("default");
    assert("name"@.len() == 4 && "instance"@.len() == 8 && "auth"@.len() == 4 && "default"@.len() == 7);
    assert("name"@[0] != "auth"@[0]);
}

/// An addition reports what it did: only what was checked is called so, and a login
/// that is still pending comes before the choice of a default.
#[verifier::rlimit(40)]
pub proof fn an_addition_reports_what_it_did(
    i: Settings,
    skip_verify: bool,
    user: Option<Seq<char>>,
    default_profile: Option<Seq<char>>,
)
    ensures
        ({
            let d = Doc::Object(addition(i, skip_verify, user, default_profile));
            &&& d.field("ok"@) == Some(Doc::Bool(true))
            &&& d.field("profile"@) == Some(Doc::Str(i.name))
            &&& d.field("instance"@) == Some(Doc::Str(i.instance))
            &&& d.field("verified"@) == Some(Doc::Bool(!skip_verify))
            &&& i.auth is Basic ==> d.field("auth"@) == Some(Doc::Str("basic"@)) && d.field(
                "loggedIn"@,
            ) is None
            &&& i.auth is Oauth ==> d.field("auth"@) == Some(Doc::Str("oauth"@)) && d.field(
                "loggedIn"@,
            ) == Some(Doc::Bool(!skip_verify)) && d.field("grant"@) == Some(
                Doc::Str(grant_text(i.grant)),
            )
            &&& user matches Some(u) ==> d.field("user"@) == Some(Doc::Str(u))
            &&& user is None ==> d.field("user"@) is None
            &&& d.field("default"@) == Some(Doc::Bool(default_profile == Some(i.name)))
            &&& i.auth is Oauth && skip_verify ==> d.field("next"@) == Some(
                Doc::Str("sn profile login --profile "@ + i.name),
            )
            &&& !(i.auth is Oauth && skip_verify) && default_profile is None ==> d.field("next"@)
                == Some(Doc::Str("sn profile use "@ + i.name))
            &&& !(i.auth is Oauth && skip_verify) && default_profile is Some ==> d.field("next"@)
                is None
        }),
{
    reveal_strlit("ok");
    reveal_strlit("profile");
    reveal_strlit("instance");
    reveal_strlit("auth");
    reveal_strlit("verified");
    reveal_strlit("grant");
    reveal_strlit("loggedIn");
    reveal_strlit("next");
    reveal_strlit("user");
    reveal_strlit("default");
    assert("ok"@.len() == 2 && "profile"@.len() == 7 && "instance"@.len() == 8 && "auth"@.len() == 4 && "verified"@.len() == 8 && "grant"@.len() == 5 && "loggedIn"@.len() == 8 && "next"@.len() == 4 && "user"@.len() == 4 && "default"@.len() == 7);
    assert("profile"@[0] != "default"@[0]);
    assert("instance"@[0] != "verified"@[0]);
    assert("instance"@[0] != "loggedIn"@[0]);
    assert("auth"@[0] != "next"@[0]);
    assert("auth"@[0] != "user"@[0]);
    assert("verified"@[0] != "loggedIn"@[0]);
    assert("next"@[0] != "user"@[0]);
}

/// A removal reports whether there was anything to remove, and what to do where the
/// default is gone.
pub proof fn a_removal_reports_what_it_did(name: Seq<char>, removed: bool, was_default: bool)
    ensures
        ({
            let d = Doc::Object(removal(name, removed, was_default));
            &&& d.field("ok"@) == Some(Doc::Bool(true))
            &&& d.field("profile"@) == Some(Doc::Str(name))
            &&& d.field("removed"@) == Some(Doc::Bool(removed))
            &&& d.field("wasDefault"@) == Some(Doc::Bool(was_default))
            &&& d.field("next"@) is Some <==> was_default
        }),
{
    reveal_strlit("ok");
    reveal_strlit("profile");
    reveal_strlit("removed");
    reveal_strlit("wasDefault");
    reveal_strlit("next");
    assert("ok"@.len() == 2 && "profile"@.len() == 7 && "removed"@.len() == 7 && "wasDefault"@.len() == 10 && "next"@.len() == 4);
    assert("profile"@[0] != "removed"@[0]);
}

} // verus!
