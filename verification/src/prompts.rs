//! The questions that setting up a profile asks.
//!
//! The functions here look at the flags and at the replies so far, and say what
//! is still to be asked. The caller asks and comes back with one reply more.

use vstd::prelude::*;

use crate::config::{default_redirect_uri, AuthMethod, OAuthGrant};
use crate::error::{text_option, usage, Error, Fault};
use crate::profile::{
    normalize_instance, stored_instance, Caller, ProfileAddArgs, ProfileInput, Settings,
};
use crate::text::{
    ascii_lowered, chars_of, same, slice, to_ascii_lowercase, trim, trimmed,
};

verus! {

/// How a question is put: a line at the terminal, a hidden line, or the whole of
/// standard input.
#[derive(Debug, Clone, Copy, PartialEq, Eq, Structural)]
pub enum How {
    Line,
    Hidden,
    Stdin,
}

/// What a question is about.
#[derive(Debug, Clone, Copy, PartialEq, Eq, Structural)]
pub enum Field {
    Name,
    Instance,
    Auth,
    Username,
    Password,
    ClientId,
    ClientSecret,
    RedirectUri,
}

/// A question.
#[derive(Debug)]
pub struct Question {
    pub field: Field,
    pub how: How,
    pub message: String,
}

/// What came back from a question: a text, or why there is none.
#[derive(Debug)]
pub enum Reply {
    Text(String),
    Failed(String),
}

/// The replies so far.
#[derive(Debug)]
pub struct Replies {
    pub instance: Option<Reply>,
    pub auth: Option<Reply>,
    pub username: Option<Reply>,
    pub password: Option<Reply>,
    pub client_id: Option<Reply>,
    pub client_secret: Option<Reply>,
    pub redirect_uri: Option<Reply>,
}

/// A question as a view.
pub ghost struct Query {
    pub field: Field,
    pub how: How,
    pub message: Seq<char>,
}

/// What is known of one setting: its text, the question to ask, or a failure.
pub ghost enum Known {
    Got(Seq<char>),
    Ask(Query),
    Fail(Fault),
}

/// What is known of one setting.
#[derive(Debug)]
pub enum Setting {
    Got(String),
    Ask(Question),
    Fail(Error),
}

/// The text of a reply, or its failure.
pub open spec fn reply_text(r: Reply) -> Result<Seq<char>, Seq<char>> {
    match r {
        Reply::Text(s) => Ok(s@),
        Reply::Failed(e) => Err(e@),
    }
}

/// The text of an optional reply.
pub open spec fn reply_option(r: Option<Reply>) -> Option<Result<Seq<char>, Seq<char>>> {
    match r {
        Some(r) => Some(reply_text(r)),
        None => None,
    }
}

impl Question {
    pub open spec fn view(&self) -> Query {
        Query { field: self.field, how: self.how, message: self.message@ }
    }
}

impl Setting {
    pub open spec fn view(&self) -> Known {
        match self {
            Setting::Got(s) => Known::Got(s@),
            Setting::Ask(q) => Known::Ask(q@),
            Setting::Fail(e) => Known::Fail(e@),
        }
    }
}

/// The failure of a run that cannot ask for a flag that is missing.
pub open spec fn missing_flag(flag: Seq<char>, caller: Caller) -> Fault {
    Fault::Usage(flag + " is required when stdin is not a terminal"@ + caller.hint())
}

/// Names the flag that would have to be given.
pub fn missing(flag: &str, caller: Caller) -> (e: Error)
    ensures
        e@ == missing_flag(flag@, caller),
{
    Error::Usage(
        flag.to_owned().concat(" is required when stdin is not a terminal").concat(
            caller.non_interactive_hint(),
        ),
    )
}

/// A setting that is asked for in a line: the default where nobody can be asked
/// or nothing is typed; without a default the flag is named.
pub open spec fn asked(
    interactive: bool,
    field: Field,
    message: Seq<char>,
    default: Option<Seq<char>>,
    flag: Seq<char>,
    caller: Caller,
    reply: Option<Result<Seq<char>, Seq<char>>>,
) -> Known {
    if !interactive {
        match default {
            Some(d) => Known::Got(d),
            None => Known::Fail(missing_flag(flag, caller)),
        }
    } else {
        match reply {
            None => Known::Ask(Query { field, how: How::Line, message }),
            Some(Err(e)) => Known::Fail(Fault::Usage("read stdin: "@ + e)),
            Some(Ok(line)) => if trimmed(line).len() == 0 {
                Known::Got(
                    match default {
                        Some(d) => d,
                        None => Seq::empty(),
                    },
                )
            } else {
                Known::Got(trimmed(line))
            },
        }
    }
}

/// Settles a setting that is asked for in a line.
pub fn ask(
    interactive: bool,
    field: Field,
    message: &str,
    default: Option<String>,
    flag: &str,
    caller: Caller,
    reply: &Option<Reply>,
) -> (r: Setting)
    ensures
        r@ == asked(
            interactive,
            field,
            message@,
            text_option(default),
            flag@,
            caller,
            reply_option(*reply),
        ),
{
    if !interactive {
        return match default {
            Some(d) => Setting::Got(d),
            None => Setting::Fail(missing(flag, caller)),
        };
    }
    match reply {
        None => Setting::Ask(Question { field, how: How::Line, message: message.to_owned() }),
        Some(Reply::Failed(e)) => Setting::Fail(
            Error::Usage("read stdin: ".to_owned().concat(e.as_str())),
        ),
        Some(Reply::Text(line)) => {
            let t = trim(line.as_str());
            if t.as_str().is_empty() {
                Setting::Got(
                    match default {
                        Some(d) => d,
                        None => String::new(),
                    },
                )
            } else {
                Setting::Got(t)
            }
        },
    }
}

/// A text without the line ends at its end.
pub open spec fn chomped(s: Seq<char>) -> Seq<char>
    decreases s.len(),
{
    if s.len() > 0 && (s.last() == '\n' || s.last() == '\r') {
        chomped(s.drop_last())
    } else {
        s
    }
}

/// Strips the line ends at the end of a secret, and nothing else: a secret may
/// begin or end with a blank.
pub fn chomp(s: &str) -> (r: String)
    ensures
        r@ == chomped(s@),
{
    let v = chars_of(s);
    let mut to: usize = v.len();
    assert(v@.take(to as int) =~= v@);
    while to > 0 && (v[to - 1] == '\n' || v[to - 1] == '\r')
        invariant
            to <= v.len(),
            chomped(v@) == chomped(v@.take(to as int)),
        decreases to,
    {
        assert(v@.take(to as int).drop_last() =~= v@.take(to - 1));
        to = to - 1;
    }
    assert(v@.subrange(0, to as int) =~= v@.take(to as int));
    let ghost body = v@.take(to as int);
    assert(body.len() > 0 ==> body.last() == v@[to - 1]);
    slice(&v, 0, to)
}

/// A secret that is read from standard input.
pub open spec fn piped(field: Field, reply: Option<Result<Seq<char>, Seq<char>>>) -> Known {
    match reply {
        None => Known::Ask(Query { field, how: How::Stdin, message: Seq::empty() }),
        Some(Err(e)) => Known::Fail(Fault::Usage("read stdin: "@ + e)),
        Some(Ok(s)) => Known::Got(chomped(s)),
    }
}

/// Settles a secret that is read from standard input.
fn read_secret_stdin(field: Field, reply: &Option<Reply>) -> (r: Setting)
    ensures
        r@ == piped(field, reply_option(*reply)),
{
    match reply {
        None => Setting::Ask(Question { field, how: How::Stdin, message: String::new() }),
        Some(Reply::Failed(e)) => Setting::Fail(
            Error::Usage("read stdin: ".to_owned().concat(e.as_str())),
        ),
        Some(Reply::Text(s)) => Setting::Got(chomp(s.as_str())),
    }
}

/// A secret that is asked for at the terminal.
pub open spec fn hidden(
    field: Field,
    message: Seq<char>,
    what: Seq<char>,
    reply: Option<Result<Seq<char>, Seq<char>>>,
) -> Known {
    match reply {
        None => Known::Ask(Query { field, how: How::Hidden, message }),
        Some(Err(e)) => Known::Fail(Fault::Usage("read "@ + what + ": "@ + e)),
        Some(Ok(s)) => Known::Got(s),
    }
}

/// Settles a secret that is asked for at the terminal.
fn ask_hidden(field: Field, message: &str, what: &str, reply: &Option<Reply>) -> (r: Setting)
    ensures
        r@ == hidden(field, message@, what@, reply_option(*reply)),
{
    match reply {
        None => Setting::Ask(Question { field, how: How::Hidden, message: message.to_owned() }),
        Some(Reply::Failed(e)) => Setting::Fail(
            Error::Usage("read ".to_owned().concat(what).concat(": ").concat(e.as_str())),
        ),
        Some(Reply::Text(s)) => Setting::Got(s.clone()),
    }
}

/// The name of the profile, given what is known of it.
pub open spec fn profile_name(k: Known) -> Known {
    match k {
        Known::Got(s) => if trimmed(s).len() == 0 {
            Known::Fail(Fault::Usage("profile name is required"@))
        } else {
            Known::Got(trimmed(s))
        },
        other => other,
    }
}

/// Settles the name of a profile: the one that is given, else the one that is
/// asked for, else the default.
pub fn resolve_name(
    args: &ProfileAddArgs,
    name_default: Option<String>,
    caller: Caller,
    interactive: bool,
    reply: &Option<Reply>,
) -> (r: Setting)
    ensures
        r@ == profile_name(
            match args.name {
                Some(n) => Known::Got(n@),
                None => asked(
                    interactive,
                    Field::Name,
                    match name_default {
                        Some(d) => "Profile name ["@ + d@ + "]: "@,
                        None => "Profile name: "@,
                    },
                    text_option(name_default),
                    "NAME"@,
                    caller,
                    reply_option(*reply),
                ),
            },
        ),
{
    let message = match &name_default {
        Some(d) => "Profile name [".to_owned().concat(d.as_str()).concat("]: "),
        None => "Profile name: ".to_owned(),
    };
    let setting = match &args.name {
        Some(n) => Setting::Got(n.clone()),
        None => ask(
            interactive,
            Field::Name,
            message.as_str(),
            name_default,
            "NAME",
            caller,
            reply,
        ),
    };
    match setting {
        Setting::Got(s) => {
            let t = trim(s.as_str());
            if t.as_str().is_empty() {
                Setting::Fail(usage("profile name is required"))
            } else {
                Setting::Got(t)
            }
        },
        other => other,
    }
}

/// What is known of a whole profile.
#[derive(Debug)]
pub enum InputStep {
    Ready(ProfileInput),
    Ask(Question),
    Fail(Error),
}

/// What is known of a whole profile, as a view.
pub ghost enum Progress {
    Ready(Settings),
    Ask(Query),
    Fail(Fault),
}

impl InputStep {
    pub open spec fn view(&self) -> Progress {
        match self {
            InputStep::Ready(i) => Progress::Ready(i@),
            InputStep::Ask(q) => Progress::Ask(q@),
            InputStep::Fail(e) => Progress::Fail(e@),
        }
    }
}

/// What is known of the credential mechanism.
pub ghost enum Mechanism {
    Got(AuthMethod),
    Ask(Query),
    Fail(Fault),
}

/// A setting given by a flag, else as it is known otherwise.
pub open spec fn flag_or(flag: Option<String>, other: Known) -> Known {
    match flag {
        Some(s) => Known::Got(s@),
        None => other,
    }
}

pub open spec fn instance_known(
    args: ProfileAddArgs,
    caller: Caller,
    interactive: bool,
    r: Replies,
) -> Known {
    flag_or(
        args.instance,
        asked(
            interactive,
            Field::Instance,
            "Instance (e.g. 'dev380385' or 'https://acme.service-now.com'): "@,
            None,
            "--instance"@,
            caller,
            reply_option(r.instance),
        ),
    )
}

pub open spec fn mechanism_known(
    args: ProfileAddArgs,
    caller: Caller,
    interactive: bool,
    r: Replies,
) -> Mechanism {
    match args.auth {
        Some(m) => Mechanism::Got(m),
        None => match asked(
            interactive,
            Field::Auth,
            "Auth method (basic/oauth) [basic]: "@,
            Some("basic"@),
            "--auth"@,
            caller,
            reply_option(r.auth),
        ) {
            Known::Ask(q) => Mechanism::Ask(q),
            Known::Fail(f) => Mechanism::Fail(f),
            Known::Got(s) => if ascii_lowered(s) == "oauth"@ {
                Mechanism::Got(AuthMethod::Oauth)
            } else if ascii_lowered(s) == "basic"@ {
                Mechanism::Got(AuthMethod::Basic)
            } else {
                Mechanism::Fail(
                    Fault::Usage(
                        "unknown auth method '"@ + ascii_lowered(s)
                            + "' (expected basic or oauth)"@,
                    ),
                )
            },
        },
    }
}

pub open spec fn username_known(
    args: ProfileAddArgs,
    caller: Caller,
    interactive: bool,
    r: Replies,
) -> Known {
    flag_or(
        args.username,
        asked(
            interactive,
            Field::Username,
            "Username: "@,
            None,
            "--username"@,
            caller,
            reply_option(r.username),
        ),
    )
}

pub open spec fn password_known(
    args: ProfileAddArgs,
    caller: Caller,
    interactive: bool,
    r: Replies,
) -> Known {
    flag_or(
        args.password,
        if args.password_stdin {
            piped(Field::Password, reply_option(r.password))
        } else if interactive {
            hidden(Field::Password, "Password: "@, "password"@, reply_option(r.password))
        } else {
            Known::Fail(missing_flag(caller.password_text(), caller))
        },
    )
}

pub open spec fn client_id_known(
    args: ProfileAddArgs,
    caller: Caller,
    interactive: bool,
    r: Replies,
) -> Known {
    flag_or(
        args.client_id,
        asked(
            interactive,
            Field::ClientId,
            "OAuth client_id: "@,
            None,
            "--client-id"@,
            caller,
            reply_option(r.client_id),
        ),
    )
}

/// The grant that the flags ask for.
pub open spec fn grant_of(args: ProfileAddArgs) -> OAuthGrant {
    match args.grant {
        Some(g) => g,
        None => OAuthGrant::AuthorizationCode,
    }
}

/// What is known of a setting that may be absent.
pub ghost enum Maybe {
    Got(Option<Seq<char>>),
    Ask(Query),
    Fail(Fault),
}

/// A setting that is there once it is known.
pub open spec fn present(k: Known) -> Maybe {
    match k {
        Known::Got(s) => Maybe::Got(Some(s)),
        Known::Ask(q) => Maybe::Ask(q),
        Known::Fail(f) => Maybe::Fail(f),
    }
}

/// The client secret. The interactive grant has a public client and asks for
/// none; service to service cannot do without.
pub open spec fn secret_known(
    args: ProfileAddArgs,
    caller: Caller,
    interactive: bool,
    r: Replies,
) -> Maybe {
    match args.client_secret {
        Some(s) => Maybe::Got(Some(s@)),
        None => if args.client_secret_stdin {
            present(piped(Field::ClientSecret, reply_option(r.client_secret)))
        } else if grant_of(args) is AuthorizationCode {
            Maybe::Got(None)
        } else if interactive {
            match hidden(
                Field::ClientSecret,
                "OAuth client_secret: "@,
                "secret"@,
                reply_option(r.client_secret),
            ) {
                Known::Got(s) => if s.len() == 0 {
                    Maybe::Fail(
                        Fault::Usage("client_credentials grant requires a client secret"@),
                    )
                } else {
                    Maybe::Got(Some(s))
                },
                Known::Ask(q) => Maybe::Ask(q),
                Known::Fail(f) => Maybe::Fail(f),
            }
        } else {
            Maybe::Fail(missing_flag(caller.client_secret_text(), caller))
        },
    }
}

/// The redirect. It exists in the interactive grant only.
pub open spec fn redirect_known(
    args: ProfileAddArgs,
    caller: Caller,
    interactive: bool,
    r: Replies,
) -> Maybe {
    match args.redirect_uri {
        Some(u) => Maybe::Got(Some(u@)),
        None => if grant_of(args) is AuthorizationCode && interactive {
            present(
                asked(
                    true,
                    Field::RedirectUri,
                    "Redirect URI ["@ + "http://localhost:8400/callback"@ + "]: "@,
                    Some("http://localhost:8400/callback"@),
                    "--redirect-uri"@,
                    caller,
                    reply_option(r.redirect_uri),
                ),
            )
        } else {
            Maybe::Got(None)
        },
    }
}

/// The rest of a profile that logs in with a password.
pub open spec fn basic_input(
    args: ProfileAddArgs,
    name: Seq<char>,
    instance: Seq<char>,
    caller: Caller,
    interactive: bool,
    r: Replies,
) -> Progress {
    match username_known(args, caller, interactive, r) {
        Known::Ask(q) => Progress::Ask(q),
        Known::Fail(f) => Progress::Fail(f),
        Known::Got(username) => match password_known(args, caller, interactive, r) {
            Known::Ask(q) => Progress::Ask(q),
            Known::Fail(f) => Progress::Fail(f),
            Known::Got(password) => if trimmed(username).len() == 0 || password.len() == 0 {
                Progress::Fail(
                    Fault::Usage("username and password are required for basic auth"@),
                )
            } else {
                Progress::Ready(
                    Settings {
                        name,
                        instance,
                        auth: AuthMethod::Basic,
                        username,
                        password,
                        client_id: Seq::empty(),
                        client_secret: None,
                        redirect_uri: None,
                        grant: OAuthGrant::AuthorizationCode,
                        pkce: !args.no_pkce,
                    },
                )
            },
        },
    }
}

/// The rest of a profile that logs in with OAuth.
pub open spec fn oauth_input(
    args: ProfileAddArgs,
    name: Seq<char>,
    instance: Seq<char>,
    caller: Caller,
    interactive: bool,
    r: Replies,
) -> Progress {
    match client_id_known(args, caller, interactive, r) {
        Known::Ask(q) => Progress::Ask(q),
        Known::Fail(f) => Progress::Fail(f),
        Known::Got(client_id) => if trimmed(client_id).len() == 0 {
            Progress::Fail(Fault::Usage("client_id is required for oauth"@))
        } else {
            match secret_known(args, caller, interactive, r) {
                Maybe::Ask(q) => Progress::Ask(q),
                Maybe::Fail(f) => Progress::Fail(f),
                Maybe::Got(client_secret) => match redirect_known(args, caller, interactive, r) {
                    Maybe::Ask(q) => Progress::Ask(q),
                    Maybe::Fail(f) => Progress::Fail(f),
                    Maybe::Got(redirect_uri) => Progress::Ready(
                        Settings {
                            name,
                            instance,
                            auth: AuthMethod::Oauth,
                            username: Seq::empty(),
                            password: Seq::empty(),
                            client_id,
                            client_secret,
                            redirect_uri,
                            grant: grant_of(args),
                            pkce: !args.no_pkce,
                        },
                    ),
                },
            }
        },
    }
}

/// What is known of a profile: the settings one by one, in the order in which
/// they are asked for.
pub open spec fn input_known(
    args: ProfileAddArgs,
    name: Seq<char>,
    caller: Caller,
    interactive: bool,
    r: Replies,
) -> Progress {
    match instance_known(args, caller, interactive, r) {
        Known::Ask(q) => Progress::Ask(q),
        Known::Fail(f) => Progress::Fail(f),
        Known::Got(raw) => {
            let instance = stored_instance(raw);
            if instance.len() == 0 {
                Progress::Fail(Fault::Usage("instance is required"@))
            } else {
                match mechanism_known(args, caller, interactive, r) {
                    Mechanism::Ask(q) => Progress::Ask(q),
                    Mechanism::Fail(f) => Progress::Fail(f),
                    Mechanism::Got(AuthMethod::Basic) => basic_input(
                        args,
                        name,
                        instance,
                        caller,
                        interactive,
                        r,
                    ),
                    Mechanism::Got(AuthMethod::Oauth) => oauth_input(
                        args,
                        name,
                        instance,
                        caller,
                        interactive,
                        r,
                    ),
                }
            }
        },
    }
}

fn resolve_basic(
    args: &ProfileAddArgs,
    name: String,
    instance: String,
    caller: Caller,
    interactive: bool,
    replies: &Replies,
) -> (r: InputStep)
    ensures
        r@ == basic_input(*args, name@, instance@, caller, interactive, *replies),
{
    let username = match &args.username {
        Some(v) => v.clone(),
        None => match ask(
            interactive,
            Field::Username,
            "Username: ",
            None,
            "--username",
            caller,
            &replies.username,
        ) {
            Setting::Got(s) => s,
            Setting::Ask(q) => {
                return InputStep::Ask(q);
            },
            Setting::Fail(e) => {
                return InputStep::Fail(e);
            },
        },
    };
    let password = match &args.password {
        Some(v) => Setting::Got(v.clone()),
        None => if args.password_stdin {
            read_secret_stdin(Field::Password, &replies.password)
        } else if interactive {
            ask_hidden(Field::Password, "Password: ", "password", &replies.password)
        } else {
            Setting::Fail(missing(caller.password_flag(), caller))
        },
    };
    let password = match password {
        Setting::Got(s) => s,
        Setting::Ask(q) => {
            return InputStep::Ask(q);
        },
        Setting::Fail(e) => {
            return InputStep::Fail(e);
        },
    };
    if trim(username.as_str()).as_str().is_empty() || password.as_str().is_empty() {
        return InputStep::Fail(usage("username and password are required for basic auth"));
    }
    InputStep::Ready(
        ProfileInput {
            name,
            instance,
            auth: AuthMethod::Basic,
            username,
            password,
            client_id: String::new(),
            client_secret: None,
            redirect_uri: None,
            grant: OAuthGrant::AuthorizationCode,
            pkce: !args.no_pkce,
        },
    )
}

fn resolve_oauth(
    args: &ProfileAddArgs,
    name: String,
    instance: String,
    caller: Caller,
    interactive: bool,
    replies: &Replies,
) -> (r: InputStep)
    ensures
        r@ == oauth_input(*args, name@, instance@, caller, interactive, *replies),
{
    let client_id = match &args.client_id {
        Some(v) => v.clone(),
        None => match ask(
            interactive,
            Field::ClientId,
            "OAuth client_id: ",
            None,
            "--client-id",
            caller,
            &replies.client_id,
        ) {
            Setting::Got(s) => s,
            Setting::Ask(q) => {
                return InputStep::Ask(q);
            },
            Setting::Fail(e) => {
                return InputStep::Fail(e);
            },
        },
    };
    if trim(client_id.as_str()).as_str().is_empty() {
        return InputStep::Fail(usage("client_id is required for oauth"));
    }
    let grant = match args.grant {
        Some(g) => g,
        None => OAuthGrant::AuthorizationCode,
    };
    let client_secret = match &args.client_secret {
        Some(s) => Some(s.clone()),
        None => {
            let setting = if args.client_secret_stdin {
                Some(read_secret_stdin(Field::ClientSecret, &replies.client_secret))
            } else {
                match grant {
                    OAuthGrant::AuthorizationCode => None,
                    OAuthGrant::ClientCredentials => if interactive {
                        Some(
                            ask_hidden(
                                Field::ClientSecret,
                                "OAuth client_secret: ",
                                "secret",
                                &replies.client_secret,
                            ),
                        )
                    } else {
                        Some(Setting::Fail(missing(caller.client_secret_flag(), caller)))
                    },
                }
            };
            match setting {
                None => None,
                Some(Setting::Ask(q)) => {
                    return InputStep::Ask(q);
                },
                Some(Setting::Fail(e)) => {
                    return InputStep::Fail(e);
                },
                Some(Setting::Got(s)) => {
                    if !args.client_secret_stdin && s.as_str().is_empty() {
                        return InputStep::Fail(
                            usage("client_credentials grant requires a client secret"),
                        );
                    }
                    Some(s)
                },
            }
        },
    };
    let redirect_uri = match &args.redirect_uri {
        Some(u) => Some(u.clone()),
        None => match grant {
            OAuthGrant::ClientCredentials => None,
            OAuthGrant::AuthorizationCode => if interactive {
                let d = default_redirect_uri();
                let message = "Redirect URI [".to_owned().concat(d.as_str()).concat("]: ");
                match ask(
                    true,
                    Field::RedirectUri,
                    message.as_str(),
                    Some(d),
                    "--redirect-uri",
                    caller,
                    &replies.redirect_uri,
                ) {
                    Setting::Got(s) => Some(s),
                    Setting::Ask(q) => {
                        return InputStep::Ask(q);
                    },
                    Setting::Fail(e) => {
                        return InputStep::Fail(e);
                    },
                }
            } else {
                None
            },
        },
    };
    InputStep::Ready(
        ProfileInput {
            name,
            instance,
            auth: AuthMethod::Oauth,
            username: String::new(),
            password: String::new(),
            client_id,
            client_secret,
            redirect_uri,
            grant,
            pkce: !args.no_pkce,
        },
    )
}

/// Settles a profile from the flags and the replies so far: ready, one more
/// question, or a failure. Without a terminal nothing is ever asked in a line.
pub fn resolve_input(
    args: &ProfileAddArgs,
    name: String,
    caller: Caller,
    interactive: bool,
    replies: &Replies,
) -> (r: InputStep)
    ensures
        r@ == input_known(*args, name@, caller, interactive, *replies),
{
    let raw = match &args.instance {
        Some(v) => v.clone(),
        None => match ask(
            interactive,
            Field::Instance,
            "Instance (e.g. 'dev380385' or 'https://acme.service-now.com'): ",
            None,
            "--instance",
            caller,
            &replies.instance,
        ) {
            Setting::Got(s) => s,
            Setting::Ask(q) => {
                return InputStep::Ask(q);
            },
            Setting::Fail(e) => {
                return InputStep::Fail(e);
            },
        },
    };
    let instance = normalize_instance(raw.as_str());
    if instance.as_str().is_empty() {
        return InputStep::Fail(usage("instance is required"));
    }
    let auth = match args.auth {
        Some(m) => m,
        None => match ask(
            interactive,
            Field::Auth,
            "Auth method (basic/oauth) [basic]: ",
            Some("basic".to_owned()),
            "--auth",
            caller,
            &replies.auth,
        ) {
            Setting::Ask(q) => {
                return InputStep::Ask(q);
            },
            Setting::Fail(e) => {
                return InputStep::Fail(e);
            },
            Setting::Got(s) => {
                let s = to_ascii_lowercase(s.as_str());
                if same(s.as_str(), "oauth") {
                    AuthMethod::Oauth
                } else if same(s.as_str(), "basic") {
                    AuthMethod::Basic
                } else {
                    return InputStep::Fail(
                        Error::Usage(
                            "unknown auth method '".to_owned().concat(s.as_str()).concat(
                                "' (expected basic or oauth)",
                            ),
                        ),
                    );
                }
            },
        },
    };
    match auth {
        AuthMethod::Basic => resolve_basic(args, name, instance, caller, interactive, replies),
        AuthMethod::Oauth => resolve_oauth(args, name, instance, caller, interactive, replies),
    }
}

/// A run without a terminal never waits for somebody to type: the only thing
/// that it may read is a secret that a flag promises on standard input.
pub proof fn no_prompt_without_a_terminal(
    args: ProfileAddArgs,
    name: Seq<char>,
    caller: Caller,
    r: Replies,
)
    ensures
        input_known(args, name, caller, false, r) matches Progress::Ask(q) ==> {
            &&& q.how is Stdin
            &&& q.field is Password ==> args.password_stdin
            &&& q.field is ClientSecret ==> args.client_secret_stdin
        },
{
}

/// A flag settles its setting, whatever was typed.
pub proof fn a_flag_beats_what_is_typed(
    args: ProfileAddArgs,
    caller: Caller,
    interactive: bool,
    r: Replies,
)
    ensures
        args.instance matches Some(s) ==> instance_known(args, caller, interactive, r)
            == Known::Got(s@),
        args.auth matches Some(m) ==> mechanism_known(args, caller, interactive, r)
            == Mechanism::Got(m),
        args.username matches Some(s) ==> username_known(args, caller, interactive, r)
            == Known::Got(s@),
        args.password matches Some(s) ==> password_known(args, caller, interactive, r)
            == Known::Got(s@),
        args.client_id matches Some(s) ==> client_id_known(args, caller, interactive, r)
            == Known::Got(s@),
        args.client_secret matches Some(s) ==> secret_known(args, caller, interactive, r)
            == Maybe::Got(Some(s@)),
        args.redirect_uri matches Some(s) ==> redirect_known(args, caller, interactive, r)
            == Maybe::Got(Some(s@)),
{
}

/// What is typed for a setting is that setting, without the blanks around it; an empty
/// line takes the default.
pub proof fn what_is_typed_is_taken(
    args: ProfileAddArgs,
    caller: Caller,
    r: Replies,
    line: String,
    secret: String,
)
    ensures
        args.instance is None && r.instance == Some(Reply::Text(line)) ==> instance_known(
            args,
            caller,
            true,
            r,
        ) == Known::Got(trimmed(line@)),
        args.username is None && r.username == Some(Reply::Text(line)) ==> username_known(
            args,
            caller,
            true,
            r,
        ) == Known::Got(trimmed(line@)),
        args.client_id is None && r.client_id == Some(Reply::Text(line)) ==> client_id_known(
            args,
            caller,
            true,
            r,
        ) == Known::Got(trimmed(line@)),
        args.password is None && !args.password_stdin && r.password == Some(Reply::Text(secret))
            ==> password_known(args, caller, true, r) == Known::Got(secret@),
        args.password is None && args.password_stdin && r.password == Some(Reply::Text(secret))
            ==> password_known(args, caller, true, r) == Known::Got(chomped(secret@)),
        args.redirect_uri is None && grant_of(args) is AuthorizationCode && r.redirect_uri == Some(
            Reply::Text(line),
        ) ==> redirect_known(args, caller, true, r) == Maybe::Got(
            Some(
                if trimmed(line@).len() == 0 {
                    "http://localhost:8400/callback"@
                } else {
                    trimmed(line@)
                },
            ),
        ),
        args.auth is None && r.auth == Some(Reply::Text(line)) && trimmed(line@).len() == 0
            ==> mechanism_known(args, caller, true, r) == Mechanism::Got(AuthMethod::Basic),
        args.auth is None && r.auth == Some(Reply::Text(line)) && ascii_lowered(trimmed(line@))
            == "oauth"@ ==> mechanism_known(args, caller, true, r) == Mechanism::Got(
            AuthMethod::Oauth,
        ),
        args.auth is None && r.auth == Some(Reply::Text(line)) && ascii_lowered(trimmed(line@))
            == "basic"@ ==> mechanism_known(args, caller, true, r) == Mechanism::Got(
            AuthMethod::Basic,
        ),
{
    reveal_strlit("basic");
    reveal_strlit("oauth");
    assert("basic"@[0] != "oauth"@[0]);
    assert("basic"@.len() == 5 && "oauth"@.len() == 5);
    assert(ascii_lowered("basic"@) =~= "basic"@);
    if trimmed(line@).len() == 0 {
        assert(trimmed(line@) =~= Seq::empty());
    }
}

/// A question asks for the setting that is not known, in the way that hides a secret.
pub proof fn a_question_asks_for_what_is_missing(args: ProfileAddArgs, caller: Caller, r: Replies)
    ensures
        args.instance is None && r.instance is None ==> (instance_known(
            args,
            caller,
            true,
            r,
        ) matches Known::Ask(q) && q.field is Instance && q.how is Line),
        args.username is None && r.username is None ==> (username_known(
            args,
            caller,
            true,
            r,
        ) matches Known::Ask(q) && q.field is Username && q.how is Line),
        args.client_id is None && r.client_id is None ==> (client_id_known(
            args,
            caller,
            true,
            r,
        ) matches Known::Ask(q) && q.field is ClientId && q.how is Line),
        args.password is None && !args.password_stdin && r.password is None ==> (password_known(
            args,
            caller,
            true,
            r,
        ) matches Known::Ask(q) && q.field is Password && q.how is Hidden),
        args.password is None && args.password_stdin && r.password is None ==> (password_known(
            args,
            caller,
            true,
            r,
        ) matches Known::Ask(q) && q.field is Password && q.how is Stdin),
        args.client_secret is None && !args.client_secret_stdin && grant_of(args)
            is ClientCredentials && r.client_secret is None ==> (secret_known(
            args,
            caller,
            true,
            r,
        ) matches Maybe::Ask(q) && q.field is ClientSecret && q.how is Hidden),
        args.client_secret is None && !args.client_secret_stdin && grant_of(args)
            is AuthorizationCode ==> secret_known(args, caller, true, r) == Maybe::Got(None),
        args.grant is None ==> grant_of(args) is AuthorizationCode,
        args.grant matches Some(g) ==> grant_of(args) == g,
{
}

/// What comes out holds the settings as they are known, each in its place, and is
/// complete: an instance, and the credentials of its mechanism.
pub proof fn what_is_ready_is_complete(
    args: ProfileAddArgs,
    name: Seq<char>,
    caller: Caller,
    interactive: bool,
    r: Replies,
)
    ensures
        input_known(args, name, caller, interactive, r) matches Progress::Ready(s) ==> {
            &&& s.name == name
            &&& s.instance.len() > 0
            &&& instance_known(args, caller, interactive, r) matches Known::Got(raw) && s.instance
                == stored_instance(raw)
            &&& mechanism_known(args, caller, interactive, r) == Mechanism::Got(s.auth)
            &&& s.pkce == !args.no_pkce
            &&& s.auth is Basic ==> {
                &&& username_known(args, caller, interactive, r) == Known::Got(s.username)
                &&& password_known(args, caller, interactive, r) == Known::Got(s.password)
                &&& trimmed(s.username).len() > 0 && s.password.len() > 0
                &&& s.client_id.len() == 0 && s.client_secret is None && s.redirect_uri is None
            }
            &&& s.auth is Oauth ==> {
                &&& client_id_known(args, caller, interactive, r) == Known::Got(s.client_id)
                &&& secret_known(args, caller, interactive, r) == Maybe::Got(s.client_secret)
                &&& redirect_known(args, caller, interactive, r) == Maybe::Got(s.redirect_uri)
                &&& trimmed(s.client_id).len() > 0
                &&& s.username.len() == 0 && s.password.len() == 0
                &&& s.grant == grant_of(args)
            }
        },
{
}

/// A secret from standard input loses the line ends at its end and nothing else.
pub proof fn only_line_ends_are_cut_off(s: Seq<char>)
    ensures
        chomped(s).is_prefix_of(s),
        chomped(s).len() > 0 ==> chomped(s).last() != '\n' && chomped(s).last() != '\r',
        forall|i: int|
            chomped(s).len() <= i < s.len() ==> #[trigger] s[i] == '\n' || s[i] == '\r',
    decreases s.len(),
{
    if s.len() > 0 && (s.last() == '\n' || s.last() == '\r') {
        let less = s.drop_last();
        only_line_ends_are_cut_off(less);
        assert forall|i: int| chomped(s).len() <= i < s.len() implies #[trigger] s[i] == '\n'
            || s[i] == '\r' by {
            if i < less.len() {
                assert(less[i] == s[i]);
            }
        }
    }
}

/// A name is a name without the blanks around it, and never empty.
pub proof fn a_profile_has_a_name(k: Known, s: Seq<char>)
    ensures
        k == Known::Got(s) && trimmed(s).len() > 0 ==> profile_name(k) == Known::Got(trimmed(s)),
        k == Known::Got(s) && trimmed(s).len() == 0 ==> profile_name(k) is Fail,
        !(k is Got) ==> profile_name(k) == k,
{
}

/// Without a terminal what has a default takes it, and what has none is named by its
/// flag.
pub proof fn without_a_terminal_flags_are_named(args: ProfileAddArgs, caller: Caller, r: Replies)
    ensures
        args.auth is None ==> mechanism_known(args, caller, false, r) == Mechanism::Got(
            AuthMethod::Basic,
        ),
        args.instance is None ==> instance_known(args, caller, false, r) == Known::Fail(
            missing_flag("--instance"@, caller),
        ),
        args.username is None ==> username_known(args, caller, false, r) == Known::Fail(
            missing_flag("--username"@, caller),
        ),
        args.client_id is None ==> client_id_known(args, caller, false, r) == Known::Fail(
            missing_flag("--client-id"@, caller),
        ),
        args.password is None && !args.password_stdin ==> password_known(args, caller, false, r)
            == Known::Fail(missing_flag(caller.password_text(), caller)),
        args.redirect_uri is None ==> redirect_known(args, caller, false, r) == Maybe::Got(None),
        args.client_secret is None && !args.client_secret_stdin && grant_of(args)
            is ClientCredentials ==> secret_known(args, caller, false, r) == Maybe::Fail(
            missing_flag(caller.client_secret_text(), caller),
        ),
{
    reveal_strlit("basic");
    reveal_strlit("oauth");
    assert("basic"@[0] != "oauth"@[0]);
    assert("basic"@.len() == 5 && "oauth"@.len() == 5);
    assert(ascii_lowered("basic"@) =~= "basic"@);
}

} // verus!
