//! The first profile of an installation.

use vstd::prelude::*;

use crate::config::{AuthMethod, OAuthGrant};
use crate::error::text_option;
use crate::profile::{ProfileAddArgs, ProfileInput, SavePolicy};

verus! {

/// The flags of the command.
#[derive(Debug)]
pub struct InitArgs {
    pub profile: Option<String>,
    pub instance: Option<String>,
    pub auth: Option<AuthMethod>,
    pub username: Option<String>,
    pub password: Option<String>,
    pub client_id: Option<String>,
    pub client_secret: Option<String>,
    pub redirect_uri: Option<String>,
    pub grant: Option<OAuthGrant>,
    pub no_pkce: bool,
}

/// The flags of the addition that the command comes to: it asks where something is
/// missing, overwrites what is there, verifies, and takes over the default.
pub fn as_addition(args: InitArgs) -> (r: ProfileAddArgs)
    ensures
        r == (ProfileAddArgs {
            name: args.profile,
            instance: args.instance,
            auth: args.auth,
            username: args.username,
            password: args.password,
            password_stdin: false,
            client_id: args.client_id,
            client_secret: args.client_secret,
            client_secret_stdin: false,
            redirect_uri: args.redirect_uri,
            grant: args.grant,
            no_pkce: args.no_pkce,
            force: true,
            skip_verify: false,
            set_default: true,
            non_interactive: false,
        }),
{
    ProfileAddArgs {
        name: args.profile,
        instance: args.instance,
        auth: args.auth,
        username: args.username,
        password: args.password,
        password_stdin: false,
        client_id: args.client_id,
        client_secret: args.client_secret,
        client_secret_stdin: false,
        redirect_uri: args.redirect_uri,
        grant: args.grant,
        no_pkce: args.no_pkce,
        force: true,
        skip_verify: false,
        set_default: true,
        non_interactive: false,
    }
}

/// How the command saves: it takes over the default, verifies, and overwrites.
pub fn policy() -> (r: SavePolicy)
    ensures
        r.set_default,
        r.verify,
        !r.refuse_existing,
{
    SavePolicy { set_default: true, verify: true, refuse_existing: false }
}

/// The two lines that the command ends with.
pub fn run(input: &ProfileInput, user: &Option<String>) -> (r: (String, String))
    ensures
        r.0@ == match input.auth {
            AuthMethod::Basic => "profile '"@ + input.name@ + "' saved and verified ("@
                + input.instance@ + ")."@,
            AuthMethod::Oauth => "profile '"@ + input.name@
                + "' saved and authenticated via oauth ("@ + input.instance@ + ", user "@ + (
            match text_option(*user) {
                Some(u) => u,
                None => "(unknown)"@,
            }) + ")."@,
        },
        r.1@ == "'"@ + input.name@ + "' is now the default profile."@,
{
    let name = input.name.as_str();
    let start = "profile '".to_owned().concat(name);
    let saved = match input.auth {
        AuthMethod::Basic => start.concat("' saved and verified (").concat(
            input.instance.as_str(),
        ).concat(")."),
        AuthMethod::Oauth => {
            let who = match user {
                Some(u) => u.clone(),
                None => "(unknown)".to_owned(),
            };
            start.concat("' saved and authenticated via oauth (").concat(
                input.instance.as_str(),
            ).concat(", user ").concat(who.as_str()).concat(").")
        },
    };
    (saved, "'".to_owned().concat(name).concat("' is now the default profile."))
}

} // verus!
