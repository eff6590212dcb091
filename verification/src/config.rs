//! Settings that come from the command line or, failing that, from the
//! environment.

use vstd::prelude::*;
use vstd::string::StringExecFns;

verus! {

/// What is reported when a setting is given neither on the command line nor in
/// the environment variable called `name`.
pub open spec fn missing_setting_message(name: Seq<char>) -> Seq<char> {
    "Missing "@ + name + " environment variable or command argument"@
}

/// The value of a setting: the one from the command line where there is one,
/// else the one from the environment.
pub open spec fn resolved_setting(arg: Option<String>, env_value: Option<String>) -> Option<
    String,
> {
    match arg {
        Some(value) => Some(value),
        None => env_value,
    }
}

/// Resolves a setting. `arg` is what the command line gave, `env_value` what
/// the environment variable `env_name` holds. The command line wins. Where
/// neither gives a value, the error names the variable.
pub fn get_env_or_arg(arg: Option<String>, env_value: Option<String>, env_name: &str) -> (resolved:
    Result<String, String>)
    ensures
        resolved is Err <==> arg is None && env_value is None,
        resolved matches Ok(value) ==> resolved_setting(arg, env_value) == Some(value),
        resolved matches Err(message) ==> message@ == missing_setting_message(env_name@),
{
    match arg {
        Some(value) => Ok(value),
        None => match env_value {
            Some(value) => Ok(value),
            None => {
                let mut message = String::from_str("Missing ");
                message.append(env_name);
                message.append(" environment variable or command argument");
                Err(message)
            },
        },
    }
}

/// The environment variable that holds the webhook URL.
pub const WEBHOOK_URL_VARIABLE: &'static str = "LARK_WEBHOOK_URL";

/// The environment variable that holds the secret.
pub const SECRET_VARIABLE: &'static str = "LARK_SECRET";

/// Where to send a notification, and the secret to sign it with, if any.
#[derive(Debug, Clone, PartialEq, Eq)]
pub struct Settings {
    pub webhook_url: String,
    pub secret: Option<String>,
}

/// Resolves the settings of a run from what the command line and the
/// environment give. The webhook URL is required: where neither source has
/// it, the error names its environment variable. The secret is optional:
/// where neither source has it, the notification goes out unsigned.
pub fn resolve_settings(
    webhook_url_arg: Option<String>,
    webhook_url_env: Option<String>,
    secret_arg: Option<String>,
    secret_env: Option<String>,
) -> (resolved: Result<Settings, String>)
    ensures
        resolved is Err <==> webhook_url_arg is None && webhook_url_env is None,
        resolved matches Ok(settings) ==> {
            &&& Some(settings.webhook_url) == resolved_setting(webhook_url_arg, webhook_url_env)
            &&& settings.secret == resolved_setting(secret_arg, secret_env)
        },
        resolved matches Err(message) ==> message@ == missing_setting_message(
            WEBHOOK_URL_VARIABLE@,
        ),
{
    match get_env_or_arg(webhook_url_arg, webhook_url_env, WEBHOOK_URL_VARIABLE) {
        Ok(webhook_url) => {
            let secret = match get_env_or_arg(secret_arg, secret_env, SECRET_VARIABLE) {
                Ok(secret) => Some(secret),
                Err(_) => None,
            };
            Ok(Settings { webhook_url, secret })
        },
        Err(message) => Err(message),
    }
}

} // verus!
