//! Logging decisions: choosing a log-configuration path by precedence,
//! and reducing a result to its success value.  Reading the environment,
//! the home directory and the filesystem is the caller's part.

use vstd::prelude::*;

verus! {

/// The fallback path when neither an explicit path nor an environment
/// setting decides: the fixed file under the home directory, or the
/// current directory when no home directory is known.
pub open spec fn home_fallback_path(home_dir: Option<String>, current_dir: String) -> Seq<char> {
    match home_dir {
        Some(h) => h@ + "/.tari/log4rs.yml"@,
        None => current_dir@,
    }
}

/// The chosen log-configuration path: the explicit path when given; else
/// the environment setting when set and non-empty; else the home fallback.
pub open spec fn chosen_log_path(
    cli_path: Option<String>,
    env_path: Option<String>,
    home_dir: Option<String>,
    current_dir: String,
) -> Seq<char> {
    match cli_path {
        Some(p) => p@,
        None => match env_path {
            Some(e) => if e@.len() > 0 {
                e@
            } else {
                home_fallback_path(home_dir, current_dir)
            },
            None => home_fallback_path(home_dir, current_dir),
        },
    }
}

/// Determines the path to the log configuration file by precedence: the
/// explicitly provided path (usually a command-line argument), then a
/// non-empty environment setting, then `.tari/log4rs.yml` under the home
/// directory, then the current directory.
pub fn get_log_configuration_path(
    cli_path: Option<String>,
    env_path: Option<String>,
    home_dir: Option<String>,
    current_dir: String,
) -> (r: String)
    ensures
        r@ == chosen_log_path(cli_path, env_path, home_dir, current_dir),
{
    match cli_path {
        Some(p) => p,
        None => {
            match env_path {
                Some(e) => {
                    if !e.as_str().is_empty() {
                        e
                    } else {
                        fallback_path(home_dir, current_dir)
                    }
                },
                None => fallback_path(home_dir, current_dir),
            }
        },
    }
}

/// The home fallback, as an owned path.
fn fallback_path(home_dir: Option<String>, current_dir: String) -> (r: String)
    ensures
        r@ == home_fallback_path(home_dir, current_dir),
{
    match home_dir {
        Some(h) => h.concat("/.tari/log4rs.yml"),
        None => current_dir,
    }
}

/// The success value of a result, or nothing for a failure.  The message
/// names what failed for a caller that wants to log the failure; this
/// function itself only reduces the result.
pub fn log_if_error<T, E>(msg: &str, r: Result<T, E>) -> (opt: Option<T>)
    ensures
        match r {
            Ok(v) => opt == Some(v),
            Err(_) => opt is None,
        },
{
    let _ = msg;
    match r {
        Ok(v) => Some(v),
        Err(_) => None,
    }
}

} // verus!
