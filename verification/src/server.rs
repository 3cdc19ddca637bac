//! Start-up and request-handling policies of the server: which request headers
//! are hidden in logs, where the root and the history ledger lie, which CORS
//! origins are allowed, how a response is logged, and when a session expires.

use vstd::prelude::*;
use vstd::string::StringExecFns;
use crate::text::string_views;
use crate::config::{header_value_bytes_ok, header_value_valid};
use crate::text::{ascii_lowercase, chars_eq, chars_of, contains, contains_seq, lower, string_of, trim, trimmed};
use crate::words::{path_join, path_join_exec};
use crate::paths::{canonicalize, canonical_of};
use vstd::utf8::encode_utf8;

verus! {

/// A header whose value is hidden in logs: a credential header by name, or any
/// name holding `token`, `secret` or `password` (names compared in ASCII lower case).
pub open spec fn sensitive_header(name: Seq<char>) -> bool {
    let l = lower(name);
    ||| l == "authorization"@
    ||| l == "cookie"@
    ||| l == "set-cookie"@
    ||| l == "proxy-authorization"@
    ||| l == "x-api-key"@
    ||| l == "x-auth-token"@
    ||| l == "x-easytex-admin-token"@
    ||| contains_seq(l, "token"@)
    ||| contains_seq(l, "secret"@)
    ||| contains_seq(l, "password"@)
}

/// Whether the header `name` is hidden in logs (see [`sensitive_header`]).
pub fn is_sensitive_header(name: &str) -> (r: bool)
    ensures
        r == sensitive_header(name@),
{
    let l = ascii_lowercase(chars_of(name).as_slice());
    let s = l.as_slice();
    chars_eq(s, chars_of("authorization").as_slice()) || chars_eq(s, chars_of("cookie").as_slice())
        || chars_eq(s, chars_of("set-cookie").as_slice()) || chars_eq(
        s,
        chars_of("proxy-authorization").as_slice(),
    ) || chars_eq(s, chars_of("x-api-key").as_slice()) || chars_eq(s, chars_of("x-auth-token").as_slice())
        || chars_eq(s, chars_of("x-easytex-admin-token").as_slice()) || contains(
        s,
        chars_of("token").as_slice(),
    ) || contains(s, chars_of("secret").as_slice()) || contains(s, chars_of("password").as_slice())
}

/// A header as it is logged: its name, and its value, or `[REDACTED]` for a
/// sensitive header, or `[NON_UTF8]` where the value is not readable as text
/// (`value` is `None`).
pub fn redacted_header(name: &str, value: Option<&str>) -> (r: (String, String))
    ensures
        r.0@ == name@,
        r.1@ == (if sensitive_header(name@) {
            "[REDACTED]"@
        } else {
            match value {
                Some(v) => v@,
                None => "[NON_UTF8]"@,
            }
        }),
{
    let shown = if is_sensitive_header(name) {
        "[REDACTED]".to_string()
    } else {
        match value {
            Some(v) => v.to_string(),
            None => "[NON_UTF8]".to_string(),
        }
    };
    (name.to_string(), shown)
}

/// The history ledger's path: the configured file where it is absolute, else
/// that file inside the root.
pub fn history_path(root: &str, history_file: &str) -> (r: String)
    ensures
        r@ == path_join(root@, history_file@),
{
    string_of(path_join_exec(chars_of(root).as_slice(), chars_of(history_file).as_slice()).as_slice())
}

/// The root directory asked for: the command line's root, or the configured
/// one where the command line gives the default `.`.
pub fn requested_root(root_arg: &str, root_dir: &str) -> (r: String)
    ensures
        r@ == (if root_arg@ == "."@ {
            root_dir@
        } else {
            root_arg@
        }),
{
    if chars_eq(chars_of(root_arg).as_slice(), chars_of(".").as_slice()) {
        root_dir.to_string()
    } else {
        root_arg.to_string()
    }
}

/// The root directory, resolved on disk: `Ok` with a canonical form of the
/// directory asked for, or the start-up error naming that directory.
pub fn resolve_root(root_arg: &str, root_dir: &str) -> (r: Result<String, String>)
    ensures
        r matches Ok(p) ==> canonical_of(
            if root_arg@ == "."@ {
                root_dir@
            } else {
                root_arg@
            },
            p@,
        ) && p@.len() > 0,
        r matches Err(m) ==> m@ == "Failed to access ROOT_DIR '"@ + (if root_arg@ == "."@ {
            root_dir@
        } else {
            root_arg@
        }) + "'. Ensure the path exists."@,
{
    let requested = requested_root(root_arg, root_dir);
    match canonicalize(requested.as_str()) {
        Some(p) => Ok(p),
        None => {
            let mut m = "Failed to access ROOT_DIR '".to_string();
            m.append(requested.as_str());
            m.append("'. Ensure the path exists.");
            Err(m)
        },
    }
}

/// Which origins CORS allows.
pub enum CorsPolicy {
    /// Any origin (a `*` was configured).
    AnyOrigin,
    /// These origins.
    Origins(Vec<String>),
    /// No origin is allowed explicitly.
    Unset,
}

/// The configured origins that are valid header values, in order.
pub open spec fn valid_origins(os: Seq<Seq<char>>) -> Seq<Seq<char>>
    decreases os.len(),
{
    if os.len() == 0 {
        Seq::empty()
    } else {
        let rest = valid_origins(os.drop_last());
        if header_value_bytes_ok(encode_utf8(os.last())) {
            rest.push(os.last())
        } else {
            rest
        }
    }
}

/// The CORS policy for the configured origins: any origin where one of them
/// is `*` (ignoring white space), else those that are valid header values,
/// else none.
pub fn cors_policy(origins: &Vec<String>) -> (r: CorsPolicy)
    ensures
        (exists|k: int| 0 <= k < origins@.len() && trim(#[trigger] origins@[k]@) == "*"@) ==> r is AnyOrigin,
        !(exists|k: int| 0 <= k < origins@.len() && trim(#[trigger] origins@[k]@) == "*"@) ==> match r {
            CorsPolicy::Origins(v) => string_views(v@) == valid_origins(string_views(origins@))
                && v@.len() > 0,
            CorsPolicy::Unset => valid_origins(string_views(origins@)).len() == 0,
            CorsPolicy::AnyOrigin => false,
        },
{
    let star = chars_of("*");
    let mut i: usize = 0;
    while i < origins.len()
        invariant
            i <= origins@.len(),
            star@ == "*"@,
            forall|k: int| 0 <= k < i ==> trim(#[trigger] origins@[k]@) != "*"@,
        decreases origins@.len() - i,
    {
        if chars_eq(trimmed(chars_of(origins[i].as_str()).as_slice()).as_slice(), star.as_slice()) {
            return CorsPolicy::AnyOrigin;
        }
        i += 1;
    }
    let ghost ov = string_views(origins@);
    let mut valid: Vec<String> = Vec::new();
    let mut j: usize = 0;
    assert(ov.take(0) =~= Seq::<Seq<char>>::empty());
    while j < origins.len()
        invariant
            j <= origins@.len() == ov.len(),
            ov == string_views(origins@),
            string_views(valid@) == valid_origins(ov.take(j as int)),
        decreases origins@.len() - j,
    {
        let o = origins[j].as_str();
        assert(ov.take(j + 1).drop_last() =~= ov.take(j as int));
        assert(ov[j as int] == o@);
        if header_value_valid(o) {
            let ghost before = string_views(valid@);
            valid.push(o.to_string());
            assert(string_views(valid@) =~= before.push(o@));
        }
        j += 1;
    }
    assert(ov.take(ov.len() as int) =~= ov);
    if valid.len() == 0 {
        CorsPolicy::Unset
    } else {
        CorsPolicy::Origins(valid)
    }
}

/// How a finished request is logged, by its status code.
pub open spec fn response_note(status: u16) -> Seq<char> {
    if 500 <= status <= 599 {
        "HTTP request failed"@
    } else if 400 <= status <= 499 {
        "HTTP request rejected"@
    } else {
        "HTTP request completed"@
    }
}

/// The log message of a finished request (see [`response_note`]); server and
/// client errors are logged as warnings.
pub fn response_log(status: u16) -> (r: (&'static str, bool))
    ensures
        r.0@ == response_note(status),
        r.1 == (400 <= status <= 599),
{
    if 500 <= status && status <= 599 {
        ("HTTP request failed", true)
    } else if 400 <= status && status <= 499 {
        ("HTTP request rejected", true)
    } else {
        ("HTTP request completed", false)
    }
}

/// Whether a request was slow: it took more than 500 milliseconds.
pub fn slow_request(millis: u128) -> (r: bool)
    ensures
        r == (millis > 500),
{
    millis > 500
}

/// The lifetime of an idle session, in seconds.
pub fn session_ttl_secs(hours: u64) -> (r: u64)
    requires
        hours * 3600 <= u64::MAX,
    ensures
        r == hours * 3600,
{
    hours * 3600
}

/// The longest a build may run, in seconds.
pub fn build_timeout_secs(mins: u64) -> (r: u64)
    requires
        mins * 60 <= u64::MAX,
    ensures
        r == mins * 60,
{
    mins * 60
}

/// Whether a session idle for `idle_nanos` nanoseconds has outlived a
/// lifetime of `ttl_secs` seconds.
pub fn session_expired(idle_nanos: u128, ttl_secs: u64) -> (r: bool)
    ensures
        r == (idle_nanos > ttl_secs * 1_000_000_000),
{
    idle_nanos > (ttl_secs as u128) * 1_000_000_000
}

} // verus!
