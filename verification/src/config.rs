//! Server-wide settings (`easytex.yaml` refined by environment variables) and
//! project settings (`EasyTex.toml`): their defaults, how overrides apply, and
//! the checks a configuration must pass before the server starts.

use vstd::prelude::*;
use vstd::utf8::encode_utf8;
use crate::text::string_views;
use crate::text::{
    chars_eq, chars_of, opt_view, parse_uint, parse_unsigned, split, split_char, string_of, trim, trimmed,
};
use crate::text::lemma_trim_unchanged;
use crate::utils::{is_valid_entrypoint, valid_entrypoint};

verus! {

/// Server-wide settings.
#[derive(Clone, Debug)]
pub struct GlobalConfig {
    /// Port the server listens on.
    pub port: u16,
    /// Directory holding the projects.
    pub root_dir: String,
    /// Builds that may run at once.
    pub max_concurrent_builds: usize,
    /// Hours an idle session lives.
    pub session_ttl_hours: u64,
    /// Minutes a build may run before it is killed.
    pub build_timeout_mins: u64,
    /// Whether finished PDFs are compressed with Ghostscript.
    pub compress_pdf: bool,
    /// Bearer token of the admin routes.
    pub admin_token: Option<String>,
    /// Whether mutating and admin requests need the token even on localhost.
    pub require_auth: bool,
    /// Whether the TeX engine may run shell commands.
    pub allow_shell_escape: bool,
    /// Origins allowed by CORS; `"*"` allows any.
    pub cors_allowed_origins: Vec<String>,
    /// Interface the server binds to.
    pub host: String,
    /// File of the build history ledger.
    pub history_file: String,
    /// Largest file that may be saved, in bytes.
    pub max_edit_file_size_bytes: usize,
    /// Largest file that may be read, in bytes.
    pub max_read_file_size_bytes: usize,
    /// Most files listed per project.
    pub max_project_files: usize,
    /// Largest PDF served, in bytes.
    pub max_pdf_size_bytes: u64,
    /// Whether every mutating action is refused.
    pub read_only: bool,
}

/// The default server settings.
pub open spec fn is_default_global(c: GlobalConfig) -> bool {
    &&& c.port == 8081
    &&& c.root_dir@ == "."@
    &&& c.max_concurrent_builds == 4
    &&& c.session_ttl_hours == 24
    &&& c.build_timeout_mins == 15
    &&& c.compress_pdf
    &&& c.admin_token is None
    &&& !c.require_auth
    &&& !c.allow_shell_escape
    &&& c.cors_allowed_origins@.len() == 0
    &&& c.host@ == "127.0.0.1"@
    &&& c.history_file@ == ".easytex-history.json"@
    &&& c.max_edit_file_size_bytes == 1_000_000
    &&& c.max_read_file_size_bytes == 2_000_000
    &&& c.max_project_files == 5_000
    &&& c.max_pdf_size_bytes == 104_857_600
    &&& !c.read_only
}

impl Default for GlobalConfig {
    fn default() -> (r: Self)
        ensures
            is_default_global(r),
    {
        GlobalConfig {
            port: 8081,
            root_dir: ".".to_string(),
            max_concurrent_builds: 4,
            session_ttl_hours: 24,
            build_timeout_mins: 15,
            compress_pdf: true,
            admin_token: None,
            require_auth: false,
            allow_shell_escape: false,
            cors_allowed_origins: Vec::new(),
            host: "127.0.0.1".to_string(),
            history_file: ".easytex-history.json".to_string(),
            max_edit_file_size_bytes: 1_000_000,
            max_read_file_size_bytes: 2_000_000,
            max_project_files: 5_000,
            max_pdf_size_bytes: 104_857_600,
            read_only: false,
        }
    }
}

/// The environment variables that override settings, each as read (`None`
/// where unset or not valid Unicode).
pub struct EnvOverrides {
    /// `PORT`.
    pub port: Option<String>,
    /// `ROOT_DIR`.
    pub root_dir: Option<String>,
    /// `EASYTEX_HOST`.
    pub host: Option<String>,
    /// `EASYTEX_ADMIN_TOKEN`.
    pub admin_token: Option<String>,
    /// `EASYTEX_REQUIRE_AUTH`.
    pub require_auth: Option<String>,
    /// `EASYTEX_CORS_ALLOWED_ORIGINS`.
    pub cors_allowed_origins: Option<String>,
    /// `EASYTEX_MAX_EDIT_FILE_SIZE_BYTES`.
    pub max_edit_file_size_bytes: Option<String>,
    /// `EASYTEX_MAX_READ_FILE_SIZE_BYTES`.
    pub max_read_file_size_bytes: Option<String>,
    /// `EASYTEX_MAX_PROJECT_FILES`.
    pub max_project_files: Option<String>,
    /// `EASYTEX_MAX_PDF_SIZE_BYTES`.
    pub max_pdf_size_bytes: Option<String>,
    /// `EASYTEX_READ_ONLY`.
    pub read_only: Option<String>,
}

/// A value that switches a flag on: `1`, `true`, `yes` or `on` (all lower or
/// all upper case), ignoring surrounding white space.
pub open spec fn truthy(v: Seq<char>) -> bool {
    let t = trim(v);
    ||| t == "1"@
    ||| t == "true"@
    ||| t == "TRUE"@
    ||| t == "yes"@
    ||| t == "YES"@
    ||| t == "on"@
    ||| t == "ON"@
}

/// Whether `value` switches a flag on (see [`truthy`]).
pub fn env_truthy(value: &str) -> (r: bool)
    ensures
        r == truthy(value@),
{
    let t = trimmed(chars_of(value).as_slice());
    let s = t.as_slice();
    chars_eq(s, chars_of("1").as_slice()) || chars_eq(s, chars_of("true").as_slice())
        || chars_eq(s, chars_of("TRUE").as_slice()) || chars_eq(s, chars_of("yes").as_slice())
        || chars_eq(s, chars_of("YES").as_slice()) || chars_eq(s, chars_of("on").as_slice())
        || chars_eq(s, chars_of("ON").as_slice())
}

/// The non-empty trimmed pieces of a list of pieces.
pub open spec fn nonempty_trimmed(ps: Seq<Seq<char>>) -> Seq<Seq<char>>
    decreases ps.len(),
{
    if ps.len() == 0 {
        Seq::empty()
    } else {
        let rest = nonempty_trimmed(ps.drop_last());
        if trim(ps.last()).len() == 0 {
            rest
        } else {
            rest.push(trim(ps.last()))
        }
    }
}

/// The origins named by a comma-separated list, trimmed, empty ones left out.
pub open spec fn origin_list(v: Seq<char>) -> Seq<Seq<char>> {
    nonempty_trimmed(split(v, ','))
}

/// The origins named by a comma-separated list (see [`origin_list`]).
pub fn parse_origin_list(v: &str) -> (r: Vec<String>)
    ensures
        string_views(r@) == origin_list(v@),
{
    let pieces = split_char(chars_of(v).as_slice(), ',');
    let ghost ps = split(v@, ',');
    let mut r: Vec<String> = Vec::new();
    let mut i: usize = 0;
    assert(ps.take(0) =~= Seq::<Seq<char>>::empty());
    while i < pieces.len()
        invariant
            i <= pieces@.len() == ps.len(),
            forall|k: int| 0 <= k < pieces@.len() ==> #[trigger] pieces@[k]@ == ps[k],
            string_views(r@) == nonempty_trimmed(ps.take(i as int)),
        decreases pieces@.len() - i,
    {
        let t = trimmed(pieces[i].as_slice());
        assert(ps.take(i + 1).drop_last() =~= ps.take(i as int));
        assert(pieces@[i as int]@ == ps[i as int]);
        if t.len() > 0 {
            let ghost before = string_views(r@);
            r.push(string_of(t.as_slice()));
            assert(string_views(r@) =~= before.push(trim(ps[i as int])));
        }
        i += 1;
    }
    assert(ps.take(ps.len() as int) =~= ps);
    r
}

/// A number read from an override, or the current value where the override is
/// unset or not a number within `max`.
pub open spec fn override_number(v: Option<String>, max: nat, current: nat) -> nat {
    match v {
        Some(s) => match parse_unsigned(s@, max) {
            Some(n) => n,
            None => current,
        },
        None => current,
    }
}

/// Reads a numeric override.
fn number_override(v: &Option<String>, max: u64, current: u64) -> (r: u64)
    requires
        current <= max,
    ensures
        r as nat == override_number(*v, max as nat, current as nat),
        r <= max,
{
    match v {
        Some(s) => match parse_uint(chars_of(s.as_str()).as_slice(), max) {
            Some(n) => n,
            None => current,
        },
        None => current,
    }
}

impl GlobalConfig {
    /// These settings with the environment overrides of `env` applied: numbers
    /// that parse replace the setting, a non-empty host replaces the host, a
    /// token replaces the token (an empty one clears it), flags take their
    /// truth value, and the origin list is read as comma-separated.
    pub fn apply_env(self, env: &EnvOverrides) -> (r: Self)
        ensures
            r.port as nat == override_number(env.port, 65535, self.port as nat),
            r.root_dir@ == (match env.root_dir {
                Some(v) => v@,
                None => self.root_dir@,
            }),
            r.host@ == (match env.host {
                Some(v) => if v@.len() > 0 {
                    v@
                } else {
                    self.host@
                },
                None => self.host@,
            }),
            opt_view(r.admin_token) == (match env.admin_token {
                Some(v) => if v@.len() > 0 {
                    Some(v@)
                } else {
                    None
                },
                None => opt_view(self.admin_token),
            }),
            r.require_auth == (match env.require_auth {
                Some(v) => truthy(v@),
                None => self.require_auth,
            }),
            string_views(r.cors_allowed_origins@) == (match env.cors_allowed_origins {
                Some(v) => origin_list(v@),
                None => string_views(self.cors_allowed_origins@),
            }),
            r.max_edit_file_size_bytes as nat == override_number(
                env.max_edit_file_size_bytes,
                usize::MAX as nat,
                self.max_edit_file_size_bytes as nat,
            ),
            r.max_read_file_size_bytes as nat == override_number(
                env.max_read_file_size_bytes,
                usize::MAX as nat,
                self.max_read_file_size_bytes as nat,
            ),
            r.max_project_files as nat == override_number(
                env.max_project_files,
                usize::MAX as nat,
                self.max_project_files as nat,
            ),
            r.max_pdf_size_bytes as nat == override_number(
                env.max_pdf_size_bytes,
                u64::MAX as nat,
                self.max_pdf_size_bytes as nat,
            ),
            r.read_only == (match env.read_only {
                Some(v) => truthy(v@),
                None => self.read_only,
            }),
            r.max_concurrent_builds == self.max_concurrent_builds,
            r.session_ttl_hours == self.session_ttl_hours,
            r.build_timeout_mins == self.build_timeout_mins,
            r.compress_pdf == self.compress_pdf,
            r.allow_shell_escape == self.allow_shell_escape,
            r.history_file@ == self.history_file@,
    {
        let mut c = self;
        c.port = number_override(&env.port, 65535, c.port as u64) as u16;
        match &env.root_dir {
            Some(v) => c.root_dir = v.clone(),
            None => {},
        }
        match &env.host {
            Some(v) => if !v.as_str().is_empty() {
                c.host = v.clone();
            },
            None => {},
        }
        match &env.admin_token {
            Some(v) => {
                c.admin_token = if !v.as_str().is_empty() {
                    Some(v.clone())
                } else {
                    None
                };
            },
            None => {},
        }
        match &env.require_auth {
            Some(v) => c.require_auth = env_truthy(v.as_str()),
            None => {},
        }
        match &env.cors_allowed_origins {
            Some(v) => c.cors_allowed_origins = parse_origin_list(v.as_str()),
            None => {},
        }
        c.max_edit_file_size_bytes = number_override(
            &env.max_edit_file_size_bytes,
            usize::MAX as u64,
            c.max_edit_file_size_bytes as u64,
        ) as usize;
        c.max_read_file_size_bytes = number_override(
            &env.max_read_file_size_bytes,
            usize::MAX as u64,
            c.max_read_file_size_bytes as u64,
        ) as usize;
        c.max_project_files = number_override(
            &env.max_project_files,
            usize::MAX as u64,
            c.max_project_files as u64,
        ) as usize;
        c.max_pdf_size_bytes = number_override(&env.max_pdf_size_bytes, u64::MAX, c.max_pdf_size_bytes);
        match &env.read_only {
            Some(v) => c.read_only = env_truthy(v.as_str()),
            None => {},
        }
        c
    }
}

/// Why a configuration is refused.
#[derive(Debug, Clone, Copy, PartialEq, Eq, Structural)]
pub enum ConfigError {
    /// `max_concurrent_builds` is 0.
    NoConcurrentBuilds,
    /// `session_ttl_hours` is 0.
    NoSessionTtl,
    /// `build_timeout_mins` is 0.
    NoBuildTimeout,
    /// `host` is blank.
    EmptyHost,
    /// `max_edit_file_size_bytes` is 0.
    NoEditFileSize,
    /// `max_read_file_size_bytes` is 0.
    NoReadFileSize,
    /// `max_project_files` is 0.
    NoProjectFiles,
    /// `max_pdf_size_bytes` is 0.
    NoPdfSize,
    /// `port` is 0.
    NoPort,
    /// An origin is neither `*` nor a valid header value.
    InvalidOrigin,
    /// `require_auth` is set without a token.
    AuthWithoutToken,
    /// A wildcard origin is allowed without a token.
    WildcardWithoutToken,
    /// `history_file` is blank.
    EmptyHistoryFile,
    /// The server would bind outside localhost without a token.
    PublicBindWithoutToken,
}

/// The message of each configuration error.
pub open spec fn config_error_message(e: ConfigError) -> Seq<char> {
    match e {
        ConfigError::NoConcurrentBuilds => "max_concurrent_builds must be greater than 0"@,
        ConfigError::NoSessionTtl => "session_ttl_hours must be greater than 0"@,
        ConfigError::NoBuildTimeout => "build_timeout_mins must be greater than 0"@,
        ConfigError::EmptyHost => "host must not be empty"@,
        ConfigError::NoEditFileSize => "max_edit_file_size_bytes must be greater than 0"@,
        ConfigError::NoReadFileSize => "max_read_file_size_bytes must be greater than 0"@,
        ConfigError::NoProjectFiles => "max_project_files must be greater than 0"@,
        ConfigError::NoPdfSize => "max_pdf_size_bytes must be greater than 0"@,
        ConfigError::NoPort => "port must be greater than 0"@,
        ConfigError::InvalidOrigin => "cors_allowed_origins contains an invalid origin"@,
        ConfigError::AuthWithoutToken => "admin_token is required when require_auth is enabled"@,
        ConfigError::WildcardWithoutToken => "admin_token is required when cors_allowed_origins contains '*'"@,
        ConfigError::EmptyHistoryFile => "history_file must not be empty"@,
        ConfigError::PublicBindWithoutToken => "admin_token is required when binding EasyTex outside localhost"@,
    }
}

impl ConfigError {
    /// The message of this error.
    pub fn message(&self) -> (r: &'static str)
        ensures
            r@ == config_error_message(*self),
    {
        match self {
            ConfigError::NoConcurrentBuilds => "max_concurrent_builds must be greater than 0",
            ConfigError::NoSessionTtl => "session_ttl_hours must be greater than 0",
            ConfigError::NoBuildTimeout => "build_timeout_mins must be greater than 0",
            ConfigError::EmptyHost => "host must not be empty",
            ConfigError::NoEditFileSize => "max_edit_file_size_bytes must be greater than 0",
            ConfigError::NoReadFileSize => "max_read_file_size_bytes must be greater than 0",
            ConfigError::NoProjectFiles => "max_project_files must be greater than 0",
            ConfigError::NoPdfSize => "max_pdf_size_bytes must be greater than 0",
            ConfigError::NoPort => "port must be greater than 0",
            ConfigError::InvalidOrigin => "cors_allowed_origins contains an invalid origin",
            ConfigError::AuthWithoutToken => "admin_token is required when require_auth is enabled",
            ConfigError::WildcardWithoutToken => "admin_token is required when cors_allowed_origins contains '*'",
            ConfigError::EmptyHistoryFile => "history_file must not be empty",
            ConfigError::PublicBindWithoutToken => "admin_token is required when binding EasyTex outside localhost",
        }
    }
}

/// Bytes that an HTTP header value may hold: visible ASCII, space, tab, and
/// bytes of 128 and above.
pub open spec fn header_value_bytes_ok(b: Seq<u8>) -> bool {
    forall|i: int| 0 <= i < b.len() ==> (b[i] >= 32 && b[i] != 127) || b[i] == 9
}

/// `HeaderValue::from_str` succeeds: it accepts a string exactly when every byte
/// of its UTF-8 encoding is allowed in a header value.
#[verifier::external_body]
pub(crate) fn header_value_valid(s: &str) -> (r: bool)
    ensures
        r == header_value_bytes_ok(encode_utf8(s@)),
{
    axum::http::HeaderValue::from_str(s).is_ok()
}

/// An acceptable CORS origin: `*` or a valid header value.
pub open spec fn origin_ok(o: Seq<char>) -> bool {
    o == "*"@ || header_value_bytes_ok(encode_utf8(o))
}

/// A usable admin token is configured: present and not blank.
pub open spec fn has_admin_token(c: GlobalConfig) -> bool {
    c.admin_token matches Some(t) && trim(t@).len() > 0
}

/// A host that only local clients can reach.
pub open spec fn loopback_host(h: Seq<char>) -> bool {
    let t = trim(h);
    t == "127.0.0.1"@ || t == "localhost"@ || t == "::1"@ || t == "[::1]"@
}

/// The first check that `c` fails, in the order they are made, where the
/// server binds to the configured host.
pub open spec fn config_error(c: GlobalConfig) -> Option<ConfigError> {
    let origins = string_views(c.cors_allowed_origins@);
    if c.max_concurrent_builds == 0 {
        Some(ConfigError::NoConcurrentBuilds)
    } else if c.session_ttl_hours == 0 {
        Some(ConfigError::NoSessionTtl)
    } else if c.build_timeout_mins == 0 {
        Some(ConfigError::NoBuildTimeout)
    } else if trim(c.host@).len() == 0 {
        Some(ConfigError::EmptyHost)
    } else if c.max_edit_file_size_bytes == 0 {
        Some(ConfigError::NoEditFileSize)
    } else if c.max_read_file_size_bytes == 0 {
        Some(ConfigError::NoReadFileSize)
    } else if c.max_project_files == 0 {
        Some(ConfigError::NoProjectFiles)
    } else if c.max_pdf_size_bytes == 0 {
        Some(ConfigError::NoPdfSize)
    } else if c.port == 0 {
        Some(ConfigError::NoPort)
    } else if exists|i: int| 0 <= i < origins.len() && !origin_ok(#[trigger] origins[i]) {
        Some(ConfigError::InvalidOrigin)
    } else if c.require_auth && !has_admin_token(c) {
        Some(ConfigError::AuthWithoutToken)
    } else if (exists|i: int| 0 <= i < origins.len() && trim(#[trigger] origins[i]) == "*"@)
        && !has_admin_token(c) {
        Some(ConfigError::WildcardWithoutToken)
    } else if trim(c.history_file@).len() == 0 {
        Some(ConfigError::EmptyHistoryFile)
    } else if !loopback_host(c.host@) && !has_admin_token(c) {
        Some(ConfigError::PublicBindWithoutToken)
    } else {
        None
    }
}

/// A configuration that passes every check keeps the server closed without
/// an admin token: it demands the token where authentication is required,
/// where any origin is allowed and where the host is reachable from other
/// machines; and each of its limits is positive.
pub proof fn lemma_accepted_config_is_guarded(c: GlobalConfig)
    requires
        config_error(c) is None,
    ensures
        c.require_auth ==> has_admin_token(c),
        (exists|i: int|
            0 <= i < c.cors_allowed_origins@.len() && trim(
                #[trigger] string_views(c.cors_allowed_origins@)[i],
            ) == "*"@) ==> has_admin_token(c),
        !loopback_host(c.host@) ==> has_admin_token(c),
        forall|i: int|
            0 <= i < c.cors_allowed_origins@.len() ==> origin_ok(
                #[trigger] string_views(c.cors_allowed_origins@)[i],
            ),
        c.max_concurrent_builds > 0 && c.session_ttl_hours > 0 && c.build_timeout_mins > 0,
        c.max_edit_file_size_bytes > 0 && c.max_read_file_size_bytes > 0,
        c.max_project_files > 0 && c.max_pdf_size_bytes > 0 && c.port > 0,
        trim(c.host@).len() > 0 && trim(c.history_file@).len() > 0,
{
}

/// The default server settings pass every check.
pub proof fn lemma_default_config_accepted(c: GlobalConfig)
    requires
        is_default_global(c),
    ensures
        config_error(c) is None,
{
    reveal_strlit("127.0.0.1");
    reveal_strlit(".easytex-history.json");
    lemma_trim_unchanged(c.host@);
    lemma_trim_unchanged(c.history_file@);
}

/// Whether `host` can only be reached from the local machine.
pub fn is_loopback_host(host: &str) -> (r: bool)
    ensures
        r == loopback_host(host@),
{
    let t = trimmed(chars_of(host).as_slice());
    let s = t.as_slice();
    chars_eq(s, chars_of("127.0.0.1").as_slice()) || chars_eq(s, chars_of("localhost").as_slice())
        || chars_eq(s, chars_of("::1").as_slice()) || chars_eq(s, chars_of("[::1]").as_slice())
}

/// Whether `s` is blank once trimmed.
fn is_blank(s: &str) -> (r: bool)
    ensures
        r == (trim(s@).len() == 0),
{
    trimmed(chars_of(s).as_slice()).len() == 0
}

impl GlobalConfig {
    /// Whether a usable admin token is configured.
    pub fn has_token(&self) -> (r: bool)
        ensures
            r == has_admin_token(*self),
    {
        match &self.admin_token {
            Some(t) => !is_blank(t.as_str()),
            None => false,
        }
    }

    /// Checks the settings in order and reports the first that fails.
    pub fn validate(&self) -> (r: Result<(), ConfigError>)
        ensures
            match config_error(*self) {
                Some(e) => r == Err::<(), ConfigError>(e),
                None => r is Ok,
            },
    {
        if self.max_concurrent_builds == 0 {
            return Err(ConfigError::NoConcurrentBuilds);
        }
        if self.session_ttl_hours == 0 {
            return Err(ConfigError::NoSessionTtl);
        }
        if self.build_timeout_mins == 0 {
            return Err(ConfigError::NoBuildTimeout);
        }
        if is_blank(self.host.as_str()) {
            return Err(ConfigError::EmptyHost);
        }
        if self.max_edit_file_size_bytes == 0 {
            return Err(ConfigError::NoEditFileSize);
        }
        if self.max_read_file_size_bytes == 0 {
            return Err(ConfigError::NoReadFileSize);
        }
        if self.max_project_files == 0 {
            return Err(ConfigError::NoProjectFiles);
        }
        if self.max_pdf_size_bytes == 0 {
            return Err(ConfigError::NoPdfSize);
        }
        if self.port == 0 {
            return Err(ConfigError::NoPort);
        }
        let ghost origins = string_views(self.cors_allowed_origins@);
        let star = chars_of("*");
        let mut i: usize = 0;
        let mut wildcard = false;
        while i < self.cors_allowed_origins.len()
            invariant
                i <= origins.len() == self.cors_allowed_origins@.len(),
                origins == string_views(self.cors_allowed_origins@),
                star@ == "*"@,
                self.max_concurrent_builds != 0 && self.session_ttl_hours != 0
                    && self.build_timeout_mins != 0 && trim(self.host@).len() != 0,
                self.max_edit_file_size_bytes != 0 && self.max_read_file_size_bytes != 0
                    && self.max_project_files != 0 && self.max_pdf_size_bytes != 0 && self.port != 0,
                forall|k: int| 0 <= k < i ==> origin_ok(#[trigger] origins[k]),
                wildcard == exists|k: int| 0 <= k < i && trim(#[trigger] origins[k]) == "*"@,
            decreases self.cors_allowed_origins@.len() - i,
        {
            let o = self.cors_allowed_origins[i].as_str();
            assert(origins[i as int] == o@);
            let oc = chars_of(o);
            if !(chars_eq(oc.as_slice(), star.as_slice()) || header_value_valid(o)) {
                assert(!origin_ok(origins[i as int]));
                return Err(ConfigError::InvalidOrigin);
            }
            if chars_eq(trimmed(oc.as_slice()).as_slice(), star.as_slice()) {
                wildcard = true;
            }
            i += 1;
        }
        let token = self.has_token();
        if self.require_auth && !token {
            return Err(ConfigError::AuthWithoutToken);
        }
        if wildcard && !token {
            return Err(ConfigError::WildcardWithoutToken);
        }
        if is_blank(self.history_file.as_str()) {
            return Err(ConfigError::EmptyHistoryFile);
        }
        self.validate_effective_bind_host(self.host.as_str())
    }

    /// Checks that binding to `host` is allowed: a host outside localhost needs
    /// an admin token.
    pub fn validate_effective_bind_host(&self, host: &str) -> (r: Result<(), ConfigError>)
        ensures
            (loopback_host(host@) || has_admin_token(*self)) ==> r is Ok,
            !(loopback_host(host@) || has_admin_token(*self)) ==> r == Err::<(), ConfigError>(
                ConfigError::PublicBindWithoutToken,
            ),
    {
        if is_loopback_host(host) || self.has_token() {
            Ok(())
        } else {
            Err(ConfigError::PublicBindWithoutToken)
        }
    }
}

/// Settings of one project.
#[derive(Clone, Debug)]
pub struct Config {
    /// The root LaTeX document, relative to the project.
    pub entrypoint: String,
    /// A formatter command line that replaces the default `tex-fmt`.
    pub format_command: Option<String>,
}

impl Default for Config {
    fn default() -> (r: Self)
        ensures
            r.entrypoint@ == "main.tex"@,
            r.format_command is None,
    {
        Config { entrypoint: "main.tex".to_string(), format_command: None }
    }
}

/// The project settings in effect: the parsed settings where they parsed and
/// name a valid entrypoint, the defaults otherwise.
pub fn effective_config(parsed: Option<Config>) -> (r: Config)
    ensures
        match parsed {
            Some(c) => if valid_entrypoint(c.entrypoint@) {
                r == c
            } else {
                r.entrypoint@ == "main.tex"@ && r.format_command is None
            },
            None => r.entrypoint@ == "main.tex"@ && r.format_command is None,
        },
{
    match parsed {
        Some(c) => {
            if is_valid_entrypoint(c.entrypoint.as_str()) {
                c
            } else {
                Config::default()
            }
        },
        None => Config::default(),
    }
}

} // verus!
