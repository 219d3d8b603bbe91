//! Tunnel configuration and the choice of tunnel provider.

use vstd::prelude::*;
use vstd::string::*;
use crate::entry::opt_string_view;

verus! {

/// Settings of a Cloudflare tunnel.
#[derive(Debug, Clone)]
pub struct CloudflareTunnelConfig {
    pub token: String,
}

/// Settings of a Tailscale tunnel.
#[derive(Debug, Clone)]
pub struct TailscaleTunnelConfig {
    pub funnel: bool,
    pub hostname: Option<String>,
}

/// Settings of an ngrok tunnel.
#[derive(Debug, Clone)]
pub struct NgrokTunnelConfig {
    pub auth_token: String,
    pub domain: Option<String>,
}

/// Settings of a tunnel run by a command of the user's choice.
#[derive(Debug, Clone)]
pub struct CustomTunnelConfig {
    pub start_command: String,
    pub health_url: Option<String>,
    pub url_pattern: Option<String>,
}

/// The `[tunnel]` section: which provider to use, and each provider's own
/// section where it was given.
#[derive(Debug, Clone)]
pub struct TunnelConfig {
    pub provider: String,
    pub cloudflare: Option<CloudflareTunnelConfig>,
    pub tailscale: Option<TailscaleTunnelConfig>,
    pub ngrok: Option<NgrokTunnelConfig>,
    pub custom: Option<CustomTunnelConfig>,
}

impl Default for TunnelConfig {
    fn default() -> (r: Self)
        ensures
            r.provider@ == "none"@,
            r.cloudflare is None,
            r.tailscale is None,
            r.ngrok is None,
            r.custom is None,
    {
        TunnelConfig {
            provider: String::from_str("none"),
            cloudflare: None,
            tailscale: None,
            ngrok: None,
            custom: None,
        }
    }
}

/// The tunnel that does nothing: the gateway stays local.
pub struct NoneTunnel;

impl NoneTunnel {
    pub fn name(&self) -> (r: &'static str)
        ensures
            r@ == "none"@,
    {
        "none"
    }
}

/// A tunnel run by a command of the user's choice. The command may hold
/// `{port}` and `{host}` placeholders; `url_pattern` picks the public URL out
/// of its output and `health_url` is polled for liveness.
#[derive(Debug, Clone)]
pub struct CustomTunnel {
    pub start_command: String,
    pub health_url: Option<String>,
    pub url_pattern: Option<String>,
}

impl CustomTunnel {
    pub fn new(start_command: String, health_url: Option<String>, url_pattern: Option<String>) -> (r: Self)
        ensures
            r.start_command == start_command,
            r.health_url == health_url,
            r.url_pattern == url_pattern,
    {
        CustomTunnel { start_command, health_url, url_pattern }
    }

    pub fn name(&self) -> (r: &'static str)
        ensures
            r@ == "custom"@,
    {
        "custom"
    }
}

/// The tunnel that a configuration selects.
#[derive(Debug, Clone)]
pub enum ConfiguredTunnel {
    Cloudflare { token: String },
    Tailscale { funnel: bool, hostname: Option<String> },
    Ngrok { auth_token: String, domain: Option<String> },
    Custom(CustomTunnel),
}

/// The mathematical value of a [`ConfiguredTunnel`].
pub enum TunnelView {
    Cloudflare { token: Seq<char> },
    Tailscale { funnel: bool, hostname: Option<Seq<char>> },
    Ngrok { auth_token: Seq<char>, domain: Option<Seq<char>> },
    Custom { start_command: Seq<char>, health_url: Option<Seq<char>>, url_pattern: Option<Seq<char>> },
}

impl View for ConfiguredTunnel {
    type V = TunnelView;

    open spec fn view(&self) -> TunnelView {
        match self {
            ConfiguredTunnel::Cloudflare { token } => TunnelView::Cloudflare { token: token@ },
            ConfiguredTunnel::Tailscale { funnel, hostname } => TunnelView::Tailscale {
                funnel: *funnel,
                hostname: opt_string_view(*hostname),
            },
            ConfiguredTunnel::Ngrok { auth_token, domain } => TunnelView::Ngrok {
                auth_token: auth_token@,
                domain: opt_string_view(*domain),
            },
            ConfiguredTunnel::Custom(c) => TunnelView::Custom {
                start_command: c.start_command@,
                health_url: opt_string_view(c.health_url),
                url_pattern: opt_string_view(c.url_pattern),
            },
        }
    }
}

pub open spec fn tunnel_name(t: TunnelView) -> Seq<char> {
    match t {
        TunnelView::Cloudflare { .. } => "cloudflare"@,
        TunnelView::Tailscale { .. } => "tailscale"@,
        TunnelView::Ngrok { .. } => "ngrok"@,
        TunnelView::Custom { .. } => "custom"@,
    }
}

impl ConfiguredTunnel {
    /// The provider's name.
    pub fn name(&self) -> (r: &'static str)
        ensures
            r@ == tunnel_name(self@),
    {
        match self {
            ConfiguredTunnel::Cloudflare { .. } => "cloudflare",
            ConfiguredTunnel::Tailscale { .. } => "tailscale",
            ConfiguredTunnel::Ngrok { .. } => "ngrok",
            ConfiguredTunnel::Custom(_) => "custom",
        }
    }
}

/// Why a tunnel could not be set up.
#[derive(Debug, Clone)]
pub enum TunnelError {
    /// The provider named in the configuration is not one of the known ones.
    UnknownProvider(String),
    /// The provider's own section, needed for it, is missing.
    MissingSection(String),
    /// The custom start command does not parse as shell words.
    InvalidShellSyntax(String),
    /// The custom start command holds no words.
    EmptyCommand,
}

/// The mathematical value of a [`TunnelError`].
pub enum TunnelErrorView {
    UnknownProvider(Seq<char>),
    MissingSection(Seq<char>),
    InvalidShellSyntax(Seq<char>),
    EmptyCommand,
}

impl View for TunnelError {
    type V = TunnelErrorView;

    open spec fn view(&self) -> TunnelErrorView {
        match self {
            TunnelError::UnknownProvider(p) => TunnelErrorView::UnknownProvider(p@),
            TunnelError::MissingSection(p) => TunnelErrorView::MissingSection(p@),
            TunnelError::InvalidShellSyntax(c) => TunnelErrorView::InvalidShellSyntax(c@),
            TunnelError::EmptyCommand => TunnelErrorView::EmptyCommand,
        }
    }
}

/// The text shown for an error.
pub open spec fn error_message(e: TunnelErrorView) -> Seq<char> {
    match e {
        TunnelErrorView::UnknownProvider(p) => "Unknown tunnel provider: \""@ + p
            + "\". Valid: none, cloudflare, tailscale, ngrok, custom"@,
        TunnelErrorView::MissingSection(p) => "tunnel.provider = \""@ + p + "\" but [tunnel."@ + p
            + "] section is missing"@,
        TunnelErrorView::InvalidShellSyntax(c) => "Invalid shell syntax in start_command: "@ + c,
        TunnelErrorView::EmptyCommand => "Custom tunnel start_command is empty"@,
    }
}

impl TunnelError {
    /// The text shown for the error.
    pub fn message(&self) -> (r: String)
        ensures
            r@ == error_message(self@),
    {
        match self {
            TunnelError::UnknownProvider(p) => {
                let r = String::from_str("Unknown tunnel provider: \"");
                let r = r.concat(p.as_str());
                r.concat("\". Valid: none, cloudflare, tailscale, ngrok, custom")
            },
            TunnelError::MissingSection(p) => {
                let r = String::from_str("tunnel.provider = \"");
                let r = r.concat(p.as_str());
                let r = r.concat("\" but [tunnel.");
                let r = r.concat(p.as_str());
                r.concat("] section is missing")
            },
            TunnelError::InvalidShellSyntax(c) => {
                let r = String::from_str("Invalid shell syntax in start_command: ");
                r.concat(c.as_str())
            },
            TunnelError::EmptyCommand => String::from_str("Custom tunnel start_command is empty"),
        }
    }
}

/// What [`create_tunnel`] makes of a configuration.
pub open spec fn tunnel_outcome(c: TunnelConfig) -> Result<Option<TunnelView>, TunnelErrorView> {
    let p = c.provider@;
    if p == "none"@ || p == ""@ {
        Ok(None)
    } else if p == "cloudflare"@ {
        match c.cloudflare {
            Some(cf) => Ok(Some(TunnelView::Cloudflare { token: cf.token@ })),
            None => Err(TunnelErrorView::MissingSection(p)),
        }
    } else if p == "tailscale"@ {
        match c.tailscale {
            Some(ts) => Ok(
                Some(TunnelView::Tailscale { funnel: ts.funnel, hostname: opt_string_view(ts.hostname) }),
            ),
            None => Ok(Some(TunnelView::Tailscale { funnel: false, hostname: None })),
        }
    } else if p == "ngrok"@ {
        match c.ngrok {
            Some(ng) => Ok(
                Some(TunnelView::Ngrok { auth_token: ng.auth_token@, domain: opt_string_view(ng.domain) }),
            ),
            None => Err(TunnelErrorView::MissingSection(p)),
        }
    } else if p == "custom"@ {
        match c.custom {
            Some(cu) => Ok(
                Some(
                    TunnelView::Custom {
                        start_command: cu.start_command@,
                        health_url: opt_string_view(cu.health_url),
                        url_pattern: opt_string_view(cu.url_pattern),
                    },
                ),
            ),
            None => Err(TunnelErrorView::MissingSection(p)),
        }
    } else {
        Err(TunnelErrorView::UnknownProvider(p))
    }
}

/// The view of a factory result.
pub open spec fn tunnel_result_view(r: Result<Option<ConfiguredTunnel>, TunnelError>) -> Result<
    Option<TunnelView>,
    TunnelErrorView,
> {
    match r {
        Ok(Some(t)) => Ok(Some(t@)),
        Ok(None) => Ok(None),
        Err(e) => Err(e@),
    }
}

fn is_named(s: &String, name: &str) -> (r: bool)
    ensures
        r == (s@ == name@),
{
    *s == String::from_str(name)
}

fn copy_opt(o: &Option<String>) -> (r: Option<String>)
    ensures
        opt_string_view(r) == opt_string_view(*o),
{
    match o {
        Some(s) => Some(s.clone()),
        None => None,
    }
}

/// Select the tunnel that `config` names. Provider `none` or an empty name
/// select no tunnel.
pub fn create_tunnel(config: &TunnelConfig) -> (r: Result<Option<ConfiguredTunnel>, TunnelError>)
    ensures
        tunnel_result_view(r) == tunnel_outcome(*config),
{
    let p = &config.provider;
    if is_named(p, "none") || is_named(p, "") {
        Ok(None)
    } else if is_named(p, "cloudflare") {
        match &config.cloudflare {
            Some(cf) => Ok(Some(ConfiguredTunnel::Cloudflare { token: cf.token.clone() })),
            None => Err(TunnelError::MissingSection(p.clone())),
        }
    } else if is_named(p, "tailscale") {
        match &config.tailscale {
            Some(ts) => Ok(
                Some(ConfiguredTunnel::Tailscale { funnel: ts.funnel, hostname: copy_opt(&ts.hostname) }),
            ),
            None => Ok(Some(ConfiguredTunnel::Tailscale { funnel: false, hostname: None })),
        }
    } else if is_named(p, "ngrok") {
        match &config.ngrok {
            Some(ng) => Ok(
                Some(
                    ConfiguredTunnel::Ngrok {
                        auth_token: ng.auth_token.clone(),
                        domain: copy_opt(&ng.domain),
                    },
                ),
            ),
            None => Err(TunnelError::MissingSection(p.clone())),
        }
    } else if is_named(p, "custom") {
        match &config.custom {
            Some(cu) => Ok(
                Some(
                    ConfiguredTunnel::Custom(
                        CustomTunnel::new(
                            cu.start_command.clone(),
                            copy_opt(&cu.health_url),
                            copy_opt(&cu.url_pattern),
                        ),
                    ),
                ),
            ),
            None => Err(TunnelError::MissingSection(p.clone())),
        }
    } else {
        Err(TunnelError::UnknownProvider(p.clone()))
    }
}

/// `s` with each occurrence of `from`, found left to right without overlap,
/// replaced by `to`.
pub open spec fn replace_all(s: Seq<char>, from: Seq<char>, to: Seq<char>) -> Seq<char>
    decreases s.len(),
{
    if from.len() == 0 || s.len() < from.len() {
        s
    } else if s.subrange(0, from.len() as int) == from {
        to + replace_all(s.subrange(from.len() as int, s.len() as int), from, to)
    } else {
        seq![s[0]] + replace_all(s.subrange(1, s.len() as int), from, to)
    }
}

/// Relies on `str::replace` with a non-empty `&str` pattern: every match,
/// taken left to right without overlap, replaced.
#[verifier::external_body]
fn replace_text(s: &str, from: &str, to: &str) -> (r: String)
    requires
        from@.len() > 0,
    ensures
        r@ == replace_all(s@, from@, to@),
{
    s.replace(from, to)
}

/// The decimal digits of `n`, without leading zeros.
pub open spec fn decimal(n: nat) -> Seq<char>
    decreases n,
{
    if n < 10 {
        seq!["0123456789"@[n as int]]
    } else {
        decimal(n / 10) + seq!["0123456789"@[(n % 10) as int]]
    }
}

/// Relies on `u16`'s `Display` (through `to_string`): its decimal digits.
#[verifier::external_body]
fn decimal_text(n: u16) -> (r: String)
    ensures
        r@ == decimal(n as nat),
{
    n.to_string()
}

/// The words into which a POSIX shell would split `s`, or none where `s`
/// is not valid shell syntax (an unterminated quote, a trailing escape).
pub uninterp spec fn shell_words(s: Seq<char>) -> Option<Seq<Seq<char>>>;

pub open spec fn words_view(w: Option<Vec<String>>) -> Option<Seq<Seq<char>>> {
    match w {
        Some(v) => Some(v@.map_values(|x: String| x@)),
        None => None,
    }
}

/// Relies on `shlex::split`: the shell words of `s`, none on a syntax error.
#[verifier::external_body]
fn split_shell_words(s: &str) -> (r: Option<Vec<String>>)
    ensures
        words_view(r) == shell_words(s@),
{
    shlex::split(s)
}

/// The start command with `{port}` and then `{host}` filled in.
pub open spec fn filled_command(start: Seq<char>, host: Seq<char>, port: u16) -> Seq<char> {
    replace_all(replace_all(start, "{port}"@, decimal(port as nat)), "{host}"@, host)
}

/// What a command line comes to, given the words it split into.
pub open spec fn command_outcome(cmd: Seq<char>, words: Option<Seq<Seq<char>>>) -> Result<Seq<Seq<char>>, TunnelErrorView> {
    match words {
        None => Err(TunnelErrorView::InvalidShellSyntax(cmd)),
        Some(ws) => if ws.len() == 0 {
            Err(TunnelErrorView::EmptyCommand)
        } else {
            Ok(ws)
        },
    }
}

pub open spec fn command_result_view(r: Result<Vec<String>, TunnelError>) -> Result<Seq<Seq<char>>, TunnelErrorView> {
    match r {
        Ok(v) => Ok(v@.map_values(|x: String| x@)),
        Err(e) => Err(e@),
    }
}

/// Judge the words that the command line `cmd` split into: a syntax error
/// and an empty command are refused, anything else is the program followed
/// by its arguments.
pub fn check_command_words(cmd: &str, words: Option<Vec<String>>) -> (r: Result<Vec<String>, TunnelError>)
    ensures
        command_result_view(r) == command_outcome(cmd@, words_view(words)),
{
    match words {
        None => Err(TunnelError::InvalidShellSyntax(String::from_str(cmd))),
        Some(ws) => {
            if ws.len() == 0 {
                Err(TunnelError::EmptyCommand)
            } else {
                Ok(ws)
            }
        },
    }
}

/// The address of the local gateway, `http://<host>:<port>`.
pub fn local_url(host: &str, port: u16) -> (r: String)
    ensures
        r@ == "http://"@ + host@ + ":"@ + decimal(port as nat),
{
    let r = String::from_str("http://");
    let r = r.concat(host);
    let r = r.concat(":");
    let digits = decimal_text(port);
    r.concat(digits.as_str())
}

impl CustomTunnel {
    /// The program and arguments to run for a tunnel to `host`:`port`: the
    /// start command with its placeholders filled, split into shell words.
    pub fn command_words(&self, host: &str, port: u16) -> (r: Result<Vec<String>, TunnelError>)
        ensures
            command_result_view(r) == command_outcome(
                filled_command(self.start_command@, host@, port),
                shell_words(filled_command(self.start_command@, host@, port)),
            ),
    {
        proof {
            reveal_strlit("{port}");
            reveal_strlit("{host}");
        }
        let port_text = decimal_text(port);
        let with_port = replace_text(self.start_command.as_str(), "{port}", port_text.as_str());
        let cmd = replace_text(with_port.as_str(), "{host}", host);
        let words = split_shell_words(cmd.as_str());
        check_command_words(cmd.as_str(), words)
    }
}

/// `needle` occurs in `hay` at position `i`.
pub open spec fn occurs_at(hay: Seq<char>, needle: Seq<char>, i: int) -> bool {
    0 <= i && i + needle.len() <= hay.len() && hay.subrange(i, i + needle.len()) == needle
}

/// The first position at or after `i` where `needle` occurs in `hay`.
pub open spec fn find_from(hay: Seq<char>, needle: Seq<char>, i: nat) -> Option<nat>
    decreases hay.len() + 1 - i,
{
    if i + needle.len() > hay.len() {
        None
    } else if occurs_at(hay, needle, i as int) {
        Some(i)
    } else {
        find_from(hay, needle, i + 1)
    }
}

/// Unicode's White_Space property.
pub open spec fn is_unicode_space(c: char) -> bool {
    let u = c as u32;
    (0x9 <= u <= 0xd) || u == 0x20 || u == 0x85 || u == 0xa0 || u == 0x1680 || (0x2000 <= u
        <= 0x200a) || u == 0x2028 || u == 0x2029 || u == 0x202f || u == 0x205f || u == 0x3000
}

/// Relies on `char::is_whitespace`: whether `c` has Unicode's White_Space
/// property.
#[verifier::external_body]
fn is_space(c: char) -> (r: bool)
    ensures
        r == is_unicode_space(c),
{
    c.is_whitespace()
}

/// The first position at or after `i` that holds whitespace, or the end.
pub open spec fn token_end(s: Seq<char>, i: nat) -> nat
    decreases s.len() + 1 - i,
{
    if i >= s.len() || is_unicode_space(s[i as int]) {
        i
    } else {
        token_end(s, i + 1)
    }
}

/// The URL that an output line announces: from the first `https://`, or
/// failing that the first `http://`, up to the next whitespace.
pub open spec fn announced(line: Seq<char>) -> Option<Seq<char>> {
    match find_from(line, "https://"@, 0) {
        Some(i) => Some(line.subrange(i as int, token_end(line, i) as int)),
        None => match find_from(line, "http://"@, 0) {
            Some(i) => Some(line.subrange(i as int, token_end(line, i) as int)),
            None => None,
        },
    }
}

/// A position found for `needle` leaves room for it.
proof fn lemma_find_from_fits(hay: Seq<char>, needle: Seq<char>, i: nat)
    ensures
        match find_from(hay, needle, i) {
            Some(k) => i <= k && k + needle.len() <= hay.len(),
            None => true,
        },
    decreases hay.len() + 1 - i,
{
    if i + needle.len() <= hay.len() && !occurs_at(hay, needle, i as int) {
        lemma_find_from_fits(hay, needle, i + 1);
    }
}

/// The first position where `needle` occurs in `hay`, counted in characters.
fn find_text(hay: &str, needle: &str) -> (r: Option<usize>)
    ensures
        match r {
            Some(i) => find_from(hay@, needle@, 0) == Some(i as nat),
            None => find_from(hay@, needle@, 0) is None,
        },
{
    let n = hay.unicode_len();
    let m = needle.unicode_len();
    if m == 0 {
        assert(hay@.subrange(0, 0) =~= needle@);
        return Some(0);
    }
    let target = String::from_str(needle);
    let mut i: usize = 0;
    while i < n && n - i >= m
        invariant
            n == hay@.len(),
            m == needle@.len(),
            target@ == needle@,
            m > 0,
            i <= n,
            find_from(hay@, needle@, 0) == find_from(hay@, needle@, i as nat),
        decreases n + 1 - i,
    {
        let window = String::from_str(hay.substring_char(i, i + m));
        if window == target {
            return Some(i);
        }
        i = i + 1;
    }
    assert(i + needle@.len() > hay@.len());
    assert(find_from(hay@, needle@, i as nat) is None);
    None
}

/// The first position at or after `start` that holds whitespace, or the end.
fn find_token_end(s: &str, start: usize) -> (r: usize)
    requires
        start <= s@.len(),
    ensures
        r == token_end(s@, start as nat),
        start <= r <= s@.len(),
{
    let n = s.unicode_len();
    let mut j = start;
    while j < n && !is_space(s.get_char(j))
        invariant
            n == s@.len(),
            start <= j <= n,
            token_end(s@, start as nat) == token_end(s@, j as nat),
        decreases n - j,
    {
        j = j + 1;
    }
    j
}

/// The public URL that an output line of the tunnel command announces, if
/// it announces one.
pub fn announced_url(line: &str) -> (r: Option<String>)
    ensures
        match r {
            Some(u) => announced(line@) == Some(u@),
            None => announced(line@) is None,
        },
{
    proof {
        lemma_find_from_fits(line@, "https://"@, 0);
        lemma_find_from_fits(line@, "http://"@, 0);
    }
    let start = match find_text(line, "https://") {
        Some(i) => Some(i),
        None => find_text(line, "http://"),
    };
    match start {
        Some(i) => {
            let end = find_token_end(line, i);
            Some(String::from_str(line.substring_char(i, end)))
        },
        None => None,
    }
}

} // verus!
