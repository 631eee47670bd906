//! Hytale server management: configuration, the script commands the bot
//! runs, how script output is followed, and the replies it produces.

use crate::text::{
    self, ascii_lower, contains_seq, decimal, find_seq, is_ws, push_decimal, push_str, replace_seq,
};
use crate::settings::HytalePasswordSettings;
use vstd::prelude::*;

verus! {

broadcast use vstd::string::group_string_axioms;

// ---------------------------------------------------------------- output texts

/// At most `max` characters of `s`; a cut is marked on a line of its own.
pub open spec fn truncated(s: Seq<char>, max: nat) -> Seq<char> {
    if s.len() <= max {
        s
    } else {
        s.take(max as int) + "\n... output trimmed ..."@
    }
}

pub fn truncate_text(value: &str, max_chars: usize) -> (s: String)
    ensures
        s@ == truncated(value@, max_chars as nat),
{
    let v = text::chars_of(value);
    if v.len() <= max_chars {
        return text::owned(value);
    }
    let head = text::copy_range(v.as_slice(), 0, max_chars);
    let mut s = text::string_from_chars(head.as_slice());
    assert(head@ == value@.take(max_chars as int));
    push_str(&mut s, "\n... output trimmed ...");
    s
}

/// `truncated`, on one line.
pub open spec fn truncated_inline(s: Seq<char>, max: nat) -> Seq<char> {
    replace_seq(truncated(s, max), "\n"@, " "@)
}

pub fn truncate_inline(value: &str, max_chars: usize) -> (s: String)
    ensures
        s@ == truncated_inline(value@, max_chars as nat),
{
    let t = truncate_text(value, max_chars);
    proof {
        reveal_strlit("\n");
    }
    text::replace(t.as_str(), "\n", " ")
}

/// A Discord code block; triple backticks inside become triple quotes.
pub open spec fn code_block_text(s: Seq<char>) -> Seq<char> {
    "```text\n"@ + replace_seq(s, "```"@, "'''"@) + "\n```"@
}

pub fn code_block(value: &str) -> (s: String)
    ensures
        s@ == code_block_text(value@),
{
    let mut s = text::owned("```text\n");
    proof {
        reveal_strlit("```");
    }
    let inner = text::replace(value, "```", "'''");
    push_str(&mut s, inner.as_str());
    push_str(&mut s, "\n```");
    s
}

/// Lines joined by newlines.
pub open spec fn lines_joined(lines: Seq<Seq<char>>) -> Seq<char>
    decreases lines.len(),
{
    if lines.len() == 0 {
        Seq::empty()
    } else if lines.len() == 1 {
        lines[0]
    } else {
        lines_joined(lines.drop_last()) + "\n"@ + lines.last()
    }
}

pub open spec fn views(lines: Seq<String>) -> Seq<Seq<char>> {
    lines.map_values(|l: String| l@)
}

pub open spec fn joined_output_text(lines: Seq<String>) -> Seq<char> {
    if lines.len() == 0 {
        "(no output)"@
    } else {
        lines_joined(views(lines))
    }
}

/// The script's output lines, or a note that it printed nothing.
pub fn joined_output(lines: &[String]) -> (s: String)
    ensures
        s@ == joined_output_text(lines@),
{
    if lines.len() == 0 {
        return text::owned("(no output)");
    }
    let mut s = String::new();
    let mut i: usize = 0;
    while i < lines.len()
        invariant
            i <= lines@.len(),
            s@ == lines_joined(views(lines@.take(i as int))),
        decreases lines@.len() - i,
    {
        assert(views(lines@.take(i + 1)).drop_last() =~= views(lines@.take(i as int)));
        if i > 0 {
            push_str(&mut s, "\n");
        }
        push_str(&mut s, lines[i].as_str());
        assert(views(lines@.take(i + 1)).last() == lines@[i as int]@);
        i += 1;
    }
    assert(lines@.take(lines@.len() as int) =~= lines@);
    s
}

pub open spec fn sudo_hint() -> Seq<char> {
    "Hint: the bot host user cannot run the Hytale management sudo commands without a password. Configure passwordless sudo for that user, then verify it on the host with `sudo -n systemctl status hytale-server.service --no-pager` or the configured service name."@
}

/// Output that shows sudo asking for a password, in any case.
pub open spec fn needs_sudo_hint(output: Seq<char>) -> bool {
    let l = ascii_lower(output);
    contains_seq(l, "sudo: a password is required"@) || contains_seq(l, "sudo: no tty present"@)
        || contains_seq(l, "sudo: a terminal is required"@)
}

/// A hint for failures the bot recognises: sudo refusing to run without a
/// password.
pub fn failure_hint(output: &str) -> (r: Option<&'static str>)
    ensures
        needs_sudo_hint(output@) ==> (r matches Some(h) && h@ == sudo_hint()),
        !needs_sudo_hint(output@) ==> r is None,
{
    let lower = text::ascii_lowercase(output);
    let l = lower.as_slice();
    if text::contains_chars(l, text::chars_of("sudo: a password is required").as_slice())
        || text::contains_chars(l, text::chars_of("sudo: no tty present").as_slice())
        || text::contains_chars(l, text::chars_of("sudo: a terminal is required").as_slice()) {
        return Some(
            "Hint: the bot host user cannot run the Hytale management sudo commands without a password. Configure passwordless sudo for that user, then verify it on the host with `sudo -n systemctl status hytale-server.service --no-pager` or the configured service name.",
        );
    }
    None
}

// ---------------------------------------------------------------- links

/// Where a link starts: the first `https://`, else the first `http://`.
pub open spec fn url_start(s: Seq<char>) -> Option<int> {
    match find_seq(s, "https://"@) {
        Some(i) => Some(i),
        None => find_seq(s, "http://"@),
    }
}

/// Characters that end a link: white space and `<`, `>`, `)`.
pub open spec fn ends_url(c: char) -> bool {
    is_ws(c) || c == '<' || c == '>' || c == ')'
}

/// `s` up to its first link-ending character.
pub open spec fn until_url_end(s: Seq<char>) -> Seq<char>
    decreases s.len(),
{
    if s.len() == 0 || ends_url(s[0]) {
        Seq::empty()
    } else {
        seq![s[0]] + until_url_end(s.drop_first())
    }
}

pub open spec fn is_trailing_punct(c: char) -> bool {
    c == '.' || c == ',' || c == ';' || c == ':'
}

/// `s` without trailing `.`, `,`, `;` and `:`.
pub open spec fn trim_trailing_punct(s: Seq<char>) -> Seq<char>
    decreases s.len(),
{
    if s.len() > 0 && is_trailing_punct(s.last()) {
        trim_trailing_punct(s.drop_last())
    } else {
        s
    }
}

/// The first link in a line, without the punctuation that follows it.
pub open spec fn first_url(s: Seq<char>) -> Option<Seq<char>> {
    match url_start(s) {
        None => None,
        Some(i) => {
            let u = trim_trailing_punct(until_url_end(s.skip(i)));
            if u.len() == 0 {
                None
            } else {
                Some(u)
            }
        },
    }
}

fn ends_url_char(c: char) -> (b: bool)
    ensures
        b == ends_url(c),
{
    text::is_whitespace(c) || c == '<' || c == '>' || c == ')'
}

proof fn lemma_until_url_end(s: Seq<char>, k: int)
    requires
        0 <= k <= s.len(),
        forall|j: int| 0 <= j < k ==> !ends_url(#[trigger] s[j]),
        k == s.len() || ends_url(s[k]),
    ensures
        until_url_end(s) == s.take(k),
    decreases s.len(),
{
    if s.len() > 0 && !ends_url(s[0]) {
        assert(k > 0);
        lemma_until_url_end(s.drop_first(), k - 1);
        assert(seq![s[0]] + s.drop_first().take(k - 1) =~= s.take(k));
    } else {
        assert(k == 0);
        assert(s.take(0) =~= Seq::<char>::empty());
    }
}

proof fn lemma_trim_trailing(s: Seq<char>, e: int)
    requires
        0 <= e <= s.len(),
        forall|j: int| e <= j < s.len() ==> is_trailing_punct(#[trigger] s[j]),
        e == 0 || !is_trailing_punct(s[e - 1]),
    ensures
        trim_trailing_punct(s) == s.take(e),
    decreases s.len(),
{
    if s.len() > 0 && is_trailing_punct(s.last()) {
        assert(e < s.len());
        lemma_trim_trailing(s.drop_last(), e);
        assert(s.drop_last().take(e) =~= s.take(e));
    } else {
        assert(e == s.len());
        assert(s.take(e) =~= s);
    }
}

/// The first `http://` or `https://` link in a line.
pub fn extract_first_url(line: &str) -> (r: Option<String>)
    ensures
        r matches Some(u) ==> first_url(line@) == Some(u@),
        r is None ==> first_url(line@) is None,
{
    let v = text::chars_of(line);
    proof {
        reveal_strlit("https://");
        reveal_strlit("http://");
    }
    let start = match text::find_chars(v.as_slice(), text::chars_of("https://").as_slice(), 0) {
        Some(i) => i,
        None => match text::find_chars(v.as_slice(), text::chars_of("http://").as_slice(), 0) {
            Some(i) => i,
            None => {
                return None;
            },
        },
    };
    let mut end = start;
    while end < v.len() && !ends_url_char(v[end])
        invariant
            start <= end <= v@.len(),
            forall|j: int| start <= j < end ==> !ends_url(#[trigger] v@[j]),
        decreases v@.len() - end,
    {
        end += 1;
    }
    let ghost rest = v@.skip(start as int);
    proof {
        assert forall|j: int| 0 <= j < end - start implies !ends_url(#[trigger] rest[j]) by {
            assert(rest[j] == v@[start + j]);
        }
        lemma_until_url_end(rest, end - start);
        assert(rest.take(end - start) =~= v@.subrange(start as int, end as int));
    }
    let mut cut = end;
    while cut > start && (v[cut - 1] == '.' || v[cut - 1] == ',' || v[cut - 1] == ';' || v[cut - 1]
        == ':')
        invariant
            start <= cut <= end,
            end <= v@.len(),
            forall|j: int| cut <= j < end ==> is_trailing_punct(#[trigger] v@[j]),
        decreases cut,
    {
        cut -= 1;
    }
    let ghost u = v@.subrange(start as int, end as int);
    proof {
        assert forall|j: int| cut - start <= j < u.len() implies is_trailing_punct(#[trigger] u[j]) by {
            assert(u[j] == v@[start + j]);
        }
        lemma_trim_trailing(u, cut - start);
        assert(u.take(cut - start) =~= v@.subrange(start as int, cut as int));
    }
    if cut == start {
        return None;
    }
    let chars = text::copy_range(v.as_slice(), start, cut);
    Some(text::string_from_chars(chars.as_slice()))
}

// ---------------------------------------------------------------- configuration

pub const DEFAULT_SERVICE_NAME: &'static str = "hytale-server.service";
pub const DEFAULT_COMMAND_TIMEOUT_SECONDS: u64 = 15;
pub const DEFAULT_DOWNLOAD_TIMEOUT_SECONDS: u64 = 1800;
pub const DEFAULT_HYTALE_PORT: u16 = 5520;
pub const MAX_RESPONSE_CHARS: usize = 1750;

/// The raw values of the Hytale environment variables, as read.
#[derive(Debug, Clone, PartialEq, Eq)]
pub struct HytaleEnv {
    pub manager_role_id: Option<String>,
    pub service_name: Option<String>,
    pub manage_script: Option<String>,
    pub hytale_dir: Option<String>,
    pub command_timeout_seconds: Option<String>,
    pub download_timeout_seconds: Option<String>,
    pub home: Option<String>,
}

/// How the bot manages the Hytale server.
#[derive(Debug, Clone, PartialEq, Eq)]
pub struct HytaleConfig {
    pub manager_role_id: u64,
    pub service_name: String,
    pub manage_script: String,
    pub hytale_dir: String,
    pub command_timeout_secs: u64,
    pub download_timeout_secs: u64,
}

/// Why the Hytale controls are not available.
#[derive(Debug, Clone, PartialEq, Eq)]
pub enum ConfigError {
    MissingRole,
    InvalidRole(String),
}

pub open spec fn setup_message_text(e: ConfigError) -> Seq<char> {
    match e {
        ConfigError::MissingRole => "Hytale controls are not set up yet. Ask the bot owner to set `HYTALE_MANAGER_ROLE_ID` to the Discord role allowed to manage the server."@,
        ConfigError::InvalidRole(v) => "Hytale controls are paused because `HYTALE_MANAGER_ROLE_ID` is not a valid Discord role ID: `"@
            + truncated_inline(v@, 80) + "`."@,
    }
}

impl ConfigError {
    /// What a manager is told when the controls cannot run.
    pub fn setup_message(&self) -> (m: String)
        ensures
            m@ == setup_message_text(*self),
    {
        match self {
            ConfigError::MissingRole => text::owned(
                "Hytale controls are not set up yet. Ask the bot owner to set `HYTALE_MANAGER_ROLE_ID` to the Discord role allowed to manage the server.",
            ),
            ConfigError::InvalidRole(value) => {
                let mut m = text::owned(
                    "Hytale controls are paused because `HYTALE_MANAGER_ROLE_ID` is not a valid Discord role ID: `",
                );
                let t = truncate_inline(value.as_str(), 80);
                push_str(&mut m, t.as_str());
                push_str(&mut m, "`.");
                m
            },
        }
    }
}

/// A variable's value, trimmed, when it is set and not blank.
pub open spec fn setting(v: Option<String>) -> Option<Seq<char>> {
    match v {
        Some(s) => if text::trim_seq(s@).len() > 0 {
            Some(text::trim_seq(s@))
        } else {
            None
        },
        None => None,
    }
}

fn read_setting(v: &Option<String>) -> (r: Option<String>)
    ensures
        match setting(*v) {
            Some(t) => r matches Some(s) && s@ == t,
            None => r is None,
        },
{
    match v {
        Some(s) => {
            let t = text::trim(s.as_str());
            if text::chars_of(t.as_str()).len() > 0 {
                Some(t)
            } else {
                None
            }
        },
        None => None,
    }
}

/// A number of seconds: the variable when it parses, else the default.
pub open spec fn seconds_setting(v: Option<String>, default: u64) -> u64 {
    match v {
        Some(s) => match text::parse_u64_seq(text::trim_seq(s@)) {
            Some(n) => n,
            None => default,
        },
        None => default,
    }
}

fn read_seconds(v: &Option<String>, default: u64) -> (r: u64)
    ensures
        r == seconds_setting(*v, default),
{
    match v {
        Some(s) => {
            let t = text::trim(s.as_str());
            match text::parse_u64(text::chars_of(t.as_str()).as_slice()) {
                Some(n) => n,
                None => default,
            }
        },
        None => default,
    }
}

/// `PathBuf::join` of a relative path on Unix: a separator goes between
/// unless the base is empty or already ends in one.
pub open spec fn path_join(base: Seq<char>, rel: Seq<char>) -> Seq<char> {
    if base.len() == 0 || base.last() == '/' {
        base + rel
    } else {
        base + "/"@ + rel
    }
}

pub fn join_path(base: &str, rel: &str) -> (r: String)
    ensures
        r@ == path_join(base@, rel@),
{
    let v = text::chars_of(base);
    let mut r = text::owned(base);
    if v.len() > 0 && v[v.len() - 1] != '/' {
        push_str(&mut r, "/");
    }
    push_str(&mut r, rel);
    r
}

/// `rel` under the home directory, or the relative path `fallback` when
/// there is no home directory.
pub open spec fn home_path(home: Option<String>, rel: Seq<char>, fallback: Seq<char>) -> Seq<char> {
    match home {
        Some(h) => path_join(h@, rel),
        None => fallback,
    }
}

fn path_in_home(home: &Option<String>, rel: &str, fallback: &str) -> (r: String)
    ensures
        r@ == home_path(*home, rel@, fallback@),
{
    match home {
        Some(h) => join_path(h.as_str(), rel),
        None => text::owned(fallback),
    }
}

pub open spec fn at_least_one(n: u64) -> u64 {
    if n < 1 {
        1
    } else {
        n
    }
}

/// The configuration that the environment describes.
pub open spec fn config_outcome(env: HytaleEnv, r: Result<HytaleConfig, ConfigError>) -> bool {
    match env.manager_role_id {
        None => r == Err::<HytaleConfig, ConfigError>(ConfigError::MissingRole),
        Some(role) => match text::parse_u64_seq(text::trim_seq(role@)) {
            None => r == Err::<HytaleConfig, ConfigError>(ConfigError::InvalidRole(role)),
            Some(id) => r matches Ok(c) && {
                &&& c.manager_role_id == id
                &&& c.service_name@ == match setting(env.service_name) {
                    Some(t) => t,
                    None => "hytale-server.service"@,
                }
                &&& c.manage_script@ == match setting(env.manage_script) {
                    Some(t) => t,
                    None => home_path(env.home, "hytale/hytale-manage.sh"@, "hytale-manage.sh"@),
                }
                &&& c.hytale_dir@ == match setting(env.hytale_dir) {
                    Some(t) => t,
                    None => home_path(env.home, "hytale"@, "hytale"@),
                }
                &&& c.command_timeout_secs == at_least_one(
                    seconds_setting(env.command_timeout_seconds, 15),
                )
                &&& c.download_timeout_secs == at_least_one(
                    seconds_setting(env.download_timeout_seconds, 1800),
                )
            },
        },
    }
}

impl HytaleConfig {
    /// The configuration from the environment's values: the manager role is
    /// required and must be a number; the rest has defaults, and timeouts
    /// are at least one second.
    pub fn from_env(env: &HytaleEnv) -> (r: Result<HytaleConfig, ConfigError>)
        ensures
            config_outcome(*env, r),
    {
        let manager_role_id = match &env.manager_role_id {
            None => {
                return Err(ConfigError::MissingRole);
            },
            Some(value) => {
                let t = text::trim(value.as_str());
                match text::parse_u64(text::chars_of(t.as_str()).as_slice()) {
                    Some(id) => id,
                    None => {
                        return Err(ConfigError::InvalidRole(value.clone()));
                    },
                }
            },
        };
        let service_name = match read_setting(&env.service_name) {
            Some(s) => s,
            None => text::owned(DEFAULT_SERVICE_NAME),
        };
        let manage_script = match read_setting(&env.manage_script) {
            Some(s) => s,
            None => path_in_home(&env.home, "hytale/hytale-manage.sh", "hytale-manage.sh"),
        };
        let hytale_dir = match read_setting(&env.hytale_dir) {
            Some(s) => s,
            None => path_in_home(&env.home, "hytale", "hytale"),
        };
        let command = read_seconds(&env.command_timeout_seconds, DEFAULT_COMMAND_TIMEOUT_SECONDS);
        let download = read_seconds(
            &env.download_timeout_seconds,
            DEFAULT_DOWNLOAD_TIMEOUT_SECONDS,
        );
        Ok(
            HytaleConfig {
                manager_role_id,
                service_name,
                manage_script,
                hytale_dir,
                command_timeout_secs: if command < 1 {
                    1
                } else {
                    command
                },
                download_timeout_secs: if download < 1 {
                    1
                } else {
                    download
                },
            },
        )
    }
}

/// Where the Hytale server keeps its configuration.
pub fn hytale_config_path(hytale_dir: &str) -> (r: String)
    ensures
        r@ == path_join(hytale_dir@, "Server/config.json"@),
{
    join_path(hytale_dir, "Server/config.json")
}

/// Whether a member holds the manager role.
pub fn member_has_role(roles: &[u64], role_id: u64) -> (b: bool)
    ensures
        b == roles@.contains(role_id),
{
    let mut i: usize = 0;
    while i < roles.len()
        invariant
            i <= roles@.len(),
            forall|j: int| 0 <= j < i ==> roles@[j] != role_id,
        decreases roles@.len() - i,
    {
        if roles[i] == role_id {
            return true;
        }
        i += 1;
    }
    false
}

/// Why a command may not use the Hytale controls, if it may not: it must
/// come from a server, the configuration must be valid, and the member must
/// hold the manager role.
pub open spec fn access_refusal_text(
    in_guild: bool,
    config: Result<HytaleConfig, ConfigError>,
    member_roles: Option<Seq<u64>>,
) -> Option<Seq<char>> {
    if !in_guild {
        Some("Hytale server controls only work inside the Discord server."@)
    } else {
        match config {
            Err(e) => Some(setup_message_text(e)),
            Ok(c) => match member_roles {
                None => Some(
                    "I could not verify your server roles, so I cannot run Hytale controls."@,
                ),
                Some(roles) => if roles.contains(c.manager_role_id) {
                    None
                } else {
                    Some("You do not have Hytale server manager permission."@)
                },
            },
        }
    }
}

pub fn access_refusal(
    in_guild: bool,
    config: &Result<HytaleConfig, ConfigError>,
    member_roles: Option<&[u64]>,
) -> (r: Option<String>)
    ensures
        match access_refusal_text(
            in_guild,
            *config,
            match member_roles {
                Some(v) => Some(v@),
                None => None,
            },
        ) {
            Some(t) => r matches Some(m) && m@ == t,
            None => r is None,
        },
{
    if !in_guild {
        return Some(text::owned("Hytale server controls only work inside the Discord server."));
    }
    match config {
        Err(e) => Some(e.setup_message()),
        Ok(c) => match member_roles {
            None => Some(
                text::owned("I could not verify your server roles, so I cannot run Hytale controls."),
            ),
            Some(roles) => if member_has_role(roles, c.manager_role_id) {
                None
            } else {
                Some(text::owned("You do not have Hytale server manager permission."))
            },
        },
    }
}

// ---------------------------------------------------------------- script actions

/// The fixed actions the management script is run with.
#[derive(Debug, Clone, Copy, PartialEq, Eq, Structural)]
pub enum HytaleScriptAction {
    Status,
    Logs,
    Start,
    Stop,
    Restart,
    CheckUpdate,
    Update,
}

pub open spec fn action_arg(action: HytaleScriptAction) -> Seq<char> {
    match action {
        HytaleScriptAction::Status => "status"@,
        HytaleScriptAction::Logs => "logs"@,
        HytaleScriptAction::Start => "start"@,
        HytaleScriptAction::Stop => "stop"@,
        HytaleScriptAction::Restart => "restart"@,
        HytaleScriptAction::CheckUpdate => "check-update"@,
        HytaleScriptAction::Update => "update"@,
    }
}

/// Update checks and updates download, and get the longer timeout.
pub open spec fn downloads(action: HytaleScriptAction) -> bool {
    action == HytaleScriptAction::CheckUpdate || action == HytaleScriptAction::Update
}

pub open spec fn human_output_action(action: HytaleScriptAction) -> bool {
    action == HytaleScriptAction::Status || action == HytaleScriptAction::Logs || action
        == HytaleScriptAction::CheckUpdate
}

impl HytaleScriptAction {
    /// The script argument.
    pub fn arg(self) -> (a: &'static str)
        ensures
            a@ == action_arg(self),
    {
        match self {
            HytaleScriptAction::Status => "status",
            HytaleScriptAction::Logs => "logs",
            HytaleScriptAction::Start => "start",
            HytaleScriptAction::Stop => "stop",
            HytaleScriptAction::Restart => "restart",
            HytaleScriptAction::CheckUpdate => "check-update",
            HytaleScriptAction::Update => "update",
        }
    }

    pub fn is_download(self) -> (b: bool)
        ensures
            b == downloads(self),
    {
        match self {
            HytaleScriptAction::CheckUpdate | HytaleScriptAction::Update => true,
            _ => false,
        }
    }

    /// How long the script may run, in seconds.
    pub fn timeout_secs(self, config: &HytaleConfig) -> (t: u64)
        ensures
            t == if downloads(self) {
                config.download_timeout_secs
            } else {
                config.command_timeout_secs
            },
    {
        if self.is_download() {
            config.download_timeout_secs
        } else {
            config.command_timeout_secs
        }
    }

    /// Status, logs and update checks answer with the script's own output.
    pub fn shows_human_output(self) -> (b: bool)
        ensures
            b == human_output_action(self),
    {
        match self {
            HytaleScriptAction::Status | HytaleScriptAction::Logs
            | HytaleScriptAction::CheckUpdate => true,
            _ => false,
        }
    }
}

/// How the management script is run for one action.
#[derive(Debug, Clone, PartialEq, Eq)]
pub struct CommandSpec {
    pub program: String,
    pub args: Vec<String>,
    pub envs: Vec<(String, String)>,
    pub timeout_secs: u64,
}

impl CommandSpec {
    /// The script, with the action as its only argument, the service name
    /// in `SERVICE_NAME`, and for downloads the download timeout in
    /// `DOWNLOAD_TIMEOUT_SECONDS`.
    pub fn script(config: &HytaleConfig, action: HytaleScriptAction) -> (c: CommandSpec)
        ensures
            c.program@ == config.manage_script@,
            c.args@.len() == 1,
            c.args@[0]@ == action_arg(action),
            c.envs@.len() == if downloads(action) {
                2nat
            } else {
                1nat
            },
            c.envs@[0].0@ == "SERVICE_NAME"@,
            c.envs@[0].1@ == config.service_name@,
            downloads(action) ==> c.envs@[1].0@ == "DOWNLOAD_TIMEOUT_SECONDS"@ && c.envs@[1].1@
                == decimal(config.download_timeout_secs as nat),
            c.timeout_secs == if downloads(action) {
                config.download_timeout_secs
            } else {
                config.command_timeout_secs
            },
    {
        let mut envs: Vec<(String, String)> = Vec::new();
        envs.push((text::owned("SERVICE_NAME"), config.service_name.clone()));
        if action.is_download() {
            envs.push(
                (
                    text::owned("DOWNLOAD_TIMEOUT_SECONDS"),
                    text::decimal_string(config.download_timeout_secs),
                ),
            );
        }
        let mut args: Vec<String> = Vec::new();
        args.push(text::owned(action.arg()));
        CommandSpec {
            program: config.manage_script.clone(),
            args,
            envs,
            timeout_secs: action.timeout_secs(config),
        }
    }
}

// ---------------------------------------------------------------- progress

/// One JSON progress line of the management script.
#[derive(Debug, Clone, PartialEq, Eq)]
pub struct HytaleProgress {
    pub timestamp: String,
    pub source: String,
    pub stage: String,
    pub status: String,
    pub message: String,
}

impl HytaleProgress {
    pub fn duplicate(&self) -> (p: HytaleProgress)
        ensures
            p == *self,
    {
        HytaleProgress {
            timestamp: self.timestamp.clone(),
            source: self.source.clone(),
            stage: self.stage.clone(),
            status: self.status.clone(),
            message: self.message.clone(),
        }
    }
}

/// A progress line, with the updater's own progress when its message
/// carries one.
#[derive(Debug, Clone, PartialEq, Eq)]
pub struct ProgressLine {
    pub progress: HytaleProgress,
    pub nested: Option<HytaleProgress>,
}

impl ProgressLine {
    pub fn duplicate(&self) -> (p: ProgressLine)
        ensures
            p == *self,
    {
        ProgressLine {
            progress: self.progress.duplicate(),
            nested: match &self.nested {
                Some(n) => Some(n.duplicate()),
                None => None,
            },
        }
    }
}

/// The updater's progress that a message forwards, after
/// `updater progress: `.
pub open spec fn nested_payload(message: Seq<char>) -> Option<Seq<char>> {
    if text::has_prefix(message, "updater progress: "@) {
        Some(message.skip(18))
    } else {
        None
    }
}

pub fn nested_progress_payload(message: &str) -> (r: Option<String>)
    ensures
        match nested_payload(message@) {
            Some(t) => r matches Some(p) && p@ == t,
            None => r is None,
        },
{
    proof {
        reveal_strlit("updater progress: ");
    }
    if !text::starts_with(message, "updater progress: ") {
        return None;
    }
    let v = text::chars_of(message);
    let rest = text::copy_range(v.as_slice(), 18, v.len());
    Some(text::string_from_chars(rest.as_slice()))
}

/// What is shown of a progress line: the forwarded updater progress when
/// there is one, else the line itself.
pub open spec fn displayed(line: ProgressLine) -> HytaleProgress {
    match line.nested {
        Some(n) => if nested_payload(line.progress.message@) is Some {
            n
        } else {
            line.progress
        },
        None => line.progress,
    }
}

pub fn display_progress(line: &ProgressLine) -> (p: HytaleProgress)
    ensures
        p == displayed(*line),
{
    match &line.nested {
        Some(n) => if nested_progress_payload(line.progress.message.as_str()).is_some() {
            n.duplicate()
        } else {
            line.progress.duplicate()
        },
        None => line.progress.duplicate(),
    }
}

/// Tells progress lines apart: source, stage, status and message,
/// separated by NUL characters.
pub open spec fn progress_key_text(p: HytaleProgress) -> Seq<char> {
    p.source@ + "\0"@ + p.stage@ + "\0"@ + p.status@ + "\0"@ + p.message@
}

pub fn progress_key(progress: &HytaleProgress) -> (k: String)
    ensures
        k@ == progress_key_text(*progress),
{
    let mut k = progress.source.clone();
    push_str(&mut k, "\0");
    push_str(&mut k, progress.stage.as_str());
    push_str(&mut k, "\0");
    push_str(&mut k, progress.status.as_str());
    push_str(&mut k, "\0");
    push_str(&mut k, progress.message.as_str());
    k
}

pub open spec fn progress_message_text(action: HytaleScriptAction, line: ProgressLine) -> Seq<char> {
    let d = displayed(line);
    "Hytale "@ + action_arg(action) + " "@ + d.status@ + ": "@ + truncated_inline(d.message@, 1500)
}

/// The progress update sent while the script runs.
pub fn format_progress_message(action: HytaleScriptAction, line: &ProgressLine) -> (m: String)
    ensures
        m@ == progress_message_text(action, *line),
{
    let d = display_progress(line);
    let mut m = text::owned("Hytale ");
    push_str(&mut m, action.arg());
    push_str(&mut m, " ");
    push_str(&mut m, d.status.as_str());
    push_str(&mut m, ": ");
    let t = truncate_inline(d.message.as_str(), 1500);
    push_str(&mut m, t.as_str());
    m
}

// ---------------------------------------------------------------- following a script run

/// What the bot keeps while a script runs.
#[derive(Debug, Clone, PartialEq, Eq)]
pub struct ScriptSession {
    pub human_lines: Vec<String>,
    pub latest_progress: Option<ProgressLine>,
    pub latest_progress_key: Option<String>,
    pub latest_auth_url: Option<String>,
}

pub open spec fn opt_view(o: Option<String>) -> Option<Seq<char>> {
    match o {
        Some(s) => Some(s@),
        None => None,
    }
}

pub open spec fn auth_link_text(url: Seq<char>) -> Seq<char> {
    "Hytale update auth link: "@ + url
}

/// What one output line does to the session, and which messages go out.
/// `parsed` is the line read as a progress line, if it is one.
pub open spec fn line_outcome(
    old: ScriptSession,
    new: ScriptSession,
    action: HytaleScriptAction,
    line: Seq<char>,
    parsed: Option<ProgressLine>,
    sent: Seq<Seq<char>>,
) -> bool {
    if text::trim_seq(line).len() == 0 {
        new == old && sent.len() == 0
    } else {
        match parsed {
            Some(p) => {
                let key = progress_key_text(p.progress);
                &&& new.latest_progress == Some(p)
                &&& new.human_lines == old.human_lines
                &&& new.latest_auth_url == old.latest_auth_url
                &&& if opt_view(old.latest_progress_key) == Some(key) {
                    new.latest_progress_key == old.latest_progress_key && sent.len() == 0
                } else {
                    opt_view(new.latest_progress_key) == Some(key) && sent == seq![
                        progress_message_text(action, p),
                    ]
                }
            },
            None => {
                &&& new.latest_progress == old.latest_progress
                &&& new.latest_progress_key == old.latest_progress_key
                &&& views(new.human_lines@) == views(old.human_lines@).push(line)
                &&& match first_url(text::trim_seq(line)) {
                    Some(u) => if downloads(action) && opt_view(old.latest_auth_url) != Some(u) {
                        opt_view(new.latest_auth_url) == Some(u) && sent == seq![auth_link_text(u)]
                    } else {
                        new.latest_auth_url == old.latest_auth_url && sent.len() == 0
                    },
                    None => new.latest_auth_url == old.latest_auth_url && sent.len() == 0,
                }
            },
        }
    }
}

/// What an output line that is not progress does: it is kept in the output;
/// during an update check or an update, a first link in it that differs from
/// the last one announced is sent to the manager as exactly
/// `Hytale update auth link: <link>` and becomes the last one announced;
/// nothing else is sent, and other actions never announce links.
pub proof fn law_download_line_announces_new_auth_link(
    old: ScriptSession,
    new: ScriptSession,
    action: HytaleScriptAction,
    line: Seq<char>,
    sent: Seq<Seq<char>>,
)
    requires
        line_outcome(old, new, action, line, None, sent),
        text::trim_seq(line).len() > 0,
    ensures
        views(new.human_lines@) == views(old.human_lines@).push(line),
        new.latest_progress == old.latest_progress,
        forall|u: Seq<char>|
            (action == HytaleScriptAction::CheckUpdate || action == HytaleScriptAction::Update)
                && #[trigger] first_url(text::trim_seq(line)) == Some(u) && opt_view(old.latest_auth_url)
                != Some(u) ==> sent == seq!["Hytale update auth link: "@ + u] && opt_view(
                new.latest_auth_url,
            ) == Some(u),
        forall|u: Seq<char>|
            #[trigger] first_url(text::trim_seq(line)) == Some(u) && opt_view(old.latest_auth_url)
                == Some(u) ==> sent.len() == 0 && new.latest_auth_url == old.latest_auth_url,
        first_url(text::trim_seq(line)) is None ==> sent.len() == 0 && new.latest_auth_url
            == old.latest_auth_url,
        !(action == HytaleScriptAction::CheckUpdate || action == HytaleScriptAction::Update) ==> sent.len()
            == 0 && new.latest_auth_url == old.latest_auth_url,
{
}

fn same_opt_text(a: &Option<String>, b: &str) -> (r: bool)
    ensures
        r == (opt_view(*a) == Some(b@)),
{
    match a {
        Some(s) => text::same_text(s.as_str(), b),
        None => false,
    }
}

impl ScriptSession {
    pub fn new() -> (s: ScriptSession)
        ensures
            s.human_lines@.len() == 0,
            s.latest_progress is None,
            s.latest_progress_key is None,
            s.latest_auth_url is None,
    {
        ScriptSession {
            human_lines: Vec::new(),
            latest_progress: None,
            latest_progress_key: None,
            latest_auth_url: None,
        }
    }

    /// Takes one output line of the script. A progress line updates the
    /// latest progress and is announced once per distinct key; any other
    /// line is kept as output, and during downloads its first link is
    /// announced once per distinct link.
    pub fn handle_line(
        &mut self,
        action: HytaleScriptAction,
        line: &str,
        parsed: Option<ProgressLine>,
    ) -> (sent: Vec<String>)
        ensures
            line_outcome(*old(self), *final(self), action, line@, parsed, views(sent@)),
    {
        let mut sent: Vec<String> = Vec::new();
        let trimmed = text::trim(line);
        if text::chars_of(trimmed.as_str()).len() == 0 {
            assert(views(sent@) =~= Seq::<Seq<char>>::empty());
            return sent;
        }
        match parsed {
            Some(p) => {
                let key = progress_key(&p.progress);
                if !same_opt_text(&self.latest_progress_key, key.as_str()) {
                    let m = format_progress_message(action, &p);
                    sent.push(m);
                    assert(views(sent@) =~= seq![progress_message_text(action, p)]);
                    self.latest_progress_key = Some(key);
                } else {
                    assert(views(sent@) =~= Seq::<Seq<char>>::empty());
                }
                self.latest_progress = Some(p);
            },
            None => {
                if action.is_download() {
                    match extract_first_url(trimmed.as_str()) {
                        Some(url) => {
                            if !same_opt_text(&self.latest_auth_url, url.as_str()) {
                                let mut m = text::owned("Hytale update auth link: ");
                                push_str(&mut m, url.as_str());
                                sent.push(m);
                                assert(views(sent@) =~= seq![auth_link_text(url@)]);
                                self.latest_auth_url = Some(url);
                            } else {
                                assert(views(sent@) =~= Seq::<Seq<char>>::empty());
                            }
                        },
                        None => {
                            assert(views(sent@) =~= Seq::<Seq<char>>::empty());
                        },
                    }
                } else {
                    assert(views(sent@) =~= Seq::<Seq<char>>::empty());
                }
                let ghost before = self.human_lines@;
                self.human_lines.push(text::owned(line));
                assert(views(self.human_lines@) =~= views(before).push(line@));
            },
        }
        sent
    }

    /// What the run left: success, the output lines and the latest
    /// progress.
    pub fn finish(self, success: bool) -> (o: ScriptOutput)
        ensures
            o.success == success,
            o.human_output@ == joined_output_text(self.human_lines@),
            o.latest_progress == self.latest_progress,
    {
        ScriptOutput {
            success,
            human_output: joined_output(self.human_lines.as_slice()),
            latest_progress: self.latest_progress,
        }
    }
}

/// What a finished script run produced.
#[derive(Debug, Clone, PartialEq, Eq)]
pub struct ScriptOutput {
    pub success: bool,
    pub human_output: String,
    pub latest_progress: Option<ProgressLine>,
}

pub open spec fn hint_suffix(output: Seq<char>) -> Seq<char> {
    if needs_sudo_hint(output) {
        "\n\n"@ + sudo_hint()
    } else {
        Seq::empty()
    }
}

fn push_hint(s: &mut String, output: &str)
    ensures
        final(s)@ == old(s)@ + hint_suffix(output@),
{
    match failure_hint(output) {
        Some(h) => {
            push_str(s, "\n\n");
            push_str(s, h);
        },
        None => {
            assert(old(s)@ + Seq::<char>::empty() =~= old(s)@);
        },
    }
}

pub open spec fn output_title(action: HytaleScriptAction) -> Seq<char> {
    match action {
        HytaleScriptAction::Status => "Hytale status"@,
        HytaleScriptAction::Logs => "Recent Hytale server logs"@,
        HytaleScriptAction::CheckUpdate => "Hytale update check"@,
        _ => "Hytale output"@,
    }
}

pub open spec fn output_response_text(action: HytaleScriptAction, output: ScriptOutput) -> Seq<char> {
    let body = if output.success {
        output.human_output@
    } else {
        "The Hytale "@ + action_arg(action) + " command failed.\n\n"@ + output.human_output@
            + hint_suffix(output.human_output@)
    };
    output_title(action) + ":\n"@ + code_block_text(truncated(body, 1750))
}

/// The reply for actions that show the script's output.
pub fn final_output_response(action: HytaleScriptAction, output: &ScriptOutput) -> (r: String)
    ensures
        r@ == output_response_text(action, *output),
{
    let title = match action {
        HytaleScriptAction::Status => "Hytale status",
        HytaleScriptAction::Logs => "Recent Hytale server logs",
        HytaleScriptAction::CheckUpdate => "Hytale update check",
        _ => "Hytale output",
    };
    let body = if output.success {
        output.human_output.clone()
    } else {
        let mut b = text::owned("The Hytale ");
        push_str(&mut b, action.arg());
        push_str(&mut b, " command failed.\n\n");
        push_str(&mut b, output.human_output.as_str());
        push_hint(&mut b, output.human_output.as_str());
        b
    };
    let mut r = text::owned(title);
    push_str(&mut r, ":\n");
    let t = truncate_text(body.as_str(), MAX_RESPONSE_CHARS);
    let c = code_block(t.as_str());
    push_str(&mut r, c.as_str());
    r
}

pub open spec fn final_response_text(action: HytaleScriptAction, output: ScriptOutput) -> Seq<char> {
    if human_output_action(action) {
        output_response_text(action, output)
    } else {
        let state = match output.latest_progress {
            Some(l) => displayed(l).status@,
            None => if output.success {
                "completed"@
            } else {
                "failed"@
            },
        };
        let message = match output.latest_progress {
            Some(l) => displayed(l).message@,
            None => if output.success {
                "script completed"@
            } else {
                "script failed"@
            },
        };
        let head = "Hytale "@ + action_arg(action) + " "@ + state + ": "@ + message;
        if output.success {
            head
        } else {
            head + "\n"@ + code_block_text(truncated(output.human_output@, 1750)) + hint_suffix(
                output.human_output@,
            )
        }
    }
}

/// The reply once the script finished: its own output for status, logs
/// and update checks, else the latest progress, with the output and a hint
/// on failure.
pub fn final_response(action: HytaleScriptAction, output: &ScriptOutput) -> (r: String)
    ensures
        r@ == final_response_text(action, *output),
{
    if action.shows_human_output() {
        return final_output_response(action, output);
    }
    let mut r = text::owned("Hytale ");
    push_str(&mut r, action.arg());
    push_str(&mut r, " ");
    match &output.latest_progress {
        Some(l) => {
            let d = display_progress(l);
            push_str(&mut r, d.status.as_str());
            push_str(&mut r, ": ");
            push_str(&mut r, d.message.as_str());
        },
        None => {
            if output.success {
                push_str(&mut r, "completed");
                push_str(&mut r, ": ");
                push_str(&mut r, "script completed");
            } else {
                push_str(&mut r, "failed");
                push_str(&mut r, ": ");
                push_str(&mut r, "script failed");
            }
        },
    }
    if !output.success {
        push_str(&mut r, "\n");
        let t = truncate_text(output.human_output.as_str(), MAX_RESPONSE_CHARS);
        let c = code_block(t.as_str());
        push_str(&mut r, c.as_str());
        push_hint(&mut r, output.human_output.as_str());
    }
    r
}

pub open spec fn started_text(action: HytaleScriptAction) -> Seq<char> {
    "Starting Hytale "@ + action_arg(action) + "..."@
}

/// Sent before the script runs.
pub fn starting_message(action: HytaleScriptAction) -> (m: String)
    ensures
        m@ == started_text(action),
{
    let mut m = text::owned("Starting Hytale ");
    push_str(&mut m, action.arg());
    push_str(&mut m, "...");
    m
}

pub open spec fn run_failed_text(action: HytaleScriptAction, error: Seq<char>) -> Seq<char> {
    "Hytale "@ + action_arg(action) + " failed: "@ + truncated_inline(error, 1750)
}

/// Sent when the script could not be run or timed out.
pub fn run_failed_message(action: HytaleScriptAction, error: &str) -> (m: String)
    ensures
        m@ == run_failed_text(action, error@),
{
    let mut m = text::owned("Hytale ");
    push_str(&mut m, action.arg());
    push_str(&mut m, " failed: ");
    let t = truncate_inline(error, MAX_RESPONSE_CHARS);
    push_str(&mut m, t.as_str());
    m
}

pub open spec fn timed_out_text(action: HytaleScriptAction, secs: u64) -> Seq<char> {
    "Hytale "@ + action_arg(action) + " timed out after "@ + decimal(secs as nat) + "s"@
}

/// The error of a run that exceeded its timeout.
pub fn timed_out_message(action: HytaleScriptAction, config: &HytaleConfig) -> (m: String)
    ensures
        m@ == timed_out_text(
            action,
            if downloads(action) {
                config.download_timeout_secs
            } else {
                config.command_timeout_secs
            },
        ),
{
    let mut m = text::owned("Hytale ");
    push_str(&mut m, action.arg());
    push_str(&mut m, " timed out after ");
    push_decimal(&mut m, action.timeout_secs(config));
    push_str(&mut m, "s");
    m
}

pub open spec fn restart_failed_text(error: Seq<char>) -> Seq<char> {
    "Hytale restart failed after password change: "@ + truncated_inline(error, 1750)
}

/// Sent when the restart after a password change could not run.
pub fn restart_failed_message(error: &str) -> (m: String)
    ensures
        m@ == restart_failed_text(error@),
{
    let mut m = text::owned("Hytale restart failed after password change: ");
    let t = truncate_inline(error, MAX_RESPONSE_CHARS);
    push_str(&mut m, t.as_str());
    m
}

// ---------------------------------------------------------------- joining and passwords

pub open spec fn join_password_line(password: HytalePasswordSettings) -> Seq<char> {
    match password.last_password {
        Some(p) => if password.password_enabled && p@.len() > 0 {
            "\nPassword: `"@ + replace_seq(p@, "`"@, "'"@) + "`"@
        } else {
            Seq::empty()
        },
        None => Seq::empty(),
    }
}

pub open spec fn join_message_text(public_ip: Seq<char>, port: u16, password: HytalePasswordSettings) -> Seq<
    char,
> {
    "Hytale server\nAddress: `"@ + public_ip + ":"@ + decimal(port as nat) + "`"@ + join_password_line(
        password,
    )
}

/// The public join info: address and port, and the password only while it
/// is enforced. Backticks in the password become quotes.
pub fn format_hytale_join_message(public_ip: &str, port: u16, password: &HytalePasswordSettings) -> (m:
    String)
    ensures
        m@ == join_message_text(public_ip@, port, *password),
{
    let mut m = text::owned("Hytale server\nAddress: `");
    push_str(&mut m, public_ip);
    push_str(&mut m, ":");
    push_decimal(&mut m, port as u64);
    push_str(&mut m, "`");
    let ghost before = m@;
    if password.password_enabled {
        match &password.last_password {
            Some(p) => {
                if text::chars_of(p.as_str()).len() > 0 {
                    push_str(&mut m, "\nPassword: `");
                    proof {
                        reveal_strlit("`");
                    }
                    let escaped = text::replace(p.as_str(), "`", "'");
                    push_str(&mut m, escaped.as_str());
                    push_str(&mut m, "`");
                } else {
                    assert(m@ == before + Seq::<char>::empty());
                }
            },
            None => {
                assert(m@ == before + Seq::<char>::empty());
            },
        }
    } else {
        assert(m@ == before + Seq::<char>::empty());
    }
    m
}

/// The password to save from `/grate hytale set password`: trimmed, and
/// refused when blank.
pub fn password_to_save(input: &str) -> (r: Option<String>)
    ensures
        text::trim_seq(input@).len() > 0 ==> (r matches Some(p) && p@ == text::trim_seq(input@)),
        text::trim_seq(input@).len() == 0 ==> r is None,
{
    let t = text::trim(input);
    if text::chars_of(t.as_str()).len() == 0 {
        None
    } else {
        Some(t)
    }
}

/// Whether a password is saved.
pub open spec fn has_saved_password(current: HytalePasswordSettings) -> bool {
    current.last_password matches Some(p) && p@.len() > 0
}

/// The password state after `/grate hytale toggle password`; enforcing a
/// password needs one to be saved.
pub fn toggled_password(current: &HytalePasswordSettings) -> (r: Option<HytalePasswordSettings>)
    ensures
        !current.password_enabled && !has_saved_password(*current) ==> r is None,
        current.password_enabled || has_saved_password(*current) ==> r == Some(
            HytalePasswordSettings {
                password_enabled: !current.password_enabled,
                last_password: current.last_password,
            },
        ),
{
    let enabled = !current.password_enabled;
    let saved = match &current.last_password {
        Some(p) => text::chars_of(p.as_str()).len() > 0,
        None => false,
    };
    if enabled && !saved {
        return None;
    }
    let c = current.duplicate();
    Some(HytalePasswordSettings { password_enabled: enabled, last_password: c.last_password })
}

pub open spec fn toggle_message_text(enabled: bool) -> Seq<char> {
    "Hytale password protection "@ + (if enabled {
        "enabled"@
    } else {
        "disabled"@
    }) + ". Restarting the server..."@
}

pub fn password_toggle_message(enabled: bool) -> (m: String)
    ensures
        m@ == toggle_message_text(enabled),
{
    let mut m = text::owned("Hytale password protection ");
    if enabled {
        push_str(&mut m, "enabled");
    } else {
        push_str(&mut m, "disabled");
    }
    push_str(&mut m, ". Restarting the server...");
    m
}

/// The address that the join message shows, given what the public address
/// lookup returned (`None` when it failed) and the address cached for the
/// server: a fresh answer is shown and is to be cached (`true`); without one
/// the cached address is shown; with neither there is nothing to show.
pub fn choose_public_ip(fetched: Option<String>, cached: Option<String>) -> (r: Option<(String, bool)>)
    ensures
        match fetched {
            Some(f) => r matches Some((ip, store)) && ip@ == f@ && store,
            None => match cached {
                Some(c) => r matches Some((ip, store)) && ip@ == c@ && !store,
                None => r is None,
            },
        },
{
    match fetched {
        Some(f) => Some((f, true)),
        None => match cached {
            Some(c) => Some((c, false)),
            None => None,
        },
    }
}

} // verus!
