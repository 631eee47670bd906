//! The top-level help, build verification, and holding each feature's
//! commands to one channel.

use crate::text::{self, push_str};
use sha2::Digest;
use vstd::prelude::*;

verus! {

broadcast use vstd::string::group_string_axioms;

pub open spec fn help_text() -> Seq<char> {
    "Grate Boss help\n\nBroadly, I can help with:\n- Grateic Phone: host a Discord drawing-and-prompt game. Create a short or full lobby, let players join, start rounds, collect text and drawing submissions in DMs, track status, cancel a lobby, and reveal the finished game.\n- Build verification: show the running bot version, source ref, commit, build input state, and executable SHA-256 so you can compare the live bot against a release.\n\nUseful commands:\n- `/grate create` starts a Grateic Phone lobby with mode, canvas size, background, and canvas-size-rule options.\n- `/grate grateic help`, `/grate grateic join`, `/grate grateic ready`, `/grate grateic start`, `/grate grateic status`, `/grate grateic cancel`, and `/grate grateic force_cancel` explain or manage a Grateic Phone game.\n- `/grate verify` reports what build is currently running.\n- `/grate hytale help`, `/grate hytale join`, `/grate hytale status`, `/grate hytale logs`, `/grate hytale start`, `/grate hytale stop`, `/grate hytale restart`, `/grate hytale check-update`, `/grate hytale update`, and Hytale settings commands manage or share the Hytale server.\n\nNotes: Grateic Phone game state is kept in memory, so active games reset if I restart."@
}

/// The reply to `/grate help`.
pub fn help_message() -> (m: String)
    ensures
        m@ == help_text(),
{
    text::owned("Grate Boss help\n\nBroadly, I can help with:\n- Grateic Phone: host a Discord drawing-and-prompt game. Create a short or full lobby, let players join, start rounds, collect text and drawing submissions in DMs, track status, cancel a lobby, and reveal the finished game.\n- Build verification: show the running bot version, source ref, commit, build input state, and executable SHA-256 so you can compare the live bot against a release.\n\nUseful commands:\n- `/grate create` starts a Grateic Phone lobby with mode, canvas size, background, and canvas-size-rule options.\n- `/grate grateic help`, `/grate grateic join`, `/grate grateic ready`, `/grate grateic start`, `/grate grateic status`, `/grate grateic cancel`, and `/grate grateic force_cancel` explain or manage a Grateic Phone game.\n- `/grate verify` reports what build is currently running.\n- `/grate hytale help`, `/grate hytale join`, `/grate hytale status`, `/grate hytale logs`, `/grate hytale start`, `/grate hytale stop`, `/grate hytale restart`, `/grate hytale check-update`, `/grate hytale update`, and Hytale settings commands manage or share the Hytale server.\n\nNotes: Grateic Phone game state is kept in memory, so active games reset if I restart.")
}

// ---------------------------------------------------------------- build verification

/// What the build recorded about itself; a value that was not recorded is
/// `None`.
#[derive(Debug, Clone, PartialEq, Eq)]
pub struct BuildInfo {
    pub version: String,
    pub source_ref: Option<String>,
    pub commit: Option<String>,
    pub input_state: Option<String>,
    pub repository: Option<String>,
    pub release_tag: Option<String>,
    pub release_arch: Option<String>,
}

/// A recorded value, or `unknown`.
pub open spec fn or_unknown(v: Option<String>) -> Seq<char> {
    match v {
        Some(s) => s@,
        None => "unknown"@,
    }
}

fn value_or_unknown(v: &Option<String>) -> (r: String)
    ensures
        r@ == or_unknown(*v),
{
    match v {
        Some(s) => s.clone(),
        None => text::owned("unknown"),
    }
}

pub open spec fn release_status_text(tag: Option<String>) -> Seq<char> {
    if or_unknown(tag) == "unknown"@ {
        "⚠️ branch or local build"@
    } else {
        "✅ official GitHub release"@
    }
}

/// Whether the running build is an official release: only release builds
/// record a release tag.
pub fn release_status(tag: &Option<String>) -> (s: &'static str)
    ensures
        s@ == release_status_text(*tag),
{
    let t = value_or_unknown(tag);
    if text::same_text(t.as_str(), "unknown") {
        "⚠️ branch or local build"
    } else {
        "✅ official GitHub release"
    }
}

pub open spec fn release_url_text(repository: Option<String>, tag: Option<String>) -> Seq<char> {
    if or_unknown(repository) == "unknown"@ || or_unknown(tag) == "unknown"@ {
        "`unknown`"@
    } else {
        "https://github.com/"@ + or_unknown(repository) + "/releases/tag/"@ + or_unknown(tag)
    }
}

/// The GitHub release page of the build.
pub fn release_url(repository: &Option<String>, tag: &Option<String>) -> (u: String)
    ensures
        u@ == release_url_text(*repository, *tag),
{
    let r = value_or_unknown(repository);
    let t = value_or_unknown(tag);
    if text::same_text(r.as_str(), "unknown") || text::same_text(t.as_str(), "unknown") {
        return text::owned("`unknown`");
    }
    let mut u = text::owned("https://github.com/");
    push_str(&mut u, r.as_str());
    push_str(&mut u, "/releases/tag/");
    push_str(&mut u, t.as_str());
    u
}

pub open spec fn release_checksum_url_text(
    repository: Option<String>,
    tag: Option<String>,
    arch: Option<String>,
) -> Seq<char> {
    if or_unknown(repository) == "unknown"@ || or_unknown(tag) == "unknown"@ || or_unknown(arch)
        == "unknown"@ {
        "`unknown`"@
    } else {
        "https://github.com/"@ + or_unknown(repository) + "/releases/download/"@ + or_unknown(tag)
            + "/grate-bot-"@ + or_unknown(tag) + "-"@ + or_unknown(arch) + ".sha256"@
    }
}

/// The checksum asset of the build's release.
pub fn release_checksum_url(
    repository: &Option<String>,
    tag: &Option<String>,
    arch: &Option<String>,
) -> (u: String)
    ensures
        u@ == release_checksum_url_text(*repository, *tag, *arch),
{
    let r = value_or_unknown(repository);
    let t = value_or_unknown(tag);
    let a = value_or_unknown(arch);
    if text::same_text(r.as_str(), "unknown") || text::same_text(t.as_str(), "unknown")
        || text::same_text(a.as_str(), "unknown") {
        return text::owned("`unknown`");
    }
    let mut u = text::owned("https://github.com/");
    push_str(&mut u, r.as_str());
    push_str(&mut u, "/releases/download/");
    push_str(&mut u, t.as_str());
    push_str(&mut u, "/grate-bot-");
    push_str(&mut u, t.as_str());
    push_str(&mut u, "-");
    push_str(&mut u, a.as_str());
    push_str(&mut u, ".sha256");
    u
}

/// The SHA-256 digest of `bytes`, as `sha2` computes it.
pub uninterp spec fn sha256_of(bytes: Seq<u8>) -> Seq<u8>;

/// `Sha256::digest` of the `sha2` crate. Trusted: the result is the
/// SHA-256 digest of exactly these bytes (named `sha256_of`), which is 32
/// bytes long (`Sha256`'s output size). Nothing else is claimed of it.
#[verifier::external_body]
fn sha256_digest(bytes: &[u8]) -> (d: Vec<u8>)
    ensures
        d@ == sha256_of(bytes@),
        d@.len() == 32,
{
    sha2::Sha256::digest(bytes).to_vec()
}

pub open spec fn hex_digit(d: u8) -> char
    recommends
        d < 16,
{
    if d < 10 {
        (('0' as u8) + d) as char
    } else {
        (('a' as u8) + d - 10) as char
    }
}

/// Bytes as two lower-case hex digits each.
pub open spec fn lower_hex(bytes: Seq<u8>) -> Seq<char>
    decreases bytes.len(),
{
    if bytes.len() == 0 {
        Seq::empty()
    } else {
        lower_hex(bytes.drop_last()) + seq![
            hex_digit(bytes.last() / 16),
            hex_digit(bytes.last() % 16),
        ]
    }
}

fn hex_char(d: u8) -> (c: char)
    requires
        d < 16,
    ensures
        c == hex_digit(d),
{
    if d < 10 {
        ((('0' as u8) + d) as char)
    } else {
        ((('a' as u8) + d - 10) as char)
    }
}

/// The bytes in lower-case hexadecimal, two digits each.
pub fn lower_hex_string(bytes: &[u8]) -> (s: String)
    ensures
        s@ == lower_hex(bytes@),
{
    let mut s = String::new();
    let mut i: usize = 0;
    while i < bytes.len()
        invariant
            i <= bytes@.len(),
            s@ == lower_hex(bytes@.take(i as int)),
        decreases bytes@.len() - i,
    {
        let b = bytes[i];
        assert(bytes@.take(i + 1).drop_last() == bytes@.take(i as int));
        text::push_char(&mut s, hex_char(b / 16));
        text::push_char(&mut s, hex_char(b % 16));
        assert(s@ == lower_hex(bytes@.take(i + 1)));
        i += 1;
    }
    assert(bytes@.take(bytes@.len() as int) == bytes@);
    s
}

/// The SHA-256 checksum of `bytes` in lower-case hex, as `/grate verify`
/// shows it for the running executable.
pub fn sha256_hex(bytes: &[u8]) -> (s: String)
    ensures
        s@ == lower_hex(sha256_of(bytes@)),
        s@.len() == 64,
{
    let d = sha256_digest(bytes);
    proof {
        lemma_lower_hex_len(d@);
    }
    lower_hex_string(d.as_slice())
}

proof fn lemma_lower_hex_len(bytes: Seq<u8>)
    ensures
        lower_hex(bytes).len() == 2 * bytes.len(),
    decreases bytes.len(),
{
    if bytes.len() > 0 {
        lemma_lower_hex_len(bytes.drop_last());
    }
}

pub open spec fn verify_report_text(build: BuildInfo, checksum: Seq<char>) -> Seq<char> {
    "Build verification\nRelease status: "@ + release_status_text(build.release_tag)
        + "\nVersion: `"@ + build.version@ + "`\nSource ref: `"@ + or_unknown(build.source_ref)
        + "`\nCommit: `"@ + or_unknown(build.commit) + "`\nBuild inputs: `"@ + or_unknown(
        build.input_state,
    ) + "`\nExecutable SHA-256: `"@ + checksum + "`\nRelease: "@ + release_url_text(
        build.repository,
        build.release_tag,
    ) + "\nRelease checksum: "@ + release_checksum_url_text(
        build.repository,
        build.release_tag,
        build.release_arch,
    )
}

/// A release tag was recorded for the build.
pub open spec fn has_release_tag(tag: Option<String>) -> bool {
    tag matches Some(t) && t@ != "unknown"@
}

/// `s` begins with `p`.
pub open spec fn begins_with(s: Seq<char>, p: Seq<char>) -> bool {
    p.len() <= s.len() && s.subrange(0, p.len() as int) == p
}

/// The release status that the build report opens with is read from the
/// release tag alone: a build with a recorded tag is an official release,
/// any other build a branch or local build, whatever its version, source
/// ref, commit, inputs, repository or checksum.
pub proof fn law_report_status_follows_release_tag(build: BuildInfo, checksum: Seq<char>)
    ensures
        has_release_tag(build.release_tag) ==> begins_with(
            verify_report_text(build, checksum),
            "Build verification\nRelease status: "@ + "✅ official GitHub release"@,
        ),
        !has_release_tag(build.release_tag) ==> begins_with(
            verify_report_text(build, checksum),
            "Build verification\nRelease status: "@ + "⚠️ branch or local build"@,
        ),
{
    let head = "Build verification\nRelease status: "@ + release_status_text(build.release_tag);
    let s = verify_report_text(build, checksum);
    assert(head.len() <= s.len());
    assert(s.subrange(0, head.len() as int) =~= head);
    if has_release_tag(build.release_tag) {
        assert(or_unknown(build.release_tag) != "unknown"@);
    } else {
        assert(or_unknown(build.release_tag) == "unknown"@);
    }
}

/// The reply to `/grate verify`.
pub fn verify_report(build: &BuildInfo, checksum: &str) -> (r: String)
    ensures
        r@ == verify_report_text(*build, checksum@),
{
    let mut r = text::owned("Build verification\nRelease status: ");
    push_str(&mut r, release_status(&build.release_tag));
    push_str(&mut r, "\nVersion: `");
    push_str(&mut r, build.version.as_str());
    push_str(&mut r, "`\nSource ref: `");
    let v = value_or_unknown(&build.source_ref);
    push_str(&mut r, v.as_str());
    push_str(&mut r, "`\nCommit: `");
    let v = value_or_unknown(&build.commit);
    push_str(&mut r, v.as_str());
    push_str(&mut r, "`\nBuild inputs: `");
    let v = value_or_unknown(&build.input_state);
    push_str(&mut r, v.as_str());
    push_str(&mut r, "`\nExecutable SHA-256: `");
    push_str(&mut r, checksum);
    push_str(&mut r, "`\nRelease: ");
    let u = release_url(&build.repository, &build.release_tag);
    push_str(&mut r, u.as_str());
    push_str(&mut r, "\nRelease checksum: ");
    let u = release_checksum_url(&build.repository, &build.release_tag, &build.release_arch);
    push_str(&mut r, u.as_str());
    r
}

// ---------------------------------------------------------------- command channels

/// What looking up a configured channel found.
#[derive(Debug, Clone, Copy, PartialEq, Eq, Structural)]
pub enum ChannelLookup {
    ExistsInGuild,
    Missing,
    AmbiguousFailure,
}

/// What happens to a command outside its channel.
#[derive(Debug, Clone, Copy, PartialEq, Eq, Structural)]
pub enum ChannelGateAction {
    Allow,
    Block,
    ClearAndAllow,
}

pub open spec fn gate_action(configured: u64, current: u64, lookup: ChannelLookup) -> ChannelGateAction {
    if current == configured {
        ChannelGateAction::Allow
    } else {
        match lookup {
            ChannelLookup::Missing => ChannelGateAction::ClearAndAllow,
            _ => ChannelGateAction::Block,
        }
    }
}

/// Commands in the configured channel pass; elsewhere they are blocked,
/// unless the configured channel is known to be gone, in which case the
/// setting is cleared and the command passes.
pub fn channel_gate_action(
    configured_channel_id: u64,
    current_channel_id: u64,
    lookup: ChannelLookup,
) -> (a: ChannelGateAction)
    ensures
        a == gate_action(configured_channel_id, current_channel_id, lookup),
{
    if current_channel_id == configured_channel_id {
        return ChannelGateAction::Allow;
    }
    match lookup {
        ChannelLookup::Missing => ChannelGateAction::ClearAndAllow,
        ChannelLookup::ExistsInGuild | ChannelLookup::AmbiguousFailure => ChannelGateAction::Block,
    }
}

/// Discord's answer for a channel that does not exist: HTTP 404 with
/// error code 10003.
pub fn is_unknown_channel_response(status_code: u16, error_code: isize) -> (b: bool)
    ensures
        b == (status_code == 404 && error_code == 10003),
{
    status_code == 404 && error_code == 10003
}

pub open spec fn gate_cleared_text(label: Seq<char>) -> Seq<char> {
    "The configured "@ + label + " channel no longer exists, so I cleared that setting. "@ + label
        + " commands are allowed everywhere until someone sets a new channel."@
}

pub open spec fn gate_blocked_text(label: Seq<char>, channel_id: u64) -> Seq<char> {
    label + " commands only work in <#"@ + crate::text::decimal(channel_id as nat) + ">."@
}

/// The notice when a configured channel that is gone was cleared.
pub fn gate_cleared_message(family: crate::settings::ChannelFamily) -> (m: String)
    ensures
        m@ == gate_cleared_text(crate::settings::family_label(family)),
{
    let mut m = text::owned("The configured ");
    push_str(&mut m, family.label());
    push_str(&mut m, " channel no longer exists, so I cleared that setting. ");
    push_str(&mut m, family.label());
    push_str(&mut m, " commands are allowed everywhere until someone sets a new channel.");
    m
}

/// The notice when a command is refused outside its channel.
pub fn gate_blocked_message(family: crate::settings::ChannelFamily, channel_id: u64) -> (m: String)
    ensures
        m@ == gate_blocked_text(crate::settings::family_label(family), channel_id),
{
    let mut m = text::owned(family.label());
    push_str(&mut m, " commands only work in <#");
    text::push_decimal(&mut m, channel_id);
    push_str(&mut m, ">.");
    m
}

} // verus!
