//! Per-server settings: the channels each feature answers in and the
//! Hytale password and address cache.

use crate::text::{self, decimal};
use vstd::prelude::*;

verus! {

broadcast use vstd::string::group_string_axioms;

pub const DEFAULT_SETTINGS_FILE: &'static str = "grate-bot-settings.json";

/// The settings file used unless `GRATE_BOT_SETTINGS_FILE` names another.
pub fn default_settings_path() -> (p: String)
    ensures
        p@ == "grate-bot-settings.json"@,
{
    text::owned(DEFAULT_SETTINGS_FILE)
}

/// The settings file for the value of `GRATE_BOT_SETTINGS_FILE`: its
/// trimmed value when it is set and not blank.
pub fn settings_path_from(value: Option<&str>) -> (p: String)
    ensures
        p@ == match value {
            Some(v) => if text::trim_seq(v@).len() > 0 {
                text::trim_seq(v@)
            } else {
                "grate-bot-settings.json"@
            },
            None => "grate-bot-settings.json"@,
        },
{
    match value {
        Some(v) => {
            let t = text::trim(v);
            if text::chars_of(t.as_str()).len() > 0 {
                t
            } else {
                default_settings_path()
            }
        },
        None => default_settings_path(),
    }
}

/// The features whose commands can be held to one channel.
#[derive(Debug, Clone, Copy, PartialEq, Eq, Structural)]
pub enum ChannelFamily {
    Grateic,
    Hytale,
}

/// The saved password state of a server's Hytale server.
#[derive(Debug, Clone, PartialEq, Eq)]
pub struct HytalePasswordSettings {
    pub password_enabled: bool,
    pub last_password: Option<String>,
}

#[derive(Debug, Clone, PartialEq, Eq)]
pub struct HytaleSettings {
    pub password: HytalePasswordSettings,
    pub cached_public_ip: Option<String>,
}

/// The settings of one server.
#[derive(Debug, Clone, PartialEq, Eq)]
pub struct GuildSettings {
    pub grateic_channel_id: Option<u64>,
    pub hytale_channel_id: Option<u64>,
    pub hytale: HytaleSettings,
}

/// Every server's settings, by the server id written in decimal.
#[derive(Debug, Clone, PartialEq, Eq)]
pub struct BotSettings {
    pub guilds: Vec<(String, GuildSettings)>,
}

pub open spec fn default_password() -> HytalePasswordSettings {
    HytalePasswordSettings { password_enabled: false, last_password: None }
}

pub open spec fn default_hytale() -> HytaleSettings {
    HytaleSettings { password: default_password(), cached_public_ip: None }
}

pub open spec fn default_guild() -> GuildSettings {
    GuildSettings { grateic_channel_id: None, hytale_channel_id: None, hytale: default_hytale() }
}

impl Default for HytalePasswordSettings {
    fn default() -> (s: HytalePasswordSettings)
        ensures
            s == default_password(),
    {
        HytalePasswordSettings { password_enabled: false, last_password: None }
    }
}

impl Default for HytaleSettings {
    fn default() -> (s: HytaleSettings)
        ensures
            s == default_hytale(),
    {
        HytaleSettings { password: HytalePasswordSettings::default(), cached_public_ip: None }
    }
}

impl Default for GuildSettings {
    fn default() -> (s: GuildSettings)
        ensures
            s == default_guild(),
    {
        GuildSettings {
            grateic_channel_id: None,
            hytale_channel_id: None,
            hytale: HytaleSettings::default(),
        }
    }
}

impl Default for BotSettings {
    fn default() -> (s: BotSettings)
        ensures
            s.guilds@.len() == 0,
    {
        BotSettings { guilds: Vec::new() }
    }
}

fn clone_opt_string(o: &Option<String>) -> (r: Option<String>)
    ensures
        r == *o,
{
    match o {
        Some(s) => Some(s.clone()),
        None => None,
    }
}

impl HytalePasswordSettings {
    pub fn duplicate(&self) -> (s: HytalePasswordSettings)
        ensures
            s == *self,
    {
        HytalePasswordSettings {
            password_enabled: self.password_enabled,
            last_password: clone_opt_string(&self.last_password),
        }
    }
}

pub open spec fn family_label(family: ChannelFamily) -> Seq<char> {
    match family {
        ChannelFamily::Grateic => "Grateic"@,
        ChannelFamily::Hytale => "Hytale"@,
    }
}

/// The channel a family is held to in one server's settings.
pub open spec fn family_channel(family: ChannelFamily, guild: GuildSettings) -> Option<u64> {
    match family {
        ChannelFamily::Grateic => guild.grateic_channel_id,
        ChannelFamily::Hytale => guild.hytale_channel_id,
    }
}

/// One server's settings with the family's channel replaced.
pub open spec fn with_family_channel(
    family: ChannelFamily,
    guild: GuildSettings,
    channel_id: Option<u64>,
) -> GuildSettings {
    match family {
        ChannelFamily::Grateic => GuildSettings { grateic_channel_id: channel_id, ..guild },
        ChannelFamily::Hytale => GuildSettings { hytale_channel_id: channel_id, ..guild },
    }
}

impl ChannelFamily {
    pub fn label(self) -> (l: &'static str)
        ensures
            l@ == family_label(self),
    {
        match self {
            ChannelFamily::Grateic => "Grateic",
            ChannelFamily::Hytale => "Hytale",
        }
    }

    pub fn channel(self, guild: &GuildSettings) -> (c: Option<u64>)
        ensures
            c == family_channel(self, *guild),
    {
        match self {
            ChannelFamily::Grateic => guild.grateic_channel_id,
            ChannelFamily::Hytale => guild.hytale_channel_id,
        }
    }

    pub fn set_channel(self, guild: &mut GuildSettings, channel_id: Option<u64>)
        ensures
            *final(guild) == with_family_channel(self, *old(guild), channel_id),
    {
        match self {
            ChannelFamily::Grateic => guild.grateic_channel_id = channel_id,
            ChannelFamily::Hytale => guild.hytale_channel_id = channel_id,
        }
    }
}

/// The first entry whose key is `key`.
pub open spec fn key_pos(guilds: Seq<(String, GuildSettings)>, key: Seq<char>) -> Option<int>
    decreases guilds.len(),
{
    if guilds.len() == 0 {
        None
    } else {
        match key_pos(guilds.drop_last(), key) {
            Some(i) => Some(i),
            None => if guilds.last().0@ == key {
                Some(guilds.len() - 1)
            } else {
                None
            },
        }
    }
}

proof fn lemma_key_pos(guilds: Seq<(String, GuildSettings)>, key: Seq<char>)
    ensures
        match key_pos(guilds, key) {
            Some(i) => 0 <= i < guilds.len() && guilds[i].0@ == key && forall|j: int|
                0 <= j < i ==> #[trigger] guilds[j].0@ != key,
            None => forall|j: int| 0 <= j < guilds.len() ==> #[trigger] guilds[j].0@ != key,
        },
    decreases guilds.len(),
{
    if guilds.len() > 0 {
        let rest = guilds.drop_last();
        lemma_key_pos(rest, key);
        assert forall|j: int| 0 <= j < rest.len() implies #[trigger] guilds[j] == rest[j] by {}
    }
}

/// The settings stored under `key`, if any.
pub open spec fn lookup(s: BotSettings, key: Seq<char>) -> Option<GuildSettings> {
    match key_pos(s.guilds@, key) {
        Some(i) => Some(s.guilds@[i].1),
        None => None,
    }
}

/// A server's settings; a server without any has the defaults.
pub open spec fn guild_settings(s: BotSettings, guild_id: u64) -> GuildSettings {
    match lookup(s, decimal(guild_id as nat)) {
        Some(g) => g,
        None => default_guild(),
    }
}

/// Every server is stored once.
pub open spec fn keys_unique(s: BotSettings) -> bool {
    forall|i: int, j: int|
        0 <= i < s.guilds@.len() && 0 <= j < s.guilds@.len() && i != j ==> #[trigger] s.guilds@[i].0@
            != #[trigger] s.guilds@[j].0@
}

/// `after` is `before` with the settings of `guild_id` replaced by `g`.
pub open spec fn guild_replaced(before: BotSettings, after: BotSettings, guild_id: u64, g: GuildSettings) -> bool {
    &&& keys_unique(after)
    &&& lookup(after, decimal(guild_id as nat)) == Some(g)
    &&& forall|k: Seq<char>| k != decimal(guild_id as nat) ==> #[trigger] lookup(after, k) == lookup(before, k)
}

proof fn lemma_update_key_pos(
    guilds: Seq<(String, GuildSettings)>,
    i: int,
    g: GuildSettings,
    k: Seq<char>,
)
    requires
        0 <= i < guilds.len(),
    ensures
        key_pos(guilds.update(i, (guilds[i].0, g)), k) == key_pos(guilds, k),
    decreases guilds.len(),
{
    let u = guilds.update(i, (guilds[i].0, g));
    if i < guilds.len() - 1 {
        assert(u.drop_last() =~= guilds.drop_last().update(i, (guilds[i].0, g)));
        lemma_update_key_pos(guilds.drop_last(), i, g, k);
    } else {
        assert(u.drop_last() =~= guilds.drop_last());
    }
}

/// Storing `g` at the position `guild_index` gave replaces the server's
/// settings and nothing else.
proof fn lemma_store_lookup(before: BotSettings, mid: BotSettings, after: BotSettings, guild_id: u64, i: int)
    requires
        keys_unique(mid),
        keys_unique(after),
        0 <= i < mid.guilds@.len(),
        mid.guilds@[i].0@ == decimal(guild_id as nat),
        forall|k: Seq<char>| #[trigger] lookup(mid, k) == lookup(before, k) || (k == decimal(
            guild_id as nat,
        ) && lookup(before, k) is None),
        after.guilds@ == mid.guilds@.update(i, (mid.guilds@[i].0, after.guilds@[i].1)),
        forall|k: Seq<char>| #[trigger] key_pos(after.guilds@, k) == key_pos(mid.guilds@, k),
    ensures
        guild_replaced(before, after, guild_id, after.guilds@[i].1),
{
    let key = decimal(guild_id as nat);
    lemma_key_pos(mid.guilds@, key);
    assert(key_pos(mid.guilds@, key) == Some(i)) by {
        match key_pos(mid.guilds@, key) {
            Some(p) => {
                if p != i {
                    assert(mid.guilds@[p].0@ == mid.guilds@[i].0@);
                }
            },
            None => {
                assert(mid.guilds@[i].0@ == key);
            },
        }
    }
    assert forall|k: Seq<char>| k != key implies #[trigger] lookup(after, k) == lookup(before, k) by {
        assert(lookup(mid, k) == lookup(before, k));
        lemma_key_pos(mid.guilds@, k);
        match key_pos(mid.guilds@, k) {
            Some(p) => {
                assert(p != i);
            },
            None => {},
        }
    }
}

impl BotSettings {
    pub open spec fn wf(&self) -> bool {
        keys_unique(*self)
    }

    fn find(&self, key: &str) -> (r: Option<usize>)
        ensures
            match key_pos(self.guilds@, key@) {
                Some(i) => r == Some(i as usize),
                None => r is None,
            },
            r matches Some(i) ==> i < self.guilds@.len() && self.guilds@[i as int].0@ == key@,
    {
        proof {
            lemma_key_pos(self.guilds@, key@);
        }
        let mut i: usize = 0;
        while i < self.guilds.len()
            invariant
                i <= self.guilds@.len(),
                forall|j: int| 0 <= j < i ==> #[trigger] self.guilds@[j].0@ != key@,
                match key_pos(self.guilds@, key@) {
                    Some(p) => 0 <= p < self.guilds@.len() && self.guilds@[p].0@ == key@ && forall|j: int|
                        0 <= j < p ==> #[trigger] self.guilds@[j].0@ != key@,
                    None => forall|j: int| 0 <= j < self.guilds@.len() ==> #[trigger] self.guilds@[j].0@ != key@,
                },
            decreases self.guilds@.len() - i,
        {
            if text::same_text(self.guilds[i].0.as_str(), key) {
                return Some(i);
            }
            i += 1;
        }
        None
    }

    /// A copy of a server's settings; the defaults for a server without any.
    fn guild(&self, guild_id: u64) -> (g: Option<&GuildSettings>)
        ensures
            match lookup(*self, decimal(guild_id as nat)) {
                Some(s) => g matches Some(r) && *r == s,
                None => g is None,
            },
    {
        let key = text::decimal_string(guild_id);
        proof {
            lemma_key_pos(self.guilds@, key@);
        }
        match self.find(key.as_str()) {
            Some(i) => Some(&self.guilds[i].1),
            None => None,
        }
    }

    /// The channel that `family` is held to in `guild_id`.
    pub fn channel(&self, guild_id: u64, family: ChannelFamily) -> (c: Option<u64>)
        ensures
            c == family_channel(family, guild_settings(*self, guild_id)),
    {
        match self.guild(guild_id) {
            Some(g) => family.channel(g),
            None => None,
        }
    }

    /// A server's Hytale password state.
    pub fn hytale_password(&self, guild_id: u64) -> (p: HytalePasswordSettings)
        ensures
            p == guild_settings(*self, guild_id).hytale.password,
    {
        match self.guild(guild_id) {
            Some(g) => g.hytale.password.duplicate(),
            None => HytalePasswordSettings::default(),
        }
    }

    /// The last public address seen for a server's Hytale server.
    pub fn hytale_cached_public_ip(&self, guild_id: u64) -> (ip: Option<String>)
        ensures
            ip == guild_settings(*self, guild_id).hytale.cached_public_ip,
    {
        match self.guild(guild_id) {
            Some(g) => clone_opt_string(&g.hytale.cached_public_ip),
            None => None,
        }
    }

    /// The position of a server's settings, created with the defaults when
    /// the server has none.
    fn guild_index(&mut self, guild_id: u64) -> (i: usize)
        requires
            old(self).wf(),
        ensures
            final(self).wf(),
            i < final(self).guilds@.len(),
            final(self).guilds@[i as int].0@ == decimal(guild_id as nat),
            final(self).guilds@[i as int].1 == guild_settings(*old(self), guild_id),
            forall|k: Seq<char>| #[trigger] lookup(*final(self), k) == lookup(*old(self), k) || (k
                == decimal(guild_id as nat) && lookup(*old(self), k) is None),
            forall|j: int| 0 <= j < final(self).guilds@.len() && j != i ==> #[trigger] final(self).guilds@[j]
                == old(self).guilds@[j],
            final(self).guilds@.len() >= old(self).guilds@.len(),
            forall|j: int| 0 <= j < old(self).guilds@.len() ==> #[trigger] final(self).guilds@[j]
                == old(self).guilds@[j],
    {
        let key = text::decimal_string(guild_id);
        proof {
            lemma_key_pos(self.guilds@, key@);
        }
        match self.find(key.as_str()) {
            Some(i) => i,
            None => {
                let ghost before = self.guilds@;
                self.guilds.push((key, GuildSettings::default()));
                proof {
                    assert(self.guilds@.drop_last() =~= before);
                    assert forall|k: Seq<char>| #[trigger] lookup(*self, k) == lookup(*old(self), k) || (k
                        == decimal(guild_id as nat) && lookup(*old(self), k) is None) by {
                        lemma_key_pos(self.guilds@, k);
                        lemma_key_pos(before, k);
                    }
                }
                self.guilds.len() - 1
            },
        }
    }

    fn replace_at(&mut self, i: usize, g: GuildSettings)
        requires
            old(self).wf(),
            i < old(self).guilds@.len(),
        ensures
            final(self).wf(),
            final(self).guilds@ == old(self).guilds@.update(i as int, (old(self).guilds@[i as int].0, g)),
    {
        self.guilds[i].1 = g;
    }

    /// Applies `g` as the new settings of the server at position `i`.
    fn store_guild(&mut self, i: usize, g: GuildSettings)
        requires
            old(self).wf(),
            i < old(self).guilds@.len(),
        ensures
            final(self).wf(),
            final(self).guilds@ == old(self).guilds@.update(i as int, (old(self).guilds@[i as int].0, g)),
            forall|k: Seq<char>| #[trigger] key_pos(final(self).guilds@, k) == key_pos(old(self).guilds@, k),
    {
        let ghost before = self.guilds@;
        self.replace_at(i, g);
        proof {
            assert forall|k: Seq<char>| #[trigger] key_pos(self.guilds@, k) == key_pos(before, k) by {
                lemma_update_key_pos(before, i as int, g, k);
            }
        }
    }

    /// Holds `family` to `channel_id` in `guild_id`.
    pub fn set_channel(&mut self, guild_id: u64, family: ChannelFamily, channel_id: u64)
        requires
            old(self).wf(),
        ensures
            final(self).wf(),
            guild_replaced(
                *old(self),
                *final(self),
                guild_id,
                with_family_channel(family, guild_settings(*old(self), guild_id), Some(channel_id)),
            ),
    {
        let i = self.guild_index(guild_id);
        let ghost mid = *self;
        let mut g = self.guild_copy(i);
        family.set_channel(&mut g, Some(channel_id));
        self.store_guild(i, g);
        proof {
            lemma_store_lookup(*old(self), mid, *self, guild_id, i as int);
        }
    }

    /// Lets `family` answer in every channel of `guild_id` again.
    pub fn clear_channel(&mut self, guild_id: u64, family: ChannelFamily)
        requires
            old(self).wf(),
        ensures
            final(self).wf(),
            guild_replaced(
                *old(self),
                *final(self),
                guild_id,
                with_family_channel(family, guild_settings(*old(self), guild_id), None),
            ),
    {
        let i = self.guild_index(guild_id);
        let ghost mid = *self;
        let mut g = self.guild_copy(i);
        family.set_channel(&mut g, None);
        self.store_guild(i, g);
        proof {
            lemma_store_lookup(*old(self), mid, *self, guild_id, i as int);
        }
    }

    /// Remembers the public address last seen for the Hytale server.
    pub fn set_hytale_cached_public_ip(&mut self, guild_id: u64, public_ip: String)
        requires
            old(self).wf(),
        ensures
            final(self).wf(),
            guild_replaced(
                *old(self),
                *final(self),
                guild_id,
                GuildSettings {
                    hytale: HytaleSettings {
                        cached_public_ip: Some(public_ip),
                        ..guild_settings(*old(self), guild_id).hytale
                    },
                    ..guild_settings(*old(self), guild_id)
                },
            ),
    {
        let i = self.guild_index(guild_id);
        let ghost mid = *self;
        let mut g = self.guild_copy(i);
        g.hytale.cached_public_ip = Some(public_ip);
        self.store_guild(i, g);
        proof {
            lemma_store_lookup(*old(self), mid, *self, guild_id, i as int);
        }
    }

    /// Saves a new Hytale password and whether it is enforced; returns the
    /// new password state.
    pub fn set_hytale_password(&mut self, guild_id: u64, password: String, enabled: bool) -> (p:
        HytalePasswordSettings)
        requires
            old(self).wf(),
        ensures
            final(self).wf(),
            p == (HytalePasswordSettings { password_enabled: enabled, last_password: Some(password) }),
            guild_replaced(
                *old(self),
                *final(self),
                guild_id,
                GuildSettings {
                    hytale: HytaleSettings { password: p, ..guild_settings(*old(self), guild_id).hytale },
                    ..guild_settings(*old(self), guild_id)
                },
            ),
    {
        let i = self.guild_index(guild_id);
        let ghost mid = *self;
        let mut g = self.guild_copy(i);
        g.hytale.password.last_password = Some(password);
        g.hytale.password.password_enabled = enabled;
        let p = g.hytale.password.duplicate();
        self.store_guild(i, g);
        proof {
            lemma_store_lookup(*old(self), mid, *self, guild_id, i as int);
        }
        p
    }

    /// Turns the saved Hytale password on or off; returns the new password
    /// state.
    pub fn set_hytale_password_enabled(&mut self, guild_id: u64, enabled: bool) -> (p:
        HytalePasswordSettings)
        requires
            old(self).wf(),
        ensures
            final(self).wf(),
            p == (HytalePasswordSettings {
                password_enabled: enabled,
                ..guild_settings(*old(self), guild_id).hytale.password
            }),
            guild_replaced(
                *old(self),
                *final(self),
                guild_id,
                GuildSettings {
                    hytale: HytaleSettings { password: p, ..guild_settings(*old(self), guild_id).hytale },
                    ..guild_settings(*old(self), guild_id)
                },
            ),
    {
        let i = self.guild_index(guild_id);
        let ghost mid = *self;
        let mut g = self.guild_copy(i);
        g.hytale.password.password_enabled = enabled;
        let p = g.hytale.password.duplicate();
        self.store_guild(i, g);
        proof {
            lemma_store_lookup(*old(self), mid, *self, guild_id, i as int);
        }
        p
    }

    fn guild_copy(&self, i: usize) -> (g: GuildSettings)
        requires
            i < self.guilds@.len(),
        ensures
            g == self.guilds@[i as int].1,
    {
        let s = &self.guilds[i].1;
        GuildSettings {
            grateic_channel_id: s.grateic_channel_id,
            hytale_channel_id: s.hytale_channel_id,
            hytale: HytaleSettings {
                password: s.hytale.password.duplicate(),
                cached_public_ip: clone_opt_string(&s.hytale.cached_public_ip),
            },
        }
    }
}

/// After one server's settings are replaced, that server reads back the new
/// settings and every other server reads what it read before.
pub proof fn lemma_replaced_reads(before: BotSettings, after: BotSettings, guild_id: u64, g: GuildSettings)
    requires
        guild_replaced(before, after, guild_id, g),
    ensures
        guild_settings(after, guild_id) == g,
        forall|other: u64| other != guild_id ==> #[trigger] guild_settings(after, other)
            == guild_settings(before, other),
{
    assert forall|other: u64| other != guild_id implies #[trigger] guild_settings(after, other)
        == guild_settings(before, other) by {
        crate::commands::lemma_decimal_injective(other, guild_id);
        assert(lookup(after, decimal(other as nat)) == lookup(before, decimal(other as nat)));
    }
}

/// A channel that was set is the channel read back; the other feature's
/// channel and every other server keep theirs.
pub proof fn law_channel_read_after_set(
    before: BotSettings,
    after: BotSettings,
    guild_id: u64,
    family: ChannelFamily,
    channel_id: u64,
)
    requires
        guild_replaced(
            before,
            after,
            guild_id,
            with_family_channel(family, guild_settings(before, guild_id), Some(channel_id)),
        ),
    ensures
        family_channel(family, guild_settings(after, guild_id)) == Some(channel_id),
        forall|f: ChannelFamily| f != family ==> #[trigger] family_channel(f, guild_settings(after, guild_id))
            == family_channel(f, guild_settings(before, guild_id)),
        forall|other: u64, f: ChannelFamily| other != guild_id ==> #[trigger] family_channel(f, guild_settings(after, other))
            == family_channel(f, guild_settings(before, other)),
{
    lemma_replaced_reads(
        before,
        after,
        guild_id,
        with_family_channel(family, guild_settings(before, guild_id), Some(channel_id)),
    );
}

/// A cleared channel reads back as none.
pub proof fn law_channel_read_after_clear(
    before: BotSettings,
    after: BotSettings,
    guild_id: u64,
    family: ChannelFamily,
)
    requires
        guild_replaced(
            before,
            after,
            guild_id,
            with_family_channel(family, guild_settings(before, guild_id), None),
        ),
    ensures
        family_channel(family, guild_settings(after, guild_id)) is None,
        forall|f: ChannelFamily| f != family ==> #[trigger] family_channel(f, guild_settings(after, guild_id))
            == family_channel(f, guild_settings(before, guild_id)),
{
    lemma_replaced_reads(
        before,
        after,
        guild_id,
        with_family_channel(family, guild_settings(before, guild_id), None),
    );
}

/// A saved password reads back with its enforcement state, and the cached
/// address and channels are kept.
pub proof fn law_password_read_after_set(
    before: BotSettings,
    after: BotSettings,
    guild_id: u64,
    p: HytalePasswordSettings,
)
    requires
        guild_replaced(
            before,
            after,
            guild_id,
            GuildSettings {
                hytale: HytaleSettings { password: p, ..guild_settings(before, guild_id).hytale },
                ..guild_settings(before, guild_id)
            },
        ),
    ensures
        guild_settings(after, guild_id).hytale.password == p,
        guild_settings(after, guild_id).hytale.cached_public_ip == guild_settings(
            before,
            guild_id,
        ).hytale.cached_public_ip,
        guild_settings(after, guild_id).grateic_channel_id == guild_settings(
            before,
            guild_id,
        ).grateic_channel_id,
        guild_settings(after, guild_id).hytale_channel_id == guild_settings(
            before,
            guild_id,
        ).hytale_channel_id,
{
    lemma_replaced_reads(
        before,
        after,
        guild_id,
        GuildSettings {
            hytale: HytaleSettings { password: p, ..guild_settings(before, guild_id).hytale },
            ..guild_settings(before, guild_id)
        },
    );
}

/// A cached address reads back, and the password is kept.
pub proof fn law_cached_ip_read_after_set(
    before: BotSettings,
    after: BotSettings,
    guild_id: u64,
    public_ip: String,
)
    requires
        guild_replaced(
            before,
            after,
            guild_id,
            GuildSettings {
                hytale: HytaleSettings {
                    cached_public_ip: Some(public_ip),
                    ..guild_settings(before, guild_id).hytale
                },
                ..guild_settings(before, guild_id)
            },
        ),
    ensures
        guild_settings(after, guild_id).hytale.cached_public_ip == Some(public_ip),
        guild_settings(after, guild_id).hytale.password == guild_settings(
            before,
            guild_id,
        ).hytale.password,
{
    lemma_replaced_reads(
        before,
        after,
        guild_id,
        GuildSettings {
            hytale: HytaleSettings {
                cached_public_ip: Some(public_ip),
                ..guild_settings(before, guild_id).hytale
            },
            ..guild_settings(before, guild_id)
        },
    );
}

} // verus!
