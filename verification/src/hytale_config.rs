//! The bot's entry in the Hytale server's `config.json`: the file is read as
//! a JSON object, the `GrateBot` member is set to the password state, every
//! other member is kept as it was, and the object is written back pretty.

use crate::settings::HytalePasswordSettings;
use crate::text::{chars_of, owned, same_text};
use vstd::prelude::*;

verus! {

broadcast use vstd::string::group_string_axioms;

/// Why the config file could not be edited.
#[derive(Debug, Clone, Copy, PartialEq, Eq, Structural)]
pub enum ConfigFileError {
    /// The file that is there is not JSON.
    Parse,
    /// The edited document could not be written out.
    Encode,
}

/// `serde_json::Error`, only carried from the parser to the caller, unread.
#[verifier::external_type_specification]
#[verifier::external_body]
pub struct ExJsonError(serde_json::Error);

/// What `serde_json::from_str::<serde_json::Value>` makes of `text`: `None`
/// when it is not JSON, `Some(None)` when it is JSON but not an object, and
/// otherwise the object's members in the order its map yields them, each
/// value written back in compact form.
pub uninterp spec fn json_object_members(text: Seq<char>) -> Option<Option<Seq<(Seq<char>, Seq<u8>)>>>;

/// What `serde_json::to_vec` writes for a string: the string as a JSON
/// string literal.
pub uninterp spec fn json_string_encoding(s: Seq<char>) -> Seq<u8>;

/// What `serde_json::to_vec_pretty` writes for the value that
/// `serde_json::from_slice` reads from `compact`; `None` when either fails.
pub uninterp spec fn json_pretty_text(compact: Seq<u8>) -> Option<Seq<u8>>;

/// The plain form of members handed out as owned strings and bytes.
pub open spec fn member_views(v: Seq<(String, Vec<u8>)>) -> Seq<(Seq<char>, Seq<u8>)> {
    v.map_values(|m: (String, Vec<u8>)| (m.0@, m.1@))
}

/// No key occurs twice.
pub open spec fn keys_distinct(m: Seq<(Seq<char>, Seq<u8>)>) -> bool {
    forall|i: int, j: int| 0 <= i < m.len() && 0 <= j < m.len() && i != j ==> m[i].0 != m[j].0
}

/// The plain form of what the parser gave back.
pub open spec fn parsed_views(o: Option<Vec<(String, Vec<u8>)>>) -> Option<Seq<(Seq<char>, Seq<u8>)>> {
    match o {
        Some(v) => Some(member_views(v@)),
        None => None,
    }
}

/// Trusted: `serde_json::from_str::<serde_json::Value>`. An object is handed
/// out as its members, each value turned into its compact text by the value's
/// `Display`; any other value as `None`. The members come from one map, so no
/// key occurs twice. The parse depends on the text alone.
#[verifier::external_body]
fn parse_json_object(text: &str) -> (r: Result<Option<Vec<(String, Vec<u8>)>>, serde_json::Error>)
    ensures
        r is Ok <==> json_object_members(text@) is Some,
        r matches Ok(o) ==> json_object_members(text@) == Some(parsed_views(o)),
        r matches Ok(Some(v)) ==> keys_distinct(member_views(v@)),
{
    match serde_json::from_str::<serde_json::Value>(text) {
        Ok(serde_json::Value::Object(map)) => Ok(Some(map.into_iter().map(|(k, v)| (k, v.to_string().into_bytes())).collect())),
        Ok(serde_json::Value::Null) => Ok(None),
        Ok(serde_json::Value::Bool(_)) => Ok(None),
        Ok(serde_json::Value::Number(_)) => Ok(None),
        Ok(serde_json::Value::String(_)) => Ok(None),
        Ok(serde_json::Value::Array(_)) => Ok(None),
        Err(e) => Err(e),
    }
}

/// Trusted: `serde_json::to_vec` of a string slice. Serialising a string into
/// a `Vec<u8>` cannot fail; the bytes are the JSON literal of `s`.
#[verifier::external_body]
fn json_string_bytes(s: &str) -> (r: Vec<u8>)
    ensures
        r@ == json_string_encoding(s@),
{
    serde_json::to_vec(s).unwrap_or_default()
}

/// Trusted: `serde_json::from_slice::<serde_json::Value>` of `compact`, then
/// `serde_json::to_vec_pretty` of that value. The result depends on the bytes
/// alone.
#[verifier::external_body]
fn pretty_json(compact: &[u8]) -> (r: Result<Vec<u8>, serde_json::Error>)
    ensures
        r is Ok <==> json_pretty_text(compact@) is Some,
        r matches Ok(b) ==> json_pretty_text(compact@) == Some(b@),
{
    match serde_json::from_slice::<serde_json::Value>(compact) {
        Ok(value) => serde_json::to_vec_pretty(&value),
        Err(e) => Err(e),
    }
}

/// The bytes of a text written in ASCII, one per character.
pub open spec fn ascii_bytes(s: Seq<char>) -> Seq<u8> {
    s.map_values(|c: char| c as u8)
}

fn push_ascii(v: &mut Vec<u8>, s: &str)
    ensures
        final(v)@ == old(v)@ + ascii_bytes(s@),
{
    let chars = chars_of(s);
    let ghost start = v@;
    let mut i: usize = 0;
    while i < chars.len()
        invariant
            i <= chars@.len(),
            chars@ == s@,
            v@ == start + ascii_bytes(chars@.take(i as int)),
        decreases chars.len() - i,
    {
        let c = chars[i];
        v.push(c as u8);
        proof {
            assert(chars@.take(i as int + 1) == chars@.take(i as int).push(c));
            assert(ascii_bytes(chars@.take(i as int + 1)) == ascii_bytes(chars@.take(i as int)).push(
                c as u8,
            ));
        }
        i += 1;
    }
    assert(chars@.take(i as int) == chars@);
}

/// The key of the bot's own member.
pub open spec fn entry_key() -> Seq<char> {
    "GrateBot"@
}

/// The compact JSON of the bot's member: whether the password is enforced,
/// and the saved password or `null`.
pub open spec fn password_entry_json(password: HytalePasswordSettings) -> Seq<u8> {
    ascii_bytes("{\"password\":"@) + match password.last_password {
        Some(p) => json_string_encoding(p@),
        None => ascii_bytes("null"@),
    } + ascii_bytes(",\"password_enabled\":"@) + ascii_bytes(
        if password.password_enabled {
            "true"@
        } else {
            "false"@
        },
    ) + ascii_bytes("}"@)
}

fn password_entry_bytes(password: &HytalePasswordSettings) -> (r: Vec<u8>)
    ensures
        r@ == password_entry_json(*password),
{
    let mut v: Vec<u8> = Vec::new();
    push_ascii(&mut v, "{\"password\":");
    match &password.last_password {
        Some(p) => {
            let mut enc = json_string_bytes(p.as_str());
            v.append(&mut enc);
        },
        None => push_ascii(&mut v, "null"),
    }
    push_ascii(&mut v, ",\"password_enabled\":");
    if password.password_enabled {
        push_ascii(&mut v, "true");
    } else {
        push_ascii(&mut v, "false");
    }
    push_ascii(&mut v, "}");
    v
}

/// One member in compact JSON: the key's literal, a colon, the value.
pub open spec fn member_json(m: (Seq<char>, Seq<u8>)) -> Seq<u8> {
    json_string_encoding(m.0) + ascii_bytes(":"@) + m.1
}

/// The members in compact JSON, separated by commas.
pub open spec fn members_json(m: Seq<(Seq<char>, Seq<u8>)>) -> Seq<u8>
    decreases m.len(),
{
    if m.len() == 0 {
        Seq::empty()
    } else if m.len() == 1 {
        member_json(m[0])
    } else {
        members_json(m.drop_last()) + ascii_bytes(","@) + member_json(m.last())
    }
}

/// A compact JSON object with these members, in this order.
pub open spec fn object_json(m: Seq<(Seq<char>, Seq<u8>)>) -> Seq<u8> {
    ascii_bytes("{"@) + members_json(m) + ascii_bytes("}"@)
}

fn object_bytes(members: &Vec<(String, Vec<u8>)>) -> (r: Vec<u8>)
    ensures
        r@ == object_json(member_views(members@)),
{
    let mut v: Vec<u8> = Vec::new();
    push_ascii(&mut v, "{");
    let ghost start = v@;
    let mut i: usize = 0;
    while i < members.len()
        invariant
            i <= members@.len(),
            v@ == start + members_json(member_views(members@).take(i as int)),
        decreases members.len() - i,
    {
        let ghost prefix = member_views(members@).take(i as int);
        let ghost next = member_views(members@).take(i as int + 1);
        assert(next.drop_last() == prefix);
        assert(next.last() == (members@[i as int].0@, members@[i as int].1@));
        if i > 0 {
            push_ascii(&mut v, ",");
        }
        let mut key = json_string_bytes(members[i].0.as_str());
        v.append(&mut key);
        push_ascii(&mut v, ":");
        let mut value = members[i].1.clone();
        v.append(&mut value);
        proof {
            if i == 0 {
                assert(next.len() == 1);
                assert(prefix.len() == 0);
            }
            assert(v@ == start + members_json(next));
        }
        i += 1;
    }
    assert(member_views(members@).take(i as int) == member_views(members@));
    push_ascii(&mut v, "}");
    v
}

/// The members with `key` set to `value`: the member of that key is replaced
/// where there is one, else the pair is added at the end.
pub open spec fn with_member(m: Seq<(Seq<char>, Seq<u8>)>, key: Seq<char>, value: Seq<u8>) -> Seq<(Seq<char>, Seq<u8>)> {
    if exists|i: int| 0 <= i < m.len() && m[i].0 == key {
        let i = choose|i: int| 0 <= i < m.len() && m[i].0 == key;
        m.update(i, (key, value))
    } else {
        m.push((key, value))
    }
}

/// The members as a map from key to value.
pub open spec fn members_map(m: Seq<(Seq<char>, Seq<u8>)>) -> Map<Seq<char>, Seq<u8>> {
    Map::new(
        |k: Seq<char>| exists|i: int| 0 <= i < m.len() && m[i].0 == k,
        |k: Seq<char>| m[choose|i: int| 0 <= i < m.len() && m[i].0 == k].1,
    )
}

fn set_member(members: &mut Vec<(String, Vec<u8>)>, key: &str, value: Vec<u8>)
    requires
        keys_distinct(member_views(old(members)@)),
    ensures
        member_views(final(members)@) == with_member(member_views(old(members)@), key@, value@),
{
    let ghost m = member_views(members@);
    let mut i: usize = 0;
    while i < members.len()
        invariant
            i <= members@.len(),
            members@ == old(members)@,
            m == member_views(members@),
            keys_distinct(m),
            forall|j: int| 0 <= j < i ==> m[j].0 != key@,
        decreases members.len() - i,
    {
        if same_text(members[i].0.as_str(), key) {
            proof {
                assert(m[i as int].0 == key@);
                let c = choose|j: int| 0 <= j < m.len() && m[j].0 == key@;
                assert(c == i as int);
            }
            members.set(i, (members[i].0.clone(), value));
            proof {
                assert(member_views(members@) =~= m.update(i as int, (key@, value@)));
            }
            return;
        }
        i += 1;
    }
    let k = owned(key);
    members.push((k, value));
    proof {
        assert(member_views(members@) =~= m.push((key@, value@)));
    }
}

/// The members that the edit starts from: none where there is no file, none
/// where the file holds JSON that is not an object, and `None` where the file
/// is not JSON.
pub open spec fn existing_members(existing: Option<Seq<char>>) -> Option<Seq<(Seq<char>, Seq<u8>)>> {
    match existing {
        None => Some(Seq::empty()),
        Some(t) => match json_object_members(t) {
            None => None,
            Some(None) => Some(Seq::empty()),
            Some(Some(m)) => Some(m),
        },
    }
}

/// The text of the existing file, if there is one.
pub open spec fn existing_view(existing: Option<&str>) -> Option<Seq<char>> {
    match existing {
        Some(t) => Some(t@),
        None => None,
    }
}

/// The file that the edit writes, or why it cannot.
pub open spec fn config_with_password(existing: Option<Seq<char>>, password: HytalePasswordSettings) -> Result<
    Seq<u8>,
    ConfigFileError,
> {
    match existing_members(existing) {
        None => Err(ConfigFileError::Parse),
        Some(m) => match json_pretty_text(
            object_json(with_member(m, entry_key(), password_entry_json(password))),
        ) {
            None => Err(ConfigFileError::Encode),
            Some(b) => Ok(b),
        },
    }
}

/// The new contents of the server's `config.json` given what the file holds
/// now (`None` where there is no file): the `GrateBot` member is set to the
/// password state and every other member is kept.
pub fn hytale_config_with_password(existing: Option<&str>, password: &HytalePasswordSettings) -> (r:
    Result<Vec<u8>, ConfigFileError>)
    ensures
        match r {
            Ok(b) => config_with_password(existing_view(existing), *password) == Ok::<Seq<u8>, ConfigFileError>(b@),
            Err(e) => config_with_password(existing_view(existing), *password) == Err::<Seq<u8>, ConfigFileError>(e),
        },
        existing_members(existing_view(existing)) matches Some(m) ==> keys_distinct(m),
{
    let mut members: Vec<(String, Vec<u8>)> = match existing {
        None => Vec::new(),
        Some(text) => match parse_json_object(text) {
            Ok(Some(v)) => v,
            Ok(None) => Vec::new(),
            Err(_) => {
                return Err(ConfigFileError::Parse);
            },
        },
    };
    proof {
        assert(member_views(members@) == existing_members(existing_view(existing)).unwrap());
    }
    let entry = password_entry_bytes(password);
    set_member(&mut members, "GrateBot", entry);
    let compact = object_bytes(&members);
    match pretty_json(compact.as_slice()) {
        Ok(bytes) => Ok(bytes),
        Err(_) => Err(ConfigFileError::Encode),
    }
}

/// Setting a member keeps the keys distinct, and as a map the members are the
/// old ones with `key` mapped to `value`: every other member stays as it was.
pub proof fn law_set_member_keeps_others(m: Seq<(Seq<char>, Seq<u8>)>, key: Seq<char>, value: Seq<u8>)
    requires
        keys_distinct(m),
    ensures
        keys_distinct(with_member(m, key, value)),
        members_map(with_member(m, key, value)) == members_map(m).insert(key, value),
{
    let r = with_member(m, key, value);
    if exists|i: int| 0 <= i < m.len() && m[i].0 == key {
        let c = choose|i: int| 0 <= i < m.len() && m[i].0 == key;
        assert(r == m.update(c, (key, value)));
        assert forall|k: Seq<char>| #[trigger] members_map(r).dom().contains(k) <==> members_map(
            m,
        ).insert(key, value).dom().contains(k) by {
            if k == key {
                assert(r[c].0 == key);
            } else {
                if members_map(m).dom().contains(k) {
                    let j = choose|i: int| 0 <= i < m.len() && m[i].0 == k;
                    assert(r[j].0 == k);
                }
                if members_map(r).dom().contains(k) {
                    let j = choose|i: int| 0 <= i < r.len() && r[i].0 == k;
                    assert(m[j].0 == k);
                }
            }
        }
        assert forall|k: Seq<char>| #[trigger] members_map(r).dom().contains(k) implies members_map(
            r,
        )[k] == members_map(m).insert(key, value)[k] by {
            let j = choose|i: int| 0 <= i < r.len() && r[i].0 == k;
            if k == key {
                assert(j == c);
            } else {
                let jm = choose|i: int| 0 <= i < m.len() && m[i].0 == k;
                assert(m[j].0 == k);
                assert(jm == j);
            }
        }
        assert(members_map(r) =~= members_map(m).insert(key, value));
    } else {
        assert(r == m.push((key, value)));
        assert forall|k: Seq<char>| #[trigger] members_map(r).dom().contains(k) <==> members_map(
            m,
        ).insert(key, value).dom().contains(k) by {
            if k == key {
                assert(r[m.len() as int].0 == key);
            } else {
                if members_map(m).dom().contains(k) {
                    let j = choose|i: int| 0 <= i < m.len() && m[i].0 == k;
                    assert(r[j].0 == k);
                }
                if members_map(r).dom().contains(k) {
                    let j = choose|i: int| 0 <= i < r.len() && r[i].0 == k;
                    assert(j < m.len());
                    assert(m[j].0 == k);
                }
            }
        }
        assert forall|k: Seq<char>| #[trigger] members_map(r).dom().contains(k) implies members_map(
            r,
        )[k] == members_map(m).insert(key, value)[k] by {
            let j = choose|i: int| 0 <= i < r.len() && r[i].0 == k;
            if k == key {
                assert(j == m.len());
            } else {
                let jm = choose|i: int| 0 <= i < m.len() && m[i].0 == k;
                assert(m[j].0 == k);
                assert(jm == j);
            }
        }
        assert(members_map(r) =~= members_map(m).insert(key, value));
    }
}

} // verus!
