//! Canonical names and entity types for the raw identifiers that logs carry.
use crate::domain::{entity_id_of, Entity};
use crate::json_value::JsonValue;
use crate::text::{contains_str, lowercase_str, owned, split_once_str, starts_with_str, str_equal, strip_prefix_str, trim_str};
use crate::text::{contains_text, find_from, split_once_text, starts_with_text, trim_text, unicode_lowercase};
use crate::time::Timestamp;
use vstd::prelude::*;

verus! {

/// Alias and type rules for entity resolution. Each table is a list of
/// `(key, value)` pairs; a key reads the value of its first pair. A resolver
/// is only built from tables in which no key occurs twice (`keys_unique`), so
/// each key reads the value of its only pair.
#[derive(Debug)]
pub struct IdentityConfig {
    /// Explicit alias mapping: raw identifier -> canonical name.
    pub alias_map: Vec<(String, String)>,
    /// Type overrides: canonical name -> entity type.
    pub type_map: Vec<(String, String)>,
}

/// The value that `key` reads in a table of pairs: that of the first pair with this key.
pub open spec fn lookup(pairs: Seq<(String, String)>, key: Seq<char>) -> Option<Seq<char>>
    decreases pairs.len(),
{
    if pairs.len() == 0 {
        None
    } else if pairs[0].0@ == key {
        Some(pairs[0].1@)
    } else {
        lookup(pairs.drop_first(), key)
    }
}

/// No key occurs twice in a table of pairs.
pub open spec fn keys_unique(pairs: Seq<(String, String)>) -> bool {
    forall|i: int, j: int| 0 <= i < j < pairs.len() ==> (#[trigger] pairs[i]).0@ != (#[trigger] pairs[j]).0@
}

/// In a table without a repeated key, every key reads the value of its own pair.
pub proof fn law_unique_key_reads_its_pair(pairs: Seq<(String, String)>, i: int)
    requires
        keys_unique(pairs),
        0 <= i < pairs.len(),
    ensures
        lookup(pairs, pairs[i].0@) == Some(pairs[i].1@),
{
    assert forall|j: int| 0 <= j < i implies (#[trigger] pairs[j]).0@ != pairs[i].0@ by {
        assert(pairs[j].0@ != pairs[i].0@);
    }
    lemma_lookup_at(pairs, pairs[i].0@, i);
}

proof fn lemma_lookup_at(pairs: Seq<(String, String)>, key: Seq<char>, i: int)
    requires
        0 <= i < pairs.len(),
        pairs[i].0@ == key,
        forall|j: int| 0 <= j < i ==> (#[trigger] pairs[j]).0@ != key,
    ensures
        lookup(pairs, key) == Some(pairs[i].1@),
    decreases i,
{
    if i > 0 {
        assert forall|j: int| 0 <= j < i - 1 implies (#[trigger] pairs.drop_first()[j]).0@ != key by {
            assert(pairs.drop_first()[j] == pairs[j + 1]);
        }
        lemma_lookup_at(pairs.drop_first(), key, i - 1);
    }
}

proof fn lemma_lookup_absent(pairs: Seq<(String, String)>, key: Seq<char>)
    requires
        forall|j: int| 0 <= j < pairs.len() ==> (#[trigger] pairs[j]).0@ != key,
    ensures
        lookup(pairs, key) is None,
    decreases pairs.len(),
{
    if pairs.len() > 0 {
        assert forall|j: int| 0 <= j < pairs.len() - 1 implies (#[trigger] pairs.drop_first()[j]).0@
            != key by {
            assert(pairs.drop_first()[j] == pairs[j + 1]);
        }
        lemma_lookup_absent(pairs.drop_first(), key);
    }
}

proof fn lemma_lookup_update_same_key(
    pairs: Seq<(String, String)>,
    i: int,
    p: (String, String),
    key: Seq<char>,
)
    requires
        0 <= i < pairs.len(),
        pairs[i].0@ == p.0@,
        key != p.0@,
    ensures
        lookup(pairs.update(i, p), key) == lookup(pairs, key),
    decreases pairs.len(),
{
    if i > 0 {
        assert(pairs.update(i, p).drop_first() =~= pairs.drop_first().update(i - 1, p));
        lemma_lookup_update_same_key(pairs.drop_first(), i - 1, p, key);
    } else {
        assert(pairs.update(i, p).drop_first() =~= pairs.drop_first());
    }
}

proof fn lemma_lookup_push(pairs: Seq<(String, String)>, p: (String, String), key: Seq<char>)
    requires
        key != p.0@,
    ensures
        lookup(pairs.push(p), key) == lookup(pairs, key),
    decreases pairs.len(),
{
    if pairs.len() > 0 {
        assert(pairs.push(p).drop_first() =~= pairs.drop_first().push(p));
        lemma_lookup_push(pairs.drop_first(), p, key);
    } else {
        assert(pairs.push(p).drop_first() =~= pairs);
    }
}

/// Looks `key` up in a table of pairs.
pub(crate) fn lookup_exec(pairs: &Vec<(String, String)>, key: &str) -> (r: Option<String>)
    ensures
        match r {
            Some(v) => lookup(pairs@, key@) == Some(v@),
            None => lookup(pairs@, key@) is None,
        },
{
    let mut i: usize = 0;
    while i < pairs.len()
        invariant
            i <= pairs@.len(),
            forall|j: int| 0 <= j < i ==> (#[trigger] pairs@[j]).0@ != key@,
        decreases pairs@.len() - i,
    {
        if str_equal(pairs[i].0.as_str(), key) {
            proof {
                lemma_lookup_at(pairs@, key@, i as int);
            }
            return Some(pairs[i].1.clone());
        }
        i += 1;
    }
    proof {
        lemma_lookup_absent(pairs@, key@);
    }
    None
}

/// Sets the value of `key` in a table: the first pair with this key gets the
/// new value, or a pair is added when there is none.
fn insert_pair(pairs: &mut Vec<(String, String)>, key: &str, value: &str)
    ensures
        lookup(final(pairs)@, key@) == Some(value@),
        keys_unique(old(pairs)@) ==> keys_unique(final(pairs)@),
        forall|k: Seq<char>| k != key@ ==> lookup(final(pairs)@, k) == lookup(old(pairs)@, k),
{
    let mut i: usize = 0;
    while i < pairs.len()
        invariant
            i <= pairs@.len(),
            pairs@ == old(pairs)@,
            forall|j: int| 0 <= j < i ==> (#[trigger] pairs@[j]).0@ != key@,
        decreases pairs@.len() - i,
    {
        if str_equal(pairs[i].0.as_str(), key) {
            let p = (owned(key), owned(value));
            let ghost before = pairs@;
            pairs.set(i, p);
            proof {
                assert forall|j: int| 0 <= j < i implies (#[trigger] pairs@[j]).0@ != key@ by {
                    assert(pairs@[j] == before[j]);
                }
                lemma_lookup_at(pairs@, key@, i as int);
                assert forall|k: Seq<char>| k != key@ implies lookup(pairs@, k) == lookup(
                    before,
                    k,
                ) by {
                    lemma_lookup_update_same_key(before, i as int, p, k);
                }
                if keys_unique(before) {
                    assert forall|a: int, b: int| 0 <= a < b < pairs@.len() implies (#[trigger] pairs@[a]).0@
                        != (#[trigger] pairs@[b]).0@ by {
                        assert(before[a].0@ != before[b].0@);
                    }
                }
            }
            return ;
        }
        i += 1;
    }
    let p = (owned(key), owned(value));
    let ghost before = pairs@;
    pairs.push(p);
    proof {
        assert forall|j: int| 0 <= j < before.len() implies (#[trigger] pairs@[j]).0@ != key@ by {
            assert(pairs@[j] == before[j]);
        }
        lemma_lookup_at(pairs@, key@, before.len() as int);
        assert forall|k: Seq<char>| k != key@ implies lookup(pairs@, k) == lookup(before, k) by {
            lemma_lookup_push(before, p, k);
        }
        if keys_unique(before) {
            assert forall|a: int, b: int| 0 <= a < b < pairs@.len() implies (#[trigger] pairs@[a]).0@
                != (#[trigger] pairs@[b]).0@ by {
                if b < before.len() {
                    assert(before[a].0@ != before[b].0@);
                } else {
                    assert(pairs@[a] == before[a]);
                }
            }
        }
    }
}

impl IdentityConfig {
    /// A configuration with no aliases and no type overrides.
    pub fn new() -> (r: IdentityConfig)
        ensures
            r.alias_map@.len() == 0,
            r.type_map@.len() == 0,
            keys_unique(r.alias_map@),
            keys_unique(r.type_map@),
    {
        IdentityConfig { alias_map: Vec::new(), type_map: Vec::new() }
    }
}

impl Default for IdentityConfig {
    fn default() -> (r: IdentityConfig)
        ensures
            r.alias_map@.len() == 0,
            r.type_map@.len() == 0,
    {
        IdentityConfig::new()
    }
}

/// Heuristic canonical name of a raw identifier: the lower-cased user part
/// of an e-mail address, the number of a `uid=` form, or the lower-cased identifier.
pub open spec fn heuristic_name(raw: Seq<char>) -> Seq<char> {
    if contains_text(raw, "@"@) && !starts_with_text(raw, "@"@) && split_once_text(raw, "@"@) is Some {
        unicode_lowercase(split_once_text(raw, "@"@)->Some_0.0)
    } else if starts_with_text(raw, "uid="@) {
        raw.skip("uid="@.len() as int)
    } else {
        unicode_lowercase(raw)
    }
}

/// Whether a text is an IPv4 or IPv6 address, as `IpAddr`'s `FromStr` reads it.
pub uninterp spec fn is_ip_address_text(s: Seq<char>) -> bool;

/// Heuristic entity type: the fallback when it is known, else `ip_address`
/// for an address, else the fallback.
pub open spec fn heuristic_type(canonical: Seq<char>, fallback: Seq<char>) -> Seq<char> {
    if fallback != "unknown"@ && fallback.len() > 0 {
        fallback
    } else if is_ip_address_text(canonical) {
        "ip_address"@
    } else {
        fallback
    }
}

/// `str::parse::<core::net::IpAddr>` succeeds: the text is an IPv4 or IPv6
/// address, as `is_ip_address_text` names it.
#[verifier::external_body]
fn parses_as_ip_address(s: &str) -> (r: bool)
    ensures
        r == is_ip_address_text(s@),
{
    s.parse::<core::net::IpAddr>().is_ok()
}

/// Canonical name of a raw identifier under a configuration.
pub open spec fn resolved_name(cfg: IdentityConfig, raw: Seq<char>) -> Seq<char> {
    let clean = trim_text(raw);
    match lookup(cfg.alias_map@, clean) {
        Some(name) => name,
        None => heuristic_name(clean),
    }
}

/// Entity type of a raw identifier under a configuration.
pub open spec fn resolved_type(cfg: IdentityConfig, raw: Seq<char>, default_type: Seq<char>) -> Seq<
    char,
> {
    let name = resolved_name(cfg, raw);
    match lookup(cfg.type_map@, name) {
        Some(t) => t,
        None => heuristic_type(name, default_type),
    }
}

/// Resolves raw identifiers to canonical names and entity types.
#[derive(Debug)]
pub struct IdentityResolver {
    config: IdentityConfig,
}

impl IdentityResolver {
    /// The rules this resolver applies.
    pub closed spec fn rules(&self) -> IdentityConfig {
        self.config
    }

    /// A resolver with the given rules; no key may occur twice in either table,
    /// as in the maps the rules stand for.
    pub fn new(config: IdentityConfig) -> (r: IdentityResolver)
        requires
            keys_unique(config.alias_map@),
            keys_unique(config.type_map@),
        ensures
            r.rules() == config,
    {
        IdentityResolver { config }
    }

    /// Adds an alias at runtime (e.g. "alice@company.com" -> "alice"): from now
    /// on `raw_alias` reads `canonical_name`, and every other alias reads as before.
    pub fn register_alias(&mut self, raw_alias: &str, canonical_name: &str)
        ensures
            lookup(final(self).rules().alias_map@, raw_alias@) == Some(canonical_name@),
            forall|k: Seq<char>|
                k != raw_alias@ ==> lookup(final(self).rules().alias_map@, k) == lookup(
                    old(self).rules().alias_map@,
                    k,
                ),
            final(self).rules().type_map == old(self).rules().type_map,
            keys_unique(old(self).rules().alias_map@) ==> keys_unique(final(self).rules().alias_map@),
    {
        insert_pair(&mut self.config.alias_map, raw_alias, canonical_name);
    }

    /// Heuristic canonical name of an already trimmed identifier.
    pub fn heuristic_canonical_name(raw: &str) -> (r: String)
        ensures
            r@ == heuristic_name(raw@),
    {
        if contains_str(raw, "@") && !starts_with_str(raw, "@") {
            if let Some((user, _domain)) = split_once_str(raw, "@") {
                return lowercase_str(user);
            }
        }
        if let Some(suffix) = strip_prefix_str(raw, "uid=") {
            return owned(suffix);
        }
        lowercase_str(raw)
    }

    /// Heuristic entity type of a canonical name.
    pub fn heuristic_entity_type(canonical_name: &str, fallback_type: &str) -> (r: String)
        ensures
            r@ == heuristic_type(canonical_name@, fallback_type@),
    {
        if !str_equal(fallback_type, "unknown") && !fallback_type.is_empty() {
            return owned(fallback_type);
        }
        if parses_as_ip_address(canonical_name) {
            return owned("ip_address");
        }
        owned(fallback_type)
    }

    /// Resolves a raw identifier and a default entity type to a canonical name
    /// and an entity type.
    pub fn resolve_identifier(&self, raw_id: &str, default_type: &str) -> (r: (String, String))
        ensures
            r.0@ == resolved_name(self.rules(), raw_id@),
            r.1@ == resolved_type(self.rules(), raw_id@, default_type@),
    {
        let raw_clean = trim_str(raw_id);
        let canonical_name = match lookup_exec(&self.config.alias_map, raw_clean) {
            Some(c) => c,
            None => Self::heuristic_canonical_name(raw_clean),
        };
        let entity_type = match lookup_exec(&self.config.type_map, canonical_name.as_str()) {
            Some(t) => t,
            None => Self::heuristic_entity_type(canonical_name.as_str(), default_type),
        };
        (canonical_name, entity_type)
    }

    /// Resolves raw inputs directly into an entity.
    pub fn resolve_entity(
        &self,
        raw_id: &str,
        default_type: &str,
        attributes: JsonValue,
        valid_from: Timestamp,
    ) -> (r: Entity)
        ensures
            r.canonical_name@ == resolved_name(self.rules(), raw_id@),
            r.entity_type@ == resolved_type(self.rules(), raw_id@, default_type@),
            r.id == entity_id_of(r.entity_type@, r.canonical_name@),
            r.attributes == attributes,
            r.valid_from == valid_from,
            r.valid_to is None,
    {
        let (canonical_name, entity_type) = self.resolve_identifier(raw_id, default_type);
        Entity::new(entity_type.as_str(), canonical_name.as_str(), attributes, valid_from)
    }
}

impl Default for IdentityResolver {
    fn default() -> (r: IdentityResolver)
        ensures
            r.rules().alias_map@.len() == 0,
            r.rules().type_map@.len() == 0,
    {
        IdentityResolver::new(IdentityConfig::new())
    }
}

/// Where `s` holds no `@` from position `j` on, no `@` is found from there.
proof fn lemma_no_at_sign_found(s: Seq<char>, j: int)
    requires
        0 <= j,
        forall|k: int| j <= k < s.len() ==> s[k] != '@',
    ensures
        find_from(s, "@"@, j) is None,
    decreases s.len() + 1 - j,
{
    reveal_strlit("@");
    if j + 1 <= s.len() {
        assert(s.subrange(j, j + 1)[0] == s[j]);
        lemma_no_at_sign_found(s, j + 1);
    }
}

/// In `user@domain`, where `user` holds no `@`, the first `@` follows `user`.
proof fn lemma_first_at_sign(user: Seq<char>, domain: Seq<char>, j: int)
    requires
        0 <= j <= user.len(),
        forall|k: int| 0 <= k < user.len() ==> user[k] != '@',
    ensures
        find_from(user + "@"@ + domain, "@"@, j) == Some(user.len() as int),
    decreases user.len() - j,
{
    reveal_strlit("@");
    let s = user + "@"@ + domain;
    if j < user.len() {
        assert(s.subrange(j, j + 1)[0] == user[j]);
        lemma_first_at_sign(user, domain, j + 1);
    } else {
        assert(s.subrange(j, j + 1) =~= "@"@);
    }
}

/// Without an alias, an e-mail address resolves to the lower case of its user
/// part: `alice@company.com` and `Alice@Company.com` both become `alice`.
pub proof fn law_email_resolves_to_user(cfg: IdentityConfig, raw: Seq<char>, user: Seq<char>, domain: Seq<char>)
    requires
        trim_text(raw) == user + "@"@ + domain,
        user.len() > 0,
        forall|k: int| 0 <= k < user.len() ==> user[k] != '@',
        lookup(cfg.alias_map@, trim_text(raw)) is None,
    ensures
        resolved_name(cfg, raw) == unicode_lowercase(user),
{
    reveal_strlit("@");
    let s = user + "@"@ + domain;
    lemma_first_at_sign(user, domain, 0);
    assert(s.take(1)[0] == user[0]);
    assert(!starts_with_text(s, "@"@));
    assert(s.take(user.len() as int) =~= user);
}

/// Without an alias, a `uid=<n>` identifier without `@` resolves to `<n>`.
pub proof fn law_uid_resolves_to_number(cfg: IdentityConfig, raw: Seq<char>, n: Seq<char>)
    requires
        trim_text(raw) == "uid="@ + n,
        forall|k: int| 0 <= k < n.len() ==> n[k] != '@',
        lookup(cfg.alias_map@, trim_text(raw)) is None,
    ensures
        resolved_name(cfg, raw) == n,
{
    reveal_strlit("uid=");
    let s = "uid="@ + n;
    assert forall|k: int| 0 <= k < s.len() implies s[k] != '@' by {
        if k >= 4 {
            assert(s[k] == n[k - 4]);
        }
    }
    lemma_no_at_sign_found(s, 0);
    assert(s.take(4) =~= "uid="@);
    assert(s.skip(4) =~= n);
}

/// Without an alias, any other identifier (no `@`, no `uid=` in front) resolves
/// to its lower case, after surrounding white space is removed.
pub proof fn law_plain_identifier_resolves_to_lower_case(cfg: IdentityConfig, raw: Seq<char>)
    requires
        forall|k: int| 0 <= k < trim_text(raw).len() ==> trim_text(raw)[k] != '@',
        !starts_with_text(trim_text(raw), "uid="@),
        lookup(cfg.alias_map@, trim_text(raw)) is None,
    ensures
        resolved_name(cfg, raw) == unicode_lowercase(trim_text(raw)),
{
    lemma_no_at_sign_found(trim_text(raw), 0);
}

/// Without a type rule for its canonical name, an identifier takes the default
/// type it came with, unless that type is empty or `unknown`; then an address
/// is an `ip_address`.
pub proof fn law_default_type_stands(cfg: IdentityConfig, raw: Seq<char>, default_type: Seq<char>)
    requires
        lookup(cfg.type_map@, resolved_name(cfg, raw)) is None,
    ensures
        default_type != "unknown"@ && default_type.len() > 0 ==> resolved_type(cfg, raw, default_type)
            == default_type,
        (default_type == "unknown"@ || default_type.len() == 0) && is_ip_address_text(resolved_name(cfg, raw))
            ==> resolved_type(cfg, raw, default_type) == "ip_address"@,
{
}

/// An alias, once registered, resolves to its canonical name: every raw
/// identifier that trims to the alias reads as the canonical name afterwards.
/// (`after` is a resolver as `register_alias(alias, canonical)` leaves it.)
pub proof fn law_registered_alias_resolves(
    after: IdentityResolver,
    alias: Seq<char>,
    canonical: Seq<char>,
    raw: Seq<char>,
)
    requires
        lookup(after.rules().alias_map@, alias) == Some(canonical),
        trim_text(raw) == alias,
    ensures
        resolved_name(after.rules(), raw) == canonical,
{
}

/// Registering an alias changes nothing for identifiers that do not trim to it.
/// (`before` and `after` are a resolver before and after `register_alias(alias, _)`.)
pub proof fn law_register_alias_keeps_others(
    before: IdentityResolver,
    after: IdentityResolver,
    alias: Seq<char>,
    raw: Seq<char>,
    default_type: Seq<char>,
)
    requires
        forall|k: Seq<char>| k != alias ==> lookup(after.rules().alias_map@, k) == lookup(
            before.rules().alias_map@,
            k,
        ),
        after.rules().type_map == before.rules().type_map,
        trim_text(raw) != alias,
    ensures
        resolved_name(after.rules(), raw) == resolved_name(before.rules(), raw),
        resolved_type(after.rules(), raw, default_type) == resolved_type(before.rules(), raw, default_type),
{
}

/// Identifiers that resolve to the same canonical name become one entity: the
/// same entity type and the same deterministic identifier.
pub proof fn law_same_name_same_entity(
    cfg: IdentityConfig,
    raw1: Seq<char>,
    raw2: Seq<char>,
    default_type: Seq<char>,
)
    requires
        resolved_name(cfg, raw1) == resolved_name(cfg, raw2),
    ensures
        resolved_type(cfg, raw1, default_type) == resolved_type(cfg, raw2, default_type),
        entity_id_of(resolved_type(cfg, raw1, default_type), resolved_name(cfg, raw1)) == entity_id_of(
            resolved_type(cfg, raw2, default_type),
            resolved_name(cfg, raw2),
        ),
{
}

} // verus!
