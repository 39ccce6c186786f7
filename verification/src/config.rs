//! Configuration records and the checks the library makes of them.
use crate::errors::LafufuError;
use crate::normalization::identity::{lookup, lookup_exec};
use crate::text::{concat2, owned, str_equal, trim_str, trim_text};
use vstd::prelude::*;

verus! {

/// Where the database lives; the platform's data directory when unset.
#[derive(Debug)]
pub struct DatabaseConfig {
    pub path: Option<String>,
}

impl DatabaseConfig {
    /// No path: the default location.
    pub fn new() -> (r: DatabaseConfig)
        ensures
            r.path is None,
    {
        DatabaseConfig { path: None }
    }
}

/// Identity mappings of the configuration file: alias -> canonical name.
#[derive(Debug)]
pub struct IdentityResolverConfig {
    pub mappings: Vec<(String, String)>,
}

impl IdentityResolverConfig {
    /// No mappings.
    pub fn new() -> (r: IdentityResolverConfig)
        ensures
            r.mappings@.len() == 0,
    {
        IdentityResolverConfig { mappings: Vec::new() }
    }
}

/// The name reached from `name` by following the mappings `n` times, while
/// each name reached is an alias of the table.
pub open spec fn follow(pairs: Seq<(String, String)>, name: Seq<char>, n: nat) -> Option<Seq<char>>
    decreases n,
{
    if n == 0 {
        Some(name)
    } else {
        match follow(pairs, name, (n - 1) as nat) {
            Some(x) => lookup(pairs, x),
            None => None,
        }
    }
}

/// Following the mappings from `alias` leads back to it.
pub open spec fn returns_to(pairs: Seq<(String, String)>, alias: Seq<char>) -> bool {
    exists|n: nat| n >= 1 && #[trigger] follow(pairs, alias, n) == Some(alias)
}

/// Following the mappings from `alias` leads back to it within `k` steps.
pub open spec fn returns_within(pairs: Seq<(String, String)>, alias: Seq<char>, k: nat) -> bool {
    exists|n: nat| 1 <= n <= k && #[trigger] follow(pairs, alias, n) == Some(alias)
}

/// An earlier mapping has the same alias as mapping `i`.
pub open spec fn alias_seen_before(pairs: Seq<(String, String)>, i: int) -> bool {
    exists|j: int| 0 <= j < i && #[trigger] pairs[j].0@ == pairs[i].0@
}

/// The complaint about mapping `i`: an empty side, a mapping to itself, an
/// alias that an earlier mapping already has, two names that map to each
/// other, or a longer chain of mappings that leads back to the alias.
pub open spec fn mapping_problem(pairs: Seq<(String, String)>, i: int) -> Option<Seq<char>> {
    let alias = pairs[i].0@;
    let canonical = pairs[i].1@;
    if trim_text(alias).len() == 0 || trim_text(canonical).len() == 0 {
        Some("Identity mappings cannot contain empty aliases or canonical names"@)
    } else if alias == canonical {
        Some("Identity mapping for '"@ + alias + "' is a self-reference"@)
    } else if alias_seen_before(pairs, i) {
        Some("Duplicate identity mapping for alias '"@ + alias + "'"@)
    } else if lookup(pairs, canonical) == Some(alias) {
        Some("Cyclic identity mapping detected: "@ + alias + " <-> "@ + canonical)
    } else if returns_to(pairs, alias) {
        Some("Cyclic identity mapping detected: "@ + alias + " -> "@ + canonical + " -> ... -> "@ + alias)
    } else {
        None
    }
}

proof fn lemma_follow_compose(pairs: Seq<(String, String)>, a: Seq<char>, n: nat, m: nat)
    ensures
        follow(pairs, a, n + m) == match follow(pairs, a, n) {
            Some(x) => follow(pairs, x, m),
            None => None,
        },
    decreases m,
{
    if m > 0 {
        lemma_follow_compose(pairs, a, n, (m - 1) as nat);
        assert((n + m - 1) as nat == n + (m - 1) as nat);
        match follow(pairs, a, n) {
            Some(x) => {
                assert(follow(pairs, a, n + m) == match follow(pairs, a, (n + m - 1) as nat) {
                    Some(y) => lookup(pairs, y),
                    None => None,
                });
            },
            None => {},
        }
    }
}

proof fn lemma_follow_prefix(pairs: Seq<(String, String)>, a: Seq<char>, n: nat, k: nat)
    requires
        k <= n,
        follow(pairs, a, n) is Some,
    ensures
        follow(pairs, a, k) is Some,
    decreases n - k,
{
    if k < n {
        lemma_follow_prefix(pairs, a, n, k + 1);
    }
}

proof fn lemma_lookup_some_key(pairs: Seq<(String, String)>, key: Seq<char>)
    requires
        lookup(pairs, key) is Some,
    ensures
        exists|j: int| 0 <= j < pairs.len() && #[trigger] pairs[j].0@ == key,
    decreases pairs.len(),
{
    if pairs[0].0@ != key {
        lemma_lookup_some_key(pairs.drop_first(), key);
        let j = choose|j: int| 0 <= j < pairs.drop_first().len() && #[trigger] pairs.drop_first()[j].0@ == key;
        assert(pairs[j + 1].0@ == key);
    }
}

proof fn lemma_pigeonhole(s: Seq<int>, n: int)
    requires
        0 <= n < s.len(),
        forall|k: int| 0 <= k < s.len() ==> 0 <= #[trigger] s[k] < n,
    ensures
        exists|i: int, j: int| 0 <= i < j < s.len() && s[i] == s[j],
{
    if !(exists|i: int, j: int| 0 <= i < j < s.len() && s[i] == s[j]) {
        assert(s.no_duplicates()) by {
            assert forall|i: int, j: int| 0 <= i < s.len() && 0 <= j < s.len() && i != j implies s[i]
                != s[j] by {
                if i < j {
                    assert(!(0 <= i < j < s.len() && s[i] == s[j]));
                } else {
                    assert(!(0 <= j < i < s.len() && s[j] == s[i]));
                }
            }
        }
        s.unique_seq_to_set();
        vstd::set_lib::lemma_int_range(0, n);
        assert(s.to_set().subset_of(vstd::set_lib::set_int_range(0, n)));
        vstd::set_lib::lemma_len_subset(s.to_set(), vstd::set_lib::set_int_range(0, n));
    }
}

/// The name reached after `k` steps.
spec fn step_name(pairs: Seq<(String, String)>, a: Seq<char>, k: int) -> Seq<char> {
    follow(pairs, a, k as nat)->Some_0
}

/// `x` is the alias of some mapping.
spec fn is_alias_of(pairs: Seq<(String, String)>, x: Seq<char>) -> bool {
    exists|j: int| 0 <= j < pairs.len() && #[trigger] pairs[j].0@ == x
}

/// The position of a mapping whose alias is `x`, when there is one.
spec fn alias_index(pairs: Seq<(String, String)>, x: Seq<char>) -> int {
    choose|j: int| 0 <= j < pairs.len() && #[trigger] pairs[j].0@ == x
}

/// A chain of mappings that leads back to its alias does so within as many
/// steps as the table has mappings.
proof fn lemma_return_within(pairs: Seq<(String, String)>, a: Seq<char>, n: nat)
    requires
        n >= 1,
        follow(pairs, a, n) == Some(a),
    ensures
        returns_within(pairs, a, pairs.len()),
    decreases n,
{
    let len = pairs.len();
    if n <= len {
        assert(follow(pairs, a, n) == Some(a));
    } else {
        assert forall|k: int| 0 <= k <= len implies #[trigger] is_alias_of(pairs, step_name(pairs, a, k)) by {
            lemma_follow_prefix(pairs, a, n, (k + 1) as nat);
            lemma_follow_prefix(pairs, a, n, k as nat);
            assert(follow(pairs, a, (k + 1) as nat) == match follow(pairs, a, k as nat) {
                Some(x) => lookup(pairs, x),
                None => None,
            });
            lemma_lookup_some_key(pairs, step_name(pairs, a, k));
        }
        let idx = Seq::new((len + 1) as nat, |k: int| alias_index(pairs, step_name(pairs, a, k)));
        assert forall|k: int| 0 <= k < idx.len() implies 0 <= #[trigger] idx[k] < len
            && pairs[idx[k]].0@ == step_name(pairs, a, k) by {
            assert(is_alias_of(pairs, step_name(pairs, a, k)));
        }
        lemma_pigeonhole(idx, len as int);
        let (i, j) = choose|i: int, j: int| 0 <= i < j < idx.len() && idx[i] == idx[j];
        assert(pairs[idx[i]].0@ == step_name(pairs, a, i));
        assert(pairs[idx[j]].0@ == step_name(pairs, a, j));
        lemma_follow_prefix(pairs, a, n, i as nat);
        lemma_follow_prefix(pairs, a, n, j as nat);
        let t = (n - j) as nat;
        let n2 = (i + t) as nat;
        lemma_follow_compose(pairs, a, j as nat, t);
        lemma_follow_compose(pairs, a, i as nat, t);
        assert(j as nat + t == n);
        assert(follow(pairs, a, n2) == Some(a));
        lemma_return_within(pairs, a, n2);
    }
}

/// Following the mappings from `alias` leads back to it, computed: the chain
/// is followed for as many steps as the table has mappings.
fn returns_to_exec(pairs: &Vec<(String, String)>, alias: &str) -> (r: bool)
    ensures
        r == returns_to(pairs@, alias@),
{
    let mut cur = owned(alias);
    let mut k: usize = 0;
    while k < pairs.len()
        invariant
            k <= pairs@.len(),
            follow(pairs@, alias@, k as nat) == Some(cur@),
            forall|m: nat| 1 <= m <= k ==> #[trigger] follow(pairs@, alias@, m) != Some(alias@),
        decreases pairs@.len() - k,
    {
        assert(follow(pairs@, alias@, (k + 1) as nat) == match follow(pairs@, alias@, k as nat) {
            Some(x) => lookup(pairs@, x),
            None => None,
        });
        match lookup_exec(pairs, cur.as_str()) {
            None => {
                proof {
                    assert(follow(pairs@, alias@, (k + 1) as nat) is None);
                    if returns_to(pairs@, alias@) {
                        let n = choose|n: nat| n >= 1 && #[trigger] follow(pairs@, alias@, n) == Some(alias@);
                        lemma_return_within(pairs@, alias@, n);
                        let m = choose|m: nat| 1 <= m <= pairs@.len() && #[trigger] follow(pairs@, alias@, m) == Some(alias@);
                        if m > k {
                            lemma_follow_prefix(pairs@, alias@, m, (k + 1) as nat);
                        }
                    }
                }
                return false;
            },
            Some(next) => {
                if str_equal(next.as_str(), alias) {
                    assert(follow(pairs@, alias@, (k + 1) as nat) == Some(alias@));
                    return true;
                }
                cur = next;
            },
        }
        k += 1;
    }
    proof {
        if returns_to(pairs@, alias@) {
            let n = choose|n: nat| n >= 1 && #[trigger] follow(pairs@, alias@, n) == Some(alias@);
            lemma_return_within(pairs@, alias@, n);
            let m = choose|m: nat| 1 <= m <= pairs@.len() && #[trigger] follow(pairs@, alias@, m) == Some(alias@);
        }
    }
    false
}

/// The first complaint about the mappings from `i` on.
pub open spec fn first_mapping_problem(pairs: Seq<(String, String)>, i: int) -> Option<Seq<char>>
    decreases pairs.len() - i,
{
    if i < 0 || i >= pairs.len() {
        None
    } else if mapping_problem(pairs, i) is Some {
        mapping_problem(pairs, i)
    } else {
        first_mapping_problem(pairs, i + 1)
    }
}

/// The complaint about mapping `i`, computed.
fn mapping_problem_exec(pairs: &Vec<(String, String)>, i: usize) -> (r: Option<String>)
    requires
        i < pairs@.len(),
    ensures
        match r {
            Some(m) => mapping_problem(pairs@, i as int) == Some(m@),
            None => mapping_problem(pairs@, i as int) is None,
        },
{
    let alias = pairs[i].0.as_str();
    let canonical = pairs[i].1.as_str();
    if trim_str(alias).is_empty() || trim_str(canonical).is_empty() {
        return Some("Identity mappings cannot contain empty aliases or canonical names".to_owned());
    }
    if str_equal(alias, canonical) {
        let m = concat2("Identity mapping for '", alias);
        return Some(concat2(m.as_str(), "' is a self-reference"));
    }
    let mut j: usize = 0;
    while j < i
        invariant
            i < pairs@.len(),
            j <= i,
            alias@ == pairs@[i as int].0@,
            canonical@ == pairs@[i as int].1@,
            trim_text(alias@).len() > 0,
            trim_text(canonical@).len() > 0,
            alias@ != canonical@,
            forall|k: int| 0 <= k < j ==> (#[trigger] pairs@[k]).0@ != alias@,
        decreases i - j,
    {
        if str_equal(pairs[j].0.as_str(), alias) {
            assert(pairs@[j as int].0@ == pairs@[i as int].0@);
            let m = concat2("Duplicate identity mapping for alias '", alias);
            return Some(concat2(m.as_str(), "'"));
        }
        j += 1;
    }
    assert(!alias_seen_before(pairs@, i as int));
    if let Some(next_canonical) = lookup_exec(pairs, canonical) {
        if str_equal(next_canonical.as_str(), alias) {
            let m = concat2("Cyclic identity mapping detected: ", alias);
            let m = concat2(m.as_str(), " <-> ");
            return Some(concat2(m.as_str(), canonical));
        }
    }
    if returns_to_exec(pairs, alias) {
        let m = concat2("Cyclic identity mapping detected: ", alias);
        let m = concat2(m.as_str(), " -> ");
        let m = concat2(m.as_str(), canonical);
        let m = concat2(m.as_str(), " -> ... -> ");
        return Some(concat2(m.as_str(), alias));
    }
    None
}

/// Checks the identity mappings: no empty alias or canonical name, no
/// mapping to itself, no alias mapped twice, and no chain of mappings, of any
/// length, that leads back to where it started. The first offending mapping,
/// in list order, is reported.
pub fn validate_identity_mappings(cfg: &IdentityResolverConfig) -> (r: Result<(), LafufuError>)
    ensures
        match r {
            Ok(()) => first_mapping_problem(cfg.mappings@, 0) is None,
            Err(e) => e matches LafufuError::Config(m) && first_mapping_problem(cfg.mappings@, 0)
                == Some(m@),
        },
{
    let pairs = &cfg.mappings;
    let mut i: usize = 0;
    while i < pairs.len()
        invariant
            pairs@ == cfg.mappings@,
            i <= pairs@.len(),
            first_mapping_problem(pairs@, 0) == first_mapping_problem(pairs@, i as int),
        decreases pairs@.len() - i,
    {
        let problem = mapping_problem_exec(pairs, i);
        assert(first_mapping_problem(pairs@, i as int) == if mapping_problem(pairs@, i as int) is Some {
            mapping_problem(pairs@, i as int)
        } else {
            first_mapping_problem(pairs@, i + 1)
        });
        if let Some(m) = problem {
            return Err(LafufuError::Config(m));
        }
        i += 1;
    }
    Ok(())
}

proof fn lemma_no_problem_from(pairs: Seq<(String, String)>, k: int, i: int)
    requires
        0 <= k <= i < pairs.len(),
        first_mapping_problem(pairs, k) is None,
    ensures
        mapping_problem(pairs, i) is None,
    decreases i - k,
{
    if k < i {
        lemma_no_problem_from(pairs, k + 1, i);
    }
}

/// Mappings that pass validation have no empty side and no mapping to itself;
/// no alias is mapped twice; and following the mappings from an alias never
/// leads back to it, whatever the number of steps.
pub proof fn law_validated_mappings_are_sound(pairs: Seq<(String, String)>, i: int)
    requires
        first_mapping_problem(pairs, 0) is None,
        0 <= i < pairs.len(),
    ensures
        trim_text(pairs[i].0@).len() > 0,
        trim_text(pairs[i].1@).len() > 0,
        pairs[i].0@ != pairs[i].1@,
        forall|j: int| 0 <= j < pairs.len() && j != i ==> (#[trigger] pairs[j]).0@ != pairs[i].0@,
        forall|n: nat| n >= 1 ==> #[trigger] follow(pairs, pairs[i].0@, n) != Some(pairs[i].0@),
{
    lemma_no_problem_from(pairs, 0, i);
    assert forall|j: int| 0 <= j < pairs.len() && j != i implies (#[trigger] pairs[j]).0@ != pairs[i].0@ by {
        lemma_no_problem_from(pairs, 0, j);
        if j < i {
            if pairs[j].0@ == pairs[i].0@ {
                assert(alias_seen_before(pairs, i));
            }
        } else {
            if pairs[j].0@ == pairs[i].0@ {
                assert(pairs[i].0@ == pairs[j].0@);
                assert(alias_seen_before(pairs, j));
            }
        }
    }
    assert forall|n: nat| n >= 1 implies #[trigger] follow(pairs, pairs[i].0@, n) != Some(pairs[i].0@) by {
        if follow(pairs, pairs[i].0@, n) == Some(pairs[i].0@) {
            assert(returns_to(pairs, pairs[i].0@));
        }
    }
}

/// After a successful validation no name at all leads back to itself by
/// following the mappings: the alias table has no cycle of any length.
pub proof fn law_validated_mappings_have_no_cycles(pairs: Seq<(String, String)>, name: Seq<char>, n: nat)
    requires
        first_mapping_problem(pairs, 0) is None,
        n >= 1,
    ensures
        follow(pairs, name, n) != Some(name),
{
    assert(follow(pairs, name, 0) == Some(name));
    assert(follow(pairs, name, 1) == lookup(pairs, name));
    if lookup(pairs, name) is Some {
        lemma_lookup_some_key(pairs, name);
        let i = choose|j: int| 0 <= j < pairs.len() && #[trigger] pairs[j].0@ == name;
        law_validated_mappings_are_sound(pairs, i);
    } else if follow(pairs, name, n) is Some {
        lemma_follow_prefix(pairs, name, n, 1);
    }
}

} // verus!
