//! Configuration data: server, storage, identity and repository settings,
//! and the lookup tables built from them. Reading the configuration file
//! itself is left to the surrounding program; this module holds the
//! validated data and the pure builders over it.

use vstd::hash_map::StringHashMap;
use vstd::prelude::*;

use crate::registry::is_valid_namespace;
use crate::text::{dec_val, is_dec_char, is_dec_str, parse_u64, push_char, str_eq};

verus! {

pub struct ServerTlsConfig {
    pub server_certificate_bundle: String,
    pub server_private_key: String,
    pub client_ca_bundle: Option<String>,
}

pub struct ServerConfig {
    pub bind_address: String,
    pub port: u16,
    pub query_timeout: u64,
    pub query_timeout_grace_period: u64,
    pub tls: Option<ServerTlsConfig>,
}

impl ServerConfig {
    /// Default bound on a request's total time, in seconds.
    pub fn default_query_timeout() -> (r: u64)
        ensures
            r == 3600,
    {
        3600
    }

    /// Default grace period granted past the timeout, in seconds.
    pub fn default_query_timeout_grace_period() -> (r: u64)
        ensures
            r == 60,
    {
        60
    }
}

pub struct StorageFSConfig {
    pub root_dir: String,
}

pub enum StorageBackendConfig {
    FS(StorageFSConfig),
}

pub struct StorageConfig {
    pub backend: StorageBackendConfig,
}

pub struct IdentityConfig {
    pub username: String,
    pub password: String,
}

pub struct RepositoryConfig {
    pub namespace: String,
    pub policy_default_allow: bool,
    pub policies: Vec<String>,
}

pub struct Config {
    pub server: ServerConfig,
    pub storage: StorageConfig,
    pub identity: Vec<(String, IdentityConfig)>,
    pub repository: Vec<RepositoryConfig>,
}

/// The credential table: username to (identity id, password), later
/// entries winning on a repeated username.
pub open spec fn spec_credentials(ids: Seq<(String, IdentityConfig)>) -> Map<
    Seq<char>,
    (String, String),
>
    decreases ids.len(),
{
    if ids.len() == 0 {
        Map::empty()
    } else {
        spec_credentials(ids.drop_last()).insert(
            ids.last().1.username@,
            (ids.last().0, ids.last().1.password),
        )
    }
}

/// The set of validly named repositories.
pub open spec fn spec_repository_set(rs: Seq<RepositoryConfig>) -> Set<Seq<char>>
    decreases rs.len(),
{
    if rs.len() == 0 {
        Set::empty()
    } else {
        let rest = spec_repository_set(rs.drop_last());
        if is_valid_namespace(rs.last().namespace@) {
            rest.insert(rs.last().namespace@)
        } else {
            rest
        }
    }
}

/// The default-allow table of every configured repository.
pub open spec fn spec_default_allow(rs: Seq<RepositoryConfig>) -> Map<Seq<char>, bool>
    decreases rs.len(),
{
    if rs.len() == 0 {
        Map::empty()
    } else {
        spec_default_allow(rs.drop_last()).insert(
            rs.last().namespace@,
            rs.last().policy_default_allow,
        )
    }
}

impl Config {
    /// Builds the credential lookup table from the identity section.
    pub fn build_credentials(&self) -> (r: StringHashMap<(String, String)>)
        ensures
            r@ == spec_credentials(self.identity@),
    {
        let mut credentials_map = StringHashMap::new();
        let n = self.identity.len();
        let mut i: usize = 0;
        proof {
            assert(self.identity@.take(0) =~= Seq::<(String, IdentityConfig)>::empty());
        }
        while i < n
            invariant
                0 <= i <= n,
                n == self.identity@.len(),
                credentials_map@ == spec_credentials(self.identity@.take(i as int)),
            decreases n - i,
        {
            proof {
                assert(self.identity@.take(i + 1).drop_last() =~= self.identity@.take(i as int));
                assert(self.identity@.take(i + 1).last() == self.identity@[i as int]);
            }
            let entry = &self.identity[i];
            credentials_map.insert(
                entry.1.username.clone(),
                (entry.0.clone(), entry.1.password.clone()),
            );
            i = i + 1;
        }
        proof {
            assert(self.identity@.take(n as int) =~= self.identity@);
        }
        credentials_map
    }

    /// Collects the validly named repositories; an invalid name is
    /// skipped rather than rejected.
    pub fn build_repositories_list(&self) -> (r: Vec<String>)
        ensures
            crate::listing::sorted_strict(r.deep_view()),
            crate::listing::name_set(r.deep_view()) == spec_repository_set(self.repository@),
    {
        let mut namespaces: Vec<String> = Vec::new();
        let n = self.repository.len();
        let mut i: usize = 0;
        proof {
            assert(self.repository@.take(0) =~= Seq::<RepositoryConfig>::empty());
            assert(crate::listing::name_set(namespaces.deep_view()) =~= spec_repository_set(
                self.repository@.take(0),
            ));
        }
        while i < n
            invariant
                0 <= i <= n,
                n == self.repository@.len(),
                crate::listing::sorted_strict(namespaces.deep_view()),
                crate::listing::name_set(namespaces.deep_view()) == spec_repository_set(
                    self.repository@.take(i as int),
                ),
            decreases n - i,
        {
            proof {
                assert(self.repository@.take(i + 1).drop_last() =~= self.repository@.take(
                    i as int,
                ));
                assert(self.repository@.take(i + 1).last() == self.repository@[i as int]);
            }
            let repo = &self.repository[i];
            let valid = crate::registry::namespace_ok(repo.namespace.as_str());
            if valid {
                crate::listing::insert_sorted_unique(&mut namespaces, repo.namespace.clone());
            }
            i = i + 1;
        }
        proof {
            assert(self.repository@.take(n as int) =~= self.repository@);
        }
        namespaces
    }

    /// Builds the per-repository default-allow table.
    pub fn build_repository_default_allow_list(&self) -> (r: StringHashMap<bool>)
        ensures
            r@ == spec_default_allow(self.repository@),
    {
        let mut policy_default_allow_map = StringHashMap::new();
        let n = self.repository.len();
        let mut i: usize = 0;
        proof {
            assert(self.repository@.take(0) =~= Seq::<RepositoryConfig>::empty());
        }
        while i < n
            invariant
                0 <= i <= n,
                n == self.repository@.len(),
                policy_default_allow_map@ == spec_default_allow(self.repository@.take(i as int)),
            decreases n - i,
        {
            proof {
                assert(self.repository@.take(i + 1).drop_last() =~= self.repository@.take(
                    i as int,
                ));
                assert(self.repository@.take(i + 1).last() == self.repository@[i as int]);
            }
            let repo = &self.repository[i];
            policy_default_allow_map.insert(repo.namespace.clone(), repo.policy_default_allow);
            i = i + 1;
        }
        proof {
            assert(self.repository@.take(n as int) =~= self.repository@);
        }
        policy_default_allow_map
    }
}

/// A size expressed in configuration: either a bare byte count, or a
/// count with a decimal or binary unit.
#[derive(Debug)]
pub enum DataSize {
    WithUnit(u64, String),
    WithoutUnit(u64),
}

pub enum DataSizeView {
    WithUnit(u64, Seq<char>),
    WithoutUnit(u64),
}

impl View for DataSize {
    type V = DataSizeView;

    open spec fn view(&self) -> DataSizeView {
        match self {
            DataSize::WithUnit(n, u) => DataSizeView::WithUnit(*n, u@),
            DataSize::WithoutUnit(n) => DataSizeView::WithoutUnit(*n),
        }
    }
}

/// The byte multiplier of a unit; an unrecognised unit counts bytes.
pub open spec fn spec_unit_factor(u: Seq<char>) -> nat {
    if u == "K"@ || u == "KB"@ {
        1000
    } else if u == "M"@ || u == "MB"@ {
        1000000
    } else if u == "G"@ || u == "GB"@ {
        1000000000
    } else if u == "KI"@ || u == "KIB"@ {
        1024
    } else if u == "MI"@ || u == "MIB"@ {
        1048576
    } else if u == "GI"@ || u == "GIB"@ {
        1073741824
    } else {
        1
    }
}

pub open spec fn spec_valid_unit(u: Seq<char>) -> bool {
    u == "K"@ || u == "KB"@ || u == "M"@ || u == "MB"@ || u == "G"@ || u == "GB"@ || u == "KI"@
        || u == "KIB"@ || u == "MI"@ || u == "MIB"@ || u == "GI"@ || u == "GIB"@
}

pub open spec fn spec_data_size_bytes(d: DataSizeView) -> nat {
    match d {
        DataSizeView::WithUnit(n, u) => (n * spec_unit_factor(u)) as nat,
        DataSizeView::WithoutUnit(n) => n as nat,
    }
}

fn unit_factor(u: &str) -> (r: u64)
    ensures
        r == spec_unit_factor(u@),
{
    if str_eq(u, "K") || str_eq(u, "KB") {
        1000
    } else if str_eq(u, "M") || str_eq(u, "MB") {
        1000000
    } else if str_eq(u, "G") || str_eq(u, "GB") {
        1000000000
    } else if str_eq(u, "KI") || str_eq(u, "KIB") {
        1024
    } else if str_eq(u, "MI") || str_eq(u, "MIB") {
        1048576
    } else if str_eq(u, "GI") || str_eq(u, "GIB") {
        1073741824
    } else {
        1
    }
}

impl DataSize {
    /// The size in bytes. The multiplication must fit a machine word.
    pub fn as_bytes(&self) -> (r: u64)
        requires
            spec_data_size_bytes(self@) <= u64::MAX,
        ensures
            r == spec_data_size_bytes(self@),
    {
        match self {
            DataSize::WithUnit(size, unit) => {
                let f = unit_factor(unit.as_str());
                *size * f
            },
            DataSize::WithoutUnit(size) => *size,
        }
    }
}

/// Uppercase of a lowercase ASCII letter; other characters unchanged.
pub open spec fn ascii_upper(c: char) -> char {
    if 'a' <= c && c <= 'z' {
        (((c as u32) - 32) as u8) as char
    } else {
        c
    }
}

pub open spec fn upper_of(s: Seq<char>) -> Seq<char>
    decreases s.len(),
{
    if s.len() == 0 {
        Seq::empty()
    } else {
        upper_of(s.drop_last()).push(ascii_upper(s.last()))
    }
}

pub open spec fn is_ascii_alpha(c: char) -> bool {
    ('a' <= c && c <= 'z') || ('A' <= c && c <= 'Z')
}

/// How a size string is read: a decimal count, optionally followed by
/// ASCII letters naming a unit. A count that is missing or too large
/// falls back to zero; a trailing part that is not a known unit (after
/// uppercasing) is rejected.
pub open spec fn spec_parse_data_size(s: Seq<char>, split: int) -> Option<DataSizeView>
    recommends
        0 <= split <= s.len(),
{
    let digits = s.take(split);
    let rest = s.skip(split);
    let size: u64 = if is_dec_str(digits) && dec_val(digits) <= u64::MAX {
        dec_val(digits) as u64
    } else {
        0
    };
    if rest.len() == 0 {
        Some(DataSizeView::WithoutUnit(size))
    } else if spec_valid_unit(upper_of(rest)) {
        Some(DataSizeView::WithUnit(size, upper_of(rest)))
    } else {
        None
    }
}

impl DataSize {
    /// Parses a size string: digits, then an optional unit, uppercased
    /// and checked against the known units.
    #[verifier::loop_isolation(false)]
    pub fn parse(s: &str) -> (r: Option<DataSize>)
        ensures
            ({
                let split = digits_prefix_len(s@);
                match r {
                    Some(d) => 0 <= split <= s@.len() && (forall|i: int|
                        split <= i < s@.len() ==> is_ascii_alpha(#[trigger] s@[i]))
                        && spec_parse_data_size(s@, split) == Some(d@),
                    None => !((forall|i: int|
                        digits_prefix_len(s@) <= i < s@.len() ==> is_ascii_alpha(
                            #[trigger] s@[i],
                        )) && spec_parse_data_size(s@, digits_prefix_len(s@)) is Some),
                }
            }),
    {
        let n = s.unicode_len();
        let mut split: usize = 0;
        while split < n && dec_char_at(s, split)
            invariant
                0 <= split <= n,
                n == s@.len(),
                forall|j: int| 0 <= j < split ==> is_dec_char(#[trigger] s@[j]),
            decreases n - split,
        {
            split = split + 1;
        }
        proof {
            lemma_digits_prefix_len(s@, split as int);
        }
        let digits = s.substring_char(0, split);
        let size: u64 = match parse_u64(digits) {
            Some(v) => v,
            None => 0,
        };
        if split == n {
            proof {
                assert(s@.skip(split as int).len() == 0);
            }
            return Some(DataSize::WithoutUnit(size));
        }
        let mut unit = String::new();
        let mut i: usize = split;
        while i < n
            invariant
                split <= i <= n,
                n == s@.len(),
                forall|j: int| split <= j < i ==> is_ascii_alpha(#[trigger] s@[j]),
                unit@ == upper_of(s@.subrange(split as int, i as int)),
            decreases n - i,
        {
            let c = s.get_char(i);
            let lower = 'a' <= c && c <= 'z';
            let upper = 'A' <= c && c <= 'Z';
            if !lower && !upper {
                proof {
                    assert(!is_ascii_alpha(s@[i as int]));
                }
                return None;
            }
            let uc = if lower {
                (((c as u32) - 32) as u8) as char
            } else {
                c
            };
            push_char(&mut unit, uc);
            proof {
                assert(s@.subrange(split as int, i + 1).drop_last() =~= s@.subrange(
                    split as int,
                    i as int,
                ));
                assert(s@.subrange(split as int, i + 1).last() == s@[i as int]);
            }
            i = i + 1;
        }
        proof {
            assert(s@.subrange(split as int, n as int) =~= s@.skip(split as int));
        }
        if !(str_eq(unit.as_str(), "K") || str_eq(unit.as_str(), "KB") || str_eq(
            unit.as_str(),
            "M",
        ) || str_eq(unit.as_str(), "MB") || str_eq(unit.as_str(), "G") || str_eq(
            unit.as_str(),
            "GB",
        ) || str_eq(unit.as_str(), "KI") || str_eq(unit.as_str(), "KIB") || str_eq(
            unit.as_str(),
            "MI",
        ) || str_eq(unit.as_str(), "MIB") || str_eq(unit.as_str(), "GI") || str_eq(
            unit.as_str(),
            "GIB",
        )) {
            return None;
        }
        Some(DataSize::WithUnit(size, unit))
    }
}

/// Whether the character at `i` is a decimal digit.
fn dec_char_at(s: &str, i: usize) -> (r: bool)
    requires
        i < s@.len(),
    ensures
        r == is_dec_char(s@[i as int]),
{
    let c = s.get_char(i);
    '0' <= c && c <= '9'
}

/// Length of the leading run of decimal digits.
pub open spec fn digits_prefix_len(s: Seq<char>) -> int
    decreases s.len(),
{
    if s.len() == 0 {
        0
    } else if is_dec_char(s.first()) {
        1 + digits_prefix_len(s.drop_first())
    } else {
        0
    }
}

/// A maximal digit run of length `k` is exactly the digits prefix.
proof fn lemma_digits_prefix_len(s: Seq<char>, k: int)
    requires
        0 <= k <= s.len(),
        forall|j: int| 0 <= j < k ==> is_dec_char(#[trigger] s[j]),
        k < s.len() ==> !is_dec_char(s[k]),
    ensures
        digits_prefix_len(s) == k,
    decreases s.len(),
{
    if s.len() > 0 {
        if k == 0 {
        } else {
            assert(is_dec_char(s.first()));
            assert forall|j: int| 0 <= j < k - 1 implies is_dec_char(
                #[trigger] s.drop_first()[j],
            ) by {
                assert(s.drop_first()[j] == s[j + 1]);
            }
            if k - 1 < s.drop_first().len() {
                assert(s.drop_first()[k - 1] == s[k]);
            }
            lemma_digits_prefix_len(s.drop_first(), k - 1);
        }
    }
}

} // verus!
