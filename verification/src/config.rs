//! Configuration model: the settings read from the layered `.hannahanna.yml` files and how
//! one layer is merged over another.
use vstd::prelude::*;
use crate::error::HnError;
use crate::shares::{SearchStep, discover_step};
use crate::paths::spec_path_parent;
use crate::strmap::StringMap;
use crate::text::{chars_of, concat3, find_from, matches_at, slice_chars, spec_trim, str_eq, string_of, trim_chars};

verus! {

/// A directory or file shared from the main repository into worktrees by symlink.
#[derive(Debug)]
pub struct SharedResource {
    pub source: String,
    pub target: String,
    pub compatibility: Option<String>,
}

/// Resources that are copied (not linked) into new worktrees.
#[derive(Debug)]
pub struct SharedConfig {
    pub copy: Vec<CopyResource>,
}

/// One file copied from the main repository into a worktree.
#[derive(Debug)]
pub struct CopyResource {
    pub source: String,
    pub target: String,
}

/// Lifecycle hook scripts.
#[derive(Debug)]
pub struct HooksConfig {
    pub pre_create: Option<String>,
    pub post_create: Option<String>,
    pub pre_remove: Option<String>,
    pub post_remove: Option<String>,
    pub post_switch: Option<String>,
    pub pre_integrate: Option<String>,
    pub post_integrate: Option<String>,
    pub timeout_seconds: u64,
    pub pre_create_conditions: Vec<ConditionalHook>,
    pub post_create_conditions: Vec<ConditionalHook>,
    pub pre_remove_conditions: Vec<ConditionalHook>,
    pub post_remove_conditions: Vec<ConditionalHook>,
    pub post_switch_conditions: Vec<ConditionalHook>,
    pub pre_integrate_conditions: Vec<ConditionalHook>,
    pub post_integrate_conditions: Vec<ConditionalHook>,
}

/// A hook command that runs only when its condition on the branch name holds.
#[derive(Debug)]
pub struct ConditionalHook {
    pub condition: String,
    pub command: String,
}

/// Sparse-checkout defaults for new worktrees.
#[derive(Debug)]
pub struct SparseConfig {
    pub enabled: bool,
    pub paths: Vec<String>,
}

/// Docker integration settings.
#[derive(Debug)]
pub struct DockerConfig {
    pub enabled: bool,
    pub strategy: String,
    pub compose_file: String,
    pub ports: PortsConfig,
    pub shared: DockerSharedConfig,
    pub isolated: DockerIsolatedConfig,
    pub auto_start: bool,
    pub auto_stop_others: bool,
    pub env: StringMap<String>,
    pub healthcheck: HealthCheckConfig,
}

/// Port allocation settings.
#[derive(Debug)]
pub struct PortsConfig {
    pub strategy: String,
    pub base: StringMap<u16>,
    pub range: Option<[u16; 2]>,
}

/// Docker resources shared by all worktrees.
#[derive(Debug)]
pub struct DockerSharedConfig {
    pub volumes: Vec<String>,
    pub networks: Vec<String>,
}

/// Docker resources private to each worktree.
#[derive(Debug)]
pub struct DockerIsolatedConfig {
    pub volumes: Vec<String>,
}

/// Container health-check settings.
#[derive(Debug)]
pub struct HealthCheckConfig {
    pub enabled: bool,
    pub timeout: String,
}

/// The whole configuration.
#[derive(Debug)]
pub struct Config {
    pub shared_resources: Vec<SharedResource>,
    pub shared: Option<SharedConfig>,
    pub hooks: HooksConfig,
    pub docker: DockerConfig,
    pub sparse: SparseConfig,
}

/// Default hook timeout, in seconds.
pub fn default_hook_timeout() -> (r: u64)
    ensures
        r == 300,
{
    300
}

/// Default Docker strategy.
pub fn default_strategy() -> (r: String)
    ensures
        r@ == "per-worktree"@,
{
    String::from_str("per-worktree")
}

/// Default compose file name.
pub fn default_compose_file() -> (r: String)
    ensures
        r@ == "docker-compose.yml"@,
{
    String::from_str("docker-compose.yml")
}

/// Default port strategy.
pub fn default_port_strategy() -> (r: String)
    ensures
        r@ == "auto-offset"@,
{
    String::from_str("auto-offset")
}

/// Default health-check timeout.
pub fn default_healthcheck_timeout() -> (r: String)
    ensures
        r@ == "30s"@,
{
    String::from_str("30s")
}

/// The default base port of each known service.
pub open spec fn default_base_ports() -> Map<Seq<char>, u16> {
    Map::empty().insert("app"@, 3000u16).insert("postgres"@, 5432u16).insert("redis"@, 6379u16)
}

impl HooksConfig {
    /// No hooks, a 300-second timeout.
    pub open spec fn is_default(&self) -> bool {
        &&& self.pre_create is None
        &&& self.post_create is None
        &&& self.pre_remove is None
        &&& self.post_remove is None
        &&& self.post_switch is None
        &&& self.pre_integrate is None
        &&& self.post_integrate is None
        &&& self.timeout_seconds == 300
        &&& self.pre_create_conditions@.len() == 0
        &&& self.post_create_conditions@.len() == 0
        &&& self.pre_remove_conditions@.len() == 0
        &&& self.post_remove_conditions@.len() == 0
        &&& self.post_switch_conditions@.len() == 0
        &&& self.pre_integrate_conditions@.len() == 0
        &&& self.post_integrate_conditions@.len() == 0
    }
}

impl Default for HooksConfig {
    fn default() -> (r: Self)
        ensures
            r.is_default(),
    {
        HooksConfig {
            pre_create: None,
            post_create: None,
            pre_remove: None,
            post_remove: None,
            post_switch: None,
            pre_integrate: None,
            post_integrate: None,
            timeout_seconds: default_hook_timeout(),
            pre_create_conditions: Vec::new(),
            post_create_conditions: Vec::new(),
            pre_remove_conditions: Vec::new(),
            post_remove_conditions: Vec::new(),
            post_switch_conditions: Vec::new(),
            pre_integrate_conditions: Vec::new(),
            post_integrate_conditions: Vec::new(),
        }
    }
}

impl PortsConfig {
    /// Strategy `auto-offset`, base ports for app, postgres and redis, range 3000..=9999.
    pub open spec fn is_default(&self) -> bool {
        &&& self.strategy@ == "auto-offset"@
        &&& self.base.view() == default_base_ports()
        &&& self.range == Some([3000u16, 9999u16])
    }
}

impl Default for PortsConfig {
    fn default() -> (r: Self)
        ensures
            r.is_default(),
    {
        let mut base = StringMap::new();
        base.insert(String::from_str("app"), 3000);
        base.insert(String::from_str("postgres"), 5432);
        base.insert(String::from_str("redis"), 6379);
        PortsConfig { strategy: default_port_strategy(), base, range: Some([3000, 9999]) }
    }
}

impl Default for HealthCheckConfig {
    fn default() -> (r: Self)
        ensures
            !r.enabled,
            r.timeout@ == "30s"@,
    {
        HealthCheckConfig { enabled: false, timeout: default_healthcheck_timeout() }
    }
}

impl Default for DockerSharedConfig {
    fn default() -> (r: Self)
        ensures
            r.volumes@.len() == 0,
            r.networks@.len() == 0,
    {
        DockerSharedConfig { volumes: Vec::new(), networks: Vec::new() }
    }
}

impl Default for DockerIsolatedConfig {
    fn default() -> (r: Self)
        ensures
            r.volumes@.len() == 0,
    {
        DockerIsolatedConfig { volumes: Vec::new() }
    }
}

impl Default for SparseConfig {
    fn default() -> (r: Self)
        ensures
            !r.enabled,
            r.paths@.len() == 0,
    {
        SparseConfig { enabled: false, paths: Vec::new() }
    }
}

impl DockerConfig {
    /// Docker off, default strategy, compose file, ports and health check, nothing shared.
    pub open spec fn is_default(&self) -> bool {
        &&& !self.enabled
        &&& self.strategy@ == "per-worktree"@
        &&& self.compose_file@ == "docker-compose.yml"@
        &&& self.ports.is_default()
        &&& self.shared.volumes@.len() == 0
        &&& self.shared.networks@.len() == 0
        &&& self.isolated.volumes@.len() == 0
        &&& !self.auto_start
        &&& !self.auto_stop_others
        &&& self.env.view() == Map::<Seq<char>, String>::empty()
        &&& !self.healthcheck.enabled
        &&& self.healthcheck.timeout@ == "30s"@
    }
}

impl Default for DockerConfig {
    fn default() -> (r: Self)
        ensures
            r.is_default(),
    {
        DockerConfig {
            enabled: false,
            strategy: default_strategy(),
            compose_file: default_compose_file(),
            ports: PortsConfig::default(),
            shared: DockerSharedConfig::default(),
            isolated: DockerIsolatedConfig::default(),
            auto_start: false,
            auto_stop_others: false,
            env: StringMap::new(),
            healthcheck: HealthCheckConfig::default(),
        }
    }
}

impl Config {
    /// Nothing shared, no hooks, Docker and sparse checkout at their defaults.
    pub open spec fn is_default(&self) -> bool {
        &&& self.shared_resources@.len() == 0
        &&& self.shared is None
        &&& self.hooks.is_default()
        &&& self.docker.is_default()
        &&& !self.sparse.enabled
        &&& self.sparse.paths@.len() == 0
    }
}

impl Default for Config {
    fn default() -> (r: Self)
        ensures
            r.is_default(),
    {
        Config {
            shared_resources: Vec::new(),
            shared: None,
            hooks: HooksConfig::default(),
            docker: DockerConfig::default(),
            sparse: SparseConfig::default(),
        }
    }
}

/// A script option after merging: the newer one when it is set.
pub open spec fn override_opt(old: Option<String>, new: Option<String>) -> Option<String> {
    if new is Some {
        new
    } else {
        old
    }
}

/// A string setting after merging: the newer one when it differs from the default.
pub open spec fn override_str(old: String, new: String, default: Seq<char>) -> String {
    if new@ != default {
        new
    } else {
        old
    }
}

/// The copy lists after merging the `shared` sections.
pub open spec fn merged_shared(old: Option<SharedConfig>, new: Option<SharedConfig>, r: Option<SharedConfig>) -> bool {
    match (old, new) {
        (_, None) => r == old,
        (None, Some(n)) => r == new,
        (Some(o), Some(n)) => r matches Some(m) && m.copy@ == o.copy@ + n.copy@,
    }
}

/// `r` holds the hook settings of `old` with `new` merged over them.
pub open spec fn hooks_merged(old: HooksConfig, new: HooksConfig, r: HooksConfig) -> bool {
    &&& r.pre_create == override_opt(old.pre_create, new.pre_create)
    &&& r.post_create == override_opt(old.post_create, new.post_create)
    &&& r.pre_remove == override_opt(old.pre_remove, new.pre_remove)
    &&& r.post_remove == override_opt(old.post_remove, new.post_remove)
    &&& r.post_switch == override_opt(old.post_switch, new.post_switch)
    &&& r.pre_integrate == override_opt(old.pre_integrate, new.pre_integrate)
    &&& r.post_integrate == override_opt(old.post_integrate, new.post_integrate)
    &&& r.timeout_seconds == (if new.timeout_seconds != 300 {
        new.timeout_seconds
    } else {
        old.timeout_seconds
    })
    &&& r.pre_create_conditions@ == old.pre_create_conditions@ + new.pre_create_conditions@
    &&& r.post_create_conditions@ == old.post_create_conditions@ + new.post_create_conditions@
    &&& r.pre_remove_conditions@ == old.pre_remove_conditions@ + new.pre_remove_conditions@
    &&& r.post_remove_conditions@ == old.post_remove_conditions@ + new.post_remove_conditions@
    &&& r.post_switch_conditions@ == old.post_switch_conditions@ + new.post_switch_conditions@
    &&& r.pre_integrate_conditions@ == old.pre_integrate_conditions@ + new.pre_integrate_conditions@
    &&& r.post_integrate_conditions@ == old.post_integrate_conditions@
        + new.post_integrate_conditions@
}

/// Service `k` on port `v` is one of the default base ports.
pub open spec fn is_default_base(k: Seq<char>, v: u16) -> bool {
    default_base_ports().dom().contains(k) && default_base_ports()[k] == v
}

/// The base ports that a layer sets: its entries other than the defaults.
pub open spec fn set_base_ports(m: Map<Seq<char>, u16>) -> Map<Seq<char>, u16> {
    Map::new(|k: Seq<char>| m.dom().contains(k) && !is_default_base(k, m[k]), |k: Seq<char>| m[k])
}

/// A layer sets the port range when it gives one other than the default 3000 to 9999.
pub open spec fn range_set(range: Option<[u16; 2]>) -> bool {
    range is Some && range != Some([3000u16, 9999u16])
}

/// `r` holds the Docker settings of `old` with `new` merged over them.
pub open spec fn docker_merged(old: DockerConfig, new: DockerConfig, r: DockerConfig) -> bool {
    &&& r.enabled == (old.enabled || new.enabled)
    &&& r.strategy == override_str(old.strategy, new.strategy, "per-worktree"@)
    &&& r.compose_file == override_str(old.compose_file, new.compose_file, "docker-compose.yml"@)
    &&& r.auto_start == (old.auto_start || new.auto_start)
    &&& r.auto_stop_others == (old.auto_stop_others || new.auto_stop_others)
    &&& r.ports.strategy == override_str(old.ports.strategy, new.ports.strategy, "auto-offset"@)
    &&& r.ports.base.view() == old.ports.base.view().union_prefer_right(set_base_ports(new.ports.base.view()))
    &&& r.ports.range == (if range_set(new.ports.range) {
        new.ports.range
    } else {
        old.ports.range
    })
    &&& r.shared.volumes@ == old.shared.volumes@ + new.shared.volumes@
    &&& r.shared.networks@ == old.shared.networks@ + new.shared.networks@
    &&& r.isolated.volumes@ == old.isolated.volumes@ + new.isolated.volumes@
    &&& r.env.view() == old.env.view().union_prefer_right(new.env.view())
    &&& r.healthcheck.enabled == (old.healthcheck.enabled || new.healthcheck.enabled)
    &&& r.healthcheck.timeout == override_str(old.healthcheck.timeout, new.healthcheck.timeout, "30s"@)
}

/// `r` is `old` with the layer `new` merged over it: lists are appended, set options and
/// non-default strings override, flags are or-ed, maps are updated key by key.
pub open spec fn config_merged(old: Config, new: Config, r: Config) -> bool {
    &&& r.shared_resources@ == old.shared_resources@ + new.shared_resources@
    &&& merged_shared(old.shared, new.shared, r.shared)
    &&& hooks_merged(old.hooks, new.hooks, r.hooks)
    &&& docker_merged(old.docker, new.docker, r.docker)
    &&& r.sparse.enabled == (old.sparse.enabled || new.sparse.enabled)
    &&& r.sparse.paths@ == old.sparse.paths@ + new.sparse.paths@
}

fn override_option(target: &mut Option<String>, value: Option<String>)
    ensures
        *final(target) == override_opt(*old(target), value),
{
    if value.is_some() {
        *target = value;
    }
}

fn is_text(s: &String, expected: &str) -> (r: bool)
    ensures
        r == (s@ == expected@),
{
    let e = String::from_str(expected);
    *s == e
}

fn override_string(target: &mut String, value: String, default: &str)
    ensures
        *final(target) == override_str(*old(target), value, default@),
{
    if !is_text(&value, default) {
        *target = value;
    }
}

/// Whether service `k` on port `v` is one of the default base ports.
fn default_base(k: &str, v: u16) -> (r: bool)
    ensures
        r == is_default_base(k@, v),
{
    proof {
        reveal_strlit("app");
        reveal_strlit("postgres");
        reveal_strlit("redis");
        assert(default_base_ports().dom() =~= set!["app"@, "postgres"@, "redis"@]);
        assert("app"@.len() != "postgres"@.len() && "app"@.len() != "redis"@.len() && "postgres"@.len() != "redis"@.len());
    }
    (str_eq(k, "app") && v == 3000) || (str_eq(k, "postgres") && v == 5432) || (str_eq(k, "redis") && v == 6379)
}

/// Whether `range` is set by its layer (see `range_set`).
fn sets_range(range: &Option<[u16; 2]>) -> (r: bool)
    ensures
        r == range_set(*range),
{
    match range {
        Some(x) => {
            let d = x[0] != 3000 || x[1] != 9999;
            proof {
                if !d {
                    assert(*x =~= [3000u16, 9999u16]);
                }
            }
            d
        },
        None => false,
    }
}

/// Stores into `target` every entry of `other` that is not a default base port.
fn update_base_ports(target: &mut StringMap<u16>, other: StringMap<u16>)
    ensures
        final(target).view() == old(target).view().union_prefer_right(set_base_ports(other.view())),
{
    let mut rest = other;
    let mut n = rest.len();
    while n > 0
        invariant
            n == rest.view().dom().len(),
            rest.view().dom().finite(),
            target.view().union_prefer_right(set_base_ports(rest.view())) == old(target).view().union_prefer_right(
                set_base_ports(other.view()),
            ),
        decreases n,
    {
        let ghost before = target.view();
        let ghost rest_before = rest.view();
        match rest.pop() {
            Some((k, v)) => {
                if !default_base(k.as_str(), v) {
                    target.insert(k, v);
                }
                proof {
                    assert(target.view().union_prefer_right(set_base_ports(rest.view())) =~= before.union_prefer_right(
                        set_base_ports(rest_before),
                    ));
                }
            },
            None => {},
        }
        n = n - 1;
    }
    proof {
        assert(set_base_ports(rest.view()) =~= Map::<Seq<char>, u16>::empty());
        assert(target.view().union_prefer_right(set_base_ports(rest.view())) =~= target.view());
    }
}

/// Stores every entry of `other` into `target`.
fn update_map<V>(target: &mut StringMap<V>, other: StringMap<V>)
    ensures
        final(target).view() == old(target).view().union_prefer_right(other.view()),
{
    let mut rest = other;
    let mut n = rest.len();
    while n > 0
        invariant
            n == rest.view().dom().len(),
            rest.view().dom().finite(),
            target.view().union_prefer_right(rest.view()) == old(target).view().union_prefer_right(
                other.view(),
            ),
        decreases n,
    {
        let ghost before = target.view();
        let ghost rest_before = rest.view();
        match rest.pop() {
            Some((k, v)) => {
                target.insert(k, v);
                proof {
                    assert(target.view().union_prefer_right(rest.view()) =~= before.union_prefer_right(
                        rest_before,
                    ));
                }
            },
            None => {},
        }
        n = n - 1;
    }
    proof {
        assert(rest.view() =~= Map::<Seq<char>, V>::empty());
        assert(target.view().union_prefer_right(rest.view()) =~= target.view());
    }
}

impl Config {
    /// Merges the layer `other` over this configuration (see `config_merged`).
    pub fn merge_with(&mut self, other: Config)
        ensures
            config_merged(*old(self), other, *final(self)),
    {
        let Config { mut shared_resources, shared, hooks, docker, sparse } = other;
        self.shared_resources.append(&mut shared_resources);

        match shared {
            Some(mut other_shared) => {
                match &mut self.shared {
                    Some(self_shared) => {
                        self_shared.copy.append(&mut other_shared.copy);
                    },
                    None => {
                        self.shared = Some(other_shared);
                    },
                }
            },
            None => {},
        }

        let HooksConfig {
            pre_create,
            post_create,
            pre_remove,
            post_remove,
            post_switch,
            pre_integrate,
            post_integrate,
            timeout_seconds,
            mut pre_create_conditions,
            mut post_create_conditions,
            mut pre_remove_conditions,
            mut post_remove_conditions,
            mut post_switch_conditions,
            mut pre_integrate_conditions,
            mut post_integrate_conditions,
        } = hooks;
        override_option(&mut self.hooks.pre_create, pre_create);
        override_option(&mut self.hooks.post_create, post_create);
        override_option(&mut self.hooks.pre_remove, pre_remove);
        override_option(&mut self.hooks.post_remove, post_remove);
        override_option(&mut self.hooks.post_switch, post_switch);
        override_option(&mut self.hooks.pre_integrate, pre_integrate);
        override_option(&mut self.hooks.post_integrate, post_integrate);
        if timeout_seconds != default_hook_timeout() {
            self.hooks.timeout_seconds = timeout_seconds;
        }
        self.hooks.pre_create_conditions.append(&mut pre_create_conditions);
        self.hooks.post_create_conditions.append(&mut post_create_conditions);
        self.hooks.pre_remove_conditions.append(&mut pre_remove_conditions);
        self.hooks.post_remove_conditions.append(&mut post_remove_conditions);
        self.hooks.post_switch_conditions.append(&mut post_switch_conditions);
        self.hooks.pre_integrate_conditions.append(&mut pre_integrate_conditions);
        self.hooks.post_integrate_conditions.append(&mut post_integrate_conditions);

        let DockerConfig {
            enabled,
            strategy,
            compose_file,
            ports,
            mut shared,
            mut isolated,
            auto_start,
            auto_stop_others,
            env,
            healthcheck,
        } = docker;
        if enabled {
            self.docker.enabled = true;
        }
        override_string(&mut self.docker.strategy, strategy, "per-worktree");
        override_string(&mut self.docker.compose_file, compose_file, "docker-compose.yml");
        if auto_start {
            self.docker.auto_start = true;
        }
        if auto_stop_others {
            self.docker.auto_stop_others = true;
        }
        let PortsConfig { strategy: port_strategy, base, range } = ports;
        override_string(&mut self.docker.ports.strategy, port_strategy, "auto-offset");
        update_base_ports(&mut self.docker.ports.base, base);
        if sets_range(&range) {
            self.docker.ports.range = range;
        }
        self.docker.shared.volumes.append(&mut shared.volumes);
        self.docker.shared.networks.append(&mut shared.networks);
        self.docker.isolated.volumes.append(&mut isolated.volumes);
        update_map(&mut self.docker.env, env);
        if healthcheck.enabled {
            self.docker.healthcheck.enabled = true;
        }
        override_string(&mut self.docker.healthcheck.timeout, healthcheck.timeout, "30s");

        let SparseConfig { enabled: sparse_enabled, mut paths } = sparse;
        if sparse_enabled {
            self.sparse.enabled = true;
        }
        self.sparse.paths.append(&mut paths);
    }
}

/// The separator of a copy entry, `->`.
pub open spec fn arrow() -> Seq<char> {
    seq!['-', '>']
}

/// `->` occurs in `s` at `i` and nowhere else.
pub open spec fn single_arrow_at(s: Seq<char>, i: int) -> bool {
    matches_at(s, arrow(), i) && forall|j: int| j != i ==> !#[trigger] matches_at(s, arrow(), j)
}

/// The error text for a copy entry that is not of the form `source -> target`.
pub open spec fn copy_format_message(item: Seq<char>) -> Seq<char> {
    "Invalid copy format '"@ + item + "'. Expected 'source -> target'"@
}

/// `c` is the entry that `item` denotes: `item` holds `->` exactly once, and the source and
/// target are the whitespace-trimmed text before and after it.
pub open spec fn copy_parsed(item: Seq<char>, c: CopyResource) -> bool {
    exists|i: int|
        single_arrow_at(item, i) && c.source@ == spec_trim(item.subrange(0, i)) && c.target@
            == spec_trim(item.subrange(i + 2, item.len() as int))
}

/// `item` does not hold `->` exactly once.
pub open spec fn copy_malformed(item: Seq<char>) -> bool {
    forall|i: int| !single_arrow_at(item, i)
}

/// Parses one copy entry `source -> target`: split at `->`, which must occur exactly once,
/// with whitespace trimmed from both sides.
pub fn parse_copy_entry(item: &str) -> (r: Result<CopyResource, HnError>)
    ensures
        match r {
            Ok(c) => copy_parsed(item@, c),
            Err(e) => {
                &&& copy_malformed(item@)
                &&& e matches HnError::ConfigError(m) && m@ == copy_format_message(item@)
            },
        },
{
    let v = chars_of(item);
    let mut sep: Vec<char> = Vec::new();
    sep.push('-');
    sep.push('>');
    assert(sep@ =~= arrow());
    let bad = HnError::ConfigError(
        concat3("Invalid copy format '", item, "'. Expected 'source -> target'"),
    );
    match find_from(v.as_slice(), sep.as_slice(), 0) {
        None => {
            assert forall|i: int| !single_arrow_at(item@, i) by {
                if i < 0 {
                }
            }
            Err(bad)
        },
        Some(i) => {
            assert(i + 2 <= v.len());
            match find_from(v.as_slice(), sep.as_slice(), i + 2) {
                Some(j) => {
                    assert forall|k: int| !single_arrow_at(item@, k) by {
                        if single_arrow_at(item@, k) {
                            assert(matches_at(item@, arrow(), i as int));
                            assert(matches_at(item@, arrow(), j as int));
                        }
                    }
                    Err(bad)
                },
                None => {
                    assert forall|j: int| j != i implies !#[trigger] matches_at(item@, arrow(), j) by {
                        if j == i + 1 && matches_at(item@, arrow(), j) {
                            assert(item@.subrange(i as int, i + 2)[1] == '>');
                            assert(item@.subrange(j, j + 2)[0] == '-');
                        }
                    }
                    assert(single_arrow_at(item@, i as int));
                    let before = slice_chars(v.as_slice(), 0, i);
                    let after = slice_chars(v.as_slice(), i + 2, v.len());
                    let s = trim_chars(before.as_slice());
                    let t = trim_chars(after.as_slice());
                    let c = CopyResource {
                        source: string_of(s.as_slice()),
                        target: string_of(t.as_slice()),
                    };
                    assert(copy_parsed(item@, c));
                    Ok(c)
                },
            }
        },
    }
}

/// Parses a list of copy entries; the first malformed entry is the error.
pub fn parse_copy_list(items: &[String]) -> (r: Result<Vec<CopyResource>, HnError>)
    ensures
        match r {
            Ok(v) => v@.len() == items@.len() && forall|k: int|
                0 <= k < items@.len() ==> copy_parsed(#[trigger] items@[k]@, v@[k]),
            Err(e) => exists|k: int|
                {
                    &&& 0 <= k < items@.len()
                    &&& copy_malformed(#[trigger] items@[k]@)
                    &&& forall|j: int| 0 <= j < k ==> !copy_malformed(#[trigger] items@[j]@)
                    &&& e matches HnError::ConfigError(m) && m@ == copy_format_message(items@[k]@)
                },
        },
{
    let mut out: Vec<CopyResource> = Vec::new();
    let mut k: usize = 0;
    while k < items.len()
        invariant
            k <= items@.len(),
            out@.len() == k,
            forall|j: int| 0 <= j < k ==> copy_parsed(#[trigger] items@[j]@, out@[j]),
        decreases items.len() - k,
    {
        match parse_copy_entry(items[k].as_str()) {
            Ok(c) => {
                out.push(c);
            },
            Err(e) => {
                proof {
                    assert forall|j: int| 0 <= j < k implies !copy_malformed(#[trigger] items@[j]@) by {
                        assert(copy_parsed(items@[j]@, out@[j]));
                    }
                }
                return Err(e);
            },
        }
        k = k + 1;
    }
    Ok(out)
}

/// `chain` starts at the defaults and each next element is the one before with the
/// matching layer of `layers` merged over it; `r` is the last.
pub open spec fn merge_chain(layers: Seq<Config>, chain: Seq<Config>, r: Config) -> bool {
    &&& chain.len() == layers.len() + 1
    &&& chain[0].is_default()
    &&& forall|i: int|
        0 <= i < layers.len() ==> config_merged(chain[i], #[trigger] layers[i], chain[i + 1])
    &&& chain.last() == r
}

impl Config {
    /// The configuration made by merging `layers` over the defaults, lowest priority
    /// first (system, user, repository, local: the files that exist, in that order).
    pub fn load(layers: Vec<Config>) -> (r: Result<Config, HnError>)
        ensures
            r matches Ok(c) && exists|chain: Seq<Config>| #[trigger] merge_chain(layers@, chain, c),
    {
        let ghost ls = layers@;
        let mut rest = layers;
        let mut config = Config::default();
        let ghost mut chain: Seq<Config> = seq![config];
        let mut i: usize = 0;
        let n = rest.len();
        while i < n
            invariant
                i <= n,
                n == ls.len(),
                rest@ == ls.subrange(i as int, ls.len() as int),
                chain.len() == i + 1,
                chain[0].is_default(),
                forall|k: int| 0 <= k < i ==> config_merged(chain[k], #[trigger] ls[k], chain[k + 1]),
                chain.last() == config,
            decreases n - i,
        {
            let layer = rest.remove(0);
            assert(rest@ =~= ls.subrange(i + 1, ls.len() as int));
            assert(layer == ls[i as int]);
            config.merge_with(layer);
            proof {
                chain = chain.push(config);
            }
            i = i + 1;
        }
        assert(merge_chain(ls, chain, config));
        Ok(config)
    }

    /// The repository root: the nearest of `dirs` (a directory and then its ancestors,
    /// nearest first) whose `.git` exists, as `git_exists` tells; an error when none has
    /// one.
    pub fn nearest_repo_root(dirs: &Vec<String>, git_exists: &Vec<bool>) -> (r: Result<String, HnError>)
        requires
            git_exists@.len() == dirs@.len(),
        ensures
            match r {
                Ok(p) => exists|i: int|
                    0 <= i < dirs@.len() && #[trigger] git_exists@[i] && p@ == dirs@[i]@ && forall|j: int|
                        0 <= j < i ==> !#[trigger] git_exists@[j],
                Err(e) => e is NotInRepository && forall|j: int| 0 <= j < dirs@.len() ==> !#[trigger] git_exists@[j],
            },
    {
        let mut i: usize = 0;
        while i < dirs.len()
            invariant
                i <= dirs@.len(),
                git_exists@.len() == dirs@.len(),
                forall|j: int| 0 <= j < i ==> !#[trigger] git_exists@[j],
            decreases dirs.len() - i,
        {
            if git_exists[i] {
                return Ok(dirs[i].clone());
            }
            i = i + 1;
        }
        Err(HnError::NotInRepository)
    }

    /// One step of the search for the repository root upward from `current`: it is the
    /// root when `current/.git` exists, else the search goes on in the parent.
    pub fn find_repo_root(current: &str, git_exists: bool) -> (r: Result<SearchStep, HnError>)
        ensures
            git_exists ==> (r matches Ok(SearchStep::Found(p)) && p@ == current@),
            !git_exists ==> match spec_path_parent(current@) {
                Some(q) => r matches Ok(SearchStep::Up(p)) && p@ == q,
                None => r matches Err(HnError::NotInRepository),
            },
    {
        discover_step(current, git_exists)
    }
}

/// The last option of `opts` that is set, if any.
pub open spec fn last_set<T>(opts: Seq<Option<T>>) -> Option<T>
    decreases opts.len(),
{
    if opts.len() == 0 {
        None
    } else if opts.last() is Some {
        opts.last()
    } else {
        last_set(opts.drop_last())
    }
}

proof fn lemma_chain_override<T>(
    layers: Seq<Config>,
    chain: Seq<Config>,
    f: spec_fn(Config) -> Option<T>,
    n: int,
)
    requires
        chain.len() == layers.len() + 1,
        0 <= n <= layers.len(),
        f(chain[0]) is None,
        forall|k: int|
            0 <= k < layers.len() ==> #[trigger] f(chain[k + 1]) == (if f(layers[k]) is Some {
                f(layers[k])
            } else {
                f(chain[k])
            }),
    ensures
        f(chain[n]) == last_set(layers.take(n).map_values(f)),
    decreases n,
{
    if n > 0 {
        lemma_chain_override(layers, chain, f, n - 1);
        assert(layers.take(n).map_values(f).drop_last() =~= layers.take(n - 1).map_values(f));
        let k = n - 1;
        assert(f(chain[k + 1]) == (if f(layers[k]) is Some {
            f(layers[k])
        } else {
            f(chain[k])
        }));
    } else {
        assert(layers.take(0).map_values(f) =~= Seq::<Option<T>>::empty());
    }
}

/// In a configuration loaded from layers (lowest priority first), each hook script is the
/// one set by the highest-priority layer that sets it: a local file overrides the
/// repository's, which overrides the user's, which overrides the system's.
pub proof fn law_hook_priority(layers: Seq<Config>, chain: Seq<Config>, r: Config)
    requires
        merge_chain(layers, chain, r),
    ensures
        r.hooks.pre_create == last_set(layers.map_values(|c: Config| c.hooks.pre_create)),
        r.hooks.post_create == last_set(layers.map_values(|c: Config| c.hooks.post_create)),
        r.hooks.pre_remove == last_set(layers.map_values(|c: Config| c.hooks.pre_remove)),
        r.hooks.post_remove == last_set(layers.map_values(|c: Config| c.hooks.post_remove)),
        r.hooks.post_switch == last_set(layers.map_values(|c: Config| c.hooks.post_switch)),
        r.hooks.pre_integrate == last_set(layers.map_values(|c: Config| c.hooks.pre_integrate)),
        r.hooks.post_integrate == last_set(layers.map_values(|c: Config| c.hooks.post_integrate)),
{
    let n = layers.len() as int;
    assert(layers.take(n) =~= layers);
    assert forall|k: int| 0 <= k < layers.len() implies hooks_merged(
        chain[k].hooks,
        #[trigger] layers[k].hooks,
        chain[k + 1].hooks,
    ) by {
        assert(config_merged(chain[k], layers[k], chain[k + 1]));
    }
    lemma_chain_override(layers, chain, |c: Config| c.hooks.pre_create, n);
    lemma_chain_override(layers, chain, |c: Config| c.hooks.post_create, n);
    lemma_chain_override(layers, chain, |c: Config| c.hooks.pre_remove, n);
    lemma_chain_override(layers, chain, |c: Config| c.hooks.post_remove, n);
    lemma_chain_override(layers, chain, |c: Config| c.hooks.post_switch, n);
    lemma_chain_override(layers, chain, |c: Config| c.hooks.pre_integrate, n);
    lemma_chain_override(layers, chain, |c: Config| c.hooks.post_integrate, n);
}


/// The shared resources of `layers`, layer after layer.
pub open spec fn all_shared_resources(layers: Seq<Config>) -> Seq<SharedResource>
    decreases layers.len(),
{
    if layers.len() == 0 {
        Seq::empty()
    } else {
        all_shared_resources(layers.drop_last()) + layers.last().shared_resources@
    }
}

/// Whether any of `layers` enables Docker.
pub open spec fn any_docker_enabled(layers: Seq<Config>) -> bool {
    exists|i: int| 0 <= i < layers.len() && (#[trigger] layers[i]).docker.enabled
}

proof fn lemma_chain_accumulates(layers: Seq<Config>, chain: Seq<Config>, n: int)
    requires
        chain.len() == layers.len() + 1,
        0 <= n <= layers.len(),
        chain[0].is_default(),
        forall|k: int| 0 <= k < layers.len() ==> config_merged(chain[k], #[trigger] layers[k], chain[k + 1]),
    ensures
        chain[n].shared_resources@ == all_shared_resources(layers.take(n)),
        chain[n].docker.enabled == any_docker_enabled(layers.take(n)),
    decreases n,
{
    if n > 0 {
        lemma_chain_accumulates(layers, chain, n - 1);
        let k = n - 1;
        assert(config_merged(chain[k], layers[k], chain[k + 1]));
        assert(layers.take(n).drop_last() =~= layers.take(k));
        assert(layers.take(n).last() == layers[k]);
        if any_docker_enabled(layers.take(n)) {
            let i = choose|i: int| 0 <= i < layers.take(n).len() && (#[trigger] layers.take(n)[i]).docker.enabled;
            if i < k {
                assert(layers.take(k)[i] == layers.take(n)[i]);
            }
        }
        if any_docker_enabled(layers.take(k)) {
            let i = choose|i: int| 0 <= i < layers.take(k).len() && (#[trigger] layers.take(k)[i]).docker.enabled;
            assert(layers.take(n)[i] == layers.take(k)[i]);
        }
        if layers[k].docker.enabled {
            assert(layers.take(n)[k] == layers[k]);
        }
    } else {
        assert(layers.take(0) =~= Seq::<Config>::empty());
    }
}

/// In a configuration loaded from layers, the shared resources of every layer are kept,
/// lowest priority first, and Docker is enabled when any layer enables it.
pub proof fn law_layers_accumulate(layers: Seq<Config>, chain: Seq<Config>, r: Config)
    requires
        merge_chain(layers, chain, r),
    ensures
        r.shared_resources@ == all_shared_resources(layers),
        r.docker.enabled == any_docker_enabled(layers),
{
    lemma_chain_accumulates(layers, chain, layers.len() as int);
    assert(layers.take(layers.len() as int) =~= layers);
}


/// A string setting as a layer sets it: `None` when it is the default.
pub open spec fn set_text(v: String, default: Seq<char>) -> Option<String> {
    if v@ != default {
        Some(v)
    } else {
        None
    }
}

/// The hook timeout as a layer sets it: `None` for the default 300 seconds.
pub open spec fn set_timeout(c: Config) -> Option<u64> {
    if c.hooks.timeout_seconds != 300 {
        Some(c.hooks.timeout_seconds)
    } else {
        None
    }
}

/// The port range as a layer sets it: `None` when it gives none or the default.
pub open spec fn set_range(c: Config) -> Option<[u16; 2]> {
    if range_set(c.docker.ports.range) {
        Some(c.docker.ports.range->0)
    } else {
        None
    }
}

/// The base port of service `k` as a layer sets it: `None` when it gives none or the
/// default.
pub open spec fn set_base_port(c: Config, k: Seq<char>) -> Option<u16> {
    if set_base_ports(c.docker.ports.base.view()).dom().contains(k) {
        Some(c.docker.ports.base.view()[k])
    } else {
        None
    }
}

/// The Docker environment variable `k` as a layer sets it.
pub open spec fn set_env(c: Config, k: Seq<char>) -> Option<String> {
    if c.docker.env.view().dom().contains(k) {
        Some(c.docker.env.view()[k])
    } else {
        None
    }
}

/// A flag as a layer sets it: only `true` can be set.
pub open spec fn set_flag(b: bool) -> Option<bool> {
    if b {
        Some(true)
    } else {
        None
    }
}

/// In a configuration loaded from layers (lowest priority first), every setting is the one
/// of the highest-priority layer that sets it, and the default when no layer does: a local
/// file overrides the repository's, which overrides the user's, which overrides the
/// system's. A layer sets a text, the hook timeout, the port range or a base port when it
/// gives a value other than the default, an environment variable when it names it, and a
/// flag when it turns it on.
pub proof fn law_settings_priority(layers: Seq<Config>, chain: Seq<Config>, r: Config)
    requires
        merge_chain(layers, chain, r),
    ensures
        set_text(r.docker.strategy, "per-worktree"@) == last_set(
            layers.map_values(|c: Config| set_text(c.docker.strategy, "per-worktree"@)),
        ),
        set_text(r.docker.compose_file, "docker-compose.yml"@) == last_set(
            layers.map_values(|c: Config| set_text(c.docker.compose_file, "docker-compose.yml"@)),
        ),
        set_text(r.docker.ports.strategy, "auto-offset"@) == last_set(
            layers.map_values(|c: Config| set_text(c.docker.ports.strategy, "auto-offset"@)),
        ),
        set_text(r.docker.healthcheck.timeout, "30s"@) == last_set(
            layers.map_values(|c: Config| set_text(c.docker.healthcheck.timeout, "30s"@)),
        ),
        set_timeout(r) == last_set(layers.map_values(|c: Config| set_timeout(c))),
        set_range(r) == last_set(layers.map_values(|c: Config| set_range(c))),
        r.docker.ports.range is Some,
        forall|k: Seq<char>|
            #[trigger] set_base_port(r, k) == last_set(layers.map_values(|c: Config| set_base_port(c, k))),
        forall|k: Seq<char>|
            #[trigger] default_base_ports().dom().contains(k) ==> r.docker.ports.base.view().dom().contains(k),
        forall|k: Seq<char>|
            #[trigger] set_env(r, k) == last_set(layers.map_values(|c: Config| set_env(c, k))),
        set_flag(r.docker.auto_start) == last_set(layers.map_values(|c: Config| set_flag(c.docker.auto_start))),
        set_flag(r.docker.auto_stop_others) == last_set(
            layers.map_values(|c: Config| set_flag(c.docker.auto_stop_others)),
        ),
        set_flag(r.docker.healthcheck.enabled) == last_set(
            layers.map_values(|c: Config| set_flag(c.docker.healthcheck.enabled)),
        ),
        set_flag(r.sparse.enabled) == last_set(layers.map_values(|c: Config| set_flag(c.sparse.enabled))),
{
    let n = layers.len() as int;
    assert(layers.take(n) =~= layers);
    assert forall|k: int| 0 <= k < layers.len() implies config_merged(chain[k], #[trigger] layers[k], chain[k + 1]) by {}
    lemma_chain_override(layers, chain, |c: Config| set_text(c.docker.strategy, "per-worktree"@), n);
    lemma_chain_override(layers, chain, |c: Config| set_text(c.docker.compose_file, "docker-compose.yml"@), n);
    lemma_chain_override(layers, chain, |c: Config| set_text(c.docker.ports.strategy, "auto-offset"@), n);
    lemma_chain_override(layers, chain, |c: Config| set_text(c.docker.healthcheck.timeout, "30s"@), n);
    lemma_chain_override(layers, chain, |c: Config| set_timeout(c), n);
    assert(chain[0].docker.ports.range =~= Some([3000u16, 9999u16]));
    lemma_chain_override(layers, chain, |c: Config| set_range(c), n);
    lemma_chain_override(layers, chain, |c: Config| set_flag(c.docker.auto_start), n);
    lemma_chain_override(layers, chain, |c: Config| set_flag(c.docker.auto_stop_others), n);
    lemma_chain_override(layers, chain, |c: Config| set_flag(c.docker.healthcheck.enabled), n);
    lemma_chain_override(layers, chain, |c: Config| set_flag(c.sparse.enabled), n);
    assert forall|key: Seq<char>| #[trigger] set_base_port(r, key) == last_set(
        layers.map_values(|c: Config| set_base_port(c, key)),
    ) by {
        let f = |c: Config| set_base_port(c, key);
        assert forall|k: int| 0 <= k < layers.len() implies #[trigger] f(chain[k + 1]) == (if f(layers[k]) is Some {
            f(layers[k])
        } else {
            f(chain[k])
        }) by {
            assert(config_merged(chain[k], layers[k], chain[k + 1]));
        }
        lemma_chain_override(layers, chain, f, n);
    }
    assert forall|key: Seq<char>| #[trigger] set_env(r, key) == last_set(
        layers.map_values(|c: Config| set_env(c, key)),
    ) by {
        let f = |c: Config| set_env(c, key);
        assert forall|k: int| 0 <= k < layers.len() implies #[trigger] f(chain[k + 1]) == (if f(layers[k]) is Some {
            f(layers[k])
        } else {
            f(chain[k])
        }) by {
            assert(config_merged(chain[k], layers[k], chain[k + 1]));
        }
        lemma_chain_override(layers, chain, f, n);
    }
    lemma_chain_keeps_defaults(layers, chain, n);
}

proof fn lemma_chain_keeps_defaults(layers: Seq<Config>, chain: Seq<Config>, n: int)
    requires
        chain.len() == layers.len() + 1,
        0 <= n <= layers.len(),
        chain[0].is_default(),
        forall|k: int| 0 <= k < layers.len() ==> config_merged(chain[k], #[trigger] layers[k], chain[k + 1]),
    ensures
        chain[n].docker.ports.range is Some,
        forall|k: Seq<char>|
            #[trigger] default_base_ports().dom().contains(k) ==> chain[n].docker.ports.base.view().dom().contains(k),
    decreases n,
{
    if n > 0 {
        lemma_chain_keeps_defaults(layers, chain, n - 1);
        assert(config_merged(chain[n - 1], layers[n - 1], chain[n]));
    }
}

} // verus!
