//! Configuration, in the shape the rest of the product already uses.
//!
//! Prefix `AJ_`, `__` between sections — the same convention the Server and
//! `AlgoJudge-Runner` read.
//!
//! **Two sections, and the split is the point.** `AJ_Server__*`, `AJ_Runner__*`,
//! `AJ_Lease__*`, `AJ_Cache__*` and `AJ_Poll__*` are this Runner's own and mean
//! the same thing whatever it forwards to. `AJ_External__*` is the judging system it forwards to: which one,
//! where it is, whose account, and how hard to lean on it.
//!
//! **A wrong number is a refusal, never a quiet default.** Two of the values
//! here are limits on how hard this Runner leans on somebody else's site, and a
//! politeness limit a deployment can silently disable is not a limit.
//!
//! The environment is read where the process is; what it says is decided here,
//! from its variables as name–value pairs.

use vstd::prelude::*;

use crate::text::{
    ascii_lowered, chars_of, debug_quoted, decimal, joined, lowercase, occurs, parse_u64,
    parsed_u64, pieces, push_decimal, quoted, same, split, string_from, to_ascii_lowercase, trim,
    tidy, trimmed, unicode_lowercase, lemma_trimmed_is_tidy,
};

verus! {

/// Below this the Runner refuses to start.
///
/// Not a default that can be lowered: the poll floor is what stands between this
/// Runner and a request storm against a judge that may publish no rate limit at
/// all.
pub const POLL_FLOOR_SECONDS: u64 = 20;

/// The longest lease the Server will grant, whatever is asked for.
///
/// **Not this Runner's choice.** The Server clamps what it grants on both the
/// claim and the renewal, and the granted deadline is authoritative.
pub const SERVER_LEASE_CEILING_SECONDS: u32 = 3600;

/// The longest the Server will hold a claim open, whatever is asked for.
///
/// **Asking for more is worse than being ignored**: a held claim is told from
/// an immediate answer by how long it took, so a Runner asking for more would
/// read the Server's shorter hold as no wait at all.
pub const SERVER_CLAIM_WAIT_CEILING_SECONDS: u64 = 300;

/// The judge served when nothing says otherwise. **The only one there is.**
pub const DEFAULT_JUDGE: &'static str = "uva";

/// Where the source cache lives when nothing says otherwise.
pub const DEFAULT_CACHE_PATH: &'static str = "/var/cache/algojudge-external-runner";

#[derive(Debug, Clone)]
pub struct Config {
    pub server_base_url: String,
    pub runner_name: String,
    /// What this Runner declares it serves. **Empty means the judge's own**,
    /// resolved at registration.
    pub problem_types: Vec<String>,
    /// Which pools this Runner belongs to, from `AJ_Runner__Tags`, in the one
    /// spelling the Server stores. **Read at the first registration and never
    /// again**: a restart must not move a Runner into an examination's pool.
    pub tags: Vec<String>,
    pub key_path: String,
    /// Where a submission's source is cached on its way to the judge.
    pub cache_path: String,
    /// Requested at claim time and renewed while a submission is pending.
    /// **Must exceed `external.pending_timeout`.**
    pub lease_seconds: u32,
    /// How long our own Server may hold a claim open, from
    /// `AJ_Poll__WaitSeconds`. `0` asks for none.
    pub poll_wait: u64,
    /// The floor of the wait between asks of our own Server, after one failed
    /// or came back unheld. **Not the external pair**, which paces somebody
    /// else's judge.
    pub claim_poll_min: u64,
    /// The ceiling of that wait.
    pub claim_poll_max: u64,
    pub external: External,
}

/// The judging system this Runner forwards to.
#[derive(Debug, Clone)]
pub struct External {
    /// Which integration to run. `uva` is the only one built.
    pub judge: String,
    /// Where the judge is reached for submitting.
    pub base_url: String,
    /// Where the judge is read for answers, when that is a different service.
    pub api_base_url: String,
    pub username: String,
    pub password: String,
    /// The judge's numeric id for the account, resolved from the username when
    /// absent.
    pub user_id: Option<u64>,
    pub poll_min: u64,
    pub poll_max: u64,
    pub poll_escalate_after: u64,
    pub submit_min_interval: u64,
    pub pending_timeout: u64,
    pub max_pending: usize,
    pub long_poll_enabled: bool,
}

pub struct ExternalView {
    pub judge: Seq<char>,
    pub base_url: Seq<char>,
    pub api_base_url: Seq<char>,
    pub username: Seq<char>,
    pub password: Seq<char>,
    pub user_id: Option<u64>,
    pub poll_min: u64,
    pub poll_max: u64,
    pub poll_escalate_after: u64,
    pub submit_min_interval: u64,
    pub pending_timeout: u64,
    pub max_pending: usize,
    pub long_poll_enabled: bool,
}

pub struct ConfigView {
    pub server_base_url: Seq<char>,
    pub runner_name: Seq<char>,
    pub problem_types: Seq<Seq<char>>,
    pub tags: Seq<Seq<char>>,
    pub key_path: Seq<char>,
    pub cache_path: Seq<char>,
    pub lease_seconds: u32,
    pub poll_wait: u64,
    pub claim_poll_min: u64,
    pub claim_poll_max: u64,
    pub external: ExternalView,
}

impl View for External {
    type V = ExternalView;

    open spec fn view(&self) -> ExternalView {
        ExternalView {
            judge: self.judge@,
            base_url: self.base_url@,
            api_base_url: self.api_base_url@,
            username: self.username@,
            password: self.password@,
            user_id: self.user_id,
            poll_min: self.poll_min,
            poll_max: self.poll_max,
            poll_escalate_after: self.poll_escalate_after,
            submit_min_interval: self.submit_min_interval,
            pending_timeout: self.pending_timeout,
            max_pending: self.max_pending,
            long_poll_enabled: self.long_poll_enabled,
        }
    }
}

impl View for Config {
    type V = ConfigView;

    open spec fn view(&self) -> ConfigView {
        ConfigView {
            server_base_url: self.server_base_url@,
            runner_name: self.runner_name@,
            problem_types: self.problem_types.deep_view(),
            tags: self.tags.deep_view(),
            key_path: self.key_path@,
            cache_path: self.cache_path@,
            lease_seconds: self.lease_seconds,
            poll_wait: self.poll_wait,
            claim_poll_min: self.claim_poll_min,
            claim_poll_max: self.claim_poll_max,
            external: self.external@,
        }
    }
}

// ------------------------------------------------------------------- refusals

/// A setting that has no default.
#[derive(Debug, Clone, Copy, PartialEq, Eq, Structural)]
pub enum Required {
    ServerBaseUrl,
    Username,
    Password,
}

/// Why a configuration is refused at start-up.
#[derive(Debug, Clone, PartialEq, Eq)]
pub enum ConfigError {
    /// A setting with no default was not given.
    Missing(Required),
    /// The Server's address does not address its API.
    NoApiPrefix(String),
    /// A number that does not read as one.
    NotANumber { key: String, value: String },
    /// A switch that says neither true nor false.
    NotAFlag { key: String, value: String },
    /// The poll floor is below the one nobody may lower.
    PollFloor(u64),
    /// The slowest poll is faster than the fastest.
    PollOrder { max: u64, min: u64 },
    /// A lease the Server would never grant.
    LeaseAboveCeiling(u64),
    /// A lease that does not outlast the wait for the judge.
    LeaseShort { lease: u32, timeout: u64 },
    /// A poll interval that does not fit four times inside the lease.
    PollOutlastsLease { poll_max: u64, poll_wait: u64, lease: u32 },
    /// A claim wait longer than the Server will ever hold one.
    WaitAboveCeiling(u64),
    /// No job could ever be claimed.
    NoPending,
}

pub enum ConfigErrorView {
    Missing(Required),
    NoApiPrefix(Seq<char>),
    NotANumber { key: Seq<char>, value: Seq<char> },
    NotAFlag { key: Seq<char>, value: Seq<char> },
    PollFloor(u64),
    PollOrder { max: u64, min: u64 },
    LeaseAboveCeiling(u64),
    LeaseShort { lease: u32, timeout: u64 },
    PollOutlastsLease { poll_max: u64, poll_wait: u64, lease: u32 },
    WaitAboveCeiling(u64),
    NoPending,
}

impl View for ConfigError {
    type V = ConfigErrorView;

    open spec fn view(&self) -> ConfigErrorView {
        match self {
            ConfigError::Missing(r) => ConfigErrorView::Missing(*r),
            ConfigError::NoApiPrefix(url) => ConfigErrorView::NoApiPrefix(url@),
            ConfigError::NotANumber { key, value } => ConfigErrorView::NotANumber {
                key: key@,
                value: value@,
            },
            ConfigError::NotAFlag { key, value } => ConfigErrorView::NotAFlag {
                key: key@,
                value: value@,
            },
            ConfigError::PollFloor(n) => ConfigErrorView::PollFloor(*n),
            ConfigError::PollOrder { max, min } => ConfigErrorView::PollOrder { max: *max, min: *min },
            ConfigError::LeaseAboveCeiling(l) => ConfigErrorView::LeaseAboveCeiling(*l),
            ConfigError::LeaseShort { lease, timeout } => ConfigErrorView::LeaseShort {
                lease: *lease,
                timeout: *timeout,
            },
            ConfigError::PollOutlastsLease { poll_max, poll_wait, lease } => ConfigErrorView::PollOutlastsLease {
                poll_max: *poll_max,
                poll_wait: *poll_wait,
                lease: *lease,
            },
            ConfigError::WaitAboveCeiling(w) => ConfigErrorView::WaitAboveCeiling(*w),
            ConfigError::NoPending => ConfigErrorView::NoPending,
        }
    }
}

/// What a person reads about a refused configuration.
pub open spec fn config_error_text(e: ConfigErrorView) -> Seq<char> {
    match e {
        ConfigErrorView::Missing(Required::ServerBaseUrl) => "AJ_Server__BaseUrl is required, and must include /api/v1 (for example http://server:8080/api/v1)"@,
        ConfigErrorView::Missing(Required::Username) => "AJ_External__Username is required: the account submissions are made under"@,
        ConfigErrorView::Missing(Required::Password) => "AJ_External__Password is required"@,
        ConfigErrorView::NoApiPrefix(url) => "AJ_Server__BaseUrl is "@ + debug_quoted(url)
            + ", which has no /api/v1 prefix"@,
        ConfigErrorView::NotANumber { key, value } => "AJ_"@ + key + " is "@ + debug_quoted(value)
            + ", which is not a number"@,
        ConfigErrorView::NotAFlag { key, value } => "AJ_"@ + key + " is "@ + debug_quoted(value)
            + ", which is not true or false"@,
        ConfigErrorView::PollFloor(n) => "AJ_External__PollMinSeconds is "@ + decimal(n as nat)
            + ", below the floor of 20. An external judge may publish no rate limit at all, so this one is not lowered."@,
        ConfigErrorView::PollOrder { max, min } => "AJ_External__PollMaxSeconds is "@ + decimal(
            max as nat,
        ) + ", below AJ_External__PollMinSeconds of "@ + decimal(min as nat),
        ConfigErrorView::LeaseAboveCeiling(l) => "AJ_Lease__RequestSeconds is "@ + decimal(l as nat)
            + ", above the 3600 seconds the Server will grant. It clamps what it hands out, so this Runner would renew against a deadline of its own invention and hold a job past the lease it really has — and the next Runner to claim it would submit the same solution again."@,
        ConfigErrorView::LeaseShort { lease, timeout } => "AJ_Lease__RequestSeconds is "@ + decimal(
            lease as nat,
        ) + ", which does not exceed AJ_External__PendingTimeoutSeconds of "@ + decimal(
            timeout as nat,
        )
            + ". The Server would reclaim the job while this Runner was still waiting on the judge, and the next Runner to claim it would submit the same solution again."@,
        ConfigErrorView::PollOutlastsLease { poll_max, poll_wait, lease } => "AJ_External__PollMaxSeconds of "@
            + decimal(poll_max as nat) + " plus AJ_Poll__WaitSeconds of "@ + decimal(poll_wait as nat)
            + " does not fit four times inside AJ_Lease__RequestSeconds of "@ + decimal(lease as nat)
            + ". A held lease is renewed once per cycle, and the cycle is both of those, so this one could expire between two renewals — and the next Runner to claim the job would submit the same solution again. Lower the poll interval or the wait, or raise the lease (the Server clamps it at 3600, so the two together cannot exceed 900)."@,
        ConfigErrorView::WaitAboveCeiling(w) => "AJ_Poll__WaitSeconds is "@ + decimal(w as nat)
            + ", above the 300 seconds a Server will hold a claim. A held claim is told from an immediate answer by how long it took, so asking for more would read the Server's hold as no wait at all."@,
        ConfigErrorView::NoPending => "AJ_External__MaxPending is 0, so no job could ever be claimed"@,
    }
}

impl ConfigError {
    /// What a person reads about it.
    pub fn message(&self) -> (m: String)
        ensures
            m@ == config_error_text(self@),
    {
        match self {
            ConfigError::Missing(Required::ServerBaseUrl) => String::from_str(
                "AJ_Server__BaseUrl is required, and must include /api/v1 (for example http://server:8080/api/v1)",
            ),
            ConfigError::Missing(Required::Username) => String::from_str(
                "AJ_External__Username is required: the account submissions are made under",
            ),
            ConfigError::Missing(Required::Password) => String::from_str(
                "AJ_External__Password is required",
            ),
            ConfigError::NoApiPrefix(url) => {
                let mut m = String::from_str("AJ_Server__BaseUrl is ");
                let q = quoted(url.as_str());
                m.append(q.as_str());
                m.append(", which has no /api/v1 prefix");
                m
            },
            ConfigError::NotANumber { key, value } => {
                let mut m = String::from_str("AJ_");
                m.append(key.as_str());
                m.append(" is ");
                let q = quoted(value.as_str());
                m.append(q.as_str());
                m.append(", which is not a number");
                m
            },
            ConfigError::NotAFlag { key, value } => {
                let mut m = String::from_str("AJ_");
                m.append(key.as_str());
                m.append(" is ");
                let q = quoted(value.as_str());
                m.append(q.as_str());
                m.append(", which is not true or false");
                m
            },
            ConfigError::PollFloor(n) => {
                let mut m = String::from_str("AJ_External__PollMinSeconds is ");
                push_decimal(&mut m, *n);
                m.append(
                    ", below the floor of 20. An external judge may publish no rate limit at all, so this one is not lowered.",
                );
                m
            },
            ConfigError::PollOrder { max, min } => {
                let mut m = String::from_str("AJ_External__PollMaxSeconds is ");
                push_decimal(&mut m, *max);
                m.append(", below AJ_External__PollMinSeconds of ");
                push_decimal(&mut m, *min);
                m
            },
            ConfigError::LeaseAboveCeiling(l) => {
                let mut m = String::from_str("AJ_Lease__RequestSeconds is ");
                push_decimal(&mut m, *l);
                m.append(
                    ", above the 3600 seconds the Server will grant. It clamps what it hands out, so this Runner would renew against a deadline of its own invention and hold a job past the lease it really has — and the next Runner to claim it would submit the same solution again.",
                );
                m
            },
            ConfigError::LeaseShort { lease, timeout } => {
                let mut m = String::from_str("AJ_Lease__RequestSeconds is ");
                push_decimal(&mut m, *lease as u64);
                m.append(", which does not exceed AJ_External__PendingTimeoutSeconds of ");
                push_decimal(&mut m, *timeout);
                m.append(
                    ". The Server would reclaim the job while this Runner was still waiting on the judge, and the next Runner to claim it would submit the same solution again.",
                );
                m
            },
            ConfigError::PollOutlastsLease { poll_max, poll_wait, lease } => {
                let mut m = String::from_str("AJ_External__PollMaxSeconds of ");
                push_decimal(&mut m, *poll_max);
                m.append(" plus AJ_Poll__WaitSeconds of ");
                push_decimal(&mut m, *poll_wait);
                m.append(" does not fit four times inside AJ_Lease__RequestSeconds of ");
                push_decimal(&mut m, *lease as u64);
                m.append(
                    ". A held lease is renewed once per cycle, and the cycle is both of those, so this one could expire between two renewals — and the next Runner to claim the job would submit the same solution again. Lower the poll interval or the wait, or raise the lease (the Server clamps it at 3600, so the two together cannot exceed 900).",
                );
                m
            },
            ConfigError::WaitAboveCeiling(w) => {
                let mut m = String::from_str("AJ_Poll__WaitSeconds is ");
                push_decimal(&mut m, *w);
                m.append(
                    ", above the 300 seconds a Server will hold a claim. A held claim is told from an immediate answer by how long it took, so asking for more would read the Server's hold as no wait at all.",
                );
                m
            },
            ConfigError::NoPending => String::from_str(
                "AJ_External__MaxPending is 0, so no job could ever be claimed",
            ),
        }
    }
}

/// The first way a configuration can be accepted and still be wrong, if any.
///
/// The lease ceiling is checked **before** the two checks that compute with the
/// lease, because if the Server is going to clamp it then every number they
/// reason about is one it never agreed to.
pub open spec fn refusal(
    poll_min: u64,
    poll_max: u64,
    poll_wait: u64,
    lease: u32,
    pending_timeout: u64,
    max_pending: usize,
) -> Option<ConfigErrorView> {
    if poll_min < POLL_FLOOR_SECONDS {
        Some(ConfigErrorView::PollFloor(poll_min))
    } else if poll_max < poll_min {
        Some(ConfigErrorView::PollOrder { max: poll_max, min: poll_min })
    } else if lease > SERVER_LEASE_CEILING_SECONDS {
        Some(ConfigErrorView::LeaseAboveCeiling(lease as u64))
    } else if lease <= pending_timeout {
        Some(ConfigErrorView::LeaseShort { lease, timeout: pending_timeout })
    } else if poll_wait > SERVER_CLAIM_WAIT_CEILING_SECONDS {
        Some(ConfigErrorView::WaitAboveCeiling(poll_wait))
    } else if (poll_max + poll_wait) * 4 > lease {
        Some(ConfigErrorView::PollOutlastsLease { poll_max, poll_wait, lease })
    } else if max_pending == 0 {
        Some(ConfigErrorView::NoPending)
    } else {
        None
    }
}

impl Config {
    /// Every way a configuration can be accepted and still be wrong.
    ///
    /// Checked at start-up rather than discovered in an hour: each of these
    /// fails somewhere far from its cause — a lease shorter than the timeout
    /// looks like the judge double-judging, and a poll floor below twenty
    /// looks like nothing at all until somebody else's server complains.
    pub fn refuse_what_cannot_work(&self) -> (r: Result<(), ConfigError>)
        ensures
            match r {
                Ok(()) => refusal(
                    self.external.poll_min,
                    self.external.poll_max,
                    self.poll_wait,
                    self.lease_seconds,
                    self.external.pending_timeout,
                    self.external.max_pending,
                ) is None,
                Err(e) => refusal(
                    self.external.poll_min,
                    self.external.poll_max,
                    self.poll_wait,
                    self.lease_seconds,
                    self.external.pending_timeout,
                    self.external.max_pending,
                ) == Some(e@),
            },
    {
        let external = &self.external;
        if external.poll_min < POLL_FLOOR_SECONDS {
            return Err(ConfigError::PollFloor(external.poll_min));
        }
        if external.poll_max < external.poll_min {
            return Err(ConfigError::PollOrder { max: external.poll_max, min: external.poll_min });
        }
        if self.lease_seconds > SERVER_LEASE_CEILING_SECONDS {
            return Err(ConfigError::LeaseAboveCeiling(self.lease_seconds as u64));
        }
        if (self.lease_seconds as u64) <= external.pending_timeout {
            return Err(
                ConfigError::LeaseShort { lease: self.lease_seconds, timeout: external.pending_timeout },
            );
        }
        if self.poll_wait > SERVER_CLAIM_WAIT_CEILING_SECONDS {
            return Err(ConfigError::WaitAboveCeiling(self.poll_wait));
        }
        // **Renewal rides on this cadence.** A held lease is renewed once per
        // cycle, and the cycle is both the judge's interval and the claim the
        // Server may hold; four fit inside every lease, so two may fail in a
        // row with the deadline still comfortably ahead.
        let four_cycles: u64 = if external.poll_max > u64::MAX / 4 - SERVER_CLAIM_WAIT_CEILING_SECONDS {
            u64::MAX
        } else {
            (external.poll_max + self.poll_wait) * 4
        };
        if four_cycles > self.lease_seconds as u64 {
            return Err(
                ConfigError::PollOutlastsLease {
                    poll_max: external.poll_max,
                    poll_wait: self.poll_wait,
                    lease: self.lease_seconds,
                },
            );
        }
        if external.max_pending == 0 {
            return Err(ConfigError::NoPending);
        }
        Ok(())
    }
}

/// **What an accepted configuration promises**: a poll floor of at least
/// twenty, a ceiling at or above it, a lease the Server will grant that
/// outlasts the wait for the judge and holds four whole cycles of the judge's
/// interval and the claim the Server may hold, a claim wait the Server will
/// honour, and room for work.
pub proof fn lemma_an_accepted_configuration_cannot_double_submit(
    poll_min: u64,
    poll_max: u64,
    poll_wait: u64,
    lease: u32,
    pending_timeout: u64,
    max_pending: usize,
)
    requires
        refusal(poll_min, poll_max, poll_wait, lease, pending_timeout, max_pending) is None,
    ensures
        poll_min >= POLL_FLOOR_SECONDS,
        poll_max >= poll_min,
        lease <= SERVER_LEASE_CEILING_SECONDS,
        lease > pending_timeout,
        poll_wait <= SERVER_CLAIM_WAIT_CEILING_SECONDS,
        (poll_max + poll_wait) * 4 <= lease,
        max_pending > 0,
        poll_max + poll_wait <= 900,
{
}

// ------------------------------------------------------------------ reading

/// The environment's variables, as text.
pub open spec fn env_view(vars: Seq<(String, String)>) -> Seq<(Seq<char>, Seq<char>)> {
    vars.map_values(|p: (String, String)| (p.0@, p.1@))
}

/// The value of the first variable with this name.
pub open spec fn env_lookup(env: Seq<(Seq<char>, Seq<char>)>, name: Seq<char>) -> Option<Seq<char>>
    decreases env.len(),
{
    if env.len() == 0 {
        None
    } else if env[0].0 == name {
        Some(env[0].1)
    } else {
        env_lookup(env.drop_first(), name)
    }
}

/// A setting, trimmed; absent when it is not given or is only whitespace.
pub open spec fn setting(env: Seq<(Seq<char>, Seq<char>)>, key: Seq<char>) -> Option<Seq<char>> {
    match env_lookup(env, "AJ_"@ + key) {
        Some(v) => if trimmed(v).len() == 0 {
            None
        } else {
            Some(trimmed(v))
        },
        None => None,
    }
}

/// A setting read **exactly as it was given**: the trim that is right for a
/// URL is wrong for a credential. Still absent when it is only whitespace: a
/// password of three spaces is a field somebody left blank.
pub open spec fn secret_setting(env: Seq<(Seq<char>, Seq<char>)>, key: Seq<char>) -> Option<
    Seq<char>,
> {
    match env_lookup(env, "AJ_"@ + key) {
        Some(v) => if trimmed(v).len() == 0 {
            None
        } else {
            Some(v)
        },
        None => None,
    }
}

/// A number as a setting gives it, or the refusal that names it.
pub open spec fn number_of(value: Seq<char>, key: Seq<char>) -> Result<u64, ConfigErrorView> {
    match parsed_u64(value) {
        Some(n) => Ok(n),
        None => Err(ConfigErrorView::NotANumber { key, value }),
    }
}

/// A number setting, or its default when it is not given.
pub open spec fn number_setting(env: Seq<(Seq<char>, Seq<char>)>, key: Seq<char>, fallback: u64) -> Result<
    u64,
    ConfigErrorView,
> {
    match setting(env, key) {
        None => Ok(fallback),
        Some(v) => number_of(v, key),
    }
}

/// A switch setting: `true` or `false`, in any ASCII case, or its default when
/// it is not given. **Anything else is refused** rather than read as false.
pub open spec fn flag_setting(env: Seq<(Seq<char>, Seq<char>)>, key: Seq<char>, fallback: bool) -> Result<
    bool,
    ConfigErrorView,
> {
    match setting(env, key) {
        None => Ok(fallback),
        Some(v) => {
            let w = ascii_lowered(v);
            if w == "true"@ {
                Ok(true)
            } else if w == "false"@ {
                Ok(false)
            } else {
                Err(ConfigErrorView::NotAFlag { key, value: w })
            }
        },
    }
}

/// The trimmed, non-empty pieces of a comma-separated list.
pub open spec fn kept(parts: Seq<Seq<char>>) -> Seq<Seq<char>>
    decreases parts.len(),
{
    if parts.len() == 0 {
        Seq::empty()
    } else {
        let before = kept(parts.drop_last());
        if trimmed(parts.last()).len() == 0 {
            before
        } else {
            before.push(trimmed(parts.last()))
        }
    }
}

/// A comma-separated list setting; empty when it is not given.
pub open spec fn list_setting(env: Seq<(Seq<char>, Seq<char>)>, key: Seq<char>) -> Seq<Seq<char>> {
    kept(
        pieces(
            match setting(env, key) {
                Some(v) => v,
                None => Seq::empty(),
            },
            ',',
        ),
    )
}

/// The pools a Runner belongs to, in the one spelling the Server stores.
pub open spec fn tag_setting(env: Seq<(Seq<char>, Seq<char>)>, key: Seq<char>) -> Seq<Seq<char>> {
    lowered(list_setting(env, key))
}

/// Each text of a list in lower case.
pub open spec fn lowered(items: Seq<Seq<char>>) -> Seq<Seq<char>> {
    items.map_values(|t: Seq<char>| unicode_lowercase(t))
}

/// A base address with exactly the trailing slash it needs.
pub open spec fn with_slash(url: Seq<char>) -> Seq<char> {
    if url.len() > 0 && url.last() == '/' {
        url
    } else {
        url.push('/')
    }
}

/// A setting with a default.
pub open spec fn setting_or(env: Seq<(Seq<char>, Seq<char>)>, key: Seq<char>, fallback: Seq<char>) -> Seq<
    char,
> {
    match setting(env, key) {
        Some(v) => v,
        None => fallback,
    }
}

/// The name a manager sees: the setting, else the host's name, else the
/// product's.
pub open spec fn runner_name_of(env: Seq<(Seq<char>, Seq<char>)>) -> Seq<char> {
    match setting(env, "Runner__Name"@) {
        Some(v) => v,
        None => match env_lookup(env, "HOSTNAME"@) {
            Some(h) => h,
            None => "algojudge-external-runner"@,
        },
    }
}

/// The account's id, when it is given.
pub open spec fn user_id_setting(env: Seq<(Seq<char>, Seq<char>)>) -> Result<Option<u64>, ConfigErrorView> {
    match setting(env, "External__UserId"@) {
        None => Ok(None),
        Some(v) => match number_of(v, "External__UserId"@) {
            Ok(n) => Ok(Some(n)),
            Err(e) => Err(e),
        },
    }
}

/// The numbers and the switch of the external section, in the order they are
/// read.
pub open spec fn pacing_of(env: Seq<(Seq<char>, Seq<char>)>) -> Result<
    (u64, u64, u64, u64, u64, u64, bool),
    ConfigErrorView,
> {
    match number_setting(env, "External__PollMinSeconds"@, POLL_FLOOR_SECONDS) {
        Err(e) => Err(e),
        Ok(poll_min) => match number_setting(env, "External__PollMaxSeconds"@, 60) {
            Err(e) => Err(e),
            Ok(poll_max) => match number_setting(env, "External__PollEscalateAfterSeconds"@, 120) {
                Err(e) => Err(e),
                Ok(escalate) => match number_setting(env, "External__SubmitMinIntervalSeconds"@, 5) {
                    Err(e) => Err(e),
                    Ok(interval) => match number_setting(env, "External__PendingTimeoutSeconds"@, 900) {
                        Err(e) => Err(e),
                        Ok(timeout) => match number_setting(env, "External__MaxPending"@, 200) {
                            Err(e) => Err(e),
                            Ok(max_pending) => match flag_setting(
                                env,
                                "External__LongPollEnabled"@,
                                false,
                            ) {
                                Err(e) => Err(e),
                                Ok(long_poll) => Ok(
                                    (
                                        poll_min,
                                        poll_max,
                                        escalate,
                                        interval,
                                        timeout,
                                        max_pending,
                                        long_poll,
                                    ),
                                ),
                            },
                        },
                    },
                },
            },
        },
    }
}

/// The pacing of this Runner's own claims: how long the Server may hold one
/// open, and the floor and ceiling of the wait between asks.
pub open spec fn claim_pacing_of(env: Seq<(Seq<char>, Seq<char>)>) -> Result<
    (u64, u64, u64),
    ConfigErrorView,
> {
    match number_setting(env, "Poll__WaitSeconds"@, 25) {
        Err(e) => Err(e),
        Ok(wait) => match number_setting(env, "Poll__MinSeconds"@, 1) {
            Err(e) => Err(e),
            Ok(min) => match number_setting(env, "Poll__MaxSeconds"@, 30) {
                Err(e) => Err(e),
                Ok(max) => Ok((wait, min, max)),
            },
        },
    }
}

/// The external section, or the first refusal met reading it.
pub open spec fn external_of(env: Seq<(Seq<char>, Seq<char>)>) -> Result<ExternalView, ConfigErrorView> {
    match setting(env, "External__Username"@) {
        None => Err(ConfigErrorView::Missing(Required::Username)),
        Some(username) => match secret_setting(env, "External__Password"@) {
            None => Err(ConfigErrorView::Missing(Required::Password)),
            Some(password) => match user_id_setting(env) {
                Err(e) => Err(e),
                Ok(user_id) => match pacing_of(env) {
                    Err(e) => Err(e),
                    Ok((poll_min, poll_max, escalate, interval, timeout, max_pending, long_poll)) => Ok(
                        ExternalView {
                            judge: setting_or(env, "External__Judge"@, DEFAULT_JUDGE@),
                            base_url: with_slash(
                                setting_or(env, "External__BaseUrl"@, "https://onlinejudge.org/"@),
                            ),
                            api_base_url: with_slash(
                                setting_or(
                                    env,
                                    "External__ApiBaseUrl"@,
                                    "https://uhunt.onlinejudge.org/"@,
                                ),
                            ),
                            username,
                            password,
                            user_id,
                            poll_min,
                            poll_max,
                            poll_escalate_after: escalate,
                            submit_min_interval: interval,
                            pending_timeout: timeout,
                            max_pending: max_pending as usize,
                            long_poll_enabled: long_poll,
                        },
                    ),
                },
            },
        },
    }
}

/// The configuration the environment describes, or the first refusal met
/// reading it, in the order the settings are read.
pub open spec fn configured(env: Seq<(Seq<char>, Seq<char>)>) -> Result<ConfigView, ConfigErrorView> {
    match setting(env, "Server__BaseUrl"@) {
        None => Err(ConfigErrorView::Missing(Required::ServerBaseUrl)),
        Some(url) => if !occurs(url, "/api/"@) {
            Err(ConfigErrorView::NoApiPrefix(url))
        } else {
            match number_setting(env, "Lease__RequestSeconds"@, 1200) {
                Err(e) => Err(e),
                Ok(lease) => if lease > u32::MAX {
                    Err(ConfigErrorView::LeaseAboveCeiling(lease))
                } else {
                    match claim_pacing_of(env) {
                Err(e) => Err(e),
                Ok((poll_wait, claim_poll_min, claim_poll_max)) => match external_of(env) {
                    Err(e) => Err(e),
                    Ok(external) => {
                        let config = ConfigView {
                            server_base_url: url,
                            runner_name: runner_name_of(env),
                            problem_types: list_setting(env, "Runner__ProblemTypes"@),
                            tags: tag_setting(env, "Runner__Tags"@),
                            key_path: setting_or(
                                env,
                                "Runner__KeyPath"@,
                                "/var/lib/algojudge-external-runner/identity.key"@,
                            ),
                            cache_path: setting_or(env, "Cache__Path"@, DEFAULT_CACHE_PATH@),
                            lease_seconds: lease as u32,
                            poll_wait,
                            claim_poll_min,
                            claim_poll_max,
                            external,
                        };
                        match refusal(
                            external.poll_min,
                            external.poll_max,
                            poll_wait,
                            lease as u32,
                            external.pending_timeout,
                            external.max_pending,
                        ) {
                            Some(e) => Err(e),
                            None => Ok(config),
                        }
                    },
                },
                    }
                },
            }
        },
    }
}

/// Every item of a comma-separated list is tidy: trimmed, and not empty.
proof fn lemma_kept_is_tidy(parts: Seq<Seq<char>>)
    ensures
        forall|i: int| 0 <= i < kept(parts).len() ==> tidy(#[trigger] kept(parts)[i]),
    decreases parts.len(),
{
    if parts.len() > 0 {
        let before = kept(parts.drop_last());
        lemma_kept_is_tidy(parts.drop_last());
        lemma_trimmed_is_tidy(parts.last());
        assert forall|i: int| 0 <= i < kept(parts).len() implies tidy(#[trigger] kept(parts)[i]) by {
            if i < before.len() {
                assert(kept(parts)[i] == before[i]);
            }
        }
    }
}

/// **What an accepted configuration is.** The Server's address carries
/// `/api/`; both of the judge's addresses end in exactly one `/`; every
/// declared problem type is tidy; every tag is the lower case of a tidy item,
/// in the order given; and none of the refusals applies.
pub proof fn lemma_an_accepted_configuration_is_well_formed(env: Seq<(Seq<char>, Seq<char>)>)
    ensures
        configured(env) matches Ok(c) ==> {
            &&& occurs(c.server_base_url, "/api/"@)
            &&& c.external.base_url.len() > 0 && c.external.base_url.last() == '/'
            &&& c.external.api_base_url.len() > 0 && c.external.api_base_url.last() == '/'
            &&& forall|i: int| 0 <= i < c.problem_types.len() ==> tidy(#[trigger] c.problem_types[i])
            &&& c.tags.len() == list_setting(env, "Runner__Tags"@).len()
            &&& forall|i: int|
                0 <= i < c.tags.len() ==> #[trigger] c.tags[i] == unicode_lowercase(
                    list_setting(env, "Runner__Tags"@)[i],
                ) && tidy(list_setting(env, "Runner__Tags"@)[i])
            &&& refusal(
                c.external.poll_min,
                c.external.poll_max,
                c.poll_wait,
                c.lease_seconds,
                c.external.pending_timeout,
                c.external.max_pending,
            ) is None
        },
{
    let types = list_setting(env, "Runner__ProblemTypes"@);
    let tags = list_setting(env, "Runner__Tags"@);
    lemma_kept_is_tidy(
        pieces(
            match setting(env, "Runner__ProblemTypes"@) {
                Some(v) => v,
                None => Seq::empty(),
            },
            ',',
        ),
    );
    lemma_kept_is_tidy(
        pieces(
            match setting(env, "Runner__Tags"@) {
                Some(v) => v,
                None => Seq::empty(),
            },
            ',',
        ),
    );
    assert forall|i: int| 0 <= i < tags.len() implies tidy(#[trigger] tags[i]) by {}
}

/// **Every setting lands in its own field.** An accepted configuration holds,
/// in each field, exactly what its own variable says, or that variable's
/// documented default when it is not given: the judge's poll floor and ceiling
/// (20 and 60), when polling escalates (120), the gap between submissions (5),
/// how long a submission is waited for (900), how many may be outstanding
/// (200), the long-poll switch (off), the lease (1200), and the claim wait,
/// floor and ceiling (25, 1 and 30).
pub proof fn lemma_every_setting_lands_in_its_own_field(env: Seq<(Seq<char>, Seq<char>)>)
    ensures
        configured(env) matches Ok(c) ==> {
            &&& number_setting(env, "External__PollMinSeconds"@, 20) == Ok::<u64, ConfigErrorView>(c.external.poll_min)
            &&& number_setting(env, "External__PollMaxSeconds"@, 60) == Ok::<u64, ConfigErrorView>(c.external.poll_max)
            &&& number_setting(env, "External__PollEscalateAfterSeconds"@, 120) == Ok::<u64, ConfigErrorView>(c.external.poll_escalate_after)
            &&& number_setting(env, "External__SubmitMinIntervalSeconds"@, 5) == Ok::<u64, ConfigErrorView>(c.external.submit_min_interval)
            &&& number_setting(env, "External__PendingTimeoutSeconds"@, 900) == Ok::<u64, ConfigErrorView>(c.external.pending_timeout)
            &&& number_setting(env, "External__MaxPending"@, 200) matches Ok(n) && c.external.max_pending == n as usize
            &&& flag_setting(env, "External__LongPollEnabled"@, false) == Ok::<bool, ConfigErrorView>(c.external.long_poll_enabled)
            &&& number_setting(env, "Lease__RequestSeconds"@, 1200) == Ok::<u64, ConfigErrorView>(c.lease_seconds as u64)
            &&& number_setting(env, "Poll__WaitSeconds"@, 25) == Ok::<u64, ConfigErrorView>(c.poll_wait)
            &&& number_setting(env, "Poll__MinSeconds"@, 1) == Ok::<u64, ConfigErrorView>(c.claim_poll_min)
            &&& number_setting(env, "Poll__MaxSeconds"@, 30) == Ok::<u64, ConfigErrorView>(c.claim_poll_max)
            &&& setting(env, "External__Username"@) == Some(c.external.username)
            &&& secret_setting(env, "External__Password"@) == Some(c.external.password)
            &&& setting(env, "Server__BaseUrl"@) == Some(c.server_base_url)
        },
{
}

// -------------------------------------------------------------- exec readers

/// The value of the first variable with this name.
pub fn lookup<'a>(vars: &'a [(String, String)], name: &str) -> (found: Option<&'a String>)
    ensures
        match found {
            Some(v) => env_lookup(env_view(vars@), name@) == Some(v@),
            None => env_lookup(env_view(vars@), name@) is None,
        },
{
    let ghost env = env_view(vars@);
    assert(env.subrange(0, env.len() as int) =~= env);
    for i in 0..vars.len()
        invariant
            env == env_view(vars@),
            env.len() == vars@.len(),
            env_lookup(env, name@) == env_lookup(env.subrange(i as int, env.len() as int), name@),
    {
        let ghost rest = env.subrange(i as int, env.len() as int);
        assert(rest[0] == (vars@[i as int].0@, vars@[i as int].1@));
        if same(vars[i].0.as_str(), name) {
            return Some(&vars[i].1);
        }
        assert(rest.drop_first() =~= env.subrange(i + 1, env.len() as int));
    }
    None
}

/// A setting, trimmed; absent when it is not given or is only whitespace.
pub fn var(vars: &[(String, String)], key: &str) -> (value: Option<String>)
    ensures
        match value {
            Some(v) => setting(env_view(vars@), key@) == Some(v@),
            None => setting(env_view(vars@), key@) is None,
        },
{
    let name = joined("AJ_", key);
    proof {
        reveal_strlit("AJ_");
    }
    match lookup(vars, name.as_str()) {
        None => None,
        Some(v) => {
            let t = trim(v.as_str());
            if t.unicode_len() == 0 {
                None
            } else {
                Some(t.to_owned())
            }
        },
    }
}

/// A setting read **exactly as it was given**.
pub fn secret(vars: &[(String, String)], key: &str) -> (value: Option<String>)
    ensures
        match value {
            Some(v) => secret_setting(env_view(vars@), key@) == Some(v@),
            None => secret_setting(env_view(vars@), key@) is None,
        },
{
    let name = joined("AJ_", key);
    match lookup(vars, name.as_str()) {
        None => None,
        Some(v) => {
            let t = trim(v.as_str());
            if t.unicode_len() == 0 {
                None
            } else {
                Some(v.clone())
            }
        },
    }
}

/// A malformed number names itself: an operator who typed a letter O for a
/// zero otherwise gets the default and never learns that their setting did
/// nothing.
pub fn number_in(value: &str, key: &str) -> (n: Result<u64, ConfigError>)
    ensures
        match n {
            Ok(v) => number_of(value@, key@) == Ok::<u64, ConfigErrorView>(v),
            Err(e) => number_of(value@, key@) == Err::<u64, ConfigErrorView>(e@),
        },
{
    match parse_u64(value) {
        Some(v) => Ok(v),
        None => Err(ConfigError::NotANumber { key: key.to_owned(), value: value.to_owned() }),
    }
}

/// A number setting, or its default when it is not given.
pub fn number(vars: &[(String, String)], key: &str, fallback: u64) -> (n: Result<u64, ConfigError>)
    ensures
        match n {
            Ok(v) => number_setting(env_view(vars@), key@, fallback) == Ok::<u64, ConfigErrorView>(v),
            Err(e) => number_setting(env_view(vars@), key@, fallback) == Err::<u64, ConfigErrorView>(
                e@,
            ),
        },
{
    match var(vars, key) {
        None => Ok(fallback),
        Some(value) => number_in(value.as_str(), key),
    }
}

/// A switch setting: **anything but `true` or `false` is refused** rather
/// than read as false.
pub fn flag(vars: &[(String, String)], key: &str, fallback: bool) -> (f: Result<bool, ConfigError>)
    ensures
        match f {
            Ok(v) => flag_setting(env_view(vars@), key@, fallback) == Ok::<bool, ConfigErrorView>(v),
            Err(e) => flag_setting(env_view(vars@), key@, fallback) == Err::<bool, ConfigErrorView>(
                e@,
            ),
        },
{
    match var(vars, key) {
        None => Ok(fallback),
        Some(value) => {
            let word = to_ascii_lowercase(value.as_str());
            if same(word.as_str(), "true") {
                Ok(true)
            } else if same(word.as_str(), "false") {
                Ok(false)
            } else {
                Err(ConfigError::NotAFlag { key: key.to_owned(), value: word })
            }
        },
    }
}

/// The trimmed, non-empty pieces of a comma-separated text.
pub fn listed(text: &str) -> (items: Vec<String>)
    ensures
        items.deep_view() == kept(pieces(text@, ',')),
{
    let parts = split(text, ',');
    let ghost all = parts.deep_view();
    let mut items: Vec<String> = Vec::new();
    for i in 0..parts.len()
        invariant
            all == parts.deep_view(),
            items.deep_view() == kept(all.take(i as int)),
    {
        let ghost t = all.take(i + 1);
        assert(t.drop_last() =~= all.take(i as int));
        assert(t.last() == parts@[i as int]@);
        let item = trim(parts[i].as_str());
        if item.unicode_len() > 0 {
            let ghost before = items.deep_view();
            items.push(item.to_owned());
            assert(items.deep_view() =~= before.push(item@));
        }
    }
    assert(all.take(parts@.len() as int) =~= all);
    items
}

/// A comma-separated list setting; empty when it is not given.
pub fn list(vars: &[(String, String)], key: &str) -> (items: Vec<String>)
    ensures
        items.deep_view() == list_setting(env_view(vars@), key@),
{
    match var(vars, key) {
        Some(v) => listed(v.as_str()),
        None => {
            proof {
                reveal_strlit("");
            }
            listed("")
        },
    }
}

/// The pools a Runner belongs to, in the one spelling the Server stores.
///
/// **Lowercased here as well as by the Server**, so the start-up log says what
/// will actually be stored rather than what somebody typed: the Server matches
/// pools by equality, and `Lab-A` here and `lab-a` on an activity would be two
/// pools that read as one.
pub fn tags(vars: &[(String, String)], key: &str) -> (items: Vec<String>)
    ensures
        items.deep_view() == tag_setting(env_view(vars@), key@),
{
    let listed = list(vars, key);
    let ghost all = listed.deep_view();
    let mut items: Vec<String> = Vec::new();
    for i in 0..listed.len()
        invariant
            all == listed.deep_view(),
            items@.len() == i,
            items.deep_view() == lowered(all.take(i as int)),
    {
        let ghost before = items.deep_view();
        let low = lowercase(listed[i].as_str());
        items.push(low);
        assert(items.deep_view() =~= before.push(unicode_lowercase(all[i as int])));
        assert(all.take(i + 1) =~= all.take(i as int).push(all[i as int]));
        assert(lowered(all.take(i + 1)) =~= lowered(all.take(i as int)).push(
            unicode_lowercase(all[i as int]),
        ));
    }
    assert(all.take(listed@.len() as int) =~= all);
    items
}

/// A base address with exactly the trailing slash it needs.
pub fn trailing_slash(url: &str) -> (with: String)
    ensures
        with@ == with_slash(url@),
{
    let chars = chars_of(url);
    if chars.len() > 0 && chars[chars.len() - 1] == '/' {
        url.to_owned()
    } else {
        proof {
            reveal_strlit("/");
        }
        let s = joined(url, "/");
        assert(s@ =~= url@.push('/'));
        s
    }
}

fn var_or(vars: &[(String, String)], key: &str, fallback: &str) -> (value: String)
    ensures
        value@ == setting_or(env_view(vars@), key@, fallback@),
{
    match var(vars, key) {
        Some(v) => v,
        None => fallback.to_owned(),
    }
}

fn pacing(vars: &[(String, String)]) -> (r: Result<(u64, u64, u64, u64, u64, u64, bool), ConfigError>)
    ensures
        match r {
            Ok(p) => pacing_of(env_view(vars@)) == Ok::<
                (u64, u64, u64, u64, u64, u64, bool),
                ConfigErrorView,
            >(p),
            Err(e) => pacing_of(env_view(vars@)) == Err::<
                (u64, u64, u64, u64, u64, u64, bool),
                ConfigErrorView,
            >(e@),
        },
{
    let poll_min = number(vars, "External__PollMinSeconds", POLL_FLOOR_SECONDS)?;
    let poll_max = number(vars, "External__PollMaxSeconds", 60)?;
    let escalate = number(vars, "External__PollEscalateAfterSeconds", 120)?;
    let interval = number(vars, "External__SubmitMinIntervalSeconds", 5)?;
    let timeout = number(vars, "External__PendingTimeoutSeconds", 900)?;
    let max_pending = number(vars, "External__MaxPending", 200)?;
    let long_poll = flag(vars, "External__LongPollEnabled", false)?;
    Ok((poll_min, poll_max, escalate, interval, timeout, max_pending, long_poll))
}

fn claim_pacing(vars: &[(String, String)]) -> (r: Result<(u64, u64, u64), ConfigError>)
    ensures
        match r {
            Ok(p) => claim_pacing_of(env_view(vars@)) == Ok::<(u64, u64, u64), ConfigErrorView>(p),
            Err(e) => claim_pacing_of(env_view(vars@)) == Err::<(u64, u64, u64), ConfigErrorView>(e@),
        },
{
    let wait = number(vars, "Poll__WaitSeconds", 25)?;
    let min = number(vars, "Poll__MinSeconds", 1)?;
    let max = number(vars, "Poll__MaxSeconds", 30)?;
    Ok((wait, min, max))
}

fn external(vars: &[(String, String)]) -> (r: Result<External, ConfigError>)
    ensures
        match r {
            Ok(e) => external_of(env_view(vars@)) == Ok::<ExternalView, ConfigErrorView>(e@),
            Err(e) => external_of(env_view(vars@)) == Err::<ExternalView, ConfigErrorView>(e@),
        },
{
    let judge = var_or(vars, "External__Judge", DEFAULT_JUDGE);
    let base = var_or(vars, "External__BaseUrl", "https://onlinejudge.org/");
    let base_url = trailing_slash(base.as_str());
    let api = var_or(vars, "External__ApiBaseUrl", "https://uhunt.onlinejudge.org/");
    let api_base_url = trailing_slash(api.as_str());
    // Untrimmed: see `secret`. The username stays trimmed — it is an
    // identifier rather than a secret, and it becomes a path segment in a
    // uHunt request.
    let username = match var(vars, "External__Username") {
        None => return Err(ConfigError::Missing(Required::Username)),
        Some(u) => u,
    };
    let password = match secret(vars, "External__Password") {
        None => return Err(ConfigError::Missing(Required::Password)),
        Some(p) => p,
    };
    let user_id = match var(vars, "External__UserId") {
        None => None,
        Some(value) => Some(number_in(value.as_str(), "External__UserId")?),
    };
    let (poll_min, poll_max, escalate, interval, timeout, max_pending, long_poll) = pacing(vars)?;
    Ok(
        External {
            judge,
            base_url,
            api_base_url,
            username,
            password,
            user_id,
            poll_min,
            poll_max,
            poll_escalate_after: escalate,
            submit_min_interval: interval,
            pending_timeout: timeout,
            max_pending: #[verifier::truncate] (max_pending as usize),
            long_poll_enabled: long_poll,
        },
    )
}

impl Config {
    /// The configuration the environment describes, from its variables as
    /// name–value pairs, or the first refusal met reading it.
    ///
    /// **Refused at start-up rather than discovered an hour later.**
    pub fn from_variables(vars: &[(String, String)]) -> (r: Result<Config, ConfigError>)
        ensures
            match r {
                Ok(c) => configured(env_view(vars@)) == Ok::<ConfigView, ConfigErrorView>(c@),
                Err(e) => configured(env_view(vars@)) == Err::<ConfigView, ConfigErrorView>(e@),
            },
    {
        let server_base_url = match var(vars, "Server__BaseUrl") {
            None => return Err(ConfigError::Missing(Required::ServerBaseUrl)),
            Some(url) => url,
        };
        if !crate::text::contains(server_base_url.as_str(), "/api/") {
            return Err(ConfigError::NoApiPrefix(server_base_url));
        }
        let runner_name = match var(vars, "Runner__Name") {
            Some(name) => name,
            None => match lookup(vars, "HOSTNAME") {
                Some(host) => host.clone(),
                None => String::from_str("algojudge-external-runner"),
            },
        };
        let problem_types = list(vars, "Runner__ProblemTypes");
        let tags = tags(vars, "Runner__Tags");
        let key_path = var_or(
            vars,
            "Runner__KeyPath",
            "/var/lib/algojudge-external-runner/identity.key",
        );
        let cache_path = var_or(vars, "Cache__Path", DEFAULT_CACHE_PATH);
        let lease = number(vars, "Lease__RequestSeconds", 1200)?;
        // **Refused rather than cut down**: a lease that does not even fit the
        // field would otherwise be read as some other, smaller one.
        if lease > u32::MAX as u64 {
            return Err(ConfigError::LeaseAboveCeiling(lease));
        }
        let lease_seconds: u32 = lease as u32;
        let (poll_wait, claim_poll_min, claim_poll_max) = claim_pacing(vars)?;
        let external = external(vars)?;
        let config = Config {
            server_base_url,
            runner_name,
            problem_types,
            tags,
            key_path,
            cache_path,
            lease_seconds,
            poll_wait,
            claim_poll_min,
            claim_poll_max,
            external,
        };
        config.refuse_what_cannot_work()?;
        Ok(config)
    }
}

/// **A switch reads only `true` and `false`.** In any ASCII case, and trimmed,
/// they are read as themselves; any other word is refused, naming the key and
/// the word, and never read as false; an unset switch is its default.
pub proof fn lemma_a_switch_reads_true_or_false_and_nothing_else(
    env: Seq<(Seq<char>, Seq<char>)>,
    key: Seq<char>,
    fallback: bool,
)
    ensures
        setting(env, key) is None ==> flag_setting(env, key, fallback) == Ok::<bool, ConfigErrorView>(fallback),
        setting(env, key) matches Some(v) ==> {
            &&& (ascii_lowered(v) == "true"@) ==> flag_setting(env, key, fallback) == Ok::<bool, ConfigErrorView>(true)
            &&& (ascii_lowered(v) == "false"@) ==> flag_setting(env, key, fallback) == Ok::<bool, ConfigErrorView>(false)
            &&& (ascii_lowered(v) != "true"@ && ascii_lowered(v) != "false"@) ==> flag_setting(env, key, fallback)
                == Err::<bool, ConfigErrorView>(ConfigErrorView::NotAFlag { key, value: ascii_lowered(v) })
        },
{
    reveal_strlit("true");
    reveal_strlit("false");
    assert("true"@.len() != "false"@.len());
    match setting(env, key) {
        Some(v) => {
            let w = ascii_lowered(v);
            if w == "true"@ {
                assert(w != "false"@);
            }
        },
        None => {},
    }
}

/// **Every way a configuration can be wrong is refused, and nothing else
/// is**: the refusals apply exactly when one of the documented rules is
/// broken.
pub proof fn lemma_refused_exactly_when_a_rule_is_broken(
    poll_min: u64,
    poll_max: u64,
    poll_wait: u64,
    lease: u32,
    pending_timeout: u64,
    max_pending: usize,
)
    ensures
        (refusal(poll_min, poll_max, poll_wait, lease, pending_timeout, max_pending) is None) == (
        poll_min >= 20 && poll_max >= poll_min && lease <= 3600 && lease > pending_timeout
            && poll_wait <= 300 && (poll_max + poll_wait) * 4 <= lease && max_pending > 0),
{
}

/// **What an environment that names nothing else gets**: the judge is `uva`,
/// at `https://onlinejudge.org/` and read through
/// `https://uhunt.onlinejudge.org/`; the key and the cache sit under the
/// product's own directories.
pub proof fn lemma_the_unset_addresses_are_the_default_judges(env: Seq<(Seq<char>, Seq<char>)>)
    ensures
        configured(env) matches Ok(c) ==> {
            &&& setting(env, "External__Judge"@) is None ==> c.external.judge == "uva"@
            &&& setting(env, "External__BaseUrl"@) is None ==> c.external.base_url
                == "https://onlinejudge.org/"@
            &&& setting(env, "External__ApiBaseUrl"@) is None ==> c.external.api_base_url
                == "https://uhunt.onlinejudge.org/"@
            &&& setting(env, "Runner__KeyPath"@) is None ==> c.key_path
                == "/var/lib/algojudge-external-runner/identity.key"@
            &&& setting(env, "Cache__Path"@) is None ==> c.cache_path
                == "/var/cache/algojudge-external-runner"@
        },
{
    if configured(env) is Ok {
        reveal_strlit("https://onlinejudge.org/");
        reveal_strlit("https://uhunt.onlinejudge.org/");
    }
}

} // verus!
