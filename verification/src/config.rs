//! The daemon's configuration (`config.toml`) and what it selects.

use vstd::prelude::*;
use vstd::string::*;

verus! {

/// The whole configuration file.
#[derive(Debug)]
pub struct Config {
    pub daemon: Option<DaemonConfig>,
    pub agent: Option<AgentConfig>,
}

/// The `[daemon]` section.
#[derive(Debug)]
pub struct DaemonConfig {
    pub log_filter: Option<String>,
    pub idle_timeout_secs: Option<u64>,
    pub quiescence_timeout_secs: Option<u64>,
    pub trace: bool,
    pub default_model: Option<String>,
    /// Environment variables for the daemon process (each name once), as
    /// name and value pairs: a list rather than a hash map, whose contracts
    /// hold only for integer keys.
    pub env: Vec<(String, String)>,
}

/// The `[agent]` section.
#[derive(Debug)]
pub struct AgentConfig {
    pub name: Option<String>,
    pub custom: Option<CustomAgent>,
}

/// A custom agent binary (`[agent.custom]`).
#[derive(Debug)]
pub struct CustomAgent {
    pub path: String,
    pub args: Vec<String>,
    /// Environment variables for the agent (each name once), as name and
    /// value pairs.
    pub env: Vec<(String, String)>,
}

/// Which agent the daemon spawns for sessions.
#[derive(Debug)]
pub enum AgentChoice {
    /// The custom binary.
    Custom(CustomAgent),
    /// The agent of this name in the acpr registry.
    Registry(String),
    /// The registry's default agent.
    DefaultRegistry,
}

/// The view of an optional string.
pub open spec fn opt_text(o: Option<String>) -> Option<Seq<char>> {
    match o {
        Some(s) => Some(s@),
        None => None,
    }
}

/// The views of string pairs.
pub open spec fn env_views(v: Seq<(String, String)>) -> Seq<(Seq<char>, Seq<char>)> {
    v.map_values(|p: (String, String)| (p.0@, p.1@))
}

fn opt_ref(o: &Option<String>) -> (r: Option<&str>)
    ensures
        match r {
            Some(s) => o matches Some(t) && s@ == t@,
            None => o is None,
        },
{
    match o {
        Some(s) => Some(s.as_str()),
        None => None,
    }
}

impl Default for Config {
    /// No `[daemon]` and no `[agent]` section: every setting at its default.
    fn default() -> (c: Config)
        ensures
            c.daemon is None,
            c.agent is None,
    {
        Config { daemon: None, agent: None }
    }
}

impl Default for DaemonConfig {
    /// An empty `[daemon]` section.
    fn default() -> (d: DaemonConfig)
        ensures
            d.log_filter is None,
            d.idle_timeout_secs is None,
            d.quiescence_timeout_secs is None,
            !d.trace,
            d.default_model is None,
            d.env@.len() == 0,
    {
        DaemonConfig {
            log_filter: None,
            idle_timeout_secs: None,
            quiescence_timeout_secs: None,
            trace: false,
            default_model: None,
            env: Vec::new(),
        }
    }
}

impl Config {
    /// The log filter, if the `[daemon]` section sets one.
    pub fn log_filter(&self) -> (r: Option<&str>)
        ensures
            match r {
                Some(s) => self.daemon matches Some(d) && d.log_filter matches Some(f) && s@ == f@,
                None => self.daemon is None || self.daemon.unwrap().log_filter is None,
            },
    {
        match &self.daemon {
            Some(d) => opt_ref(&d.log_filter),
            None => None,
        }
    }

    /// The model to select in new sessions, if the `[daemon]` section sets one.
    pub fn default_model(&self) -> (r: Option<&str>)
        ensures
            match r {
                Some(s) => self.daemon matches Some(d) && d.default_model matches Some(f) && s@ == f@,
                None => self.daemon is None || self.daemon.unwrap().default_model is None,
            },
    {
        match &self.daemon {
            Some(d) => opt_ref(&d.default_model),
            None => None,
        }
    }

    /// Seconds of inactivity before a quiescent agent is killed (900 unless
    /// configured).
    pub fn idle_timeout_secs(&self) -> (secs: u64)
        ensures
            secs == (match self.daemon {
                Some(d) => match d.idle_timeout_secs {
                    Some(s) => s,
                    None => 900,
                },
                None => 900,
            }),
    {
        match &self.daemon {
            Some(d) => match d.idle_timeout_secs {
                Some(s) => s,
                None => 900,
            },
            None => 900,
        }
    }

    /// Seconds of pipe silence after the last client leaves before the agent
    /// counts as quiescent (10 unless configured).
    pub fn quiescence_timeout_secs(&self) -> (secs: u64)
        ensures
            secs == (match self.daemon {
                Some(d) => match d.quiescence_timeout_secs {
                    Some(s) => s,
                    None => 10,
                },
                None => 10,
            }),
    {
        match &self.daemon {
            Some(d) => match d.quiescence_timeout_secs {
                Some(s) => s,
                None => 10,
            },
            None => 10,
        }
    }

    /// The idle timeout: [`Self::idle_timeout_secs`] whole seconds.
    pub fn idle_timeout(&self) -> (d: std::time::Duration)
        ensures
            d == duration_of_secs(idle_secs(*self)),
    {
        duration_from_secs(self.idle_timeout_secs())
    }

    /// The quiescence timeout: [`Self::quiescence_timeout_secs`] whole
    /// seconds.
    pub fn quiescence_timeout(&self) -> (d: std::time::Duration)
        ensures
            d == duration_of_secs(quiescence_secs(*self)),
    {
        duration_from_secs(self.quiescence_timeout_secs())
    }

    /// Whether trace rows are recorded (off unless the `[daemon]` section
    /// turns it on).
    pub fn trace(&self) -> (r: bool)
        ensures
            r == (self.daemon matches Some(d) && d.trace),
    {
        match &self.daemon {
            Some(d) => d.trace,
            None => false,
        }
    }

    /// The environment variables to set on the daemon process.
    pub fn daemon_env(&self) -> (r: Vec<(String, String)>)
        ensures
            env_views(r@) == (match self.daemon {
                Some(d) => env_views(d.env@),
                None => Seq::empty(),
            }),
    {
        let mut out: Vec<(String, String)> = Vec::new();
        match &self.daemon {
            Some(d) => {
                let mut i: usize = 0;
                while i < d.env.len()
                    invariant
                        i <= d.env@.len(),
                        env_views(out@) == env_views(d.env@).take(i as int),
                    decreases d.env@.len() - i,
                {
                    let ghost before = env_views(out@);
                    let k = d.env[i].0.clone();
                    let v = d.env[i].1.clone();
                    assert(k@ == d.env@[i as int].0@ && v@ == d.env@[i as int].1@);
                    out.push((k, v));
                    assert(env_views(out@) =~= before.push(env_views(d.env@)[i as int]));
                    assert(env_views(out@) =~= env_views(d.env@).take((i + 1) as int));
                    i = i + 1;
                }
                assert(env_views(d.env@).take(d.env@.len() as int) == env_views(d.env@));
            },
            None => {
                assert(env_views(out@) =~= Seq::<(Seq<char>, Seq<char>)>::empty());
            },
        }
        out
    }

    /// Which agent to spawn: a custom binary when configured, else the
    /// registry agent named in the `[agent]` section, else the default one.
    pub fn into_factory(self) -> (r: AgentChoice)
        ensures
            match r {
                AgentChoice::Custom(c) => self.agent matches Some(a) && a.custom == Some(c),
                AgentChoice::Registry(n) => self.agent matches Some(a) && a.custom is None && a.name == Some(n),
                AgentChoice::DefaultRegistry => self.agent is None || (self.agent.unwrap().custom is None && self.agent.unwrap().name is None),
            },
    {
        match self.agent {
            Some(AgentConfig { custom: Some(custom), .. }) => AgentChoice::Custom(custom),
            Some(AgentConfig { name: Some(name), .. }) => AgentChoice::Registry(name),
            _ => AgentChoice::DefaultRegistry,
        }
    }
}

/// Seconds of inactivity before a quiescent agent is killed.
pub open spec fn idle_secs(c: Config) -> u64 {
    match c.daemon {
        Some(d) => match d.idle_timeout_secs {
            Some(s) => s,
            None => 900,
        },
        None => 900,
    }
}

/// Seconds of silence after the last client leaves before the agent counts
/// as quiescent.
pub open spec fn quiescence_secs(c: Config) -> u64 {
    match c.daemon {
        Some(d) => match d.quiescence_timeout_secs {
            Some(s) => s,
            None => 10,
        },
        None => 10,
    }
}

/// The duration of `secs` whole seconds (`Duration::from_secs`), which
/// depends on `secs` alone.
pub uninterp spec fn duration_of_secs(secs: u64) -> std::time::Duration;

/// `std::time::Duration::from_secs`: the duration of `secs` whole seconds.
/// `Duration` is opaque here, so its length is not restated; the contract
/// names the result, which depends on `secs` alone.
#[verifier::external_body]
fn duration_from_secs(secs: u64) -> (d: std::time::Duration)
    ensures
        d == duration_of_secs(secs),
{
    std::time::Duration::from_secs(secs)
}

} // verus!
