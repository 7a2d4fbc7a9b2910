//! The worker-process supervisor: builds each worker generation's launch
//! specification (arguments, inherited-descriptor environment, graceful
//! handoff to the predecessor) and tracks the current worker.

use vstd::prelude::*;

use crate::config::{Config, ConfigV, ServiceSpecV};
use crate::listener::{ListenerError, ListenerRegistry};
use crate::text::{dec_str, dec_val, is_dec, parse_dec_capped, trim_str, trimmed, u64_to_dec};

verus! {

/// A reload or spawn attempt failed; the previous worker, if any, is
/// unaffected.
#[derive(Debug, Clone, Copy, PartialEq, Eq, Structural)]
pub enum HAProxyProcessError {
    /// A listener could not be created (socket/setsockopt/bind/listen).
    CreateCommandFailed(ListenerError),
    /// The OS refused to spawn the worker; carries the error number.
    StartCommandFailed(i32),
    /// The PID file could not be read; carries the error number.
    ReadWorkerPIDFailed(i32),
    /// The PID file's contents were not a process id.
    InvalidPID,
}

/// Everything a worker process is started with: the binary, its
/// arguments in order, and its entire environment (the worker inherits
/// nothing else).
#[derive(Debug)]
pub struct LaunchSpec {
    pub binary: String,
    pub args: Vec<String>,
    pub env: Vec<(String, String)>,
}

/// Mathematical content of a `LaunchSpec`.
pub ghost struct LaunchSpecV {
    pub binary: Seq<char>,
    pub args: Seq<Seq<char>>,
    pub env: Seq<(Seq<char>, Seq<char>)>,
}

/// The character sequences of a sequence of strings.
pub open spec fn views_of(v: Seq<String>) -> Seq<Seq<char>> {
    v.map_values(|a: String| a@)
}

/// The character sequences of a sequence of string pairs.
pub open spec fn pair_views_of(v: Seq<(String, String)>) -> Seq<(Seq<char>, Seq<char>)> {
    v.map_values(|e: (String, String)| (e.0@, e.1@))
}

impl View for LaunchSpec {
    type V = LaunchSpecV;

    open spec fn view(&self) -> LaunchSpecV {
        LaunchSpecV {
            binary: self.binary@,
            args: views_of(self.args@),
            env: pair_views_of(self.env@),
        }
    }
}

/// The launch specification owed for one spawn: the worker binary; the
/// base arguments, followed — exactly when a predecessor exists — by the
/// graceful-handoff flag carrying the predecessor's process id; and an
/// environment that lists every configured service in order, mapped to
/// the decimal text of its listener descriptor.
pub open spec fn launch_matches(
    cmdv: LaunchSpecV,
    cfg: ConfigV,
    handoff: Option<u32>,
    fds: Map<ServiceSpecV, int>,
) -> bool {
    &&& cmdv.binary == cfg.binary
    &&& cmdv.args.len() == if handoff is Some {
        7int
    } else {
        5int
    }
    &&& cmdv.args[0] == "-f"@
    &&& cmdv.args[1] == cfg.config
    &&& cmdv.args[2] == "-p"@
    &&& cmdv.args[3] == cfg.pid
    &&& cmdv.args[4] == "-Ds"@
    &&& (handoff is Some ==> cmdv.args[5] == "-sf"@ && cmdv.args[6] == dec_str(
        handoff->0 as int,
    ))
    &&& cmdv.env.len() == cfg.services.len()
    &&& forall|i: int|
        0 <= i < cmdv.env.len() ==> {
            &&& (#[trigger] cmdv.env[i]).0 == cfg.services[i].name
            &&& fds.dom().contains(cfg.services[i])
            &&& cmdv.env[i].1 == dec_str(fds[cfg.services[i]])
        }
}

/// The process id denoted by PID-file contents: decimal digits,
/// optionally surrounded by whitespace, with value fitting a `u32`.
pub open spec fn pid_of_contents(s: Seq<char>) -> Option<u32> {
    if is_dec(trimmed(s)) && dec_val(trimmed(s)) <= u32::MAX {
        Some(dec_val(trimmed(s)) as u32)
    } else {
        None
    }
}

/// The supervisor: the validated configuration, the listener cache, and
/// the identity of the most recently spawned worker (`None` before the
/// first spawn).
pub struct HAProxy {
    pub config: Config,
    pub services: ListenerRegistry,
    pub process: Option<u32>,
}

impl HAProxy {
    /// The configuration is well-formed and so is the listener cache.
    pub open spec fn wf(&self) -> bool {
        self.config.wf() && self.services.wf()
    }

    /// The cached listeners, as a map from service spec to descriptor.
    pub closed spec fn listeners(&self) -> Map<ServiceSpecV, int> {
        self.services@
    }

    /// The specs for which a bind+listen sequence was ever issued.
    pub closed spec fn bind_log(&self) -> Seq<ServiceSpecV> {
        self.services.bind_log()
    }

    /// A fresh supervisor over a validated configuration: no listeners
    /// yet, no worker yet.
    pub fn init_from_config(config: Config) -> (r: HAProxy)
        requires
            config.wf(),
        ensures
            r.wf(),
            r.config == config,
            r.process is None,
            r.listeners() == Map::<ServiceSpecV, int>::empty(),
            r.bind_log() == Seq::<ServiceSpecV>::empty(),
    {
        HAProxy { config, services: ListenerRegistry::new(), process: None }
    }

    /// Number of distinct specs ever bound; a reload that reuses every
    /// listener leaves it unchanged.
    pub fn bound_count(&self) -> (n: usize)
        requires
            self.wf(),
        ensures
            n == self.bind_log().len(),
    {
        self.services.bound_count()
    }

    /// Interpret one read of the PID file: the read error is reported
    /// as `ReadWorkerPIDFailed`, contents that denote no process id as
    /// `InvalidPID`, and anything else as the id the contents denote.
    pub fn worker_pid(&self, pid_file: Result<String, i32>) -> (r: Result<
        u32,
        HAProxyProcessError,
    >)
        ensures
            match pid_file {
                Ok(s) => match pid_of_contents(s@) {
                    Some(p) => r == Ok::<u32, HAProxyProcessError>(p),
                    None => r == Err::<u32, HAProxyProcessError>(HAProxyProcessError::InvalidPID),
                },
                Err(e) => r == Err::<u32, HAProxyProcessError>(
                    HAProxyProcessError::ReadWorkerPIDFailed(e),
                ),
            },
    {
        let s = match pid_file {
            Ok(s) => s,
            Err(e) => {
                return Err(HAProxyProcessError::ReadWorkerPIDFailed(e));
            },
        };
        let t = trim_str(s.as_str());
        match parse_dec_capped(t, u32::MAX as u64) {
            Some(v) => Ok(v as u32),
            None => Err(HAProxyProcessError::InvalidPID),
        }
    }

    /// Build the next worker generation's launch specification.
    ///
    /// `pid_file` is the contents of the PID file as read at call time;
    /// it is consulted only when a worker is already running, in which
    /// case the arguments end with the graceful-handoff flag carrying
    /// the process id the file denotes — never a stale in-memory value.
    /// Without a predecessor the arguments are exactly the base ones.
    /// The environment lists every configured service in order, mapped
    /// to the decimal text of its cached descriptor; descriptors cached
    /// earlier are reused unchanged, and a spec is never cached on
    /// failure. Success is owed whenever every listener is already
    /// cached and, if a predecessor exists, the PID file denotes an id.
    ///
    /// Worker generations may overlap without bound: the supervisor's
    /// notion of "current" moves forward as soon as the new worker is
    /// recorded, without waiting for its predecessor to finish
    /// draining.
    #[verifier::rlimit(100)]
    #[verifier::spinoff_prover]
    pub fn create_command(&mut self, pid_file: Result<String, i32>) -> (r: Result<
        LaunchSpec,
        HAProxyProcessError,
    >)
        requires
            old(self).wf(),
        ensures
            final(self).wf(),
            final(self).config == old(self).config,
            final(self).process == old(self).process,
            forall|k: ServiceSpecV| #[trigger]
                old(self).listeners().dom().contains(k) ==> final(self).listeners().dom().contains(
                    k,
                ) && final(self).listeners()[k] == old(self).listeners()[k],
            r is Ok ==> (old(self).process is Some ==> pid_file is Ok && pid_of_contents(
                pid_file->Ok_0@,
            ) is Some) && launch_matches(
                r->Ok_0@,
                old(self).config@,
                if old(self).process is Some {
                    Some(pid_of_contents(pid_file->Ok_0@)->Some_0)
                } else {
                    None
                },
                final(self).listeners(),
            ),
            r is Err ==> match r->Err_0 {
                    HAProxyProcessError::ReadWorkerPIDFailed(er) => old(self).process is Some
                        && pid_file == Err::<String, i32>(er) && final(self).listeners() == old(
                        self,
                    ).listeners() && final(self).bind_log() == old(self).bind_log(),
                    HAProxyProcessError::InvalidPID => old(self).process is Some && pid_file is Ok
                        && pid_of_contents(pid_file->Ok_0@) is None && final(self).listeners()
                        == old(self).listeners() && final(self).bind_log() == old(self).bind_log(),
                    HAProxyProcessError::CreateCommandFailed(_) => true,
                    HAProxyProcessError::StartCommandFailed(_) => false,
            },
            ((old(self).process is Some ==> pid_file is Ok && pid_of_contents(
                pid_file->Ok_0@,
            ) is Some) && (forall|i: int|
                0 <= i < old(self).config@.services.len() ==> old(self).listeners().dom().contains(
                    #[trigger] old(self).config@.services[i],
                ))) ==> r is Ok,
    {
        let mut args: Vec<String> = Vec::new();
        args.push("-f".to_owned());
        args.push(self.config.config.clone());
        args.push("-p".to_owned());
        args.push(self.config.pid.clone());
        args.push("-Ds".to_owned());
        if self.process.is_some() {
            let wp = match self.worker_pid(pid_file) {
                Ok(p) => p,
                Err(e) => {
                    return Err(e);
                },
            };
            args.push("-sf".to_owned());
            args.push(u64_to_dec(wp as u64));
        }
        let mut env: Vec<(String, String)> = Vec::new();
        let m = self.config.services.len();
        let mut i: usize = 0;
        while i < m
            invariant
                0 <= i <= m,
                m == old(self).config@.services.len(),
                self.config == old(self).config,
                self.process == old(self).process,
                self.wf(),
                forall|k: ServiceSpecV| #[trigger]
                    old(self).listeners().dom().contains(k) ==> self.listeners().dom().contains(k)
                        && self.listeners()[k] == old(self).listeners()[k],
                env@.len() == i,
                forall|j: int|
                    0 <= j < i ==> {
                        &&& (#[trigger] env@[j]).0@ == old(self).config@.services[j].name
                        &&& self.listeners().dom().contains(old(self).config@.services[j])
                        &&& env@[j].1@ == dec_str(self.listeners()[old(self).config@.services[j]])
                    },
            decreases m - i,
        {
            let fd = match self.services.ensure_listening(&self.config.services[i]) {
                Ok(fd) => fd,
                Err(e) => {
                    proof {
                        assert(!old(self).listeners().dom().contains(
                            old(self).config@.services[i as int],
                        ));
                    }
                    return Err(HAProxyProcessError::CreateCommandFailed(e));
                },
            };
            env.push((self.config.services[i].name.clone(), u64_to_dec(fd as u64)));
            i = i + 1;
        }
        let cmd = LaunchSpec { binary: self.config.binary.clone(), args, env };
        proof {
            let ghost cfgv = old(self).config@;
            let ghost h: Option<u32> = if old(self).process is Some {
                Some(pid_of_contents(pid_file->Ok_0@)->Some_0)
            } else {
                None
            };
            assert(launch_matches(cmd@, cfgv, h, self.listeners())) by {
                assert(cmd@.env.len() == env@.len());
                assert forall|k: int| 0 <= k < cmd@.env.len() implies {
                    &&& (#[trigger] cmd@.env[k]).0 == cfgv.services[k].name
                    &&& self.listeners().dom().contains(cfgv.services[k])
                    &&& cmd@.env[k].1 == dec_str(self.listeners()[cfgv.services[k]])
                } by {
                    assert(cmd@.env[k] == (env@[k].0@, env@[k].1@));
                }
                assert(cmd@.binary == cfgv.binary);
                assert(cmd@.env.len() == cfgv.services.len());
                assert(cmd@.args[0] == "-f"@ && cmd@.args[2] == "-p"@ && cmd@.args[4] == "-Ds"@);
                assert(cmd@.args[1] == cfgv.config && cmd@.args[3] == cfgv.pid);
            }
        }
        Ok(cmd)
    }

    /// Record the outcome of spawning a launch specification: a spawned
    /// worker becomes the current one; a spawn failure leaves the
    /// supervisor — and so the previous worker — untouched.
    pub fn start_process(&mut self, spawned: Result<u32, i32>) -> (r: Result<
        u32,
        HAProxyProcessError,
    >)
        ensures
            final(self).config == old(self).config,
            final(self).listeners() == old(self).listeners(),
            final(self).bind_log() == old(self).bind_log(),
            final(self).wf() == old(self).wf(),
            match spawned {
                Ok(p) => r == Ok::<u32, HAProxyProcessError>(p) && final(self).process == Some(p),
                Err(e) => r == Err::<u32, HAProxyProcessError>(
                    HAProxyProcessError::StartCommandFailed(e),
                ) && final(self).process == old(self).process,
            },
    {
        match spawned {
            Ok(p) => {
                self.process = Some(p);
                Ok(p)
            },
            Err(e) => Err(HAProxyProcessError::StartCommandFailed(e)),
        }
    }
}

} // verus!
