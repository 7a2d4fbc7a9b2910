//! The command line as a configuration source: raw argument text,
//! validated once so that building the configuration cannot fail.
//! Reading the actual process arguments and checking paths on disk
//! happen outside the library; the rules checked here are the ones the
//! library owns: every service text must denote a service, and no two
//! services may share a name.

use vstd::prelude::*;

use crate::config::{service_of, Config, ConfigBuilder, ConfigV, ServiceSpec};

verus! {

/// The command line could not be validated.
#[derive(Debug, Clone, Copy, PartialEq, Eq, Structural)]
pub enum CliError {
    /// Some service text does not denote a service.
    InvalidServiceSpec,
    /// Two services share a name.
    DuplicateServiceName,
}

/// Every service text denotes a service.
pub open spec fn all_services_parse(svs: Seq<String>) -> bool {
    forall|i: int| 0 <= i < svs.len() ==> service_of(#[trigger] svs[i]@) is Some
}

/// The denoted services carry pairwise distinct names.
pub open spec fn service_names_unique(svs: Seq<String>) -> bool {
    forall|i: int, j: int|
        0 <= i < j < svs.len() ==> service_of(#[trigger] svs[i]@)->Some_0.name != service_of(
            #[trigger] svs[j]@,
        )->Some_0.name
}

/// A validated command line: the worker binary, the worker's
/// configuration file, the PID file, and the service texts.
#[derive(Debug)]
pub struct CommandLine {
    binary: String,
    cfg: String,
    pid: String,
    services: Vec<String>,
}

impl CommandLine {
    /// Validate a command line: every service text must denote a
    /// service and the names must be pairwise distinct; each failure
    /// is reported as exactly one error.
    pub fn new(binary: String, cfg: String, pid: String, services: Vec<String>) -> (r: Result<
        CommandLine,
        CliError,
    >)
        ensures
            match r {
                Ok(cl) => {
                    &&& all_services_parse(services@)
                    &&& service_names_unique(services@)
                    &&& cl.builder_wf()
                    &&& cl.config_of().binary == binary@
                    &&& cl.config_of().config == cfg@
                    &&& cl.config_of().pid == pid@
                    &&& cl.config_of().services.len() == services@.len()
                    &&& forall|i: int|
                        0 <= i < services@.len() ==> cl.config_of().services[i] == service_of(
                            #[trigger] services@[i]@,
                        )->Some_0
                },
                Err(e) => match e {
                    CliError::InvalidServiceSpec => !all_services_parse(services@),
                    CliError::DuplicateServiceName => all_services_parse(services@)
                        && !service_names_unique(services@),
                },
            },
    {
        let mut parsed: Vec<ServiceSpec> = Vec::new();
        let mut k: usize = 0;
        while k < services.len()
            invariant
                0 <= k <= services@.len(),
                parsed@.len() == k,
                forall|j: int|
                    0 <= j < k ==> service_of(#[trigger] services@[j]@) is Some
                        && parsed@[j]@ == service_of(services@[j]@)->Some_0,
            decreases services@.len() - k,
        {
            match ServiceSpec::from_str(services[k].as_str()) {
                Ok(sp) => {
                    parsed.push(sp);
                },
                Err(_) => {
                    return Err(CliError::InvalidServiceSpec);
                },
            }
            k = k + 1;
        }
        let n = parsed.len();
        let mut a: usize = 0;
        while a < n
            invariant
                0 <= a <= n,
                n == services@.len(),
                parsed@.len() == n,
                forall|j: int|
                    0 <= j < n ==> service_of(#[trigger] services@[j]@) is Some && parsed@[j]@
                        == service_of(services@[j]@)->Some_0,
                forall|i: int, j: int|
                    0 <= i < j < n && i < a ==> service_of(#[trigger] services@[i]@)->Some_0.name
                        != service_of(#[trigger] services@[j]@)->Some_0.name,
            decreases n - a,
        {
            let mut b: usize = a + 1;
            while b < n
                invariant
                    0 <= a < b <= n,
                    n == services@.len(),
                    parsed@.len() == n,
                    forall|j: int|
                        0 <= j < n ==> service_of(#[trigger] services@[j]@) is Some && parsed@[j]@
                            == service_of(services@[j]@)->Some_0,
                    forall|j: int|
                        a < j < b ==> service_of(services@[a as int]@)->Some_0.name != service_of(
                            #[trigger] services@[j]@,
                        )->Some_0.name,
                decreases n - b,
            {
                if parsed[a].name == parsed[b].name {
                    proof {
                        assert(service_of(services@[a as int]@)->Some_0.name == service_of(
                            services@[b as int]@,
                        )->Some_0.name);
                        assert(!service_names_unique(services@));
                    }
                    return Err(CliError::DuplicateServiceName);
                }
                b = b + 1;
            }
            a = a + 1;
        }
        Ok(CommandLine { binary, cfg, pid, services })
    }
}

impl ConfigBuilder for CommandLine {
    /// Every service text denotes a service, under pairwise distinct
    /// names; `new` establishes this.
    closed spec fn builder_wf(&self) -> bool {
        all_services_parse(self.services@) && service_names_unique(self.services@)
    }

    /// The configuration this command line denotes.
    closed spec fn config_of(&self) -> ConfigV {
        ConfigV {
            binary: self.binary@,
            config: self.cfg@,
            pid: self.pid@,
            services: Seq::new(
                self.services@.len(),
                |i: int| service_of(self.services@[i]@)->Some_0,
            ),
        }
    }

    fn build(&self) -> (c: Config) {
        let mut texts: Vec<&str> = Vec::new();
        let mut k: usize = 0;
        while k < self.services.len()
            invariant
                0 <= k <= self.services@.len(),
                texts@.len() == k,
                forall|j: int| 0 <= j < k ==> #[trigger] texts@[j]@ == self.services@[j]@,
            decreases self.services@.len() - k,
        {
            texts.push(self.services[k].as_str());
            k = k + 1;
        }
        let ghost textsv = texts@;
        let c = Config::new(self.binary.as_str(), self.cfg.as_str(), self.pid.as_str(), texts);
        proof {
            assert forall|i: int|
                0 <= i < c@.services.len() implies #[trigger] c@.services[i]
                == self.config_of().services[i] by {
                assert(c@.services[i] == service_of(textsv[i]@)->Some_0);
                assert(textsv[i]@ == self.services@[i]@);
            }
            assert(c@.services =~= self.config_of().services);
        }
        c
    }
}

/// Validate a command line; see `CommandLine::new`.
pub fn new(binary: String, cfg: String, pid: String, services: Vec<String>) -> (r: Result<
    CommandLine,
    CliError,
>)
    ensures
        match r {
            Ok(cl) => {
                &&& all_services_parse(services@)
                &&& service_names_unique(services@)
                &&& cl.builder_wf()
                &&& cl.config_of().binary == binary@
                &&& cl.config_of().config == cfg@
                &&& cl.config_of().pid == pid@
                &&& cl.config_of().services.len() == services@.len()
                &&& forall|i: int|
                    0 <= i < services@.len() ==> cl.config_of().services[i] == service_of(
                        #[trigger] services@[i]@,
                    )->Some_0
            },
            Err(e) => match e {
                CliError::InvalidServiceSpec => !all_services_parse(services@),
                CliError::DuplicateServiceName => all_services_parse(services@)
                    && !service_names_unique(services@),
            },
        },
{
    CommandLine::new(binary, cfg, pid, services)
}

} // verus!
