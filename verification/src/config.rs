//! Validated description of what to bind and how to launch the worker:
//! service specifications, the configuration record built from them, and
//! the `name=address[@backlog]` text form.

use vstd::prelude::*;

use crate::addr::{parse_sock_addr, sock_addr_of, SocketAddr};
use crate::text::{dec_val, find_char, index_of, is_dec, is_word_char, lemma_index_of,
    parse_dec_capped};

verus! {

/// Listen backlog used when a service specification names none.
pub const DEFAULT_BACKLOG: usize = 1000;

/// One service: a unique name (also the environment key handed to the
/// worker), the address to listen on, and the listen backlog.
#[derive(Debug)]
pub struct ServiceSpec {
    pub name: String,
    pub addr: SocketAddr,
    pub backlog: usize,
}

/// Mathematical content of a `ServiceSpec`.
pub ghost struct ServiceSpecV {
    pub name: Seq<char>,
    pub addr: SocketAddr,
    pub backlog: int,
}

impl View for ServiceSpec {
    type V = ServiceSpecV;

    open spec fn view(&self) -> ServiceSpecV {
        ServiceSpecV { name: self.name@, addr: self.addr, backlog: self.backlog as int }
    }
}

impl ServiceSpec {
    /// Structural equality over the full `(name, address, backlog)`
    /// tuple; the listener cache is keyed by it.
    pub fn same_spec(&self, other: &ServiceSpec) -> (r: bool)
        ensures
            r == (self@ == other@),
    {
        self.name == other.name && self.addr == other.addr && self.backlog == other.backlog
    }

    /// An owned copy.
    pub fn duplicate(&self) -> (r: ServiceSpec)
        ensures
            r@ == self@,
    {
        ServiceSpec { name: self.name.clone(), addr: self.addr, backlog: self.backlog }
    }
}

/// A path given on the command line could not be used.
#[derive(Debug)]
pub enum ConfigError {
    InvalidPath(String),
}

/// A service specification's text was not `name=address[@backlog]`.
#[derive(Debug, PartialEq, Eq, Structural)]
pub enum ServiceSpecError {
    InvalidServiceSpec,
}

/// Service name: one or more word characters.
pub open spec fn valid_name(s: Seq<char>) -> bool {
    s.len() > 0 && forall|i: int| 0 <= i < s.len() ==> is_word_char(#[trigger] s[i])
}

/// The service denoted by `name=address[@backlog]` text, if valid. The
/// name is the text before the first `=`; an `@` after it separates the
/// address from an explicit decimal backlog, which must fit the machine's
/// word; without one the backlog defaults to `DEFAULT_BACKLOG`.
pub open spec fn service_of(s: Seq<char>) -> Option<ServiceSpecV> {
    match index_of(s, '=') {
        None => None,
        Some(i) => {
            let name = s.take(i);
            let rest = s.skip(i + 1);
            if !valid_name(name) {
                None
            } else {
                match index_of(rest, '@') {
                    None => match sock_addr_of(rest) {
                        Some(a) => Some(
                            ServiceSpecV { name, addr: a, backlog: DEFAULT_BACKLOG as int },
                        ),
                        None => None,
                    },
                    Some(j) => {
                        let atxt = rest.take(j);
                        let btxt = rest.skip(j + 1);
                        match sock_addr_of(atxt) {
                            Some(a) => if is_dec(btxt) && dec_val(btxt) <= usize::MAX {
                                Some(ServiceSpecV { name, addr: a, backlog: dec_val(btxt) })
                            } else {
                                None
                            },
                            None => None,
                        }
                    },
                }
            }
        },
    }
}

/// Check a service name in executable code.
fn check_name(s: &str) -> (r: bool)
    ensures
        r == valid_name(s@),
{
    let n = s.unicode_len();
    if n == 0 {
        return false;
    }
    let mut k: usize = 0;
    while k < n
        invariant
            0 <= k <= n,
            n == s@.len(),
            forall|j: int| 0 <= j < k ==> is_word_char(#[trigger] s@[j]),
        decreases n - k,
    {
        let c = s.get_char(k);
        let v = c as u32;
        if !((97 <= v && v <= 122) || (65 <= v && v <= 90) || (48 <= v && v <= 57) || v == 95) {
            assert(!is_word_char(s@[k as int]));
            return false;
        }
        k = k + 1;
    }
    true
}

impl ServiceSpec {
    /// Parse a service specification; returns exactly the service the
    /// text denotes, or the one parse error when it denotes none.
    pub fn from_str(s: &str) -> (r: Result<ServiceSpec, ServiceSpecError>)
        ensures
            match r {
                Ok(sp) => service_of(s@) == Some(sp@),
                Err(e) => service_of(s@) is None && e == ServiceSpecError::InvalidServiceSpec,
            },
    {
        let n = s.unicode_len();
        let i = match find_char(s, '=') {
            Some(i) => i,
            None => {
                return Err(ServiceSpecError::InvalidServiceSpec);
            },
        };
        proof {
            lemma_index_of(s@, '=');
        }
        let name = s.substring_char(0, i);
        let rest = s.substring_char(i + 1, n);
        proof {
            assert(name@ =~= s@.take(i as int));
            assert(rest@ =~= s@.skip(i as int + 1));
        }
        if !check_name(name) {
            return Err(ServiceSpecError::InvalidServiceSpec);
        }
        let rn = rest.unicode_len();
        match find_char(rest, '@') {
            None => match parse_sock_addr(rest) {
                Some(a) => Ok(
                    ServiceSpec { name: name.to_owned(), addr: a, backlog: DEFAULT_BACKLOG },
                ),
                None => Err(ServiceSpecError::InvalidServiceSpec),
            },
            Some(j) => {
                proof {
                    lemma_index_of(rest@, '@');
                }
                let atxt = rest.substring_char(0, j);
                let btxt = rest.substring_char(j + 1, rn);
                proof {
                    assert(atxt@ =~= rest@.take(j as int));
                    assert(btxt@ =~= rest@.skip(j as int + 1));
                }
                let a = match parse_sock_addr(atxt) {
                    Some(a) => a,
                    None => {
                        return Err(ServiceSpecError::InvalidServiceSpec);
                    },
                };
                match parse_dec_capped(btxt, usize::MAX as u64) {
                    Some(b) => Ok(
                        ServiceSpec { name: name.to_owned(), addr: a, backlog: b as usize },
                    ),
                    None => Err(ServiceSpecError::InvalidServiceSpec),
                }
            },
        }
    }
}

/// Everything the supervisor needs: the worker binary, the worker's own
/// configuration file, the PID file the worker writes, and the services
/// to keep listening. Built once from validated input; never re-read.
#[derive(Debug)]
pub struct Config {
    pub binary: String,
    pub config: String,
    pub pid: String,
    pub services: Vec<ServiceSpec>,
}

/// Mathematical content of a `Config`.
pub ghost struct ConfigV {
    pub binary: Seq<char>,
    pub config: Seq<char>,
    pub pid: Seq<char>,
    pub services: Seq<ServiceSpecV>,
}

impl View for Config {
    type V = ConfigV;

    open spec fn view(&self) -> ConfigV {
        ConfigV {
            binary: self.binary@,
            config: self.config@,
            pid: self.pid@,
            services: self.services@.map_values(|sp: ServiceSpec| sp@),
        }
    }
}

impl Config {
    /// Services carry pairwise distinct names.
    pub open spec fn wf(&self) -> bool {
        forall|i: int, j: int|
            0 <= i < j < self@.services.len() ==> #[trigger] self@.services[i].name
                != #[trigger] self@.services[j].name
    }

    /// Assemble a configuration from already-validated text: every
    /// service string must denote a service and the names must be
    /// pairwise distinct.
    pub fn new(binary: &str, config: &str, pid: &str, services: Vec<&str>) -> (c: Config)
        requires
            forall|i: int|
                0 <= i < services@.len() ==> service_of(#[trigger] services@[i]@) is Some,
            forall|i: int, j: int|
                0 <= i < j < services@.len() ==> service_of(services@[i]@)->Some_0.name
                    != service_of(services@[j]@)->Some_0.name,
        ensures
            c@.binary == binary@,
            c@.config == config@,
            c@.pid == pid@,
            c@.services.len() == services@.len(),
            forall|i: int|
                0 <= i < services@.len() ==> c@.services[i] == service_of(
                    #[trigger] services@[i]@,
                )->Some_0,
            c.wf(),
    {
        let mut parsed: Vec<ServiceSpec> = Vec::new();
        let mut k: usize = 0;
        while k < services.len()
            invariant
                0 <= k <= services@.len(),
                forall|i: int|
                    0 <= i < services@.len() ==> service_of(#[trigger] services@[i]@) is Some,
                parsed@.len() == k,
                forall|i: int|
                    0 <= i < k ==> #[trigger] parsed@[i]@ == service_of(services@[i]@)->Some_0,
            decreases services@.len() - k,
        {
            let sp = match ServiceSpec::from_str(services[k]) {
                Ok(sp) => sp,
                Err(_) => vstd::pervasive::unreached(),
            };
            parsed.push(sp);
            k = k + 1;
        }
        let c = Config {
            binary: binary.to_owned(),
            config: config.to_owned(),
            pid: pid.to_owned(),
            services: parsed,
        };
        proof {
            assert(c@.services =~= parsed@.map_values(|sp: ServiceSpec| sp@));
        }
        c
    }
}

/// A source of validated configuration, such as the command line.
pub trait ConfigBuilder {
    /// The source has been validated and can build.
    spec fn builder_wf(&self) -> bool;

    /// The configuration this source denotes.
    spec fn config_of(&self) -> ConfigV;

    /// Build the configuration this source denotes.
    fn build(&self) -> (c: Config)
        requires
            self.builder_wf(),
        ensures
            c@ == self.config_of(),
            c.wf(),
    ;
}

} // verus!
