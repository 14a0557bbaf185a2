//! REST server configuration, aligned with go-zero's `rest.RestConf`.
use vstd::prelude::*;
use crate::text::{chars_of, chars_of_string, decimal, decimal_i64, digits_exec, extend, string_of};

verus! {

/// Switches of the built-in middlewares (all on by default, as in go-zero).
#[derive(Debug, Clone)]
pub struct MiddlewaresConf {
    pub trace: bool,
    pub log: bool,
    pub prometheus: bool,
    pub max_connections: bool,
    pub breaker: bool,
    pub shedding: bool,
    pub timeout: bool,
    pub recover: bool,
    pub metrics: bool,
    pub max_bytes: bool,
    pub gunzip: bool,
}

impl MiddlewaresConf {
    pub open spec fn all_on(&self) -> bool {
        &&& self.trace
        &&& self.log
        &&& self.prometheus
        &&& self.max_connections
        &&& self.breaker
        &&& self.shedding
        &&& self.timeout
        &&& self.recover
        &&& self.metrics
        &&& self.max_bytes
        &&& self.gunzip
    }
}

/// The default of every middleware switch.
pub fn default_true() -> (b: bool)
    ensures
        b,
{
    true
}

impl Default for MiddlewaresConf {
    fn default() -> (c: Self)
        ensures
            c.all_on(),
    {
        MiddlewaresConf {
            trace: true,
            log: true,
            prometheus: true,
            max_connections: true,
            breaker: true,
            shedding: true,
            timeout: true,
            recover: true,
            metrics: true,
            max_bytes: true,
            gunzip: true,
        }
    }
}

/// A private key used to check request signatures.
#[derive(Debug, Clone)]
pub struct PrivateKeyConf {
    pub fingerprint: String,
    pub key_file: String,
}

impl Default for PrivateKeyConf {
    fn default() -> (c: Self)
        ensures
            c.fingerprint@.len() == 0,
            c.key_file@.len() == 0,
    {
        PrivateKeyConf { fingerprint: String::new(), key_file: String::new() }
    }
}

/// Default of `SignatureConf::strict`.
pub fn default_signature_strict() -> (b: bool)
    ensures
        !b,
{
    false
}

/// Default of `SignatureConf::expiry_secs`: one hour.
pub fn default_signature_expiry_secs() -> (n: u64)
    ensures
        n == 3600,
{
    3600
}

/// Request signature settings.
#[derive(Debug, Clone)]
pub struct SignatureConf {
    pub strict: bool,
    /// Expiry in seconds (go-zero's default is one hour).
    pub expiry_secs: u64,
    pub private_keys: Vec<PrivateKeyConf>,
}

impl Default for SignatureConf {
    fn default() -> (c: Self)
        ensures
            !c.strict,
            c.expiry_secs == 3600,
            c.private_keys@.len() == 0,
    {
        SignatureConf { strict: false, expiry_secs: 3600, private_keys: Vec::new() }
    }
}

/// Default listen host.
pub fn default_host() -> (s: String)
    ensures
        s@ == "0.0.0.0"@,
{
    String::from_str("0.0.0.0")
}

/// Default listen port.
pub fn default_port() -> (p: u16)
    ensures
        p == 8888,
{
    8888
}

/// Default connection limit.
pub fn default_max_connections() -> (n: i64)
    ensures
        n == 10_000,
{
    10_000
}

/// Default request body limit, in bytes.
pub fn default_max_bytes() -> (n: i64)
    ensures
        n == 1_048_576,
{
    1_048_576
}

/// Default request timeout, in milliseconds.
pub fn default_timeout_ms() -> (n: i64)
    ensures
        n == 3_000,
{
    3_000
}

/// Default CPU threshold for load shedding, in per-mille.
pub fn default_cpu_threshold() -> (n: i64)
    ensures
        n == 900,
{
    900
}

/// REST server configuration.
#[derive(Debug, Clone)]
pub struct RestConf {
    pub host: String,
    pub port: u16,
    pub cert_file: Option<String>,
    pub key_file: Option<String>,
    pub verbose: bool,
    pub max_connections: i64,
    pub max_bytes: i64,
    /// milliseconds
    pub timeout: i64,
    /// range: [0, 1000)
    pub cpu_threshold: i64,
    pub signature: Option<SignatureConf>,
    /// There are default values for all the items in Middlewares.
    pub middlewares: MiddlewaresConf,
    /// Paths the trace middleware ignores.
    pub trace_ignore_paths: Vec<String>,
}

impl RestConf {
    /// The documented defaults.
    pub open spec fn is_default(&self) -> bool {
        &&& self.host@ == "0.0.0.0"@
        &&& self.port == 8888
        &&& self.cert_file is None
        &&& self.key_file is None
        &&& !self.verbose
        &&& self.max_connections == 10_000
        &&& self.max_bytes == 1_048_576
        &&& self.timeout == 3_000
        &&& self.cpu_threshold == 900
        &&& self.signature is None
        &&& self.middlewares.all_on()
        &&& self.trace_ignore_paths@.len() == 0
    }

    /// A configuration the server accepts: CPU threshold in `[0, 1000)` and a non-zero port.
    pub open spec fn valid(&self) -> bool {
        0 <= self.cpu_threshold < 1000 && self.port != 0
    }

    /// `host:port`.
    pub open spec fn addr_spec(&self) -> Seq<char> {
        self.host@ + seq![':'] + decimal(self.port as int)
    }

    /// What `validate` reports.
    pub open spec fn validate_spec(&self) -> Result<(), Seq<char>> {
        if !(0 <= self.cpu_threshold < 1000) {
            Err("CpuThreshold out of range [0,1000): "@ + decimal(self.cpu_threshold as int))
        } else if self.port == 0 {
            Err("Port must be > 0"@)
        } else {
            Ok(())
        }
    }

    pub fn addr_string(&self) -> (s: String)
        ensures
            s@ == self.addr_spec(),
    {
        let mut v = chars_of_string(&self.host);
        v.push(':');
        let d = digits_exec(self.port as u64);
        extend(&mut v, &d);
        string_of(&v)
    }

    pub fn validate(&self) -> (r: Result<(), String>)
        ensures
            match r {
                Ok(()) => self.validate_spec() == Ok::<(), Seq<char>>(()),
                Err(m) => self.validate_spec() == Err::<(), Seq<char>>(m@),
            },
            r is Ok <==> self.valid(),
    {
        if !(0 <= self.cpu_threshold && self.cpu_threshold < 1000) {
            let mut v = chars_of("CpuThreshold out of range [0,1000): ");
            let d = decimal_i64(self.cpu_threshold);
            extend(&mut v, &d);
            return Err(string_of(&v));
        }
        if self.port == 0 {
            return Err(String::from_str("Port must be > 0"));
        }
        Ok(())
    }
}

impl Default for RestConf {
    fn default() -> (c: Self)
        ensures
            c.is_default(),
    {
        RestConf {
            host: default_host(),
            port: default_port(),
            cert_file: None,
            key_file: None,
            verbose: false,
            max_connections: default_max_connections(),
            max_bytes: default_max_bytes(),
            timeout: default_timeout_ms(),
            cpu_threshold: default_cpu_threshold(),
            signature: None,
            middlewares: MiddlewaresConf::default(),
            trace_ignore_paths: Vec::new(),
        }
    }
}

/// The default configuration passes `validate`.
pub proof fn law_default_conf_is_valid(c: RestConf)
    requires
        c.is_default(),
    ensures
        c.valid(),
        c.validate_spec() == Ok::<(), Seq<char>>(()),
{
}

} // verus!
