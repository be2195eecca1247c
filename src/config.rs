use crate::range::{masked, AddressRange};
use vstd::prelude::*;

verus! {

/// A CIDR text as the parser read it.
#[derive(Clone, Copy, Debug, PartialEq, Eq)]
pub enum ParsedCidr {
    /// An IPv4 block: the address as written, and the prefix length.
    V4 { addr: u32, prefix: u8 },
    /// A well-formed IPv6 block.
    V6,
    /// Text that is no CIDR block.
    Invalid,
}

/// Why a sweep cannot start.
#[derive(Clone, Copy, Debug, PartialEq, Eq)]
pub enum ConfigError {
    /// The range is not a well-formed CIDR block.
    InvalidRange,
    /// The range is an IPv6 block.
    UnsupportedFamily,
    /// The concurrency limit is zero.
    ZeroConcurrency,
}

/// What ipnetwork's parser makes of a CIDR text.
pub uninterp spec fn cidr_parse(text: Seq<char>) -> ParsedCidr;

/// Relies on ipnetwork's `FromStr for IpNetwork`, which reads `a.b.c.d/p`
/// (or a bare address, or an IPv6 block) and keeps the address as written;
/// its result depends on the text alone.
#[verifier::external_body]
fn parse_cidr(text: &str) -> (r: ParsedCidr)
    ensures
        r == cidr_parse(text@),
{
    match text.parse::<ipnetwork::IpNetwork>() {
        Ok(ipnetwork::IpNetwork::V4(net)) => ParsedCidr::V4 { addr: u32::from(net.ip()), prefix: net.prefix() },
        Ok(ipnetwork::IpNetwork::V6(_)) => ParsedCidr::V6,
        Err(_) => ParsedCidr::Invalid,
    }
}

/// The settings of one sweep.
#[derive(Clone, Copy, Debug, PartialEq, Eq)]
pub struct ScanConfig {
    pub range: AddressRange,
    /// The time allowed to each connection attempt, in milliseconds.
    pub timeout_ms: u64,
    /// The most probes that may run at once.
    pub concurrency: usize,
}

impl ScanConfig {
    pub open spec fn wf(self) -> bool {
        self.range.wf() && self.concurrency >= 1
    }
}

/// The configuration, or the error, that a parsed range and the two limits
/// give: a malformed range, then an IPv6 range, then a zero concurrency limit
/// is refused; otherwise the range is the IPv4 block with its host bits cleared.
pub open spec fn config_outcome(
    parsed: ParsedCidr,
    timeout_ms: u64,
    concurrency: usize,
    r: Result<ScanConfig, ConfigError>,
) -> bool {
    match parsed {
        ParsedCidr::Invalid => r == Err::<ScanConfig, ConfigError>(ConfigError::InvalidRange),
        ParsedCidr::V6 => r == Err::<ScanConfig, ConfigError>(ConfigError::UnsupportedFamily),
        ParsedCidr::V4 { addr, prefix } => if prefix > 32 {
            r == Err::<ScanConfig, ConfigError>(ConfigError::InvalidRange)
        } else if concurrency == 0 {
            r == Err::<ScanConfig, ConfigError>(ConfigError::ZeroConcurrency)
        } else {
            match r {
                Ok(c) => {
                    &&& c.wf()
                    &&& c.range.first() == masked(addr, prefix)
                    &&& c.range.prefix_len() == prefix
                    &&& c.timeout_ms == timeout_ms
                    &&& c.concurrency == concurrency
                },
                Err(_) => false,
            }
        },
    }
}

impl ScanConfig {
    /// The configuration for an already parsed range.
    pub fn from_parsed(parsed: ParsedCidr, timeout_ms: u64, concurrency: usize) -> (r: Result<
        ScanConfig,
        ConfigError,
    >)
        ensures
            config_outcome(parsed, timeout_ms, concurrency, r),
    {
        match parsed {
            ParsedCidr::Invalid => Err(ConfigError::InvalidRange),
            ParsedCidr::V6 => Err(ConfigError::UnsupportedFamily),
            ParsedCidr::V4 { addr, prefix } => {
                if prefix > 32 {
                    Err(ConfigError::InvalidRange)
                } else if concurrency == 0 {
                    Err(ConfigError::ZeroConcurrency)
                } else {
                    Ok(ScanConfig { range: AddressRange::new(addr, prefix), timeout_ms, concurrency })
                }
            },
        }
    }

    /// The configuration for the CIDR text `cidr`, a per-attempt timeout and a
    /// concurrency limit.
    pub fn parse(cidr: &str, timeout_ms: u64, concurrency: usize) -> (r: Result<
        ScanConfig,
        ConfigError,
    >)
        ensures
            config_outcome(cidr_parse(cidr@), timeout_ms, concurrency, r),
    {
        ScanConfig::from_parsed(parse_cidr(cidr), timeout_ms, concurrency)
    }
}

} // verus!
