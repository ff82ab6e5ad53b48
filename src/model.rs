//! The policy entities: clients with their rules and leases, and domain lists.
use vstd::prelude::*;

verus! {

/// Whether a rule grants or withholds HTTP access.
#[derive(PartialEq, Eq, Structural, Clone, Copy, Debug)]
pub enum RuleKind {
    AllowHttpAccess,
    DenyHttpAccess,
}

/// A rule applies its kind to every domain list it references.
#[derive(Clone, Debug)]
pub struct Rule {
    pub kind: RuleKind,
    pub domainlists: Vec<u32>,
}

/// A time-bounded override. `end_date_utc` is the end instant in
/// milliseconds since the Unix epoch.
#[derive(Clone, Debug)]
pub struct Lease {
    pub end_date_utc: i64,
    pub rule: Rule,
}

/// A device on the network, identified by its address.
#[derive(Clone, Debug)]
pub struct Client {
    pub id: Option<u32>,
    pub ip: String,
    pub name: String,
    pub rules: Vec<Rule>,
    pub leases: Vec<Lease>,
    pub mac_address: Option<String>,
}

/// A named, ordered list of domain patterns.
#[derive(Clone, Debug)]
pub struct DomainList {
    pub id: Option<u32>,
    pub name: String,
    pub domains: Vec<String>,
}

/// A lease is in force at `now` when its end lies strictly after it.
pub open spec fn lease_active(l: Lease, now: int) -> bool {
    l.end_date_utc > now
}

impl Lease {
    /// Whether the lease is still in force at `now`.
    pub fn is_active(&self, now: i64) -> (r: bool)
        ensures
            r == lease_active(*self, now as int),
    {
        self.end_date_utc > now
    }
}

} // verus!
