//! The UniFi network controller: its session state and the traffic rules it
//! stores. Requests themselves are made by the host.
use vstd::prelude::*;
use crate::errors::MyError;
use crate::text::{pieces, split_str};

verus! {

/// A session with a UniFi controller.
#[derive(Debug)]
pub struct UnifiClient {
    pub device_url: String,
    pub cookie: Option<String>,
    pub csrf_token: Option<String>,
    pub username: String,
    pub password: String,
}

impl Default for UnifiClient {
    fn default() -> (r: Self)
        ensures
            r.device_url@ == "https://192.168.1.1/"@,
            r.cookie is None,
            r.csrf_token is None,
            r.username@ == Seq::<char>::empty(),
            r.password@ == Seq::<char>::empty(),
    {
        UnifiClient {
            device_url: String::from_str("https://192.168.1.1/"),
            cookie: None,
            csrf_token: None,
            username: String::new(),
            password: String::new(),
        }
    }
}

/// The value of the first `TOKEN=value` part among `parts`.
pub open spec fn first_token(parts: Seq<Seq<char>>) -> Option<Seq<char>>
    decreases parts.len(),
{
    if parts.len() == 0 {
        None
    } else {
        let kv = pieces(parts[0], "="@);
        if kv.len() >= 2 && kv[0] == "TOKEN"@ {
            Some(kv[1])
        } else {
            first_token(parts.drop_first())
        }
    }
}

/// The session token held in a `Set-Cookie` value.
pub open spec fn token_of(cookie: Seq<char>) -> Option<Seq<char>> {
    first_token(pieces(cookie, "; "@))
}

impl UnifiClient {
    /// A client of the controller at the default address, not logged in.
    pub fn new(username: &str, password: &str) -> (r: Self)
        ensures
            r.device_url@ == "https://192.168.1.1/"@,
            r.cookie is None,
            r.csrf_token is None,
            r.username@ == username@,
            r.password@ == password@,
    {
        UnifiClient { username: String::from_str(username), password: String::from_str(password), ..Default::default() }
    }

    /// The address of `path` on the controller.
    pub fn url_path(&self, path: &str) -> (r: String)
        ensures
            r@ == self.device_url@ + path@,
    {
        String::from_str(self.device_url.as_str()).concat(path)
    }

    /// Takes the session cookie and the CSRF token that a response carried;
    /// a value the response did not carry is kept.
    pub fn update_session(&mut self, cookie: Option<String>, csrf_token: Option<String>)
        ensures
            final(self).cookie == (if cookie is Some { cookie } else { old(self).cookie }),
            final(self).csrf_token == (if csrf_token is Some { csrf_token } else { old(self).csrf_token }),
            final(self).device_url == old(self).device_url,
            final(self).username == old(self).username,
            final(self).password == old(self).password,
    {
        if cookie.is_some() {
            self.cookie = cookie;
        }
        if csrf_token.is_some() {
            self.csrf_token = csrf_token;
        }
    }

    /// The `Cookie` header value and the CSRF token that authenticate a
    /// request. Without a session this fails; with a session cookie that
    /// holds no token, or with no CSRF token, the session is dropped and
    /// this fails.
    pub fn session_headers(&mut self) -> (r: Result<(String, String), MyError>)
        ensures
            old(self).cookie is None ==> r is Err && *final(self) == *old(self),
            old(self).cookie matches Some(c) ==> {
                match (token_of(c@), old(self).csrf_token) {
                    (Some(t), Some(x)) => r matches Ok(h) && h.0@ == "TOKEN="@ + t && h.1 == x && *final(self)
                        == *old(self),
                    _ => r is Err && final(self).cookie is None && final(self).csrf_token is None
                        && final(self).device_url == old(self).device_url && final(self).username
                        == old(self).username && final(self).password == old(self).password,
                }
            },
            r matches Err(e) ==> e is Failed,
    {
        let cookie = match &self.cookie {
            Some(c) => split_str(c.as_str(), "; "),
            None => {
                return Err(MyError::Failed(String::from_str("Not logged in")));
            },
        };
        let ghost parts = cookie@.map_values(|p: String| p@);
        assert(parts.subrange(0, parts.len() as int) =~= parts);
        let mut i: usize = 0;
        while i < cookie.len()
            invariant
                i <= cookie.len(),
                parts == cookie@.map_values(|p: String| p@),
                parts == pieces(self.cookie.unwrap()@, "; "@),
                *self == *old(self),
                self.cookie is Some,
                token_of(self.cookie.unwrap()@) == first_token(parts.subrange(i as int, parts.len() as int)),
            decreases cookie.len() - i,
        {
            let ghost rest = parts.subrange(i as int, parts.len() as int);
            assert(rest[0] == cookie@[i as int]@);
            assert(rest.drop_first() =~= parts.subrange(i + 1, parts.len() as int));
            let kv = split_str(cookie[i].as_str(), "=");
            let ghost kvv = kv@.map_values(|p: String| p@);
            assert(kvv.len() == kv.len());
            if kv.len() >= 2 && kv[0] == String::from_str("TOKEN") {
                proof {
                    reveal_strlit("TOKEN");
                    assert(kvv[0] == kv@[0]@);
                    assert(kvv[1] == kv@[1]@);
                }
                match &self.csrf_token {
                    Some(token) => {
                        assert(first_token(rest) == Some(kvv[1]));
                        return Ok((String::from_str("TOKEN=").concat(kv[1].as_str()), token.clone()));
                    },
                    None => {},
                }
                self.cookie = None;
                return Err(MyError::Failed(String::from_str("Invalid cookie. Try login() again")));
            }
            proof {
                if kv.len() >= 2 {
                    assert(kvv[0] == kv@[0]@);
                }
            }
            i += 1;
        }
        self.cookie = None;
        self.csrf_token = None;
        Err(MyError::Failed(String::from_str("Invalid cookie. Try login() again")))
    }
}

/// Limits on a device's bandwidth.
#[derive(Debug)]
pub struct BandwidthLimit {
    pub download_limit_kbps: u32,
    pub enabled: bool,
    pub upload_limit_kbps: u32,
}

impl Default for BandwidthLimit {
    fn default() -> (r: Self)
        ensures
            r.download_limit_kbps == 1024,
            !r.enabled,
            r.upload_limit_kbps == 1024,
    {
        BandwidthLimit { download_limit_kbps: 1024, enabled: false, upload_limit_kbps: 1024 }
    }
}

impl BandwidthLimit {
    /// No bandwidth limit.
    pub fn disabled() -> (r: Self)
        ensures
            r.download_limit_kbps == 1024,
            !r.enabled,
            r.upload_limit_kbps == 1024,
    {
        BandwidthLimit::default()
    }
}

/// When a traffic rule applies.
#[derive(Debug)]
pub struct Schedule {
    pub mode: String,
    pub date_start: Option<String>,
    pub date_end: Option<String>,
    pub repeat_on_days: Vec<u32>,
    pub time_all_day: bool,
    pub time_range_start: Option<String>,
    pub time_range_end: Option<String>,
}

/// A schedule in mode `mode` with nothing else set.
pub open spec fn bare_schedule(s: Schedule, mode: Seq<char>) -> bool {
    &&& s.mode@ == mode
    &&& s.date_start is None
    &&& s.date_end is None
    &&& s.repeat_on_days@.len() == 0
    &&& !s.time_all_day
    &&& s.time_range_start is None
    &&& s.time_range_end is None
}

impl Default for Schedule {
    fn default() -> (r: Self)
        ensures
            bare_schedule(r, Seq::empty()),
    {
        Schedule {
            mode: String::new(),
            date_start: None,
            date_end: None,
            repeat_on_days: Vec::new(),
            time_all_day: false,
            time_range_start: None,
            time_range_end: None,
        }
    }
}

impl Schedule {
    /// A schedule that always applies.
    pub fn always() -> (r: Self)
        ensures
            bare_schedule(r, "ALWAYS"@),
    {
        Schedule { mode: String::from_str("ALWAYS"), ..Default::default() }
    }
}

/// A device that a traffic rule targets.
#[derive(Debug)]
pub struct TargetDevice {
    pub client_mac: String,
    pub typ: String,
}

impl Default for TargetDevice {
    fn default() -> (r: Self)
        ensures
            r.client_mac@ == Seq::<char>::empty(),
            r.typ@ == "CLIENT"@,
    {
        TargetDevice { client_mac: String::new(), typ: String::from_str("CLIENT") }
    }
}

impl TargetDevice {
    /// The client device with the given MAC address.
    pub fn for_client_mac(mac: &str) -> (r: Self)
        ensures
            r.client_mac@ == mac@,
            r.typ@ == "CLIENT"@,
    {
        TargetDevice { client_mac: String::from_str(mac), ..Default::default() }
    }
}

/// A traffic rule of the controller.
#[derive(Debug)]
pub struct TrafficRule {
    pub id: Option<String>,
    pub action: String,
    pub app_category_ids: Vec<String>,
    pub app_ids: Vec<String>,
    pub bandwidth_limit: BandwidthLimit,
    pub description: String,
    pub domains: Vec<String>,
    pub enabled: bool,
    pub ip_addresses: Vec<String>,
    pub ip_ranges: Vec<String>,
    pub matching_target: String,
    pub network_ids: Vec<String>,
    pub regions: Vec<String>,
    pub schedule: Schedule,
    pub target_devices: Vec<TargetDevice>,
}

/// A new, disabled blocking rule that matches `target` and applies always,
/// with every list empty.
pub open spec fn fresh_block_rule(r: TrafficRule, target: Seq<char>) -> bool {
    &&& r.id is None
    &&& r.action@ == "BLOCK"@
    &&& r.app_category_ids@.len() == 0
    &&& r.app_ids@.len() == 0
    &&& r.bandwidth_limit.download_limit_kbps == 1024
    &&& !r.bandwidth_limit.enabled
    &&& r.bandwidth_limit.upload_limit_kbps == 1024
    &&& r.description@ == Seq::<char>::empty()
    &&& r.domains@.len() == 0
    &&& !r.enabled
    &&& r.ip_addresses@.len() == 0
    &&& r.ip_ranges@.len() == 0
    &&& r.matching_target@ == target
    &&& r.network_ids@.len() == 0
    &&& r.regions@.len() == 0
    &&& bare_schedule(r.schedule, "ALWAYS"@)
    &&& r.target_devices@.len() == 0
}

impl Default for TrafficRule {
    fn default() -> (r: Self)
        ensures
            fresh_block_rule(r, "APP"@),
    {
        TrafficRule {
            id: None,
            action: String::from_str("BLOCK"),
            app_category_ids: Vec::new(),
            app_ids: Vec::new(),
            bandwidth_limit: BandwidthLimit::disabled(),
            description: String::new(),
            domains: Vec::new(),
            enabled: false,
            ip_addresses: Vec::new(),
            ip_ranges: Vec::new(),
            matching_target: String::from_str("APP"),
            network_ids: Vec::new(),
            regions: Vec::new(),
            schedule: Schedule::always(),
            target_devices: Vec::new(),
        }
    }
}

impl TrafficRule {
    /// A disabled rule that blocks all internet traffic of its targets.
    pub fn block_internet() -> (r: Self)
        ensures
            fresh_block_rule(r, "INTERNET"@),
    {
        TrafficRule { matching_target: String::from_str("INTERNET"), ..Default::default() }
    }
}

/// The rule that blocks, or lets through when `enabled` is false, the
/// internet traffic of the one device with MAC address `mac_address`.
pub fn create_block_rule(mac_address: &str, enabled: bool) -> (r: TrafficRule)
    ensures
        r.id is None,
        r.action@ == "BLOCK"@,
        r.matching_target@ == "INTERNET"@,
        r.enabled == enabled,
        r.description@ == "Traffic rule created by Penguin"@,
        r.target_devices@.len() == 1,
        r.target_devices@[0].client_mac@ == mac_address@,
        r.target_devices@[0].typ@ == "CLIENT"@,
        bare_schedule(r.schedule, "ALWAYS"@),
{
    let mut new_rule = TrafficRule::block_internet();
    new_rule.enabled = enabled;
    new_rule.description = String::from_str("Traffic rule created by Penguin");
    new_rule.target_devices = Vec::new();
    new_rule.target_devices.push(TargetDevice::for_client_mac(mac_address));
    new_rule
}

} // verus!
