//! Internet access per device, as the controller's blocking rules grant it.
use vstd::prelude::*;
use crate::errors::MyError;
use crate::unifi::{TrafficRule, TargetDevice, create_block_rule};

verus! {

/// Whether one device may reach the internet, and when that access is due
/// to be switched off (milliseconds since the Unix epoch).
#[derive(Debug)]
pub struct NetAccess {
    pub mac_address: String,
    pub enabled: bool,
    pub auto_disable_at: Option<i64>,
}

/// The rule blocks all internet traffic of its targets while enabled.
pub open spec fn blocks_internet(r: TrafficRule) -> bool {
    r.action@ == "BLOCK"@ && r.matching_target@ == "INTERNET"@
}

/// Each target of each internet-blocking rule with that rule's enabled
/// flag, in rule and target order.
pub open spec fn block_pairs(rules: Seq<TrafficRule>) -> Seq<(Seq<char>, bool)>
    decreases rules.len(),
{
    if rules.len() == 0 {
        Seq::empty()
    } else {
        let last = rules.last();
        block_pairs(rules.drop_last()) + if blocks_internet(last) {
            last.target_devices@.map_values(|d: TargetDevice| (d.client_mac@, last.enabled))
        } else {
            Seq::empty()
        }
    }
}

/// For each blocked MAC address, whether its block is enabled; a later rule
/// overrides an earlier one.
pub open spec fn block_map(pairs: Seq<(Seq<char>, bool)>) -> Map<Seq<char>, bool>
    decreases pairs.len(),
{
    if pairs.len() == 0 {
        Map::empty()
    } else {
        block_map(pairs.drop_last()).insert(pairs.last().0, pairs.last().1)
    }
}

/// The value stored for `mac` in `config`: the first entry with that key.
pub open spec fn config_value(config: Seq<(String, i64)>, mac: Seq<char>) -> Option<i64>
    decreases config.len(),
{
    if config.len() == 0 {
        None
    } else if config[0].0@ == mac {
        Some(config[0].1)
    } else {
        config_value(config.drop_first(), mac)
    }
}

fn lookup(config: &Vec<(String, i64)>, mac: &String) -> (r: Option<i64>)
    ensures
        r == config_value(config@, mac@),
{
    let mut i: usize = 0;
    assert(config@.subrange(0, config@.len() as int) =~= config@);
    while i < config.len()
        invariant
            i <= config.len(),
            config_value(config@, mac@) == config_value(config@.subrange(i as int, config@.len() as int), mac@),
        decreases config.len() - i,
    {
        let ghost rest = config@.subrange(i as int, config@.len() as int);
        assert(rest.drop_first() =~= config@.subrange(i + 1, config@.len() as int));
        assert(rest[0] == config@[i as int]);
        if config[i].0 == *mac {
            return Some(config[i].1);
        }
        i += 1;
    }
    None
}

/// `entries` has one entry per key of `m`, holding its value.
pub open spec fn represents(entries: Seq<(String, bool)>, m: Map<Seq<char>, bool>) -> bool {
    &&& forall|i: int| 0 <= i < entries.len() ==> m.contains_key((#[trigger] entries[i]).0@)
        && entries[i].1 == m[entries[i].0@]
    &&& forall|k: Seq<char>| #[trigger] m.contains_key(k) ==> exists|i: int| 0 <= i < entries.len() && (
    #[trigger] entries[i]).0@ == k
    &&& forall|i: int, j: int|
        0 <= i < entries.len() && 0 <= j < entries.len() && i != j ==> (#[trigger] entries[i]).0@ != (
        #[trigger] entries[j]).0@
}

fn record_block(entries: &mut Vec<(String, bool)>, mac: &String, blocked: bool, m: Ghost<Map<Seq<char>, bool>>)
    requires
        represents(old(entries)@, m@),
    ensures
        represents(final(entries)@, m@.insert(mac@, blocked)),
{
    let ghost m2 = m@.insert(mac@, blocked);
    let mut i: usize = 0;
    while i < entries.len()
        invariant
            i <= entries.len(),
            entries@ == old(entries)@,
            represents(entries@, m@),
            m2 == m@.insert(mac@, blocked),
            forall|q: int| 0 <= q < i ==> (#[trigger] entries@[q]).0@ != mac@,
        decreases entries.len() - i,
    {
        if entries[i].0 == *mac {
            let key = entries[i].0.clone();
            entries.remove(i);
            entries.insert(i, (key, blocked));
            let ghost e = entries@;
            assert(e =~= old(entries)@.update(i as int, (key, blocked)));
            assert forall|a: int| 0 <= a < e.len() implies m2.contains_key((#[trigger] e[a]).0@) && e[a].1
                == m2[e[a].0@] by {
                if a != i {
                    assert(old(entries)@[a].0@ != old(entries)@[i as int].0@);
                }
            }
            assert forall|k: Seq<char>| #[trigger] m2.contains_key(k) implies exists|j: int|
                0 <= j < e.len() && (#[trigger] e[j]).0@ == k by {
                if k == mac@ {
                    assert(e[i as int].0@ == k);
                } else {
                    assert(m@.contains_key(k));
                    let j = choose|j: int| 0 <= j < old(entries)@.len() && (#[trigger] old(entries)@[j]).0@ == k;
                    assert(e[j].0@ == k);
                }
            }
            assert forall|a: int, b: int|
                0 <= a < e.len() && 0 <= b < e.len() && a != b implies (#[trigger] e[a]).0@ != (
            #[trigger] e[b]).0@ by {
                assert(old(entries)@[a].0@ != old(entries)@[b].0@);
            }
            return;
        }
        i += 1;
    }
    let ghost before = entries@;
    entries.push((mac.clone(), blocked));
    let ghost e = entries@;
    assert forall|k: Seq<char>| #[trigger] m2.contains_key(k) implies exists|j: int|
        0 <= j < e.len() && (#[trigger] e[j]).0@ == k by {
        if k == mac@ {
            assert(e[before.len() as int].0@ == k);
        } else {
            assert(m@.contains_key(k));
            let j = choose|j: int| 0 <= j < before.len() && (#[trigger] before[j]).0@ == k;
            assert(e[j].0@ == k);
        }
    }
    assert forall|a: int, b: int|
        0 <= a < e.len() && 0 <= b < e.len() && a != b implies (#[trigger] e[a]).0@ != (#[trigger] e[b]).0@ by {
        if a < before.len() && b < before.len() {
            assert(before[a].0@ != before[b].0@);
        }
    }
}

/// The devices the rules block, each with whether its block is enabled.
pub open spec fn blocked_devices(rules: Seq<TrafficRule>) -> Map<Seq<char>, bool> {
    block_map(block_pairs(rules))
}

/// `r` lists each device that `rules` block once, with internet access
/// enabled exactly when its block is disabled, and the time its access is
/// due to end as `config` records it.
pub open spec fn access_list(r: Seq<NetAccess>, rules: Seq<TrafficRule>, config: Seq<(String, i64)>) -> bool {
    let m = blocked_devices(rules);
    &&& forall|i: int|
        0 <= i < r.len() ==> m.contains_key((#[trigger] r[i]).mac_address@) && r[i].enabled == !m[r[i].mac_address@]
            && r[i].auto_disable_at == config_value(config, r[i].mac_address@)
    &&& forall|k: Seq<char>| #[trigger] m.contains_key(k) ==> exists|i: int| 0 <= i < r.len() && (
    #[trigger] r[i]).mac_address@ == k
    &&& forall|i: int, j: int|
        0 <= i < r.len() && 0 <= j < r.len() && i != j ==> (#[trigger] r[i]).mac_address@ != (
        #[trigger] r[j]).mac_address@
}

proof fn lemma_block_map_push(p: Seq<(Seq<char>, bool)>, x: (Seq<char>, bool))
    ensures
        block_map(p.push(x)) == block_map(p).insert(x.0, x.1),
{
    assert(p.push(x).drop_last() =~= p);
}

/// The internet access of every device that the controller's rules block.
pub fn net_access_from_rules(rules: &Vec<TrafficRule>, config: &Vec<(String, i64)>) -> (r: Vec<NetAccess>)
    ensures
        access_list(r@, rules@, config@),
{
    let mut entries: Vec<(String, bool)> = Vec::new();
    let mut i: usize = 0;
    while i < rules.len()
        invariant
            i <= rules.len(),
            represents(entries@, block_map(block_pairs(rules@.subrange(0, i as int)))),
        decreases rules.len() - i,
    {
        let rule = &rules[i];
        let ghost pre = block_pairs(rules@.subrange(0, i as int));
        let ghost next = rules@.subrange(0, i + 1);
        assert(next.drop_last() =~= rules@.subrange(0, i as int));
        assert(next.last() == *rule);
        if rule.action == String::from_str("BLOCK") && rule.matching_target == String::from_str("INTERNET") {
            let mut j: usize = 0;
            while j < rule.target_devices.len()
                invariant
                    j <= rule.target_devices.len(),
                    *rule == rules@[i as int],
                    blocks_internet(*rule),
                    represents(
                        entries@,
                        block_map(
                            pre + rule.target_devices@.subrange(0, j as int).map_values(
                                |d: TargetDevice| (d.client_mac@, rule.enabled),
                            ),
                        ),
                    ),
                decreases rule.target_devices.len() - j,
            {
                let ghost f = |d: TargetDevice| (d.client_mac@, rule.enabled);
                let ghost before = pre + rule.target_devices@.subrange(0, j as int).map_values(f);
                let ghost after = pre + rule.target_devices@.subrange(0, j + 1).map_values(f);
                assert(after =~= before.push((rule.target_devices@[j as int].client_mac@, rule.enabled)));
                proof {
                    lemma_block_map_push(before, (rule.target_devices@[j as int].client_mac@, rule.enabled));
                }
                record_block(&mut entries, &rule.target_devices[j].client_mac, rule.enabled, Ghost(block_map(before)));
                j += 1;
            }
            assert(rule.target_devices@.subrange(0, j as int) =~= rule.target_devices@);
        } else {
            assert(pre + Seq::<(Seq<char>, bool)>::empty() =~= pre);
        }
        i += 1;
    }
    assert(rules@.subrange(0, i as int) =~= rules@);
    let ghost m = blocked_devices(rules@);
    let mut out: Vec<NetAccess> = Vec::new();
    let mut k: usize = 0;
    while k < entries.len()
        invariant
            k <= entries.len(),
            represents(entries@, m),
            m == blocked_devices(rules@),
            out@.len() == k,
            forall|q: int|
                0 <= q < k ==> (#[trigger] out@[q]).mac_address@ == entries@[q].0@ && out@[q].enabled == !entries@[q].1
                    && out@[q].auto_disable_at == config_value(config@, entries@[q].0@),
        decreases entries.len() - k,
    {
        let at = lookup(config, &entries[k].0);
        out.push(NetAccess { mac_address: entries[k].0.clone(), enabled: !entries[k].1, auto_disable_at: at });
        k += 1;
    }
    assert forall|key: Seq<char>| #[trigger] m.contains_key(key) implies exists|q: int|
        0 <= q < out@.len() && (#[trigger] out@[q]).mac_address@ == key by {
        let q = choose|q: int| 0 <= q < entries@.len() && (#[trigger] entries@[q]).0@ == key;
        assert(out@[q].mac_address@ == key);
    }
    assert forall|a: int, b: int|
        0 <= a < out@.len() && 0 <= b < out@.len() && a != b implies (#[trigger] out@[a]).mac_address@ != (
    #[trigger] out@[b]).mac_address@ by {
        assert(entries@[a].0@ != entries@[b].0@);
    }
    assert forall|a: int| 0 <= a < out@.len() implies m.contains_key((#[trigger] out@[a]).mac_address@)
        && out@[a].enabled == !m[out@[a].mac_address@] && out@[a].auto_disable_at == config_value(
        config@,
        out@[a].mac_address@,
    ) by {
        assert(m.contains_key(entries@[a].0@));
    }
    out
}

/// What setting the access of one device does to one rule.
#[derive(PartialEq, Eq, Structural, Clone, Copy, Debug)]
pub enum RuleChange {
    /// The rule stays as it is.
    Keep,
    /// The rule targets that device alone: its enabled flag is set.
    Toggle,
    /// The rule targets that device among others: the device leaves the rule
    /// and gets a rule of its own.
    Split,
}

/// A change to the rule at `index` that must be sent to the controller.
#[derive(PartialEq, Eq, Structural, Clone, Copy, Debug)]
pub struct RuleAction {
    pub index: usize,
    pub change: RuleChange,
}

/// `p` is the first position of a device with MAC address `mac`.
pub open spec fn first_mac(devs: Seq<TargetDevice>, mac: Seq<char>, p: int) -> bool {
    &&& 0 <= p < devs.len()
    &&& devs[p].client_mac@ == mac
    &&& forall|q: int| 0 <= q < p ==> (#[trigger] devs[q]).client_mac@ != mac
}

pub open spec fn has_mac(devs: Seq<TargetDevice>, mac: Seq<char>) -> bool {
    exists|q: int| 0 <= q < devs.len() && (#[trigger] devs[q]).client_mac@ == mac
}

/// What setting the access of device `mac` to `enabled` does to rule `r`.
pub open spec fn rule_change(r: TrafficRule, mac: Seq<char>, enabled: bool) -> RuleChange {
    if !blocks_internet(r) || r.enabled == enabled {
        RuleChange::Keep
    } else if r.target_devices@.len() == 1 && r.target_devices@[0].client_mac@ == mac {
        RuleChange::Toggle
    } else if has_mac(r.target_devices@, mac) {
        RuleChange::Split
    } else {
        RuleChange::Keep
    }
}

/// The actions for the first `n` rules, in rule order.
pub open spec fn planned(rules: Seq<TrafficRule>, mac: Seq<char>, enabled: bool, n: int) -> Seq<RuleAction>
    decreases n,
{
    if n <= 0 {
        Seq::empty()
    } else {
        let c = rule_change(rules[n - 1], mac, enabled);
        planned(rules, mac, enabled, n - 1) + if c == RuleChange::Keep {
            Seq::empty()
        } else {
            seq![RuleAction { index: (n - 1) as usize, change: c }]
        }
    }
}

/// `after` is rule `before` changed as `c` says for device `mac`.
pub open spec fn changed_rule(before: TrafficRule, after: TrafficRule, c: RuleChange, mac: Seq<char>, enabled: bool) -> bool {
    match c {
        RuleChange::Keep => after == before,
        RuleChange::Toggle => after == TrafficRule { enabled, ..before },
        RuleChange::Split => after == TrafficRule { target_devices: after.target_devices, ..before }
            && exists|p: int| first_mac(before.target_devices@, mac, p) && after.target_devices@
                == before.target_devices@.remove(p),
    }
}

fn position_of_mac(devs: &Vec<TargetDevice>, mac: &str) -> (r: Option<usize>)
    ensures
        r matches Some(p) ==> first_mac(devs@, mac@, p as int),
        r is None ==> !has_mac(devs@, mac@),
{
    let m = String::from_str(mac);
    let mut q: usize = 0;
    while q < devs.len()
        invariant
            q <= devs.len(),
            m@ == mac@,
            forall|k: int| 0 <= k < q ==> (#[trigger] devs@[k]).client_mac@ != mac@,
        decreases devs.len() - q,
    {
        if devs[q].client_mac == m {
            return Some(q);
        }
        q += 1;
    }
    None
}

/// Sets the internet access of device `mac` to `enabled` in `rules`, as the
/// controller's rules are to be changed, and returns the changes to send, in
/// rule order. A rule for that device alone takes the new flag; a rule that
/// also targets other devices loses the device, which then needs a rule of
/// its own (see `create_block_rule`).
pub fn plan_access_update(rules: &mut Vec<TrafficRule>, mac: &str, enabled: bool) -> (r: Vec<RuleAction>)
    ensures
        final(rules)@.len() == old(rules)@.len(),
        forall|i: int|
            0 <= i < old(rules)@.len() ==> changed_rule(
                old(rules)@[i],
                #[trigger] final(rules)@[i],
                rule_change(old(rules)@[i], mac@, enabled),
                mac@,
                enabled,
            ),
        r@ == planned(old(rules)@, mac@, enabled, old(rules)@.len() as int),
{
    let ghost orig = rules@;
    let mut actions: Vec<RuleAction> = Vec::new();
    let mut i: usize = 0;
    while i < rules.len()
        invariant
            i <= rules.len(),
            rules@.len() == orig.len(),
            forall|k: int| 0 <= k < i ==> changed_rule(orig[k], #[trigger] rules@[k], rule_change(orig[k], mac@, enabled), mac@, enabled),
            forall|k: int| i <= k < rules@.len() ==> #[trigger] rules@[k] == orig[k],
            actions@ == planned(orig, mac@, enabled, i as int),
        decreases rules.len() - i,
    {
        let ghost c = rule_change(orig[i as int], mac@, enabled);
        let is_block = rules[i].action == String::from_str("BLOCK") && rules[i].matching_target == String::from_str(
            "INTERNET",
        );
        let sole = rules[i].target_devices.len() == 1 && rules[i].target_devices[0].client_mac == String::from_str(mac);
        if is_block && rules[i].enabled != enabled {
            if sole {
                assert(c == RuleChange::Toggle);
                let mut r = rules.remove(i);
                r.enabled = enabled;
                rules.insert(i, r);
                actions.push(RuleAction { index: i, change: RuleChange::Toggle });
            } else {
                match position_of_mac(&rules[i].target_devices, mac) {
                    Some(pos) => {
                        assert(c == RuleChange::Split);
                        let mut r = rules.remove(i);
                        let ghost before = r;
                        r.target_devices.remove(pos);
                        assert(r == TrafficRule { target_devices: r.target_devices, ..before });
                        rules.insert(i, r);
                        actions.push(RuleAction { index: i, change: RuleChange::Split });
                    },
                    None => {
                        assert(c == RuleChange::Keep);
                    },
                }
            }
        } else {
            assert(c == RuleChange::Keep);
        }
        assert(forall|k: int| i < k < rules@.len() ==> #[trigger] rules@[k] == orig[k]);
        i += 1;
    }
    actions
}

/// Fails as a bad request when `all` already holds an entry for `mac`.
pub fn ensure_new_access(all: &Vec<NetAccess>, mac: &String) -> (r: Result<(), MyError>)
    ensures
        r is Ok <==> forall|i: int| 0 <= i < all@.len() ==> (#[trigger] all@[i]).mac_address@ != mac@,
        r matches Err(e) ==> e matches MyError::BadRequest(m) && m@ == "Access already exists"@,
{
    let mut i: usize = 0;
    while i < all.len()
        invariant
            i <= all.len(),
            forall|k: int| 0 <= k < i ==> (#[trigger] all@[k]).mac_address@ != mac@,
        decreases all.len() - i,
    {
        if all[i].mac_address == *mac {
            return Err(MyError::BadRequest(String::from_str("Access already exists")));
        }
        i += 1;
    }
    Ok(())
}

/// The position of the first entry for device `mac`, if `all` has one.
pub fn find_access(all: &Vec<NetAccess>, mac: &String) -> (r: Option<usize>)
    ensures
        r matches Some(i) ==> i < all@.len() && all@[i as int].mac_address@ == mac@ && forall|k: int|
            0 <= k < i ==> (#[trigger] all@[k]).mac_address@ != mac@,
        r is None ==> forall|k: int| 0 <= k < all@.len() ==> (#[trigger] all@[k]).mac_address@ != mac@,
{
    let mut i: usize = 0;
    while i < all.len()
        invariant
            i <= all.len(),
            forall|k: int| 0 <= k < i ==> (#[trigger] all@[k]).mac_address@ != mac@,
        decreases all.len() - i,
    {
        if all[i].mac_address == *mac {
            return Some(i);
        }
        i += 1;
    }
    None
}

} // verus!
