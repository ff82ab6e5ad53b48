//! Expiry of leases: the periodic pass that drops leases which are no longer
//! in force, so that the next compile no longer sees their overrides.
use vstd::prelude::*;
use crate::model::{Client, Lease, lease_active};
use crate::clock::now_millis;
use crate::compile::{client_artifact, client_artifacts, compiled, deny_lines, qualifies, temporarily_allowed};
use crate::model::DomainList;

verus! {

/// The leases of `ls` still in force at `now`, in their order.
pub open spec fn active_leases(ls: Seq<Lease>, now: int) -> Seq<Lease> {
    ls.filter(|l: Lease| lease_active(l, now))
}

/// Some lease of some client has ended by `now`.
pub open spec fn any_expired(clients: Seq<Client>, now: int) -> bool {
    exists|i: int, k: int|
        0 <= i < clients.len() && 0 <= k < clients[i].leases.len() && !lease_active(
            #[trigger] clients[i].leases@[k],
            now,
        )
}

/// `after` is `before` with the ended leases removed and nothing else changed.
pub open spec fn swept(before: Seq<Client>, after: Seq<Client>, now: int) -> bool {
    &&& after.len() == before.len()
    &&& forall|i: int|
        0 <= i < before.len() ==> {
            &&& (#[trigger] after[i]).leases@ == active_leases(before[i].leases@, now)
            &&& after[i].id == before[i].id
            &&& after[i].ip == before[i].ip
            &&& after[i].name == before[i].name
            &&& after[i].rules == before[i].rules
            &&& after[i].mac_address == before[i].mac_address
        }
}

fn keep_active(leases: Vec<Lease>, now: i64) -> (r: (Vec<Lease>, bool))
    ensures
        r.0@ == active_leases(leases@, now as int),
        r.1 <==> exists|k: int| 0 <= k < leases@.len() && !lease_active(#[trigger] leases@[k], now as int),
{
    let ghost orig = leases@;
    let mut rest = leases;
    let mut kept: Vec<Lease> = Vec::new();
    let mut dropped = false;
    let ghost mut consumed: int = 0;
    while rest.len() > 0
        invariant
            0 <= consumed <= orig.len(),
            rest@ == orig.subrange(consumed, orig.len() as int),
            kept@ == active_leases(orig.subrange(0, consumed), now as int),
            dropped <==> exists|k: int| 0 <= k < consumed && !lease_active(#[trigger] orig[k], now as int),
        decreases rest.len(),
    {
        let l = rest.remove(0);
        proof {
            let next = orig.subrange(0, consumed + 1);
            assert(next.drop_last() =~= orig.subrange(0, consumed));
            assert(next.last() == l);
            reveal(Seq::filter);
        }
        if l.is_active(now) {
            kept.push(l);
        } else {
            dropped = true;
        }
        proof {
            consumed = consumed + 1;
        }
    }
    assert(orig.subrange(0, consumed) =~= orig);
    (kept, dropped)
}

/// Removes from every client the leases that are not in force at `now`.
/// Returns whether any lease was removed; when none was, the clients are
/// left as they were and no regeneration is called for.
pub fn sweep_expired_leases(clients: &mut Vec<Client>, now: i64) -> (changed: bool)
    ensures
        swept(old(clients)@, final(clients)@, now as int),
        changed == any_expired(old(clients)@, now as int),
{
    let ghost orig = clients@;
    let mut changed = false;
    let mut i: usize = 0;
    while i < clients.len()
        invariant
            i <= clients.len(),
            clients@.len() == orig.len(),
            forall|m: int|
                0 <= m < i ==> {
                    &&& (#[trigger] clients@[m]).leases@ == active_leases(orig[m].leases@, now as int)
                    &&& clients@[m].id == orig[m].id
                    &&& clients@[m].ip == orig[m].ip
                    &&& clients@[m].name == orig[m].name
                    &&& clients@[m].rules == orig[m].rules
                    &&& clients@[m].mac_address == orig[m].mac_address
                },
            forall|m: int| i <= m < clients.len() ==> #[trigger] clients@[m] == orig[m],
            changed <==> exists|m: int, k: int|
                0 <= m < i && 0 <= k < orig[m].leases.len() && !lease_active(
                    #[trigger] orig[m].leases@[k],
                    now as int,
                ),
        decreases clients.len() - i,
    {
        let mut c = clients.remove(i);
        let mut leases: Vec<Lease> = Vec::new();
        std::mem::swap(&mut leases, &mut c.leases);
        let (kept, dropped) = keep_active(leases, now);
        c.leases = kept;
        clients.insert(i, c);
        if dropped {
            changed = true;
        }
        assert forall|m: int| i + 1 <= m < clients.len() implies #[trigger] clients@[m] == orig[m] by {
        }
        i += 1;
    }
    changed
}

/// One pass of the sweeper: removes the leases that have ended by now.
/// Returns the instant it went by and whether anything was removed; only
/// then must the clients be saved and a regeneration requested.
pub fn possibly_expire_leases(clients: &mut Vec<Client>) -> (r: (i64, bool))
    ensures
        swept(old(clients)@, final(clients)@, r.0 as int),
        r.1 == any_expired(old(clients)@, r.0 as int),
{
    let now = now_millis();
    let changed = sweep_expired_leases(clients, now);
    (now, changed)
}

/// A tick on which no lease has ended changes nothing, so it saves nothing
/// and asks for no regeneration.
pub proof fn lemma_quiet_tick_changes_nothing(clients: Seq<Client>, now: int)
    requires
        !any_expired(clients, now),
    ensures
        forall|i: int|
            0 <= i < clients.len() ==> active_leases(#[trigger] clients[i].leases@, now) == clients[i].leases@,
{
    assert forall|i: int| 0 <= i < clients.len() implies active_leases(
        #[trigger] clients[i].leases@,
        now,
    ) == clients[i].leases@ by {
        lemma_filter_all_kept(clients[i].leases@, now);
    }
}

proof fn lemma_filter_all_kept(ls: Seq<Lease>, now: int)
    requires
        forall|k: int| 0 <= k < ls.len() ==> lease_active(#[trigger] ls[k], now),
    ensures
        active_leases(ls, now) == ls,
    decreases ls.len(),
{
    reveal(Seq::filter);
    if ls.len() > 0 {
        assert forall|k: int| 0 <= k < ls.drop_last().len() implies lease_active(#[trigger] ls.drop_last()[k], now) by {
            assert(ls.drop_last()[k] == ls[k]);
        }
        lemma_filter_all_kept(ls.drop_last(), now);
        assert(ls.drop_last().push(ls.last()) =~= ls);
    }
}

proof fn lemma_same_allowances(before: Client, after: Client, now: int, t: int, d: u32)
    requires
        after.leases@ == active_leases(before.leases@, now),
        now <= t,
    ensures
        temporarily_allowed(after, t, d) == temporarily_allowed(before, t, d),
{
    let p = |l: Lease| lease_active(l, now);
    if temporarily_allowed(after, t, d) {
        let i = choose|i: int|
            0 <= i < after.leases.len() && lease_active(#[trigger] after.leases@[i], t)
                && after.leases@[i].rule.kind == crate::model::RuleKind::AllowHttpAccess
                && after.leases@[i].rule.domainlists@.contains(d);
        assert(after.leases@.contains(after.leases@[i]));
        before.leases@.lemma_filter_contains_rev(p, after.leases@[i]);
        let j = choose|j: int| 0 <= j < before.leases@.len() && before.leases@[j] == after.leases@[i];
        assert(lease_active(before.leases@[j], t));
        assert(before.leases@[j].rule.domainlists@.contains(d));
    }
    if temporarily_allowed(before, t, d) {
        let j = choose|j: int|
            0 <= j < before.leases.len() && lease_active(#[trigger] before.leases@[j], t)
                && before.leases@[j].rule.kind == crate::model::RuleKind::AllowHttpAccess
                && before.leases@[j].rule.domainlists@.contains(d);
        before.leases@.filter_lemma(p);
        assert(p(before.leases@[j]));
        assert(before.leases@.filter(p).contains(before.leases@[j]));
        let i = choose|i: int| 0 <= i < after.leases@.len() && after.leases@[i] == before.leases@[j];
        assert(lease_active(after.leases@[i], t));
        assert(after.leases@[i].rule.domainlists@.contains(d));
    }
}

proof fn lemma_same_deny_lines(name: Seq<char>, refs: Seq<u32>, before: Client, after: Client, now: int, t: int)
    requires
        after.leases@ == active_leases(before.leases@, now),
        now <= t,
    ensures
        deny_lines(name, refs, after, t) == deny_lines(name, refs, before, t),
    decreases refs.len(),
{
    if refs.len() > 0 {
        lemma_same_deny_lines(name, refs.drop_last(), before, after, now, t);
        lemma_same_allowances(before, after, now, t, refs.last());
    }
}

proof fn lemma_same_client_artifacts(before: Seq<Client>, after: Seq<Client>, now: int, t: int)
    requires
        swept(before, after, now),
        now <= t,
    ensures
        client_artifacts(after, t) == client_artifacts(before, t),
    decreases before.len(),
{
    if before.len() > 0 {
        let n = before.len() - 1;
        assert(swept(before.drop_last(), after.drop_last(), now)) by {
            assert forall|i: int| 0 <= i < before.drop_last().len() implies {
                &&& (#[trigger] after.drop_last()[i]).leases@ == active_leases(before.drop_last()[i].leases@, now)
                &&& after.drop_last()[i].id == before.drop_last()[i].id
                &&& after.drop_last()[i].ip == before.drop_last()[i].ip
                &&& after.drop_last()[i].name == before.drop_last()[i].name
                &&& after.drop_last()[i].rules == before.drop_last()[i].rules
                &&& after.drop_last()[i].mac_address == before.drop_last()[i].mac_address
            } by {
                assert(after.drop_last()[i] == after[i]);
                assert(before.drop_last()[i] == before[i]);
            }
        }
        lemma_same_client_artifacts(before.drop_last(), after.drop_last(), now, t);
        let b = before[n];
        let a = after[n];
        let name = crate::text::entity_name("client"@, b.id.unwrap());
        lemma_same_deny_lines(name, crate::compile::denied_refs(b.rules@), b, a, now, t);
        assert(qualifies(a) == qualifies(b));
        assert(client_artifact(a, t) == client_artifact(b, t));
    }
}

/// Sweeping the leases that ended by `now` changes nothing that is compiled
/// at `now` or later: a lease that has ended no longer allows anything.
pub proof fn lemma_sweep_keeps_compile(
    before: Seq<Client>,
    after: Seq<Client>,
    lists: Seq<DomainList>,
    now: int,
    t: int,
)
    requires
        swept(before, after, now),
        now <= t,
    ensures
        compiled(after, lists, t) == compiled(before, lists, t),
{
    lemma_same_client_artifacts(before, after, now, t);
}

} // verus!
