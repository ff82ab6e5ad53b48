//! The rule compiler: turns clients and domain lists, seen at one instant,
//! into the named text artifacts that the proxy reads.
use vstd::prelude::*;
use crate::model::{Client, DomainList, Rule, RuleKind, lease_active};
use crate::text::{NiceLineWriter, entity_name, id_string, padded4, lemma_entity_name_injective, lemma_padded4_value};
use crate::squid::is_digit;
use crate::list::IdentifiedList;
use crate::clock::now_millis;

verus! {

/// One file of compiled proxy configuration.
#[derive(Debug)]
pub struct Artifact {
    pub name: String,
    pub content: String,
}

/// The mathematical value of an artifact: its file name and its text.
pub struct ArtifactView {
    pub name: Seq<char>,
    pub content: Seq<char>,
}

impl View for Artifact {
    type V = ArtifactView;

    open spec fn view(&self) -> ArtifactView {
        ArtifactView { name: self.name@, content: self.content@ }
    }
}

/// The views of a sequence of artifacts.
pub open spec fn artifacts_view(s: Seq<Artifact>) -> Seq<ArtifactView> {
    s.map_values(|a: Artifact| a@)
}

/// Why a policy could not be compiled.
#[derive(PartialEq, Eq, Structural, Clone, Copy, Debug)]
pub enum CompileError {
    /// The client at this position has rules but no id.
    ClientWithoutId { index: usize },
    /// The domain list at this position has no id.
    DomainListWithoutId { index: usize },
    /// A client's deny line would reference a domain list that does not exist.
    UnknownDomainList { client: u32, list: u32 },
}

/// A client receives an artifact of its own when it has at least one rule.
pub open spec fn qualifies(c: Client) -> bool {
    c.rules.len() > 0
}

/// The client holds an active lease whose rule is an Allow override that
/// lists domain list `d`.
pub open spec fn temporarily_allowed(c: Client, now: int, d: u32) -> bool {
    exists|i: int|
        0 <= i < c.leases.len() && lease_active(#[trigger] c.leases@[i], now)
            && c.leases@[i].rule.kind == RuleKind::AllowHttpAccess
            && c.leases@[i].rule.domainlists@.contains(d)
}

/// The domain-list references of the Deny rules, in rule order.
pub open spec fn denied_refs(rules: Seq<Rule>) -> Seq<u32>
    decreases rules.len(),
{
    if rules.len() == 0 {
        Seq::empty()
    } else {
        let last = rules.last();
        denied_refs(rules.drop_last()) + if last.kind == RuleKind::DenyHttpAccess {
            last.domainlists@
        } else {
            Seq::empty()
        }
    }
}

/// One deny line of a client artifact.
pub open spec fn deny_line(name: Seq<char>, d: u32) -> Seq<char> {
    "http_access deny "@ + name + " "@ + entity_name("domains"@, d) + "\n"@
}

/// The deny lines for `refs`, leaving out the temporarily allowed ones.
pub open spec fn deny_lines(name: Seq<char>, refs: Seq<u32>, c: Client, now: int) -> Seq<char>
    decreases refs.len(),
{
    if refs.len() == 0 {
        Seq::empty()
    } else {
        deny_lines(name, refs.drop_last(), c, now) + if temporarily_allowed(c, now, refs.last()) {
            Seq::empty()
        } else {
            deny_line(name, refs.last())
        }
    }
}

/// The client writes a deny line for domain list `d`.
pub open spec fn emits_deny(c: Client, now: int, d: u32) -> bool {
    denied_refs(c.rules@).contains(d) && !temporarily_allowed(c, now, d)
}

/// The ACL name of a client.
pub open spec fn client_acl(c: Client) -> Seq<char> {
    client_acl_named(c.id.unwrap())
}

/// The text of a client artifact: the binding of its address to its ACL
/// name, then its deny lines.
pub open spec fn client_conf(c: Client, now: int) -> Seq<char> {
    "acl "@ + client_acl(c) + " src "@ + c.ip@ + "\n"@ + deny_lines(
        client_acl(c),
        denied_refs(c.rules@),
        c,
        now,
    )
}

/// The artifact of a qualifying client.
pub open spec fn client_artifact(c: Client, now: int) -> ArtifactView {
    ArtifactView { name: client_acl(c) + ".conf"@, content: client_conf(c, now) }
}

/// The artifacts of the qualifying clients, in client order.
pub open spec fn client_artifacts(clients: Seq<Client>, now: int) -> Seq<ArtifactView>
    decreases clients.len(),
{
    if clients.len() == 0 {
        Seq::empty()
    } else {
        let pre = client_artifacts(clients.drop_last(), now);
        if qualifies(clients.last()) {
            pre.push(client_artifact(clients.last(), now))
        } else {
            pre
        }
    }
}

/// The stand-in client artifact, written when no client qualifies: the proxy
/// refuses to start without any client artifact.
pub open spec fn placeholder() -> ArtifactView {
    ArtifactView {
        name: "client_dummy.conf"@,
        content: "# This file is intentionally left blank.\n"@,
    }
}

/// The strings of `parts` joined by `sep`.
pub open spec fn joined(parts: Seq<String>, sep: Seq<char>) -> Seq<char>
    decreases parts.len(),
{
    if parts.len() == 0 {
        Seq::empty()
    } else if parts.len() == 1 {
        parts[0]@
    } else {
        joined(parts.drop_last(), sep) + sep + parts.last()@
    }
}

/// The line that defines the ACL of a domain list.
pub open spec fn domain_line(l: DomainList) -> Seq<char> {
    "acl "@ + entity_name("domains"@, l.id.unwrap()) + " dstdomain "@ + joined(l.domains@, " "@)
        + "\n"@
}

/// The lines of all domain lists, in list order.
pub open spec fn domain_lines(lists: Seq<DomainList>) -> Seq<char>
    decreases lists.len(),
{
    if lists.len() == 0 {
        Seq::empty()
    } else {
        domain_lines(lists.drop_last()) + domain_line(lists.last())
    }
}

/// The text of the shared artifact; a comment alone when there are no lists,
/// as the proxy refuses a missing or empty file.
pub open spec fn domains_conf(lists: Seq<DomainList>) -> Seq<char> {
    if lists.len() == 0 {
        "# This file will be populated with penguin domains\n"@
    } else {
        domain_lines(lists)
    }
}

/// The shared artifact.
pub open spec fn shared_artifact(lists: Seq<DomainList>) -> ArtifactView {
    ArtifactView { name: "domains.conf"@, content: domains_conf(lists) }
}

/// Everything the compiler emits: the client artifacts (or the placeholder
/// when there are none), then the shared artifact.
pub open spec fn compiled(clients: Seq<Client>, lists: Seq<DomainList>, now: int) -> Seq<
    ArtifactView,
> {
    let per_client = client_artifacts(clients, now);
    if per_client.len() == 0 {
        seq![placeholder(), shared_artifact(lists)]
    } else {
        per_client.push(shared_artifact(lists))
    }
}

/// Some domain list carries id `d`.
pub open spec fn list_defined(lists: Seq<DomainList>, d: u32) -> bool {
    exists|j: int| 0 <= j < lists.len() && #[trigger] lists[j].id == Some(d)
}

/// The policy can be compiled: every qualifying client and every domain list
/// has an id, and every deny line names a domain list that exists.
pub open spec fn compilable(clients: Seq<Client>, lists: Seq<DomainList>, now: int) -> bool {
    &&& forall|i: int| 0 <= i < clients.len() && qualifies(#[trigger] clients[i]) ==> clients[i].id is Some
    &&& forall|j: int| 0 <= j < lists.len() ==> (#[trigger] lists[j]).id is Some
    &&& forall|i: int, d: u32|
        0 <= i < clients.len() && qualifies(clients[i]) && #[trigger] emits_deny(clients[i], now, d)
            ==> list_defined(lists, d)
}

/// `e` truthfully describes a defect of the policy.
pub open spec fn describes(e: CompileError, clients: Seq<Client>, lists: Seq<DomainList>, now: int) -> bool {
    match e {
        CompileError::ClientWithoutId { index } => index < clients.len() && qualifies(clients[index as int])
            && clients[index as int].id is None,
        CompileError::DomainListWithoutId { index } => index < lists.len() && lists[index as int].id is None,
        CompileError::UnknownDomainList { client, list } => exists|i: int|
            0 <= i < clients.len() && qualifies(#[trigger] clients[i]) && clients[i].id == Some(client)
                && emits_deny(clients[i], now, list) && !list_defined(lists, list),
    }
}

/// What `compile` returns on the given input.
pub open spec fn compile_outcome(
    clients: Seq<Client>,
    lists: Seq<DomainList>,
    now: int,
    r: Result<Vec<Artifact>, CompileError>,
) -> bool {
    &&& r is Ok <==> compilable(clients, lists, now)
    &&& r matches Ok(a) ==> artifacts_view(a@) == compiled(clients, lists, now)
    &&& r matches Err(e) ==> describes(e, clients, lists, now)
}

fn contains_id(v: &Vec<u32>, d: u32) -> (r: bool)
    ensures
        r == v@.contains(d),
{
    let mut k: usize = 0;
    while k < v.len()
        invariant
            k <= v.len(),
            forall|m: int| 0 <= m < k ==> v@[m] != d,
        decreases v.len() - k,
    {
        if v[k] == d {
            return true;
        }
        k += 1;
    }
    false
}

/// The domain lists that the client's active Allow leases open up at `now`.
fn allowed_domains(c: &Client, now: i64) -> (r: Vec<u32>)
    ensures
        forall|d: u32| r@.contains(d) <==> temporarily_allowed(*c, now as int, d),
{
    let mut out: Vec<u32> = Vec::new();
    let mut i: usize = 0;
    while i < c.leases.len()
        invariant
            i <= c.leases.len(),
            forall|d: u32|
                out@.contains(d) <==> exists|m: int|
                    0 <= m < i && lease_active(#[trigger] c.leases@[m], now as int)
                        && c.leases@[m].rule.kind == RuleKind::AllowHttpAccess
                        && c.leases@[m].rule.domainlists@.contains(d),
        decreases c.leases.len() - i,
    {
        let l = &c.leases[i];
        if l.rule.kind == RuleKind::AllowHttpAccess && l.is_active(now) {
            let ghost before = out@;
            let mut k: usize = 0;
            while k < l.rule.domainlists.len()
                invariant
                    k <= l.rule.domainlists.len(),
                    l == c.leases@[i as int],
                    out@ == before + l.rule.domainlists@.subrange(0, k as int),
                decreases l.rule.domainlists.len() - k,
            {
                out.push(l.rule.domainlists[k]);
                assert(out@ =~= before + l.rule.domainlists@.subrange(0, k + 1));
                k += 1;
            }
            assert(l.rule.domainlists@.subrange(0, k as int) =~= l.rule.domainlists@);
            assert forall|d: u32|
                out@.contains(d) <==> exists|m: int|
                    0 <= m < i + 1 && lease_active(#[trigger] c.leases@[m], now as int)
                        && c.leases@[m].rule.kind == RuleKind::AllowHttpAccess
                        && c.leases@[m].rule.domainlists@.contains(d) by {
                if out@.contains(d) {
                    let idx = choose|idx: int| 0 <= idx < out@.len() && out@[idx] == d;
                    if idx >= before.len() {
                        assert(l.rule.domainlists@[idx - before.len()] == d);
                        assert(lease_active(c.leases@[i as int], now as int));
                    } else {
                        assert(before[idx] == d);
                        assert(before.contains(d));
                    }
                }
                if exists|m: int|
                    0 <= m < i + 1 && lease_active(#[trigger] c.leases@[m], now as int)
                        && c.leases@[m].rule.kind == RuleKind::AllowHttpAccess
                        && c.leases@[m].rule.domainlists@.contains(d) {
                    let m = choose|m: int|
                        0 <= m < i + 1 && lease_active(#[trigger] c.leases@[m], now as int)
                            && c.leases@[m].rule.kind == RuleKind::AllowHttpAccess
                            && c.leases@[m].rule.domainlists@.contains(d);
                    if m == i {
                        let idx = choose|idx: int| 0 <= idx < l.rule.domainlists@.len() && l.rule.domainlists@[idx] == d;
                        assert(out@[before.len() + idx] == d);
                    } else {
                        assert(before.contains(d));
                        let idx = choose|idx: int| 0 <= idx < before.len() && before[idx] == d;
                        assert(out@[idx] == d);
                    }
                }
            }
        } else {
            assert forall|d: u32|
                out@.contains(d) <==> exists|m: int|
                    0 <= m < i + 1 && lease_active(#[trigger] c.leases@[m], now as int)
                        && c.leases@[m].rule.kind == RuleKind::AllowHttpAccess
                        && c.leases@[m].rule.domainlists@.contains(d) by {
                if exists|m: int|
                    0 <= m < i + 1 && lease_active(#[trigger] c.leases@[m], now as int)
                        && c.leases@[m].rule.kind == RuleKind::AllowHttpAccess
                        && c.leases@[m].rule.domainlists@.contains(d) {
                    let m = choose|m: int|
                        0 <= m < i + 1 && lease_active(#[trigger] c.leases@[m], now as int)
                            && c.leases@[m].rule.kind == RuleKind::AllowHttpAccess
                            && c.leases@[m].rule.domainlists@.contains(d);
                    assert(m != i);
                }
            }
        }
        i += 1;
    }
    out
}

fn has_list(lists: &Vec<DomainList>, d: u32) -> (r: bool)
    ensures
        r == list_defined(lists@, d),
{
    let mut j: usize = 0;
    while j < lists.len()
        invariant
            j <= lists.len(),
            forall|m: int| 0 <= m < j ==> lists@[m].id != Some(d),
        decreases lists.len() - j,
    {
        if lists[j].id == Some(d) {
            return true;
        }
        j += 1;
    }
    false
}

proof fn lemma_deny_lines_push(name: Seq<char>, refs: Seq<u32>, d: u32, c: Client, now: int)
    ensures
        deny_lines(name, refs.push(d), c, now) == deny_lines(name, refs, c, now) + if temporarily_allowed(c, now, d) {
            Seq::empty()
        } else {
            deny_line(name, d)
        },
{
    assert(refs.push(d).drop_last() =~= refs);
}

proof fn lemma_denied_refs_step(rules: Seq<Rule>, i: int)
    requires
        0 <= i < rules.len(),
    ensures
        denied_refs(rules.subrange(0, i + 1)) == denied_refs(rules.subrange(0, i)) + if rules[i].kind == RuleKind::DenyHttpAccess {
            rules[i].domainlists@
        } else {
            Seq::empty()
        },
{
    assert(rules.subrange(0, i + 1).drop_last() =~= rules.subrange(0, i));
}

/// The text of the artifact of a client whose id is `id`.
fn render_client(c: &Client, id: u32, lists: &Vec<DomainList>, now: i64) -> (r: Result<String, CompileError>)
    requires
        c.id == Some(id),
    ensures
        r is Ok <==> forall|d: u32| #[trigger] emits_deny(*c, now as int, d) ==> list_defined(lists@, d),
        r matches Ok(s) ==> s@ == client_conf(*c, now as int),
        r matches Err(e) ==> e matches CompileError::UnknownDomainList { client, list } && client == id
            && emits_deny(*c, now as int, list) && !list_defined(lists@, list),
{
    let ghost cv = *c;
    let ghost nowi = now as int;
    let allowed = allowed_domains(c, now);
    let name = id_string("client", id);
    let mut w = NiceLineWriter::new();
    let header = String::from_str("acl ").concat(name.as_str()).concat(" src ").concat(c.ip.as_str());
    w.writeln(header.as_str());
    let ghost head = w@;
    assert(head =~= "acl "@ + client_acl(cv) + " src "@ + c.ip@ + "\n"@);
    let mut ri: usize = 0;
    while ri < c.rules.len()
        invariant
            ri <= c.rules.len(),
            name@ == client_acl(cv),
            cv == *c,
            nowi == now as int,
            forall|d: u32| allowed@.contains(d) <==> temporarily_allowed(cv, nowi, d),
            w@ == head + deny_lines(name@, denied_refs(c.rules@.subrange(0, ri as int)), cv, nowi),
            forall|d: u32|
                denied_refs(c.rules@.subrange(0, ri as int)).contains(d) && !temporarily_allowed(cv, nowi, d)
                    ==> list_defined(lists@, d),
        decreases c.rules.len() - ri,
    {
        let rule = &c.rules[ri];
        let ghost pre = denied_refs(c.rules@.subrange(0, ri as int));
        proof {
            lemma_denied_refs_step(c.rules@, ri as int);
        }
        if rule.kind == RuleKind::DenyHttpAccess {
            let mut k: usize = 0;
            while k < rule.domainlists.len()
                invariant
                    k <= rule.domainlists.len(),
                    ri < c.rules.len(),
                    rule == c.rules@[ri as int],
                    rule.kind == RuleKind::DenyHttpAccess,
                    denied_refs(c.rules@.subrange(0, ri + 1)) == pre + rule.domainlists@,
                    name@ == client_acl(cv),
                    cv == *c,
                    nowi == now as int,
                    forall|d: u32| allowed@.contains(d) <==> temporarily_allowed(cv, nowi, d),
                    w@ == head + deny_lines(name@, pre + rule.domainlists@.subrange(0, k as int), cv, nowi),
                    forall|d: u32|
                        (pre + rule.domainlists@.subrange(0, k as int)).contains(d)
                            && !temporarily_allowed(cv, nowi, d) ==> list_defined(lists@, d),
                decreases rule.domainlists.len() - k,
            {
                let d = rule.domainlists[k];
                let ghost refs = pre + rule.domainlists@.subrange(0, k as int);
                assert(pre + rule.domainlists@.subrange(0, k + 1) =~= refs.push(d));
                proof {
                    lemma_deny_lines_push(name@, refs, d, cv, nowi);
                }
                if !contains_id(&allowed, d) {
                    if !has_list(lists, d) {
                        assert(refs.push(d)[refs.len() as int] == d);
                        assert(pre + rule.domainlists@ =~= pre + rule.domainlists@.subrange(0, k as int) + rule.domainlists@.subrange(k as int, rule.domainlists@.len() as int));
                        assert((pre + rule.domainlists@)[pre.len() + k] == d);
                        assert(denied_refs(c.rules@.subrange(0, ri + 1)).contains(d));
                        proof {
                            lemma_denied_refs_prefix(c.rules@, ri + 1, d);
                        }
                        assert(emits_deny(cv, nowi, d));
                        return Err(CompileError::UnknownDomainList { client: id, list: d });
                    }
                    let line = String::from_str("http_access deny ").concat(name.as_str()).concat(" ").concat(
                        id_string("domains", d).as_str(),
                    );
                    let ghost w0 = w@;
                    w.writeln(line.as_str());
                    assert(w@ =~= w0 + deny_line(name@, d));
                } else {
                    assert(deny_lines(name@, refs.push(d), cv, nowi) =~= deny_lines(name@, refs, cv, nowi));
                }
                assert forall|x: u32|
                    refs.push(d).contains(x) && !temporarily_allowed(cv, nowi, x) implies list_defined(lists@, x) by {
                    if x != d {
                        let idx = choose|idx: int| 0 <= idx < refs.push(d).len() && refs.push(d)[idx] == x;
                        assert(refs[idx] == x);
                    }
                }
                k += 1;
            }
            assert(rule.domainlists@.subrange(0, k as int) =~= rule.domainlists@);
        } else {
            assert(pre + Seq::<u32>::empty() =~= pre);
        }
        ri += 1;
    }
    assert(c.rules@.subrange(0, ri as int) =~= c.rules@);
    Ok(w.into_string())
}

/// Any reference of the first `n` rules is a reference of all of them.
proof fn lemma_denied_refs_prefix(rules: Seq<Rule>, n: int, d: u32)
    requires
        0 <= n <= rules.len(),
        denied_refs(rules.subrange(0, n)).contains(d),
    ensures
        denied_refs(rules).contains(d),
    decreases rules.len() - n,
{
    if n < rules.len() {
        lemma_denied_refs_step(rules, n);
        let a = denied_refs(rules.subrange(0, n));
        let idx = choose|idx: int| 0 <= idx < a.len() && a[idx] == d;
        assert(denied_refs(rules.subrange(0, n + 1))[idx] == d);
        lemma_denied_refs_prefix(rules, n + 1, d);
    } else {
        assert(rules.subrange(0, n) =~= rules);
    }
}

/// The domain patterns of a list, separated by single spaces.
fn join_domains(parts: &Vec<String>) -> (r: String)
    ensures
        r@ == joined(parts@, " "@),
{
    let mut out = String::new();
    let mut k: usize = 0;
    while k < parts.len()
        invariant
            k <= parts.len(),
            out@ == joined(parts@.subrange(0, k as int), " "@),
        decreases parts.len() - k,
    {
        if k > 0 {
            out.append(" ");
        }
        out.append(parts[k].as_str());
        let ghost next = parts@.subrange(0, k + 1);
        assert(next.drop_last() =~= parts@.subrange(0, k as int));
        assert(out@ =~= joined(next, " "@));
        k += 1;
    }
    assert(parts@.subrange(0, k as int) =~= parts@);
    out
}

/// The text of the shared artifact.
fn render_domains(lists: &Vec<DomainList>) -> (r: String)
    requires
        forall|j: int| 0 <= j < lists.len() ==> (#[trigger] lists@[j]).id is Some,
    ensures
        r@ == domains_conf(lists@),
{
    if lists.len() == 0 {
        return String::from_str("# This file will be populated with penguin domains\n");
    }
    let mut w = NiceLineWriter::new();
    let mut j: usize = 0;
    while j < lists.len()
        invariant
            j <= lists.len(),
            forall|m: int| 0 <= m < lists.len() ==> (#[trigger] lists@[m]).id is Some,
            w@ == domain_lines(lists@.subrange(0, j as int)),
        decreases lists.len() - j,
    {
        let l = &lists[j];
        let id = l.id.unwrap();
        let line = String::from_str("acl ").concat(id_string("domains", id).as_str()).concat(" dstdomain ").concat(
            join_domains(&l.domains).as_str(),
        );
        let ghost w0 = w@;
        w.writeln(line.as_str());
        assert(lists@.subrange(0, j + 1).drop_last() =~= lists@.subrange(0, j as int));
        assert(w@ =~= w0 + domain_line(lists@[j as int]));
        j += 1;
    }
    assert(lists@.subrange(0, j as int) =~= lists@);
    w.into_string()
}

fn artifact(name: String, content: String) -> (r: Artifact)
    ensures
        r@ == (ArtifactView { name: name@, content: content@ }),
{
    Artifact { name, content }
}

/// Compiles the policy as it stands at `now` (milliseconds since the Unix
/// epoch) into the artifacts of the proxy configuration.
pub fn compile(clients: &Vec<Client>, lists: &Vec<DomainList>, now: i64) -> (r: Result<Vec<Artifact>, CompileError>)
    ensures
        compile_outcome(clients@, lists@, now as int, r),
{
    let mut j: usize = 0;
    while j < lists.len()
        invariant
            j <= lists.len(),
            forall|m: int| 0 <= m < j ==> (#[trigger] lists@[m]).id is Some,
        decreases lists.len() - j,
    {
        if lists[j].id.is_none() {
            return Err(CompileError::DomainListWithoutId { index: j });
        }
        j += 1;
    }
    let mut out: Vec<Artifact> = Vec::new();
    let mut i: usize = 0;
    while i < clients.len()
        invariant
            i <= clients.len(),
            forall|m: int| 0 <= m < lists.len() ==> (#[trigger] lists@[m]).id is Some,
            artifacts_view(out@) == client_artifacts(clients@.subrange(0, i as int), now as int),
            forall|m: int| 0 <= m < i && qualifies(#[trigger] clients@[m]) ==> clients@[m].id is Some,
            forall|m: int, d: u32|
                0 <= m < i && qualifies(clients@[m]) && #[trigger] emits_deny(clients@[m], now as int, d)
                    ==> list_defined(lists@, d),
        decreases clients.len() - i,
    {
        let c = &clients[i];
        let ghost prefix = clients@.subrange(0, i + 1);
        assert(prefix.drop_last() =~= clients@.subrange(0, i as int));
        if c.rules.len() > 0 {
            match c.id {
                None => {
                    return Err(CompileError::ClientWithoutId { index: i });
                },
                Some(id) => {
                    match render_client(c, id, lists, now) {
                        Err(e) => {
                            return Err(e);
                        },
                        Ok(content) => {
                            let name = id_string("client", id).concat(".conf");
                            let a = artifact(name, content);
                            let ghost before = out@;
                            out.push(a);
                            assert(artifacts_view(out@) =~= artifacts_view(before).push(a@));
                        },
                    }
                },
            }
        }
        i += 1;
    }
    assert(clients@.subrange(0, i as int) =~= clients@);
    if out.len() == 0 {
        out.push(
            artifact(
                String::from_str("client_dummy.conf"),
                String::from_str("# This file is intentionally left blank.\n"),
            ),
        );
    }
    let ghost before = out@;
    out.push(artifact(String::from_str("domains.conf"), render_domains(lists)));
    assert(artifacts_view(out@) =~= artifacts_view(before).push(shared_artifact(lists@)));
    assert(artifacts_view(out@) =~= compiled(clients@, lists@, now as int));
    Ok(out)
}

/// Compiles the stored policy as it stands now. Returns the instant the
/// compile was taken at, read once from the clock, and the outcome of
/// compiling at that instant.
pub fn generate_squid_config(clients: &IdentifiedList<Client>, domainlists: &IdentifiedList<DomainList>) -> (r: (
    i64,
    Result<Vec<Artifact>, CompileError>,
))
    ensures
        compile_outcome(clients.items@, domainlists.items@, r.0 as int, r.1),
{
    let now = now_millis();
    (now, compile(&clients.items, &domainlists.items, now))
}

proof fn lemma_client_artifacts_remove(clients: Seq<Client>, now: int, i: int)
    requires
        0 <= i < clients.len(),
        !qualifies(clients[i]),
    ensures
        client_artifacts(clients, now) == client_artifacts(clients.remove(i), now),
    decreases clients.len(),
{
    if i == clients.len() - 1 {
        assert(clients.drop_last() =~= clients.remove(i));
    } else {
        let rest = clients.remove(i);
        assert(rest.drop_last() =~= clients.drop_last().remove(i));
        assert(rest.last() == clients.last());
        lemma_client_artifacts_remove(clients.drop_last(), now, i);
    }
}

/// A client without rules contributes nothing: compiling without it gives
/// the very same artifacts.
pub proof fn lemma_ruleless_client_emits_nothing(
    clients: Seq<Client>,
    lists: Seq<DomainList>,
    now: int,
    i: int,
)
    requires
        0 <= i < clients.len(),
        clients[i].rules.len() == 0,
    ensures
        compiled(clients, lists, now) == compiled(clients.remove(i), lists, now),
{
    lemma_client_artifacts_remove(clients, now, i);
}

proof fn lemma_client_artifacts_include(clients: Seq<Client>, now: int, i: int)
    requires
        0 <= i < clients.len(),
        qualifies(clients[i]),
    ensures
        exists|k: int|
            0 <= k < client_artifacts(clients, now).len() && client_artifacts(clients, now)[k]
                == client_artifact(clients[i], now),
    decreases clients.len(),
{
    let pre = client_artifacts(clients.drop_last(), now);
    if i == clients.len() - 1 {
        assert(client_artifacts(clients, now)[pre.len() as int] == client_artifact(clients[i], now));
    } else {
        assert(clients.drop_last()[i] == clients[i]);
        lemma_client_artifacts_include(clients.drop_last(), now, i);
        let k = choose|k: int| 0 <= k < pre.len() && pre[k] == client_artifact(clients[i], now);
        assert(client_artifacts(clients, now)[k] == client_artifact(clients[i], now));
    }
}

/// Every client with a rule has an artifact of its own, named after its
/// id padded to four digits: `client_0007.conf` for id 7.
pub proof fn lemma_client_artifact_named(
    clients: Seq<Client>,
    lists: Seq<DomainList>,
    now: int,
    i: int,
)
    requires
        0 <= i < clients.len(),
        clients[i].rules.len() > 0,
        clients[i].id is Some,
    ensures
        exists|k: int|
            0 <= k < compiled(clients, lists, now).len() && compiled(clients, lists, now)[k]
                == client_artifact(clients[i], now),
        client_artifact(clients[i], now).name == "client"@ + "_"@ + padded4(clients[i].id.unwrap() as nat)
            + ".conf"@,
{
    lemma_client_artifacts_include(clients, now, i);
    let per = client_artifacts(clients, now);
    let k = choose|k: int| 0 <= k < per.len() && per[k] == client_artifact(clients[i], now);
    assert(compiled(clients, lists, now)[k] == per[k]);
}

/// With no domain lists, the shared artifact is still emitted, holding a
/// comment alone.
pub proof fn lemma_no_lists_comment_only(clients: Seq<Client>, lists: Seq<DomainList>, now: int)
    requires
        lists.len() == 0,
    ensures
        compiled(clients, lists, now).last() == (ArtifactView {
            name: "domains.conf"@,
            content: "# This file will be populated with penguin domains\n"@,
        }),
{
}

/// Exactly one placeholder stands in for the client artifacts when no client
/// has a rule, and none is emitted otherwise.
pub proof fn lemma_placeholder_iff_no_qualifying(clients: Seq<Client>, lists: Seq<DomainList>, now: int)
    ensures
        (forall|i: int| 0 <= i < clients.len() ==> !qualifies(#[trigger] clients[i]))
            ==> compiled(clients, lists, now) == seq![placeholder(), shared_artifact(lists)],
        (exists|i: int| 0 <= i < clients.len() && qualifies(#[trigger] clients[i]))
            ==> compiled(clients, lists, now) == client_artifacts(clients, now).push(shared_artifact(lists)),
{
    if exists|i: int| 0 <= i < clients.len() && qualifies(#[trigger] clients[i]) {
        let i = choose|i: int| 0 <= i < clients.len() && qualifies(#[trigger] clients[i]);
        lemma_client_artifacts_include(clients, now, i);
    } else {
        lemma_no_qualifying_empty(clients, now);
    }
}

proof fn lemma_client_artifacts_from(clients: Seq<Client>, now: int)
    ensures
        forall|k: int|
            0 <= k < client_artifacts(clients, now).len() ==> exists|j: int|
                0 <= j < clients.len() && qualifies(clients[j]) && #[trigger] client_artifacts(clients, now)[k]
                    == client_artifact(clients[j], now),
    decreases clients.len(),
{
    if clients.len() > 0 {
        let pre = clients.drop_last();
        lemma_client_artifacts_from(pre, now);
        let per = client_artifacts(clients, now);
        assert forall|k: int| 0 <= k < per.len() implies exists|j: int|
            0 <= j < clients.len() && qualifies(clients[j]) && #[trigger] per[k] == client_artifact(
                clients[j],
                now,
            ) by {
            if k < client_artifacts(pre, now).len() {
                let j = choose|j: int|
                    0 <= j < pre.len() && qualifies(pre[j]) && #[trigger] client_artifacts(pre, now)[k]
                        == client_artifact(pre[j], now);
                assert(pre[j] == clients[j]);
            } else {
                assert(per[k] == client_artifact(clients[clients.len() - 1], now));
            }
        }
    }
}

proof fn lemma_client_file_not_fixed(id: u32)
    ensures
        client_acl_named(id) + ".conf"@ != "client_dummy.conf"@,
        client_acl_named(id) + ".conf"@ != "domains.conf"@,
{
    reveal_strlit("client");
    reveal_strlit("_");
    reveal_strlit(".conf");
    reveal_strlit("client_dummy.conf");
    reveal_strlit("domains.conf");
    lemma_padded4_value(id as nat);
    let n = client_acl_named(id) + ".conf"@;
    assert(n[7] == padded4(id as nat)[0]);
    assert(is_digit(n[7]));
    assert("client_dummy.conf"@[7] == 'd');
    assert(n[1] == 'l');
    assert("domains.conf"@[1] == 'o');
}

/// The ACL name of the client with id `id`.
pub open spec fn client_acl_named(id: u32) -> Seq<char> {
    entity_name("client"@, id)
}

/// A client without rules gets no file: when client ids are assigned and
/// unique, no artifact carries the file name its padded id would give.
pub proof fn lemma_ruleless_client_has_no_file(
    clients: Seq<Client>,
    lists: Seq<DomainList>,
    now: int,
    i: int,
)
    requires
        0 <= i < clients.len(),
        clients[i].rules.len() == 0,
        forall|j: int| 0 <= j < clients.len() ==> (#[trigger] clients[j]).id is Some,
        forall|j: int| 0 <= j < clients.len() && j != i ==> (#[trigger] clients[j]).id != clients[i].id,
    ensures
        forall|k: int|
            0 <= k < compiled(clients, lists, now).len() ==> (#[trigger] compiled(clients, lists, now)[k]).name
                != client_acl_named(clients[i].id.unwrap()) + ".conf"@,
{
    let me = client_acl_named(clients[i].id.unwrap()) + ".conf"@;
    let per = client_artifacts(clients, now);
    lemma_client_artifacts_from(clients, now);
    lemma_client_file_not_fixed(clients[i].id.unwrap());
    assert forall|k: int| 0 <= k < per.len() implies (#[trigger] per[k]).name != me by {
        let j = choose|j: int| 0 <= j < clients.len() && qualifies(clients[j]) && #[trigger] per[k] == client_artifact(clients[j], now);
        assert(j != i);
        if per[k].name == me {
            lemma_entity_name_injective("client"@, clients[j].id.unwrap(), clients[i].id.unwrap(), ".conf"@);
        }
    }
    let c = compiled(clients, lists, now);
    assert forall|k: int| 0 <= k < c.len() implies (#[trigger] c[k]).name != me by {
        if per.len() > 0 && k < per.len() {
            assert(c[k] == per[k]);
        }
    }
}

proof fn lemma_no_qualifying_empty(clients: Seq<Client>, now: int)
    requires
        forall|i: int| 0 <= i < clients.len() ==> !qualifies(#[trigger] clients[i]),
    ensures
        client_artifacts(clients, now).len() == 0,
    decreases clients.len(),
{
    if clients.len() > 0 {
        assert forall|i: int| 0 <= i < clients.drop_last().len() implies !qualifies(
            #[trigger] clients.drop_last()[i],
        ) by {
            assert(clients.drop_last()[i] == clients[i]);
        }
        lemma_no_qualifying_empty(clients.drop_last(), now);
        assert(!qualifies(clients[clients.len() - 1]));
    }
}

} // verus!
