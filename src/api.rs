//! Request logic behind the HTTP handlers: validation of submitted clients,
//! and selection of the log entries of one client.
use vstd::prelude::*;
use crate::errors::MyError;
use crate::model::Client;
use crate::squid::LogEntry;
use crate::list::{first_with_id, no_id};

verus! {

/// Unicode white space, the characters that `str::trim` removes.
pub open spec fn white_space(c: char) -> bool {
    ('\u{9}' <= c <= '\u{d}') || c == ' ' || c == '\u{85}' || c == '\u{a0}' || c == '\u{1680}' || (
    '\u{2000}' <= c <= '\u{200a}') || c == '\u{2028}' || c == '\u{2029}' || c == '\u{202f}' || c
        == '\u{205f}' || c == '\u{3000}'
}

/// Nothing but white space: empty once trimmed.
pub open spec fn blank(s: Seq<char>) -> bool {
    forall|i: int| 0 <= i < s.len() ==> white_space(#[trigger] s[i])
}

pub fn is_white_space(c: char) -> (r: bool)
    ensures
        r == white_space(c),
{
    ('\u{9}' <= c && c <= '\u{d}') || c == ' ' || c == '\u{85}' || c == '\u{a0}' || c == '\u{1680}' || (
    '\u{2000}' <= c && c <= '\u{200a}') || c == '\u{2028}' || c == '\u{2029}' || c == '\u{202f}' || c
        == '\u{205f}' || c == '\u{3000}'
}

/// Whether `s` is empty once trimmed of white space.
pub fn is_blank(s: &str) -> (r: bool)
    ensures
        r == blank(s@),
{
    let n = s.unicode_len();
    let mut i: usize = 0;
    while i < n
        invariant
            i <= n,
            n == s@.len(),
            forall|m: int| 0 <= m < i ==> white_space(#[trigger] s@[m]),
        decreases n - i,
    {
        if !is_white_space(s.get_char(i)) {
            return false;
        }
        i += 1;
    }
    true
}

/// Fails with `message` as a bad request when `failed` holds.
pub fn check(failed: bool, message: String) -> (r: Result<(), MyError>)
    ensures
        r is Ok <==> !failed,
        r matches Err(e) ==> e matches MyError::BadRequest(m) && m == message,
{
    if failed {
        return Err(MyError::BadRequest(message));
    }
    Ok(())
}

/// The clients other than `client`: those whose id differs from its id.
pub open spec fn others(clients: Seq<Client>, client: Client) -> Seq<Client> {
    clients.filter(|c: Client| c.id != client.id)
}

/// The clients of `clients` other than `client`, in order.
pub fn other_clients<'a>(clients: &'a Vec<Client>, client: &Client) -> (r: Vec<&'a Client>)
    ensures
        r@.len() == others(clients@, *client).len(),
        forall|i: int| 0 <= i < r@.len() ==> *r@[i] == others(clients@, *client)[i],
{
    let mut out: Vec<&'a Client> = Vec::new();
    let mut i: usize = 0;
    while i < clients.len()
        invariant
            i <= clients.len(),
            out@.len() == others(clients@.subrange(0, i as int), *client).len(),
            forall|m: int| 0 <= m < out@.len() ==> *out@[m] == others(clients@.subrange(0, i as int), *client)[m],
        decreases clients.len() - i,
    {
        let ghost next = clients@.subrange(0, i + 1);
        proof {
            assert(next.drop_last() =~= clients@.subrange(0, i as int));
            reveal(Seq::filter);
        }
        let c = &clients[i];
        if c.id != client.id {
            out.push(c);
        }
        i += 1;
    }
    assert(clients@.subrange(0, i as int) =~= clients@);
    out
}

/// Some other client has the ip address of `client`.
pub open spec fn ip_taken(clients: Seq<Client>, client: Client) -> bool {
    exists|i: int| 0 <= i < others(clients, client).len() && (#[trigger] others(clients, client)[i]).ip@ == client.ip@
}

/// Some other client has the name of `client`.
pub open spec fn name_taken(clients: Seq<Client>, client: Client) -> bool {
    exists|i: int| 0 <= i < others(clients, client).len() && (#[trigger] others(clients, client)[i]).name@
        == client.name@
}

fn any_same_ip(others: &Vec<&Client>, client: &Client) -> (r: bool)
    ensures
        r == exists|i: int| 0 <= i < others@.len() && (#[trigger] others@[i]).ip@ == client.ip@,
{
    let mut i: usize = 0;
    while i < others.len()
        invariant
            i <= others.len(),
            forall|m: int| 0 <= m < i ==> (#[trigger] others@[m]).ip@ != client.ip@,
        decreases others.len() - i,
    {
        if others[i].ip == client.ip {
            return true;
        }
        i += 1;
    }
    false
}

fn any_same_name(others: &Vec<&Client>, client: &Client) -> (r: bool)
    ensures
        r == exists|i: int| 0 <= i < others@.len() && (#[trigger] others@[i]).name@ == client.name@,
{
    let mut i: usize = 0;
    while i < others.len()
        invariant
            i <= others.len(),
            forall|m: int| 0 <= m < i ==> (#[trigger] others@[m]).name@ != client.name@,
        decreases others.len() - i,
    {
        if others[i].name == client.name {
            return true;
        }
        i += 1;
    }
    false
}

/// Checks a submitted client against the stored ones: its name must not be
/// blank, and no other client may have its ip address or its name. The
/// first rule broken, in that order, is reported.
pub fn validate(clients: &Vec<Client>, client: &Client) -> (r: Result<(), MyError>)
    ensures
        r is Ok <==> !blank(client.name@) && !ip_taken(clients@, *client) && !name_taken(clients@, *client),
        r matches Err(e) ==> e matches MyError::BadRequest(m) && (if blank(client.name@) {
            m@ == "Client name must not be empty"@
        } else if ip_taken(clients@, *client) {
            m@ == "A client with ip address '"@ + client.ip@ + "' already exists."@
        } else {
            m@ == "A client with name '"@ + client.name@ + "' already exists."@
        }),
{
    check(is_blank(client.name.as_str()), String::from_str("Client name must not be empty"))?;
    let o = other_clients(clients, client);
    let same_ip = any_same_ip(&o, client);
    proof {
        if same_ip {
            let i = choose|i: int| 0 <= i < o@.len() && (#[trigger] o@[i]).ip@ == client.ip@;
            assert(others(clients@, *client)[i].ip@ == client.ip@);
        }
        if ip_taken(clients@, *client) {
            let i = choose|i: int|
                0 <= i < others(clients@, *client).len() && (#[trigger] others(clients@, *client)[i]).ip@
                    == client.ip@;
            assert(o@[i].ip@ == client.ip@);
        }
    }
    check(
        same_ip,
        String::from_str("A client with ip address '").concat(client.ip.as_str()).concat("' already exists."),
    )?;
    let same_name = any_same_name(&o, client);
    proof {
        if same_name {
            let i = choose|i: int| 0 <= i < o@.len() && (#[trigger] o@[i]).name@ == client.name@;
            assert(others(clients@, *client)[i].name@ == client.name@);
        }
        if name_taken(clients@, *client) {
            let i = choose|i: int|
                0 <= i < others(clients@, *client).len() && (#[trigger] others(clients@, *client)[i]).name@
                    == client.name@;
            assert(o@[i].name@ == client.name@);
        }
    }
    check(
        same_name,
        String::from_str("A client with name '").concat(client.name.as_str()).concat("' already exists."),
    )?;
    Ok(())
}

/// The entries of `logs` made by the address `ip`, in order.
pub open spec fn entries_from(logs: Seq<LogEntry>, ip: Seq<char>) -> Seq<LogEntry> {
    logs.filter(|e: LogEntry| e.client_ip@ == ip)
}

/// The log entries of the client with id `client_id`: those made from the
/// ip address of the first client with that id, none when no client has it.
pub fn logs_for_client(logs: Vec<LogEntry>, clients: &Vec<Client>, client_id: u32) -> (r: Vec<LogEntry>)
    ensures
        no_id(clients@, client_id) ==> r@.len() == 0,
        forall|p: int| first_with_id(clients@, client_id, p) ==> r@ == entries_from(logs@, clients@[p].ip@),
{
    let mut k: usize = 0;
    let mut found = false;
    while k < clients.len() && !found
        invariant
            k <= clients.len(),
            forall|q: int| 0 <= q < k ==> (#[trigger] clients@[q]).id != Some(client_id),
            found ==> k < clients.len() && clients@[k as int].id == Some(client_id),
        decreases clients.len() - k + if found { 0int } else { 1int },
    {
        if clients[k].id == Some(client_id) {
            found = true;
        } else {
            k += 1;
        }
    }
    if !found {
        return Vec::new();
    }
    assert(first_with_id(clients@, client_id, k as int));
    let ip = &clients[k].ip;
    let ghost orig = logs@;
    let mut rest = logs;
    let mut kept: Vec<LogEntry> = Vec::new();
    let ghost mut consumed: int = 0;
    while rest.len() > 0
        invariant
            0 <= consumed <= orig.len(),
            rest@ == orig.subrange(consumed, orig.len() as int),
            kept@ == entries_from(orig.subrange(0, consumed), ip@),
        decreases rest.len(),
    {
        let e = rest.remove(0);
        proof {
            let next = orig.subrange(0, consumed + 1);
            assert(next.drop_last() =~= orig.subrange(0, consumed));
            assert(next.last() == e);
            reveal(Seq::filter);
        }
        if e.client_ip == *ip {
            kept.push(e);
        }
        proof {
            consumed = consumed + 1;
        }
    }
    assert(orig.subrange(0, consumed) =~= orig);
    proof {
        assert forall|p: int| first_with_id(clients@, client_id, p) implies p == k by {
            if p < k {
                assert(clients@[p].id != Some(client_id));
            }
            if p > k {
                assert(clients@[k as int].id == Some(client_id));
            }
        }
    }
    kept
}

} // verus!
