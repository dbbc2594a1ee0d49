//! Which hosts name the presentation server, which of a host's addresses to use, and how a
//! failed resolution is reported.
use vstd::prelude::*;

use crate::state::opt_str_view;
use crate::text::{join_spec, string_views};

verus! {

/// The hosts to try, in order: the primary host, then the fallback, each only when non-empty.
pub open spec fn candidates_spec(host: Seq<char>, fallback: Option<Seq<char>>) -> Seq<Seq<char>> {
    let first = if host.len() > 0 { seq![host] } else { Seq::empty() };
    match fallback {
        Some(f) if f.len() > 0 => first.push(f),
        _ => first,
    }
}

/// The hosts to try, in order.
pub fn candidates(host: &str, fallback: Option<&str>) -> (hosts: Vec<String>)
    ensures
        string_views(hosts@) == candidates_spec(host@, opt_str_view(fallback)),
{
    let mut hosts: Vec<String> = Vec::new();
    if !host.is_empty() {
        hosts.push(String::from_str(host));
    }
    if let Some(f) = fallback {
        if !f.is_empty() {
            hosts.push(String::from_str(f));
        }
    }
    assert(string_views(hosts@) =~= candidates_spec(host@, opt_str_view(fallback)));
    hosts
}

/// Picks the address to use among those a host resolved to, given whether each is IPv4: the
/// first IPv4 address, else the first address, else none.
///
/// On the LAN an mDNS answer often carries both families, and only IPv4 is routable here.
pub fn preferred_address(is_ipv4: &Vec<bool>) -> (index: Option<usize>)
    ensures
        index matches Some(i) ==> i < is_ipv4@.len(),
        is_ipv4@.len() == 0 <==> index is None,
        index matches Some(i) ==> (is_ipv4@[i as int] && forall|j: int| 0 <= j < i ==> !is_ipv4@[j])
            || (i == 0 && forall|j: int| 0 <= j < is_ipv4@.len() ==> !is_ipv4@[j]),
{
    if is_ipv4.len() == 0 {
        return None;
    }
    let mut i: usize = 0;
    while i < is_ipv4.len()
        invariant
            0 <= i <= is_ipv4@.len(),
            forall|j: int| 0 <= j < i ==> !is_ipv4@[j],
        decreases is_ipv4@.len() - i,
    {
        if is_ipv4[i] {
            return Some(i);
        }
        i = i + 1;
    }
    Some(0)
}

/// One failed host in a resolution report: the host and the reason.
pub fn resolve_failure(host: &str, reason: &str) -> (entry: String)
    ensures
        entry@ == host@ + ": "@ + reason@,
{
    let mut entry = String::from_str(host);
    entry.append(": ");
    entry.append(reason);
    entry
}

/// The error of a resolution that failed for every host: each failure, joined by commas.
pub fn resolve_error(failures: &Vec<String>) -> (message: String)
    ensures
        message@ == "resolve "@ + join_spec(string_views(failures@), ", "@),
{
    let mut joined = String::new();
    let ghost parts = string_views(failures@);
    let mut i: usize = 0;
    while i < failures.len()
        invariant
            0 <= i <= failures@.len(),
            parts == string_views(failures@),
            joined@ == join_spec(parts.take(i as int), ", "@),
        decreases failures@.len() - i,
    {
        proof {
            assert(parts.take(i + 1).drop_last() =~= parts.take(i as int));
            assert(parts.take(i + 1).last() == failures@[i as int]@);
        }
        if i > 0 {
            joined.append(", ");
        } else {
            assert(joined@ =~= Seq::<char>::empty());
        }
        joined.append(failures[i].as_str());
        proof {
            if i == 0 {
                assert(parts.take(1)[0] == failures@[0]@);
                assert(joined@ =~= parts.take(1)[0]);
            }
        }
        i = i + 1;
    }
    assert(parts.take(failures@.len() as int) =~= parts);
    let mut message = String::from_str("resolve ");
    message.append(joined.as_str());
    message
}

/// What a resolution of the server address does next.
#[derive(Debug)]
pub enum ResolveStep {
    /// Resolve the host at this index of the candidates.
    Try(usize),
    /// The host at this index resolved: use its address.
    Use(usize),
    /// No host resolved: fail with this message.
    Fail(String),
}

/// The mathematical model of a [`ResolveStep`], without the message.
pub enum ResolveModel {
    Try(nat),
    Use(nat),
    Fail,
}

impl View for ResolveStep {
    type V = ResolveModel;

    open spec fn view(&self) -> ResolveModel {
        match self {
            ResolveStep::Try(i) => ResolveModel::Try(*i as nat),
            ResolveStep::Use(i) => ResolveModel::Use(*i as nat),
            ResolveStep::Fail(_) => ResolveModel::Fail,
        }
    }
}

/// What follows the resolution of candidate `index` of `n`, which resolved when `ok`.
pub open spec fn resolve_next(n: nat, index: nat, ok: bool) -> ResolveModel {
    if ok {
        ResolveModel::Use(index)
    } else if index + 1 < n {
        ResolveModel::Try(index + 1)
    } else {
        ResolveModel::Fail
    }
}

/// Where a resolution that tries candidate `index` ends, when candidate `i` resolves exactly
/// when `ok[i]`.
pub open spec fn resolve_run(ok: Seq<bool>, index: nat) -> ResolveModel
    decreases ok.len() - index,
{
    if index >= ok.len() {
        ResolveModel::Fail
    } else {
        match resolve_next(ok.len(), index, ok[index as int]) {
            ResolveModel::Try(j) => resolve_run(ok, j),
            other => other,
        }
    }
}

/// A run from candidate `start` uses the first candidate from there on that resolves, and fails
/// when none does.
proof fn lemma_resolve_run_from(ok: Seq<bool>, start: nat)
    ensures
        resolve_run(ok, start) matches ResolveModel::Use(i) ==> start <= i < ok.len() && ok[i as int]
            && forall|j: int| start <= j < i ==> !ok[j],
        resolve_run(ok, start) is Fail <==> forall|j: int| start <= j < ok.len() ==> !ok[j],
        !(resolve_run(ok, start) is Try),
    decreases ok.len() - start,
{
    if start < ok.len() && !ok[start as int] && start + 1 < ok.len() {
        lemma_resolve_run_from(ok, start + 1);
    }
}

/// A resolution tries the candidates in order and stops at the first that resolves: it uses a
/// candidate only when that candidate resolved and every candidate before it failed, and it fails
/// exactly when every candidate failed. So the fallback is tried only when the first host did not
/// resolve.
pub proof fn lemma_resolution_uses_first_resolving(ok: Seq<bool>)
    ensures
        resolve_run(ok, 0) matches ResolveModel::Use(i) ==> i < ok.len() && ok[i as int] && forall|
            j: int,
        | 0 <= j < i ==> !ok[j],
        resolve_run(ok, 0) is Fail <==> forall|j: int| 0 <= j < ok.len() ==> !ok[j],
        resolve_run(ok, 0) is Use <==> exists|j: int| 0 <= j < ok.len() && ok[j],
{
    lemma_resolve_run_from(ok, 0);
}

/// How a resolution starts: with the first candidate, or, with none at all, with the error of a
/// resolution that named no host.
pub fn start_resolve(hosts: &Vec<String>) -> (step: ResolveStep)
    ensures
        hosts@.len() > 0 ==> step == ResolveStep::Try(0) && step@ == ResolveModel::Try(0),
        hosts@.len() == 0 ==> (step matches ResolveStep::Fail(m) && m@ == "resolve "@),
{
    if hosts.len() > 0 {
        ResolveStep::Try(0)
    } else {
        let message = resolve_error(hosts);
        assert(string_views(hosts@) =~= Seq::<Seq<char>>::empty());
        assert(message@ =~= "resolve "@);
        ResolveStep::Fail(message)
    }
}

/// Decides what follows the resolution of the candidate at `index`, which came out `resolved`
/// (the reason of a failure as its error): use that host when it resolved; otherwise record the
/// failure and try the next candidate, or, after the last one, fail naming every failure. A
/// fallback is thus tried only when every host before it failed.
pub fn after_resolve(
    hosts: &Vec<String>,
    index: usize,
    resolved: Result<(), String>,
    failures: &mut Vec<String>,
) -> (step: ResolveStep)
    requires
        index < hosts@.len(),
        old(failures)@.len() == index,
    ensures
        resolved is Ok ==> step == ResolveStep::Use(index) && final(failures)@ == old(failures)@,
        resolved matches Err(r) ==> string_views(final(failures)@) == string_views(
            old(failures)@,
        ).push(hosts@[index as int]@ + ": "@ + r@) && final(failures)@.len() == index + 1,
        resolved is Err && index + 1 < hosts@.len() ==> step == ResolveStep::Try((index + 1) as usize),
        resolved is Err && index + 1 == hosts@.len() ==> (step matches ResolveStep::Fail(m) && m@
            == "resolve "@ + join_spec(string_views(final(failures)@), ", "@)),
        step@ == resolve_next(hosts@.len(), index as nat, resolved is Ok),
{
    match resolved {
        Ok(()) => ResolveStep::Use(index),
        Err(reason) => {
            let entry = resolve_failure(hosts[index].as_str(), reason.as_str());
            let ghost before = failures@;
            failures.push(entry);
            assert(string_views(failures@) =~= string_views(before).push(entry@));
            if index < hosts.len() - 1 {
                ResolveStep::Try(index + 1)
            } else {
                ResolveStep::Fail(resolve_error(failures))
            }
        },
    }
}

} // verus!
