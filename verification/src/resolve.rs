//! Endpoint resolution: validating a requested watch list against the
//! directory before any probing begins. The whole list is checked first, so
//! a misspelt name can never stop a run half-way through; only a fully
//! resolved list is ever handed to the prober.
use vstd::prelude::*;

use crate::address::{ipv4_of, parse_ipv4, valid_ipv4, Ipv4Address};
use crate::directory::{lookup, Directory, EntryModel};
use crate::errors::MonitorError;
use crate::text::copy_chars;

verus! {

/// The mathematical value of one resolved target.
pub struct TargetModel {
    pub name: Seq<char>,
    pub addr: Ipv4Address,
    pub port: nat,
}

/// One watch-list entry with its connectable address: the requested name,
/// the address its directory entry's host text denotes, and the port.
pub struct ResolvedTarget {
    pub name: Vec<char>,
    pub addr: Ipv4Address,
    pub port: u16,
}

impl View for ResolvedTarget {
    type V = TargetModel;

    open spec fn view(&self) -> TargetModel {
        TargetModel { name: self.name@, addr: self.addr, port: self.port as nat }
    }
}

/// The names a watch list requests, in operator order.
pub open spec fn watch_names(watch: Seq<Vec<char>>) -> Seq<Seq<char>> {
    watch.map_values(|n: Vec<char>| n@)
}

/// Every requested name has a directory entry.
pub open spec fn all_present(dir: Seq<EntryModel>, names: Seq<Seq<char>>) -> bool {
    forall|i: int| 0 <= i < names.len() ==> lookup(dir, #[trigger] names[i]) is Some
}

/// The directory entry a present name resolves to.
pub open spec fn entry_for(dir: Seq<EntryModel>, n: Seq<char>) -> EntryModel
    recommends
        lookup(dir, n) is Some,
{
    lookup(dir, n).unwrap()
}

/// Every requested name's entry has parseable host text.
pub open spec fn all_hosts_valid(dir: Seq<EntryModel>, names: Seq<Seq<char>>) -> bool {
    forall|i: int| 0 <= i < names.len() ==> valid_ipv4(entry_for(dir, #[trigger] names[i]).host)
}

/// The target a present name with a valid host resolves to.
pub open spec fn target_for(dir: Seq<EntryModel>, n: Seq<char>) -> TargetModel
    recommends
        lookup(dir, n) is Some,
{
    TargetModel {
        name: n,
        addr: ipv4_of(entry_for(dir, n).host),
        port: entry_for(dir, n).port,
    }
}

/// `names[i]` is the first requested name absent from the directory.
pub open spec fn missing_at(dir: Seq<EntryModel>, names: Seq<Seq<char>>, i: int) -> bool {
    &&& 0 <= i < names.len()
    &&& lookup(dir, names[i]) is None
    &&& forall|j: int| 0 <= j < i ==> lookup(dir, #[trigger] names[j]) is Some
}

/// `names[i]` is the first requested name whose entry's host is invalid,
/// every name being present.
pub open spec fn bad_host_at(dir: Seq<EntryModel>, names: Seq<Seq<char>>, i: int) -> bool {
    &&& 0 <= i < names.len()
    &&& !valid_ipv4(entry_for(dir, names[i]).host)
    &&& forall|j: int| 0 <= j < i ==> valid_ipv4(entry_for(dir, #[trigger] names[j]).host)
}

/// Resolves a watch list against the directory.
///
/// Succeeds exactly when every requested name is present and every resolved
/// host parses, and then returns one target per requested name, in operator
/// order — duplicates included. The first absent name fails the whole list
/// with `UnknownEndpoint` before any target is handed out, and, all names
/// being present, the first unparseable host fails it with
/// `ConfigurationError` carrying that host text.
pub fn resolve(dir: &Directory, watch: &Vec<Vec<char>>) -> (r: Result<
    Vec<ResolvedTarget>,
    MonitorError,
>)
    ensures
        r is Ok <==> all_present(dir@, watch_names(watch@)) && all_hosts_valid(
            dir@,
            watch_names(watch@),
        ),
        r is Ok ==> r->Ok_0@.len() == watch@.len() && forall|i: int|
            0 <= i < watch@.len() ==> (#[trigger] r->Ok_0@[i])@ == target_for(
                dir@,
                watch_names(watch@)[i],
            ),
        !all_present(dir@, watch_names(watch@)) ==> (r matches Err(
            MonitorError::UnknownEndpoint(n),
        ) && exists|i: int|
            missing_at(dir@, watch_names(watch@), i) && n@ == watch_names(watch@)[i]),
        all_present(dir@, watch_names(watch@)) && !all_hosts_valid(dir@, watch_names(watch@))
            ==> (r matches Err(MonitorError::ConfigurationError(h)) && exists|i: int|
            bad_host_at(dir@, watch_names(watch@), i) && h@ == entry_for(
                dir@,
                watch_names(watch@)[i],
            ).host),
{
    let ghost names = watch_names(watch@);
    let mut i: usize = 0;
    while i < watch.len()
        invariant
            0 <= i <= watch@.len(),
            names == watch_names(watch@),
            forall|j: int| 0 <= j < i ==> lookup(dir@, #[trigger] names[j]) is Some,
        decreases watch@.len() - i,
    {
        match dir.find(&watch[i]) {
            Some(_) => {},
            None => {
                let name = copy_chars(&watch[i]);
                proof {
                    assert(missing_at(dir@, names, i as int));
                }
                return Err(MonitorError::UnknownEndpoint(name));
            },
        }
        i = i + 1;
    }
    assert(all_present(dir@, names));
    let mut targets: Vec<ResolvedTarget> = Vec::new();
    let mut k: usize = 0;
    while k < watch.len()
        invariant
            0 <= k <= watch@.len(),
            names == watch_names(watch@),
            all_present(dir@, names),
            targets@.len() == k,
            forall|j: int| 0 <= j < k ==> valid_ipv4(entry_for(dir@, #[trigger] names[j]).host),
            forall|j: int|
                0 <= j < k ==> (#[trigger] targets@[j])@ == target_for(dir@, names[j]),
        decreases watch@.len() - k,
    {
        let idx = match dir.find(&watch[k]) {
            Some(idx) => idx,
            None => {
                proof {
                    assert(lookup(dir@, names[k as int]) is Some);
                }
                unreached()
            },
        };
        let entry = &dir.entries[idx];
        proof {
            assert(entry@ == entry_for(dir@, names[k as int]));
        }
        match parse_ipv4(&entry.host) {
            Some(addr) => {
                let target = ResolvedTarget {
                    name: copy_chars(&watch[k]),
                    addr,
                    port: entry.port,
                };
                proof {
                    assert(target@ == target_for(dir@, names[k as int]));
                }
                targets.push(target);
            },
            None => {
                let host = copy_chars(&entry.host);
                proof {
                    assert(bad_host_at(dir@, names, k as int));
                }
                return Err(MonitorError::ConfigurationError(host));
            },
        }
        k = k + 1;
    }
    Ok(targets)
}

} // verus!
