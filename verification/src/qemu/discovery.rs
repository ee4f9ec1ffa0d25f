//! Searching the buses for virtual machines.

use vstd::prelude::*;

use super::types::vm_views;
use super::types::Discovery;
use super::types::VmSummary;
use super::types::VmView;
use crate::error::Failure;
use crate::text::clone_opt_string;
use crate::text::concat2;
use crate::text::concat3;
use crate::text::opt_string;
use crate::text::opt_text;
use crate::text::order::rank_texts;
use crate::text::order::text_rank;
use crate::text::order::text_rank_flips;
use crate::text::order::text_rank_is_transitive;
use crate::text::order::text_rank_same;
use crate::text::order::Rank;
use crate::text::same_strings;
use crate::text::same_text;
use crate::text::scan::after_prefix;
use crate::text::scan::occurs_at;
use crate::text::scan::pieces;
use crate::text::scan::split;
use crate::text::scan::strip_prefix;
use crate::text::sort::sort_ranked;
use crate::text::sort::sorted_from;
use crate::text::sort::Ranked;
use crate::text::texts;
use crate::text::to_chars;

verus! {

/// The object under which QEMU exports a display.
pub const DISPLAY_ROOT_PATH: &'static str = "/org/qemu/Display1";

/// Where libvirt keeps the sockets of its private buses.
pub fn libvirt_dbus_dirs() -> (dirs: Vec<String>)
    ensures
        texts(dirs@) == seq!["/run/libvirt/qemu/dbus"@, "/var/run/libvirt/qemu/dbus"@],
{
    let mut dirs: Vec<String> = Vec::new();
    dirs.push("/run/libvirt/qemu/dbus".to_owned());
    dirs.push("/var/run/libvirt/qemu/dbus".to_owned());
    assert(texts(dirs@) =~= seq!["/run/libvirt/qemu/dbus"@, "/var/run/libvirt/qemu/dbus"@]);
    dirs
}

/// A bus to search.
#[derive(Debug)]
pub struct DiscoveryTarget {
    pub label: String,
    pub address: Option<String>,
}

/// The name of a bus.
pub open spec fn bus_name(address: Option<Seq<char>>) -> Seq<char> {
    match address {
        Some(text) => "D-Bus at `"@ + text + "`"@,
        None => "session bus"@,
    }
}

/// The name of what is searched.
pub open spec fn scope_name(address: Option<Seq<char>>) -> Seq<char> {
    match address {
        Some(_) => bus_name(address),
        None => "session bus and detected libvirt D-Bus sockets"@,
    }
}

/// The name of a bus.
pub fn describe_bus(address: Option<&str>) -> (label: String)
    ensures
        label@ == bus_name(opt_text(address)),
{
    match address {
        Some(address) => concat3("D-Bus at `", address, "`"),
        None => "session bus".to_owned(),
    }
}

/// The name of what is searched.
pub fn describe_scope(address: Option<&str>) -> (label: String)
    ensures
        label@ == scope_name(opt_text(address)),
{
    match address {
        Some(address) => describe_bus(Some(address)),
        None => "session bus and detected libvirt D-Bus sockets".to_owned(),
    }
}

impl DiscoveryTarget {
    /// The target is the bus at an address, under the bus's name.
    pub open spec fn is_for(&self, address: Option<Seq<char>>) -> bool {
        self.label@ == bus_name(address) && opt_string(self.address) == address
    }

    /// The session bus.
    pub fn session() -> (target: DiscoveryTarget)
        ensures
            target.is_for(None),
    {
        DiscoveryTarget { label: describe_bus(None), address: None }
    }

    /// The bus at an address.
    pub fn explicit(address: &str) -> (target: DiscoveryTarget)
        ensures
            target.is_for(Some(address@)),
    {
        DiscoveryTarget { label: describe_bus(Some(address)), address: Some(address.to_owned()) }
    }
}

/// The path of the socket that an address names.
pub fn unix_socket_path_from_address(address: &str) -> (path: Option<String>)
    ensures
        opt_string(path) == after_prefix(address@, "unix:path="@),
{
    strip_prefix(address, "unix:path=")
}

/// The address of the socket at a path.
pub open spec fn socket_address(path: Seq<char>) -> Seq<char> {
    "unix:path="@ + path
}

/// The address of the socket at a path.
pub fn socket_path_to_address(path: &str) -> (address: String)
    ensures
        address@ == socket_address(path@),
{
    concat2("unix:path=", path)
}

/// The path can be read back from the address made of it.
pub proof fn socket_path_reads_back(path: Seq<char>)
    ensures
        after_prefix(socket_address(path), "unix:path="@) == Some(path),
{
    let prefix = "unix:path="@;
    let address = socket_address(path);
    assert(address.subrange(0, prefix.len() as int) =~= prefix);
    assert(occurs_at(address, prefix, 0));
    assert(address.skip(prefix.len() as int) =~= path);
}

/// What a failed connection was caused by.
#[derive(Copy, Clone, Debug, PartialEq, Eq, Structural)]
pub enum CauseKind {
    PermissionDenied,
    Other,
}

/// Whether a lack of permission is among the causes.
pub fn caused_by_permission_denied(causes: &Vec<CauseKind>) -> (denied: bool)
    ensures
        denied == causes@.contains(CauseKind::PermissionDenied),
{
    for i in 0..causes.len()
        invariant
            forall|j: int| 0 <= j < i ==> causes@[j] != CauseKind::PermissionDenied,
    {
        if causes[i] == CauseKind::PermissionDenied {
            return true;
        }
    }
    false
}

/// The explanation of a failed connection.
pub open spec fn connect_explanation(address: Seq<char>, denied: bool) -> Seq<char> {
    let message = "failed to connect to D-Bus address `"@ + address + "`"@;
    if !denied {
        message
    } else {
        match after_prefix(address, "unix:path="@) {
            Some(path) => message + ("\nPermission denied opening `"@ + path
                + "`. Check search permission on the parent directories and connect permission on the socket."@),
            None => message
                + "\nPermission denied while opening the configured D-Bus address."@,
        }
    }
}

/// The failure of a connection, explained, on top of what the bus library reported.
pub fn explain_address_connect_error(
    address: &str,
    causes: &Vec<CauseKind>,
    reported: Failure,
) -> (failure: Failure)
    ensures
        failure@ == seq![
            connect_explanation(address@, causes@.contains(CauseKind::PermissionDenied)),
        ] + reported@,
{
    let mut message = concat3("failed to connect to D-Bus address `", address, "`");
    if caused_by_permission_denied(causes) {
        match unix_socket_path_from_address(address) {
            Some(path) => {
                let hint = concat3(
                    "\nPermission denied opening `",
                    path.as_str(),
                    "`. Check search permission on the parent directories and connect permission on the socket.",
                );
                message.append(hint.as_str());
            },
            None => {
                message.append("\nPermission denied while opening the configured D-Bus address.");
            },
        }
    }
    reported.context(message)
}

/// The failure to reach the session bus, on top of what the bus library reported.
pub fn session_bus_failure(reported: Failure) -> (failure: Failure)
    ensures
        failure@ == seq!["failed to connect to the session D-Bus"@] + reported@,
{
    reported.context("failed to connect to the session D-Bus".to_owned())
}

/// A path that was found in a directory, and the path without links that it leads to, where it
/// leads anywhere.
#[derive(Debug)]
pub struct SocketPath {
    pub path: String,
    pub resolved: Option<String>,
}

/// How many of the first `count` components are left once those at the end that are empty or name
/// the directory itself are dropped.
pub open spec fn meaningful(parts: Seq<Seq<char>>, count: int) -> int
    decreases count,
{
    if count <= 0 {
        0
    } else if parts[count - 1].len() == 0 || parts[count - 1] == "."@ {
        meaningful(parts, count - 1)
    } else {
        count
    }
}

/// The last component of a path, if it is a name.
pub open spec fn file_name(path: Seq<char>) -> Option<Seq<char>> {
    let parts = pieces(path, '/');
    let count = meaningful(parts, parts.len() as int);
    if count == 0 || parts[count - 1] == ".."@ {
        None
    } else {
        Some(parts[count - 1])
    }
}

/// The path names a file with the extension `sock`.
pub open spec fn is_socket_path(path: Seq<char>) -> bool {
    match file_name(path) {
        Some(name) => name.len() > 5 && name.skip(name.len() - 5) == ".sock"@,
        None => false,
    }
}

/// Whether the path names a file with the extension `sock`.
pub fn is_dbus_socket_path(path: &str) -> (socket: bool)
    ensures
        socket == is_socket_path(path@),
{
    let parts = split(path, '/');
    let ghost views = texts(parts@);
    let mut count: usize = parts.len();
    while count > 0 && (parts[count - 1].as_str().is_empty() || same_text(
        parts[count - 1].as_str(),
        ".",
    ))
        invariant
            count <= parts.len(),
            views == texts(parts@),
            meaningful(views, views.len() as int) == meaningful(views, count as int),
        decreases count,
    {
        assert(views[count - 1] == parts@[count - 1]@);
        count = count - 1;
    }
    if count == 0 {
        return false;
    }
    assert(views[count - 1] == parts@[count - 1]@);
    if same_text(parts[count - 1].as_str(), "..") {
        return false;
    }
    let chars = to_chars(parts[count - 1].as_str());
    let n: usize = chars.len();
    proof {
        reveal_strlit(".sock");
    }
    let ends = n > 5 && chars[n - 5] == '.' && chars[n - 4] == 's' && chars[n - 3] == 'o' && chars[n
        - 2] == 'c' && chars[n - 1] == 'k';
    proof {
        if n > 5 {
            let tail = chars@.skip(n - 5);
            if ends {
                assert(tail =~= ".sock"@);
            } else if tail == ".sock"@ {
                assert(tail[0] == '.' && tail[1] == 's' && tail[2] == 'o' && tail[3] == 'c'
                    && tail[4] == 'k');
            }
        }
    }
    ends
}

/// The path that a socket is known by.
pub open spec fn known_path(entry: SocketPath) -> Seq<char> {
    match entry.resolved {
        Some(resolved) => resolved@,
        None => entry.path@,
    }
}

/// One of the entries is a socket with this address.
pub open spec fn has_address(entries: Seq<SocketPath>, address: Seq<char>) -> bool {
    exists|i: int|
        0 <= i < entries.len() && is_socket_path((#[trigger] entries[i]).path@) && address
            == socket_address(known_path(entries[i]))
}

/// Each text comes before the later ones.
pub open spec fn ascending(list: Seq<Seq<char>>) -> bool {
    forall|i: int, j: int|
        0 <= i < j < list.len() ==> text_rank(#[trigger] list[i], #[trigger] list[j]) is Before
}

/// Puts a text in its place in an ascending list, unless it is there already.
fn insert_distinct(list: &mut Vec<String>, item: String)
    requires
        ascending(texts(old(list)@)),
    ensures
        ascending(texts(final(list)@)),
        forall|text: Seq<char>| #[trigger]
            texts(final(list)@).contains(text) == (texts(old(list)@).contains(text) || text
                == item@),
{
    let ghost before = texts(list@);
    let ghost wanted = item@;
    let mut at: usize = 0;
    while at < list.len()
        invariant_except_break
            at <= list.len(),
            before == texts(list@),
            ascending(before),
            item@ == wanted,
            forall|i: int| 0 <= i < at ==> text_rank(#[trigger] before[i], wanted) is Before,
        invariant
            before == texts(list@),
            item@ == wanted,
            list@ == old(list)@,
        ensures
            at <= list.len(),
            forall|i: int| 0 <= i < at ==> text_rank(#[trigger] before[i], wanted) is Before,
            at < list.len() ==> text_rank(before[at as int], wanted) is After,
        decreases list.len() - at,
    {
        assert(before[at as int] == list@[at as int]@);
        match rank_texts(list[at].as_str(), item.as_str()) {
            Rank::Before => {
                at = at + 1;
            },
            Rank::Same => {
                proof {
                    text_rank_same(before[at as int], wanted);
                    assert(before.contains(wanted));
                }
                return ;
            },
            Rank::After => {
                break ;
            },
        }
    }
    list.insert(at, item);
    proof {
        let after = texts(list@);
        assert(after =~= before.insert(at as int, wanted));
        assert forall|i: int, j: int| 0 <= i < j < after.len() implies text_rank(
            #[trigger] after[i],
            #[trigger] after[j],
        ) is Before by {
            if j == at {
                assert(after[i] == before[i]);
            } else if i == at {
                assert(after[j] == before[j - 1]);
                text_rank_flips(before[at as int], wanted);
                if j - 1 > at {
                    assert(text_rank(before[at as int], before[j - 1]) is Before);
                    text_rank_is_transitive(wanted, before[at as int], before[j - 1]);
                }
            } else {
                let i2 = if i < at {
                    i
                } else {
                    i - 1
                };
                let j2 = if j < at {
                    j
                } else {
                    j - 1
                };
                assert(after[i] == before[i2] && after[j] == before[j2]);
            }
        }
        assert forall|text: Seq<char>| #[trigger]
            after.contains(text) == (before.contains(text) || text == wanted) by {
            if before.contains(text) {
                let k = choose|k: int| 0 <= k < before.len() && before[k] == text;
                if k < at {
                    assert(after[k] == text);
                } else {
                    assert(after[k + 1] == text);
                }
            }
            if text == wanted {
                assert(after[at as int] == text);
            }
            if after.contains(text) && text != wanted {
                let k = choose|k: int| 0 <= k < after.len() && after[k] == text;
                if k < at {
                    assert(before[k] == text);
                } else {
                    assert(before[k - 1] == text);
                }
            }
        }
    }
}

/// The addresses of the sockets among the entries of libvirt's directories, each once, in order.
pub fn libvirt_socket_addresses_from_paths(entries: &Vec<SocketPath>) -> (addresses: Vec<String>)
    ensures
        ascending(texts(addresses@)),
        forall|address: Seq<char>| #[trigger]
            texts(addresses@).contains(address) == has_address(entries@, address),
{
    let mut addresses: Vec<String> = Vec::new();
    for i in 0..entries.len()
        invariant
            ascending(texts(addresses@)),
            forall|address: Seq<char>| #[trigger]
                texts(addresses@).contains(address) == has_address(entries@.take(i as int), address),
    {
        let ghost before = texts(addresses@);
        let ghost seen = entries@.take(i as int);
        let ghost more = entries@.take(i + 1);
        if is_dbus_socket_path(entries[i].path.as_str()) {
            let known = match &entries[i].resolved {
                Some(resolved) => resolved.as_str(),
                None => entries[i].path.as_str(),
            };
            insert_distinct(&mut addresses, socket_path_to_address(known));
        }
        assert forall|address: Seq<char>| #[trigger]
            texts(addresses@).contains(address) == has_address(more, address) by {
            assert(before.contains(address) == has_address(seen, address));
            if has_address(seen, address) {
                let k = choose|k: int|
                    0 <= k < seen.len() && is_socket_path((#[trigger] seen[k]).path@) && address
                        == socket_address(known_path(seen[k]));
                assert(more[k] == seen[k]);
            }
            if has_address(more, address) {
                let k = choose|k: int|
                    0 <= k < more.len() && is_socket_path((#[trigger] more[k]).path@) && address
                        == socket_address(known_path(more[k]));
                if k < i {
                    assert(seen[k] == more[k]);
                }
            }
            assert(more[i as int] == entries@[i as int]);
        }
    }
    assert(entries@.take(entries@.len() as int) =~= entries@);
    addresses
}

/// The buses to search: the session bus, then each libvirt socket.
pub fn discovery_targets(addresses: &Vec<String>) -> (targets: Vec<DiscoveryTarget>)
    ensures
        targets.len() == addresses.len() + 1,
        targets@[0].is_for(None),
        forall|i: int|
            0 <= i < addresses.len() ==> (#[trigger] targets@[i + 1]).is_for(
                Some(addresses@[i]@),
            ),
{
    let mut targets: Vec<DiscoveryTarget> = Vec::new();
    targets.push(DiscoveryTarget::session());
    for i in 0..addresses.len()
        invariant
            targets.len() == i + 1,
            targets@[0].is_for(None),
            forall|j: int|
                0 <= j < i ==> (#[trigger] targets@[j + 1]).is_for(Some(addresses@[j]@)),
    {
        targets.push(DiscoveryTarget::explicit(addresses[i].as_str()));
    }
    targets
}

/// The warning for a directory that could not be read.
pub fn directory_warning(directory: &str, error: &str) -> (warning: String)
    ensures
        warning@ == directory@ + ": "@ + error@,
{
    concat3(directory, ": ", error)
}

/// The trace line for the search of a bus.
pub fn discovery_trace(target: &DiscoveryTarget) -> (text: String)
    ensures
        text@ == "discovering QEMU VMs on "@ + target.label@,
{
    concat2("discovering QEMU VMs on ", target.label.as_str())
}

/// What a machine says of itself.
#[derive(Debug)]
pub struct VmFacts {
    pub owner: String,
    pub name: String,
    pub uuid: String,
    pub console_ids: Vec<u32>,
    pub interfaces: Vec<String>,
}

/// A machine that was found on a bus, with its consoles and interfaces in order.
pub fn vm_summary(target: &DiscoveryTarget, facts: VmFacts) -> (vm: VmSummary)
    ensures
        vm.source_label@ == target.label@,
        opt_string(vm.source_address) == opt_string(target.address),
        vm.owner@ == facts.owner@,
        vm.name@ == facts.name@,
        vm.uuid@ == facts.uuid@,
        sorted_from(facts.console_ids@, vm.console_ids@),
        sorted_from(facts.interfaces@, vm.interfaces@),
{
    let mut console_ids = facts.console_ids;
    sort_ranked(&mut console_ids);
    let mut interfaces = facts.interfaces;
    sort_ranked(&mut interfaces);
    VmSummary {
        source_label: target.label.clone(),
        source_address: clone_opt_string(&target.address),
        owner: facts.owner,
        name: facts.name,
        uuid: facts.uuid,
        console_ids,
        interfaces,
    }
}

/// Puts machines in order.
pub fn sort_vms(vms: &mut Vec<VmSummary>)
    ensures
        sorted_from(old(vms)@, final(vms)@),
{
    sort_ranked(vms);
}

/// The two entries are the same machine, seen twice.
pub open spec fn same_machine(left: VmView, right: VmView) -> bool {
    &&& left.uuid.len() > 0
    &&& left.uuid == right.uuid
    &&& left.name == right.name
    &&& left.console_ids == right.console_ids
    &&& left.interfaces == right.interfaces
}

/// One of the machines is the same as `vm`.
pub open spec fn has_machine(vms: Seq<VmView>, vm: VmView) -> bool {
    exists|i: int| 0 <= i < vms.len() && same_machine(#[trigger] vms[i], vm)
}

/// The machines without those that were seen before.
pub open spec fn deduplicated(vms: Seq<VmView>) -> Seq<VmView>
    decreases vms.len(),
{
    if vms.len() == 0 {
        Seq::empty()
    } else {
        let before = deduplicated(vms.drop_last());
        if has_machine(vms.drop_last(), vms.last()) {
            before
        } else {
            before.push(vms.last())
        }
    }
}

proof fn same_machine_chains(a: VmView, b: VmView, c: VmView)
    requires
        same_machine(a, b),
        same_machine(b, c),
    ensures
        same_machine(a, c),
        same_machine(b, a),
{
}

/// A machine is kept exactly where one like it was there.
pub proof fn every_machine_is_kept(vms: Seq<VmView>, vm: VmView)
    ensures
        has_machine(deduplicated(vms), vm) == has_machine(vms, vm),
    decreases vms.len(),
{
    if vms.len() > 0 {
        let shorter = vms.drop_last();
        let last = vms.last();
        let kept = deduplicated(vms);
        let before = deduplicated(shorter);
        every_machine_is_kept(shorter, vm);
        if has_machine(vms, vm) {
            let i = choose|i: int| 0 <= i < vms.len() && same_machine(#[trigger] vms[i], vm);
            if i < shorter.len() {
                assert(same_machine(shorter[i], vm));
                let k = choose|k: int|
                    0 <= k < before.len() && same_machine(#[trigger] before[k], vm);
                assert(kept[k] == before[k]);
                assert(same_machine(kept[k], vm));
            } else if has_machine(shorter, last) {
                let j = choose|j: int|
                    0 <= j < shorter.len() && same_machine(#[trigger] shorter[j], last);
                same_machine_chains(shorter[j], last, vm);
                assert(has_machine(shorter, vm));
            } else {
                assert(kept[kept.len() - 1] == last);
                assert(same_machine(kept[kept.len() - 1], vm));
            }
        }
        if has_machine(kept, vm) {
            let k = choose|k: int| 0 <= k < kept.len() && same_machine(#[trigger] kept[k], vm);
            if k < before.len() {
                assert(same_machine(before[k], vm));
                let i = choose|i: int|
                    0 <= i < shorter.len() && same_machine(#[trigger] shorter[i], vm);
                assert(vms[i] == shorter[i]);
                assert(same_machine(vms[i], vm));
            } else {
                assert(same_machine(vms[vms.len() - 1], vm));
            }
        }
    }
}

/// No two machines that are kept are the same.
pub proof fn kept_machines_differ(vms: Seq<VmView>, i: int, j: int)
    requires
        0 <= i < j < deduplicated(vms).len(),
    ensures
        !same_machine(deduplicated(vms)[i], deduplicated(vms)[j]),
    decreases vms.len(),
{
    let shorter = vms.drop_last();
    let before = deduplicated(shorter);
    let kept = deduplicated(vms);
    if j < before.len() {
        kept_machines_differ(shorter, i, j);
    } else {
        assert(kept[j] == vms.last());
        every_machine_is_kept(shorter, vms.last());
        if same_machine(kept[i], kept[j]) {
            assert(before[i] == kept[i]);
            assert(has_machine(before, vms.last()));
        }
    }
}

/// Dropping repeated machines twice drops no more than doing so once.
pub proof fn deduplication_is_idempotent(vms: Seq<VmView>)
    ensures
        deduplicated(deduplicated(vms)) == deduplicated(vms),
    decreases vms.len(),
{
    let kept = deduplicated(vms);
    if vms.len() > 0 {
        let shorter = vms.drop_last();
        let before = deduplicated(shorter);
        deduplication_is_idempotent(shorter);
        if !has_machine(shorter, vms.last()) {
            every_machine_is_kept(shorter, vms.last());
            assert(kept.drop_last() =~= before);
            assert(deduplicated(kept) =~= kept);
        }
    }
}

/// Drops the machines that were seen before. A machine without a UUID is never dropped.
pub fn deduplicate_vms(vms: &mut Vec<VmSummary>)
    ensures
        vm_views(final(vms)@) == deduplicated(vm_views(old(vms)@)),
{
    let ghost all = vm_views(vms@);
    let mut rest: Vec<VmSummary> = Vec::new();
    std::mem::swap(&mut rest, vms);
    let ghost mut taken: int = 0;
    assert(vm_views(vms@) =~= Seq::<VmView>::empty());
    assert(all.take(0) =~= Seq::<VmView>::empty());
    assert(vm_views(rest@) =~= all.skip(0));
    while rest.len() > 0
        invariant
            0 <= taken <= all.len(),
            vm_views(rest@) == all.skip(taken),
            vm_views(vms@) == deduplicated(all.take(taken)),
        decreases rest.len(),
    {
        let ghost before_rest = vm_views(rest@);
        let vm = rest.remove(0);
        let ghost view = vm@;
        let ghost kept = vm_views(vms@);
        proof {
            assert(before_rest.len() == all.skip(taken).len());
            assert(before_rest[0] == view);
            assert(view == all[taken]);
            assert(all.take(taken + 1).drop_last() =~= all.take(taken));
            assert(all.take(taken + 1).last() == view);
            every_machine_is_kept(all.take(taken), view);
            assert(vm_views(rest@) =~= before_rest.drop_first());
            assert(vm_views(rest@) =~= all.skip(taken + 1));
        }
        if !holds_machine(vms, &vm) {
            vms.push(vm);
            assert(vm_views(vms@) =~= kept.push(view));
        }
        proof {
            taken = taken + 1;
        }
    }
    assert(all.take(taken) =~= all);
}

fn holds_machine(vms: &Vec<VmSummary>, vm: &VmSummary) -> (found: bool)
    ensures
        found == has_machine(vm_views(vms@), vm@),
{
    let ghost views = vm_views(vms@);
    if vm.uuid.as_str().is_empty() {
        return false;
    }
    for i in 0..vms.len()
        invariant
            views == vm_views(vms@),
            vm@.uuid.len() > 0,
            forall|j: int| 0 <= j < i ==> !same_machine(#[trigger] views[j], vm@),
    {
        assert(views[i as int] == vms@[i as int]@);
        if same_text(vms[i].uuid.as_str(), vm.uuid.as_str()) && same_text(
            vms[i].name.as_str(),
            vm.name.as_str(),
        ) && same_ids(&vms[i].console_ids, &vm.console_ids) && same_strings(
            &vms[i].interfaces,
            &vm.interfaces,
        ) {
            return true;
        }
    }
    false
}

fn same_ids(left: &Vec<u32>, right: &Vec<u32>) -> (same: bool)
    ensures
        same == (left@ == right@),
{
    if left.len() != right.len() {
        return false;
    }
    for i in 0..left.len()
        invariant
            left.len() == right.len(),
            forall|j: int| 0 <= j < i ==> left@[j] == right@[j],
    {
        if left[i] != right[i] {
            return false;
        }
    }
    assert(left@ =~= right@);
    true
}

/// What was found at an explicit address.
pub fn explicit_discovery(address: &str, vms: Vec<VmSummary>) -> (discovery: Discovery)
    ensures
        discovery.bus_label@ == scope_name(Some(address@)),
        discovery.warnings@ == Seq::<String>::empty(),
        sorted_from(vms@, discovery.vms@),
{
    let mut vms = vms;
    sort_vms(&mut vms);
    Discovery { bus_label: describe_scope(Some(address)), vms, warnings: Vec::new() }
}

/// A search of several buses.
#[derive(Debug)]
pub struct AutoDiscovery {
    vms: Vec<VmSummary>,
    warnings: Vec<String>,
}

impl AutoDiscovery {
    /// The machines found so far, in the order in which they were found.
    pub closed spec fn found(&self) -> Seq<VmSummary> {
        self.vms@
    }

    /// The warnings so far.
    pub closed spec fn warned(&self) -> Seq<Seq<char>> {
        texts(self.warnings@)
    }

    /// A search that begins with the warnings of the directory scan.
    pub fn new(warnings: Vec<String>) -> (search: AutoDiscovery)
        ensures
            search.found() == Seq::<VmSummary>::empty(),
            search.warned() == texts(warnings@),
    {
        AutoDiscovery { vms: Vec::new(), warnings }
    }

    /// Takes over what one bus has given: its machines in order, or a warning.
    pub fn record(&mut self, target: &DiscoveryTarget, outcome: Result<Vec<VmSummary>, Failure>)
        ensures
            match outcome {
                Ok(vms) => {
                    &&& final(self).warned() == old(self).warned()
                    &&& exists|sorted: Seq<VmSummary>| #[trigger]
                        sorted_from(vms@, sorted) && final(self).found() == old(self).found()
                            + sorted
                },
                Err(failure) => {
                    &&& final(self).found() == old(self).found()
                    &&& failure@.len() > 0
                    &&& final(self).warned() == old(self).warned().push(
                        target.label@ + ": "@ + failure@[0],
                    )
                },
            },
    {
        match outcome {
            Ok(vms) => {
                let mut vms = vms;
                sort_vms(&mut vms);
                let ghost sorted = vms@;
                self.vms.append(&mut vms);
                assert(self.vms@ =~= old(self).vms@ + sorted);
                assert(sorted_from(outcome->Ok_0@, sorted));
            },
            Err(failure) => {
                let reason = failure.to_string();
                let warning = concat3(target.label.as_str(), ": ", reason.as_str());
                let ghost before = texts(self.warnings@);
                let ghost text = warning@;
                self.warnings.push(warning);
                assert(texts(self.warnings@) =~= before.push(text));
            },
        }
    }

    /// What the search has found: each machine once, all in order.
    pub fn finish(self) -> (discovery: Discovery)
        ensures
            discovery.bus_label@ == scope_name(None),
            texts(discovery.warnings@) == self.warned(),
            exists|kept: Seq<VmSummary>|
                vm_views(kept) == deduplicated(vm_views(self.found())) && #[trigger] sorted_from(
                    kept,
                    discovery.vms@,
                ),
    {
        let ghost found = self.found();
        let mut vms = self.vms;
        deduplicate_vms(&mut vms);
        let ghost kept = vms@;
        assert(vm_views(kept) == deduplicated(vm_views(found)));
        sort_vms(&mut vms);
        let discovery = Discovery {
            bus_label: describe_scope(None),
            vms,
            warnings: self.warnings,
        };
        assert(sorted_from(kept, discovery.vms@));
        discovery
    }
}

proof fn last_piece_is_the_name(before: Seq<char>, name: Seq<char>, separator: char)
    requires
        !name.contains(separator),
    ensures
        ({
            let parts = pieces(before + seq![separator] + name, separator);
            parts.len() > 1 && parts.last() == name
        }),
    decreases name.len(),
{
    let text = before + seq![separator] + name;
    if name.len() == 0 {
        assert(text.drop_last() =~= before);
        assert(text.last() == separator);
        crate::text::scan::pieces_are_not_empty(before, separator);
        assert(name =~= Seq::<char>::empty());
    } else {
        let shorter = name.drop_last();
        assert forall|i: int| 0 <= i < shorter.len() implies shorter[i] != separator by {
            assert(name[i] == shorter[i]);
        }
        last_piece_is_the_name(before, shorter, separator);
        assert(text.drop_last() =~= before + seq![separator] + shorter);
        assert(text.last() == name.last());
        assert(name[name.len() - 1] != separator);
        assert(shorter.push(name.last()) =~= name);
    }
}

/// In whatever directory it lies, a file is taken for a socket exactly where its name is more than
/// the extension `.sock` and ends in it.
pub proof fn sockets_are_known_by_their_extension(
    path: &str,
    directory: Seq<char>,
    name: Seq<char>,
    socket: bool,
)
    requires
        path@ == directory + seq!['/'] + name,
        !name.contains('/'),
        name.len() > 0,
        name != seq!['.'],
        name != seq!['.', '.'],
        call_ensures(is_dbus_socket_path, (path,), socket),
    ensures
        socket <==> name.len() > 5 && name.skip(name.len() - 5) == seq!['.', 's', 'o', 'c', 'k'],
{
    reveal_strlit(".sock");
    reveal_strlit(".");
    reveal_strlit("..");
    last_piece_is_the_name(directory, name, '/');
    assert("."@ =~= seq!['.']);
    assert(".."@ =~= seq!['.', '.']);
    assert(".sock"@ =~= seq!['.', 's', 'o', 'c', 'k']);
}

/// Among the addresses is that of every socket, under its resolved path where it has one, and no
/// other; none is there twice.
pub proof fn every_socket_has_its_address(
    entries: Vec<SocketPath>,
    addresses: Vec<String>,
    at: int,
    path: &str,
    socket: bool,
)
    requires
        0 <= at < entries.len(),
        path@ == entries@[at].path@,
        call_ensures(libvirt_socket_addresses_from_paths, (&entries,), addresses),
        call_ensures(is_dbus_socket_path, (path,), socket),
    ensures
        socket ==> texts(addresses@).contains(
            "unix:path="@ + match entries@[at].resolved {
                Some(resolved) => resolved@,
                None => entries@[at].path@,
            },
        ),
        forall|i: int, j: int|
            0 <= i < j < addresses.len() ==> (#[trigger] addresses@[i])@ != (
            #[trigger] addresses@[j])@,
        forall|address: Seq<char>| #[trigger]
            texts(addresses@).contains(address) ==> exists|i: int|
                0 <= i < entries.len() && is_socket_path((#[trigger] entries@[i]).path@) && address
                    == "unix:path="@ + match entries@[i].resolved {
                    Some(resolved) => resolved@,
                    None => entries@[i].path@,
                },
{
    let list = texts(addresses@);
    if socket {
        let entry = entries@[at];
        assert(has_address(entries@, socket_address(known_path(entry))));
    }
    assert forall|i: int, j: int| 0 <= i < j < addresses.len() implies (#[trigger] addresses@[i])@
        != (#[trigger] addresses@[j])@ by {
        assert(list[i] == addresses@[i]@ && list[j] == addresses@[j]@);
        assert(text_rank(list[i], list[j]) is Before);
        crate::text::order::text_rank_same(list[i], list[j]);
    }
    assert forall|address: Seq<char>| #[trigger] list.contains(address) implies exists|i: int|
        0 <= i < entries.len() && is_socket_path((#[trigger] entries@[i]).path@) && address
            == "unix:path="@ + match entries@[i].resolved {
            Some(resolved) => resolved@,
            None => entries@[i].path@,
        } by {
        assert(has_address(entries@, address));
        let i = choose|i: int|
            0 <= i < entries@.len() && is_socket_path((#[trigger] entries@[i]).path@) && address
                == socket_address(known_path(entries@[i]));
        assert(is_socket_path(entries@[i].path@));
    }
}

/// The two entries have the same UUID, name, consoles and interfaces.
pub open spec fn alike(left: VmSummary, right: VmSummary) -> bool {
    &&& left.uuid@ == right.uuid@
    &&& left.name@ == right.name@
    &&& left.console_ids@ == right.console_ids@
    &&& texts(left.interfaces@) == texts(right.interfaces@)
}

proof fn new_machines_stay(vms: Seq<VmView>, at: int)
    requires
        0 <= at < vms.len(),
        forall|i: int| 0 <= i < at ==> !same_machine(#[trigger] vms[i], vms[at]),
    ensures
        deduplicated(vms).contains(vms[at]),
    decreases vms.len(),
{
    let fewer = vms.drop_last();
    let before = deduplicated(fewer);
    let now = deduplicated(vms);
    if at < vms.len() - 1 {
        assert forall|i: int| 0 <= i < at implies !same_machine(#[trigger] fewer[i], fewer[at]) by {
            assert(fewer[i] == vms[i]);
            assert(!same_machine(vms[i], vms[at]));
        }
        new_machines_stay(fewer, at);
        let i = choose|i: int| 0 <= i < before.len() && before[i] == fewer[at];
        assert(now[i] == vms[at]);
    } else {
        if has_machine(fewer, vms.last()) {
            let i = choose|i: int|
                0 <= i < fewer.len() && same_machine(#[trigger] fewer[i], vms.last());
            assert(same_machine(vms[i], vms[at]));
        }
        assert(now[before.len() as int] == vms[at]);
    }
}

proof fn kept_machines_were_there(vms: Seq<VmView>, vm: VmView)
    requires
        deduplicated(vms).contains(vm),
    ensures
        vms.contains(vm),
    decreases vms.len(),
{
    let now = deduplicated(vms);
    let i = choose|i: int| 0 <= i < now.len() && now[i] == vm;
    if vms.len() > 0 {
        let fewer = vms.drop_last();
        let before = deduplicated(fewer);
        if i < before.len() {
            assert(before[i] == vm);
            kept_machines_were_there(fewer, vm);
            let j = choose|j: int| 0 <= j < fewer.len() && fewer[j] == vm;
            assert(vms[j] == vm);
        } else {
            assert(vms[vms.len() - 1] == vm);
        }
    }
}

/// The first of entries that are alike stays, and so does every entry without a UUID; of the entries
/// that stay no two with a UUID are alike, and each was there before.
pub proof fn first_of_its_kind_stays(vms: &mut Vec<VmSummary>, at: int)
    requires
        0 <= at < old(vms).len(),
        call_ensures(deduplicate_vms, (vms,), ()),
    ensures
        old(vms)@[at].uuid@.len() == 0 || (forall|i: int|
            0 <= i < at ==> !alike(#[trigger] old(vms)@[i], old(vms)@[at])) ==> vm_views(
            final(vms)@,
        ).contains(old(vms)@[at]@),
        forall|i: int, j: int|
            0 <= i < j < final(vms).len() && final(vms)@[i].uuid@.len() > 0 ==> !alike(
                #[trigger] final(vms)@[i],
                #[trigger] final(vms)@[j],
            ),
        forall|vm: VmView| #[trigger]
            vm_views(final(vms)@).contains(vm) ==> vm_views(old(vms)@).contains(vm),
{
    let before = vm_views(old(vms)@);
    let after = vm_views(final(vms)@);
    assert(forall|i: int| 0 <= i < before.len() ==> before[i] == #[trigger] old(vms)@[i]@);
    assert(after.len() == final(vms).len());
    assert(forall|i: int| 0 <= i < after.len() ==> after[i] == #[trigger] final(vms)@[i]@);
    if old(vms)@[at].uuid@.len() == 0 || (forall|i: int|
        0 <= i < at ==> !alike(#[trigger] old(vms)@[i], old(vms)@[at])) {
        assert(before[at] == old(vms)@[at]@);
        assert forall|i: int| 0 <= i < at implies !same_machine(#[trigger] before[i], before[at]) by {
            assert(before[i] == old(vms)@[i]@);
            if old(vms)@[at].uuid@.len() > 0 {
                assert(!alike(old(vms)@[i], old(vms)@[at]));
            }
        }
        new_machines_stay(before, at);
    }
    assert forall|i: int, j: int|
        0 <= i < j < final(vms).len() && final(vms)@[i].uuid@.len() > 0 implies !alike(
        #[trigger] final(vms)@[i],
        #[trigger] final(vms)@[j],
    ) by {
        assert(after[i] == final(vms)@[i]@ && after[j] == final(vms)@[j]@);
        kept_machines_differ(before, i, j);
    }
    assert forall|vm: VmView| #[trigger] after.contains(vm) implies before.contains(vm) by {
        kept_machines_were_there(before, vm);
    }
}

/// Sorted machines go by name; those of the same name by UUID; and those of the same name and UUID
/// by where they were found.
pub proof fn machines_are_sorted_by_name(vms: &mut Vec<VmSummary>)
    requires
        call_ensures(sort_vms, (vms,), ()),
    ensures
        final(vms).len() == old(vms).len(),
        forall|i: int, j: int|
            0 <= i < j < final(vms).len() ==> {
                let left = #[trigger] final(vms)@[i];
                let right = #[trigger] final(vms)@[j];
                &&& !(text_rank(left.name@, right.name@) is After)
                &&& left.name@ == right.name@ ==> !(text_rank(left.uuid@, right.uuid@) is After)
                &&& left.name@ == right.name@ && left.uuid@ == right.uuid@ ==> !(text_rank(
                    left.source_label@,
                    right.source_label@,
                ) is After)
            },
{
    assert forall|i: int, j: int| 0 <= i < j < final(vms).len() implies {
        let left = #[trigger] final(vms)@[i];
        let right = #[trigger] final(vms)@[j];
        &&& !(text_rank(left.name@, right.name@) is After)
        &&& left.name@ == right.name@ ==> !(text_rank(left.uuid@, right.uuid@) is After)
        &&& left.name@ == right.name@ && left.uuid@ == right.uuid@ ==> !(text_rank(
            left.source_label@,
            right.source_label@,
        ) is After)
    } by {
        let left = final(vms)@[i];
        let right = final(vms)@[j];
        assert(!(left.rank_of(&right) is After));
        crate::text::order::text_rank_same(left.name@, right.name@);
        crate::text::order::text_rank_same(left.uuid@, right.uuid@);
    }
}

/// The session bus is searched first, and then the bus of every address, each under a name that
/// tells the address.
pub proof fn every_bus_is_searched(addresses: Vec<String>, targets: Vec<DiscoveryTarget>, at: int)
    requires
        0 <= at < addresses.len(),
        call_ensures(discovery_targets, (&addresses,), targets),
    ensures
        targets.len() == addresses.len() + 1,
        targets@[0].address is None,
        targets@[at + 1].address matches Some(address) && address@ == addresses@[at]@,
        crate::text::scan::occurs(targets@[at + 1].label@, addresses@[at]@),
{
    let target = targets@[at + 1];
    let address = addresses@[at]@;
    assert(target.is_for(Some(address)));
    reveal_strlit("D-Bus at `");
    reveal_strlit("`");
    assert(target.label@.subrange(10, 10int + address.len()) =~= address);
    assert(crate::text::scan::occurs_at(target.label@, address, 10));
}

/// A failed connection tells the address, and speaks of permission exactly where that was among the
/// causes.
pub proof fn failures_tell_the_address(
    address: &str,
    causes: Vec<CauseKind>,
    reported: Failure,
    failure: Failure,
    denied: bool,
)
    requires
        call_ensures(explain_address_connect_error, (address, &causes, reported), failure),
        call_ensures(caused_by_permission_denied, (&causes,), denied),
    ensures
        failure@.len() == reported@.len() + 1,
        failure@.skip(1) == reported@,
        crate::text::scan::occurs(failure@[0], address@),
        denied <==> exists|i: int| 0 <= i < causes.len() && #[trigger] causes@[i] is PermissionDenied,
        !denied ==> failure@[0].len() == 37 + address@.len(),
        denied ==> failure@[0].len() > 37 + address@.len(),
{
    reveal_strlit("failed to connect to D-Bus address `");
    reveal_strlit("`");
    reveal_strlit("\nPermission denied opening `");
    reveal_strlit("\nPermission denied while opening the configured D-Bus address.");
    let message = failure@[0];
    assert(message.subrange(36, 36int + address@.len()) =~= address@);
    assert(crate::text::scan::occurs_at(message, address@, 36));
    assert(failure@.skip(1) =~= reported@);
}

/// A path without directories is taken for a socket by the same rule.
pub proof fn bare_sockets_are_known_by_their_extension(path: &str, socket: bool)
    requires
        !path@.contains('/'),
        path@.len() > 0,
        path@ != seq!['.'],
        path@ != seq!['.', '.'],
        call_ensures(is_dbus_socket_path, (path,), socket),
    ensures
        socket <==> path@.len() > 5 && path@.skip(path@.len() - 5) == seq![
            '.',
            's',
            'o',
            'c',
            'k',
        ],
{
    reveal_strlit(".sock");
    reveal_strlit(".");
    reveal_strlit("..");
    crate::text::scan::unbroken_text_is_one_piece(path@, '/');
    assert("."@ =~= seq!['.']);
    assert(".."@ =~= seq!['.', '.']);
    assert(".sock"@ =~= seq!['.', 's', 'o', 'c', 'k']);
    reveal_with_fuel(meaningful, 2);
}

/// The search gives back what the buses gave: every machine of the result was found, each that was
/// found is there or another that is alike, and no two with a UUID are alike.
pub proof fn searches_lose_no_machine(search: AutoDiscovery, discovery: Discovery, at: int)
    requires
        0 <= at < search.found().len(),
        call_ensures(AutoDiscovery::finish, (search,), discovery),
    ensures
        search.found()[at].uuid@.len() == 0 || (forall|i: int|
            0 <= i < at ==> !alike(#[trigger] search.found()[i], search.found()[at])) ==> vm_views(
            discovery.vms@,
        ).contains(search.found()[at]@),
        texts(discovery.warnings@) == search.warned(),
{
    let found = vm_views(search.found());
    let kept = choose|kept: Seq<VmSummary>|
        vm_views(kept) == deduplicated(found) && #[trigger] sorted_from(kept, discovery.vms@);
    assert(forall|i: int| 0 <= i < found.len() ==> found[i] == #[trigger] search.found()[i]@);
    if search.found()[at].uuid@.len() == 0 || (forall|i: int|
        0 <= i < at ==> !alike(#[trigger] search.found()[i], search.found()[at])) {
        assert(found[at] == search.found()[at]@);
        assert forall|i: int| 0 <= i < at implies !same_machine(#[trigger] found[i], found[at]) by {
            assert(found[i] == search.found()[i]@);
            if search.found()[at].uuid@.len() > 0 {
                assert(!alike(search.found()[i], search.found()[at]));
            }
        }
        new_machines_stay(found, at);
        let views = vm_views(kept);
        let i = choose|i: int| 0 <= i < views.len() && views[i] == found[at];
        assert(views[i] == kept[i]@);
        crate::text::sort::items_are_their_own_peers(kept, i);
        crate::text::sort::peers_are_items(discovery.vms@, kept[i], kept[i]);
        let sorted = discovery.vms@;
        let j = choose|j: int| 0 <= j < sorted.len() && sorted[j] == kept[i];
        assert(vm_views(sorted)[j] == found[at]);
    }
}

/// What one bus gives is added to what the buses before it gave: its machines, or a warning that
/// names it.
pub proof fn buses_add_to_the_search(
    search: &mut AutoDiscovery,
    target: DiscoveryTarget,
    outcome: Result<Vec<VmSummary>, Failure>,
)
    requires
        call_ensures(AutoDiscovery::record, (search, &target, outcome), ()),
    ensures
        outcome is Err ==> final(search).found() == old(search).found() && final(
            search).warned().len() == old(search).warned().len() + 1 && crate::text::scan::occurs(
            final(search).warned()[old(search).warned().len() as int],
            target.label@,
        ),
        outcome matches Ok(vms) ==> {
            &&& final(search).warned() == old(search).warned()
            &&& final(search).found().len() == old(search).found().len() + vms.len()
            &&& forall|i: int|
                0 <= i < old(search).found().len() ==> #[trigger] final(search).found()[i] == old(
                    search,
                ).found()[i]
        },
{
    if outcome is Err {
        let warning = final(search).warned()[old(search).warned().len() as int];
        let label = target.label@;
        assert(warning.subrange(0, label.len() as int) =~= label);
        assert(crate::text::scan::occurs_at(warning, label, 0));
    }
}

/// A search at an address goes by the name of the bus there, which tells the address; a search
/// without one goes by another name than the session bus alone.
pub proof fn searches_go_by_their_scope(
    address: Option<&str>,
    bus: String,
    scope: String,
)
    requires
        call_ensures(describe_bus, (address,), bus),
        call_ensures(describe_scope, (address,), scope),
    ensures
        address matches Some(text) ==> scope@ == bus@ && crate::text::scan::occurs(bus@, text@),
        address is None ==> bus@ == "session bus"@ && scope@.len() > bus@.len() && scope@.take(
            bus@.len() as int,
        ) == bus@,
{
    reveal_strlit("D-Bus at `");
    reveal_strlit("session bus");
    reveal_strlit("session bus and detected libvirt D-Bus sockets");
    if address is Some {
        let text = address->0@;
        assert(bus@.subrange(10, 10int + text.len()) =~= text);
        assert(crate::text::scan::occurs_at(bus@, text, 10));
    } else {
        assert(scope@.take(11) =~= bus@);
    }
}

}
