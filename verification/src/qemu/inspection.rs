//! Putting together what is known of one virtual machine.

use vstd::prelude::*;

use super::selection::console_selection;
use super::selection::select_console;
use super::types::chardev_views;
use super::types::console_views;
use super::types::ChardevSummary;
use super::types::ConnectTarget;
use super::types::ConsoleSummary;
use super::types::ConsoleView;
use super::types::InspectionReport;
use super::types::InspectionView;
use super::types::TargetView;
use super::types::VmSummary;
use super::warnings::suggested;
use super::warnings::suggested_warnings;
use crate::error::Failure;
use crate::text::clone_opt_string;
use crate::text::clone_strings;
use crate::text::concat2;
use crate::text::concat4;
use crate::text::number::decimal;
use crate::text::number::decimal_reads_back;
use crate::text::number::decimal_value;
use crate::text::number::to_decimal;
use crate::text::opt_string;
use crate::text::same_text;
use crate::text::sort::sort_ranked;
use crate::text::sort::sorted_from;
use crate::text::texts;

verus! {

/// A path that D-Bus accepts: slashes before each element, and elements of ASCII letters, digits
/// and underscores; or a slash alone.
pub open spec fn is_object_path(path: Seq<char>) -> bool {
    &&& path.len() > 0
    &&& path[0] == '/'
    &&& path.len() > 1 ==> path.last() != '/'
    &&& forall|i: int|
        0 <= i < path.len() - 1 && path[i] == '/' ==> #[trigger] path[i + 1] != '/'
    &&& forall|i: int|
        0 <= i < path.len() ==> ({
            let c = #[trigger] path[i];
            c == '/' || c == '_' || 'a' <= c <= 'z' || 'A' <= c <= 'Z' || '0' <= c <= '9'
        })
}

/// `zbus::zvariant::ObjectPath::try_from` on a string: it succeeds exactly on the paths that D-Bus
/// accepts.
#[verifier::external_body]
fn object_path_is_valid(path: &str) -> (valid: bool)
    ensures
        valid == is_object_path(path@),
{
    zbus::zvariant::ObjectPath::try_from(path).is_ok()
}

/// The path of a console.
pub open spec fn console_path(console_id: u32) -> Seq<char> {
    "/org/qemu/Display1/Console_"@ + decimal(console_id as nat)
}

/// The path of a console.
pub fn console_object_path(console_id: u32) -> (path: String)
    ensures
        path@ == console_path(console_id),
{
    let id = to_decimal(console_id as u64);
    concat2("/org/qemu/Display1/Console_", id.as_str())
}

/// Every console has a path that D-Bus accepts.
pub proof fn console_paths_are_valid(console_id: u32)
    ensures
        is_object_path(console_path(console_id)),
{
    crate::text::number::decimal_reads_back(console_id as nat);
    reveal_strlit("/org/qemu/Display1/Console_");
    let path = console_path(console_id);
    let head = "/org/qemu/Display1/Console_"@;
    assert(path[0] == '/');
    assert forall|i: int| 0 <= i < path.len() implies ({
        let c = #[trigger] path[i];
        c == '/' || c == '_' || 'a' <= c <= 'z' || 'A' <= c <= 'Z' || '0' <= c <= '9'
    }) by {
        if i >= head.len() {
            assert(path[i] == decimal(console_id as nat)[i - head.len()]);
        }
    }
    assert forall|i: int| 0 <= i < path.len() - 1 && path[i] == '/' implies #[trigger] path[i + 1]
        != '/' by {
        if i + 1 >= head.len() {
            assert(path[i + 1] == decimal(console_id as nat)[i + 1 - head.len()]);
        }
    }
    assert(path.last() == decimal(console_id as nat).last());
}

/// An object that the machine exports, with the interfaces it has.
#[derive(Debug)]
pub struct ManagedObject {
    pub path: String,
    pub interfaces: Vec<String>,
}

/// The interfaces of the first object with a path, from the `from`-th on.
pub open spec fn interfaces_at(objects: Seq<ManagedObject>, path: Seq<char>, from: int) -> Seq<
    Seq<char>,
>
    decreases objects.len() - from,
{
    if from >= objects.len() {
        Seq::empty()
    } else if objects[from].path@ == path {
        texts(objects[from].interfaces@)
    } else {
        interfaces_at(objects, path, from + 1)
    }
}

/// The interfaces of a console; none where it is not exported.
pub fn interfaces_for_console(objects: &Vec<ManagedObject>, console_id: u32) -> (result: Result<
    Vec<String>,
    Failure,
>)
    ensures
        result matches Ok(interfaces) && texts(interfaces@) == interfaces_at(
            objects@,
            console_path(console_id),
            0,
        ),
{
    let path = console_object_path(console_id);
    proof {
        console_paths_are_valid(console_id);
    }
    if !object_path_is_valid(path.as_str()) {
        return Err(Failure::of("invalid object path"));
    }
    for i in 0..objects.len()
        invariant
            path@ == console_path(console_id),
            interfaces_at(objects@, path@, 0) == interfaces_at(objects@, path@, i as int),
    {
        if same_text(objects[i].path.as_str(), path.as_str()) {
            return Ok(clone_strings(&objects[i].interfaces));
        }
    }
    let none: Vec<String> = Vec::new();
    assert(texts(none@) =~= Seq::<Seq<char>>::empty());
    Ok(none)
}

/// What a console says of itself.
#[derive(Debug)]
pub struct ConsoleFacts {
    pub label: String,
    pub head: u32,
    pub kind: String,
    pub width: u32,
    pub height: u32,
}

/// A console with its interfaces in order.
pub fn console_summary(id: u32, facts: ConsoleFacts, interfaces: Vec<String>) -> (console:
    ConsoleSummary)
    ensures
        console.id == id,
        console.label@ == facts.label@,
        console.head == facts.head,
        console.kind@ == facts.kind@,
        console.width == facts.width,
        console.height == facts.height,
        sorted_from(interfaces@, console.interfaces@),
{
    let mut interfaces = interfaces;
    sort_ranked(&mut interfaces);
    ConsoleSummary {
        id,
        label: facts.label,
        head: facts.head,
        kind: facts.kind,
        width: facts.width,
        height: facts.height,
        interfaces,
    }
}

/// The report on a machine: its devices in order, and behind the warnings of the search those that
/// the machine itself gives rise to.
pub fn inspection_report(
    vm: VmSummary,
    has_audio: bool,
    has_clipboard: bool,
    consoles: Vec<ConsoleSummary>,
    chardevs: Vec<ChardevSummary>,
    warnings: Vec<String>,
) -> (report: InspectionReport)
    ensures
        report.bus_label@ == vm.source_label@,
        report.vm@ == vm@,
        report.has_audio == has_audio,
        report.has_clipboard == has_clipboard,
        console_views(report.consoles@) == console_views(consoles@),
        sorted_from(chardevs@, report.chardevs@),
        texts(report.warnings@) == texts(warnings@) + suggested(
            has_audio,
            has_clipboard,
            chardev_views(report.chardevs@),
        ),
{
    let mut chardevs = chardevs;
    sort_ranked(&mut chardevs);
    let mut all = warnings;
    let mut more = suggested_warnings(has_audio, has_clipboard, &chardevs);
    let ghost before = all@;
    let ghost extra = more@;
    all.append(&mut more);
    assert(texts(all@) =~= texts(before) + texts(extra));
    InspectionReport {
        bus_label: vm.source_label.clone(),
        vm,
        has_audio,
        has_clipboard,
        consoles,
        chardevs,
        warnings: all,
    }
}

/// The target for a console of an inspected machine.
pub open spec fn target_for(report: InspectionView, console: ConsoleView) -> TargetView {
    TargetView {
        source_address: report.vm.source_address,
        owner: report.vm.owner,
        vm_name: report.vm.name,
        vm_uuid: report.vm.uuid,
        console_id: console.id,
        width: console.width,
        height: console.height,
        console_interfaces: console.interfaces,
        warnings: report.warnings,
    }
}

/// The target for the chosen console of an inspected machine.
pub fn connect_target(report: InspectionReport, console_id: Option<u32>) -> (result: Result<
    ConnectTarget,
    Failure,
>)
    ensures
        match (result, console_selection(report@, console_id)) {
            (Ok(target), Ok(console)) => target@ == target_for(report@, console),
            (Err(failure), Err(message)) => failure@ == seq![message],
            _ => false,
        },
{
    match select_console(&report, console_id) {
        Err(failure) => Err(failure),
        Ok(console) => {
            let target = ConnectTarget {
                source_address: clone_opt_string(&report.vm.source_address),
                owner: report.vm.owner.clone(),
                vm_name: report.vm.name.clone(),
                vm_uuid: report.vm.uuid.clone(),
                console_id: console.id,
                width: console.width,
                height: console.height,
                console_interfaces: clone_strings(&console.interfaces),
                warnings: report.warnings,
            };
            assert(target@ =~= target_for(report@, console@));
            Ok(target)
        },
    }
}

/// Why the display of a machine could not be reached, on top of the cause.
pub fn display_failure(vm: &VmSummary, cause: Failure) -> (failure: Failure)
    ensures
        failure@ == seq![
            "failed to connect to QEMU display owner "@ + vm.owner@ + " on "@ + vm.source_label@,
        ] + cause@,
{
    cause.context(
        concat4(
            "failed to connect to QEMU display owner ",
            vm.owner.as_str(),
            " on ",
            vm.source_label.as_str(),
        ),
    )
}

/// Why a console could not be opened, on top of the cause.
pub fn console_failure(id: u32, owner: &str, cause: Failure) -> (failure: Failure)
    ensures
        failure@ == seq!["failed to open console "@ + decimal(id as nat) + " on "@ + owner@]
            + cause@,
{
    let number = to_decimal(id as u64);
    cause.context(concat4("failed to open console ", number.as_str(), " on ", owner))
}

/// The trace line for an inspection.
pub fn inspection_trace(vm: &VmSummary) -> (text: String)
    ensures
        text@ == "inspecting VM `"@ + vm.name@ + "` on "@ + vm.source_label@,
{
    concat4("inspecting VM `", vm.name.as_str(), "` on ", vm.source_label.as_str())
}

/// Different consoles have different paths, and what follows the last underscore of a path reads
/// back as the console's number.
pub proof fn console_paths_tell_consoles_apart(console_id: u32, path: String)
    requires
        call_ensures(console_object_path, (console_id,), path),
    ensures
        path@.len() > 27,
        path@.take(27) == "/org/qemu/Display1/Console_"@,
        decimal_value(path@.skip(27)) == console_id,
{
    reveal_strlit("/org/qemu/Display1/Console_");
    decimal_reads_back(console_id as nat);
    assert(path@.take(27) =~= "/org/qemu/Display1/Console_"@);
    assert(path@.skip(27) =~= decimal(console_id as nat));
}

/// The interfaces of a console are those of the first object with its path, as they are listed
/// there; a console that is not exported has none.
pub proof fn interfaces_are_those_of_the_object(
    objects: Vec<ManagedObject>,
    console_id: u32,
    result: Result<Vec<String>, Failure>,
    path: String,
    at: int,
)
    requires
        call_ensures(interfaces_for_console, (&objects, console_id), result),
        call_ensures(console_object_path, (console_id,), path),
        0 <= at <= objects.len(),
        forall|i: int| 0 <= i < at ==> (#[trigger] objects@[i]).path@ != path@,
    ensures
        result is Ok,
        at == objects.len() ==> result->Ok_0.len() == 0,
        at < objects.len() && objects@[at].path@ == path@ ==> texts(result->Ok_0@) == texts(
            objects@[at].interfaces@,
        ),
{
    first_object_counts(objects@, path@, 0, at);
    assert(texts(result->Ok_0@).len() == result->Ok_0.len());
}

proof fn first_object_counts(objects: Seq<ManagedObject>, path: Seq<char>, from: int, at: int)
    requires
        0 <= from <= at <= objects.len(),
        forall|i: int| 0 <= i < at ==> (#[trigger] objects[i]).path@ != path,
    ensures
        interfaces_at(objects, path, from) == interfaces_at(objects, path, at),
    decreases at - from,
{
    if from < at {
        assert(objects[from].path@ != path);
        first_object_counts(objects, path, from + 1, at);
    }
}

/// A target leads to the machine and the console that were inspected: it has the machine's bus,
/// owner, name and UUID, and the number, size and interfaces of one of its consoles, the one with
/// the number that was asked for.
pub proof fn targets_lead_to_the_inspected_console(
    report: InspectionReport,
    console_id: Option<u32>,
    result: Result<ConnectTarget, Failure>,
    at: int,
)
    requires
        0 <= at < report.consoles.len(),
        console_id is None ==> at == 0,
        console_id matches Some(id) ==> report.consoles@[at].id == id,
        forall|i: int|
            0 <= i < at ==> (#[trigger] report.consoles@[i]).id != report.consoles@[at].id,
        call_ensures(connect_target, (report, console_id), result),
    ensures
        result matches Ok(target) && {
            let console = report.consoles@[at];
            &&& opt_string(target.source_address) == opt_string(report.vm.source_address)
            &&& target.owner@ == report.vm.owner@
            &&& target.vm_name@ == report.vm.name@
            &&& target.vm_uuid@ == report.vm.uuid@
            &&& target.console_id == console.id
            &&& target.width == console.width
            &&& target.height == console.height
            &&& texts(target.console_interfaces@) == texts(console.interfaces@)
            &&& texts(target.warnings@) == texts(report.warnings@)
        },
{
    let consoles = console_views(report.consoles@);
    assert(forall|i: int| 0 <= i < consoles.len() ==> consoles[i] == #[trigger] report.consoles@[i]@);
    if console_id is Some {
        assert forall|i: int| 0 <= i < at implies (#[trigger] consoles[i]).id != consoles[at].id by {
            assert(report.consoles@[i].id != report.consoles@[at].id);
        }
        first_console_counts(consoles, console_id->0, 0, at);
    }
    assert(report@.consoles == consoles);
}

proof fn first_console_counts(consoles: Seq<ConsoleView>, id: u32, from: int, at: int)
    requires
        0 <= from <= at < consoles.len(),
        consoles[at].id == id,
        forall|i: int| 0 <= i < at ==> (#[trigger] consoles[i]).id != id,
    ensures
        super::selection::first_console(consoles, id, from) == Some(consoles[at]),
    decreases at - from,
{
    if from < at {
        first_console_counts(consoles, id, from + 1, at);
    }
}

}
