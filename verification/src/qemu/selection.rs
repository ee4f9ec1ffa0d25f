//! Choosing one virtual machine and one of its consoles.

use vstd::prelude::*;

use super::types::console_views;
use super::types::vm_views;
use super::types::ConsoleSummary;
use super::types::ConsoleView;
use super::types::Discovery;
use super::types::DiscoveryView;
use super::types::InspectionReport;
use super::types::InspectionView;
use super::types::VmSummary;
use super::types::VmView;
use crate::error::Failure;
use crate::text::concat3;
use crate::text::concat4;
use crate::text::concat5;
use crate::text::concat6;
use crate::text::concat8;
use crate::text::join;
use crate::text::joined;
use crate::text::number::decimal;
use crate::text::number::to_decimal;
use crate::text::opt_text;
use crate::text::same_text;
use crate::text::scan::occurs;
use crate::text::scan::occurs_at;
use crate::text::texts;

verus! {

/// The line that offers a machine.
pub open spec fn vm_choice(vm: VmView) -> Seq<char> {
    "- "@ + vm.name + " | "@ + vm.uuid + " | "@ + vm.owner + " | "@ + vm.source_label
}

/// One line for each machine.
pub open spec fn vm_choices(vms: Seq<VmView>) -> Seq<char> {
    joined(vms.map_values(|vm: VmView| vm_choice(vm)), "\n"@)
}

/// The line that offers a console.
pub open spec fn console_choice(console: ConsoleView) -> Seq<char> {
    "- "@ + decimal(console.id as nat) + " | "@ + console.label + " | "@ + decimal(
        console.width as nat,
    ) + "x"@ + decimal(console.height as nat)
}

/// One line for each console.
pub open spec fn console_choices(consoles: Seq<ConsoleView>) -> Seq<char> {
    joined(consoles.map_values(|console: ConsoleView| console_choice(console)), "\n"@)
}

/// The warnings of a search that found nothing.
pub open spec fn scan_warnings(warnings: Seq<Seq<char>>) -> Seq<char> {
    if warnings.len() == 0 {
        Seq::empty()
    } else {
        "\nScan warnings:\n"@ + joined(warnings, "\n"@)
    }
}

/// The selector names the machine, by its name, its UUID or its owner.
pub open spec fn selects(selector: Seq<char>, vm: VmView) -> bool {
    vm.name == selector || vm.uuid == selector || vm.owner == selector
}

/// The machines that a selector names, in order.
pub open spec fn selected(vms: Seq<VmView>, selector: Seq<char>) -> Seq<VmView>
    decreases vms.len(),
{
    if vms.len() == 0 {
        Seq::empty()
    } else {
        let before = selected(vms.drop_last(), selector);
        if selects(selector, vms.last()) {
            before.push(vms.last())
        } else {
            before
        }
    }
}

/// The machine that a selector picks; without one, the only machine there is.
pub open spec fn vm_selection(discovery: DiscoveryView, selector: Option<Seq<char>>) -> Result<
    VmView,
    Seq<char>,
> {
    if discovery.vms.len() == 0 {
        Err(
            "no QEMU D-Bus VMs found on the "@ + discovery.bus_label + scan_warnings(
                discovery.warnings,
            ),
        )
    } else {
        match selector {
            None => if discovery.vms.len() == 1 {
                Ok(discovery.vms[0])
            } else {
                Err(
                    "multiple QEMU D-Bus VMs are visible on the "@ + discovery.bus_label
                        + ". Re-run with `--vm <NAME|UUID|OWNER>`.\nAvailable VMs:\n"@
                        + vm_choices(discovery.vms),
                )
            },
            Some(text) => {
                let matches = selected(discovery.vms, text);
                if matches.len() == 0 {
                    Err(
                        "no QEMU D-Bus VM matched `"@ + text + "` on the "@ + discovery.bus_label
                            + ".\nAvailable VMs:\n"@ + vm_choices(discovery.vms),
                    )
                } else if matches.len() == 1 {
                    Ok(matches[0])
                } else {
                    Err(
                        "the selector `"@ + text + "` matched multiple VMs on the "@
                            + discovery.bus_label + ".\nAvailable matches:\n"@ + vm_choices(
                            matches,
                        ),
                    )
                }
            },
        }
    }
}

fn format_vm_choices(vms: &Vec<VmSummary>) -> (text: String)
    ensures
        text@ == vm_choices(vm_views(vms@)),
{
    let ghost lines_wanted = vm_views(vms@).map_values(|vm: VmView| vm_choice(vm));
    let mut lines: Vec<String> = Vec::new();
    for i in 0..vms.len()
        invariant
            lines_wanted == vm_views(vms@).map_values(|vm: VmView| vm_choice(vm)),
            texts(lines@) == lines_wanted.take(i as int),
    {
        let vm = &vms[i];
        let line = concat8(
            "- ",
            vm.name.as_str(),
            " | ",
            vm.uuid.as_str(),
            " | ",
            vm.owner.as_str(),
            " | ",
            vm.source_label.as_str(),
        );
        let ghost before = texts(lines@);
        assert(lines_wanted[i as int] == line@);
        lines.push(line);
        assert(texts(lines@) =~= before.push(lines_wanted[i as int]));
    }
    assert(texts(lines@) =~= lines_wanted);
    join(&lines, "\n")
}

fn format_console_choices(consoles: &Vec<ConsoleSummary>) -> (text: String)
    ensures
        text@ == console_choices(console_views(consoles@)),
{
    let ghost lines_wanted = console_views(consoles@).map_values(
        |console: ConsoleView| console_choice(console),
    );
    let mut lines: Vec<String> = Vec::new();
    for i in 0..consoles.len()
        invariant
            lines_wanted == console_views(consoles@).map_values(
                |console: ConsoleView| console_choice(console),
            ),
            texts(lines@) == lines_wanted.take(i as int),
    {
        let console = &consoles[i];
        let id = to_decimal(console.id as u64);
        let width = to_decimal(console.width as u64);
        let height = to_decimal(console.height as u64);
        let line = concat8(
            "- ",
            id.as_str(),
            " | ",
            console.label.as_str(),
            " | ",
            width.as_str(),
            "x",
            height.as_str(),
        );
        let ghost before = texts(lines@);
        assert(lines_wanted[i as int] == line@);
        lines.push(line);
        assert(texts(lines@) =~= before.push(lines_wanted[i as int]));
    }
    assert(texts(lines@) =~= lines_wanted);
    join(&lines, "\n")
}

fn format_scan_warnings(warnings: &Vec<String>) -> (text: String)
    ensures
        text@ == scan_warnings(texts(warnings@)),
{
    if warnings.len() == 0 {
        String::new()
    } else {
        let list = join(warnings, "\n");
        crate::text::concat2("\nScan warnings:\n", list.as_str())
    }
}

fn matching(vms: &Vec<VmSummary>, selector: &str) -> (matches: Vec<VmSummary>)
    ensures
        vm_views(matches@) == selected(vm_views(vms@), selector@),
{
    let ghost views = vm_views(vms@);
    let mut matches: Vec<VmSummary> = Vec::new();
    assert(views.take(0) =~= Seq::<VmView>::empty());
    assert(vm_views(matches@) =~= Seq::<VmView>::empty());
    for i in 0..vms.len()
        invariant
            views == vm_views(vms@),
            vm_views(matches@) == selected(views.take(i as int), selector@),
    {
        let vm = &vms[i];
        let ghost before = vm_views(matches@);
        proof {
            assert(views.take(i + 1).drop_last() =~= views.take(i as int));
            assert(views.take(i + 1).last() == vm@);
        }
        if same_text(vm.name.as_str(), selector) || same_text(vm.uuid.as_str(), selector)
            || same_text(vm.owner.as_str(), selector) {
            matches.push(vm.clone());
            assert(vm_views(matches@) =~= before.push(vm@));
        }
    }
    assert(views.take(views.len() as int) =~= views);
    matches
}

/// The machine that a selector picks; without one, the only machine there is.
pub fn select_vm(discovery: &Discovery, selector: Option<&str>) -> (result: Result<
    VmSummary,
    Failure,
>)
    ensures
        match (result, vm_selection(discovery@, opt_text(selector))) {
            (Ok(vm), Ok(expected)) => vm@ == expected,
            (Err(failure), Err(message)) => failure@ == seq![message],
            _ => false,
        },
{
    let ghost views = vm_views(discovery.vms@);
    if discovery.vms.len() == 0 {
        let warnings = format_scan_warnings(&discovery.warnings);
        return Err(
            Failure::new(
                concat3(
                    "no QEMU D-Bus VMs found on the ",
                    discovery.bus_label.as_str(),
                    warnings.as_str(),
                ),
            ),
        );
    }
    let selector = match selector {
        Some(selector) => selector,
        None => {
            if discovery.vms.len() == 1 {
                assert(views[0] == discovery.vms@[0]@);
                return Ok(discovery.vms[0].clone());
            }
            let choices = format_vm_choices(&discovery.vms);
            return Err(
                Failure::new(
                    concat4(
                        "multiple QEMU D-Bus VMs are visible on the ",
                        discovery.bus_label.as_str(),
                        ". Re-run with `--vm <NAME|UUID|OWNER>`.\nAvailable VMs:\n",
                        choices.as_str(),
                    ),
                ),
            );
        },
    };
    let matches = matching(&discovery.vms, selector);
    if matches.len() == 0 {
        let choices = format_vm_choices(&discovery.vms);
        Err(
            Failure::new(
                concat6(
                    "no QEMU D-Bus VM matched `",
                    selector,
                    "` on the ",
                    discovery.bus_label.as_str(),
                    ".\nAvailable VMs:\n",
                    choices.as_str(),
                ),
            ),
        )
    } else if matches.len() == 1 {
        assert(vm_views(matches@)[0] == matches@[0]@);
        Ok(matches[0].clone())
    } else {
        let choices = format_vm_choices(&matches);
        Err(
            Failure::new(
                concat6(
                    "the selector `",
                    selector,
                    "` matched multiple VMs on the ",
                    discovery.bus_label.as_str(),
                    ".\nAvailable matches:\n",
                    choices.as_str(),
                ),
            ),
        )
    }
}

/// The first console with an id, from the `from`-th on.
pub open spec fn first_console(consoles: Seq<ConsoleView>, id: u32, from: int) -> Option<
    ConsoleView,
>
    decreases consoles.len() - from,
{
    if from >= consoles.len() {
        None
    } else if consoles[from].id == id {
        Some(consoles[from])
    } else {
        first_console(consoles, id, from + 1)
    }
}

/// The console with an id; without one, the first console.
pub open spec fn console_selection(report: InspectionView, console_id: Option<u32>) -> Result<
    ConsoleView,
    Seq<char>,
> {
    if report.consoles.len() == 0 {
        Err(
            "the VM `"@ + report.vm.name + "` on "@ + report.bus_label
                + " does not report any display consoles"@,
        )
    } else {
        match console_id {
            None => Ok(report.consoles[0]),
            Some(id) => match first_console(report.consoles, id, 0) {
                Some(console) => Ok(console),
                None => Err(
                    "console "@ + decimal(id as nat) + " was not found on VM `"@ + report.vm.name
                        + "`.\nAvailable consoles:\n"@ + console_choices(report.consoles),
                ),
            },
        }
    }
}

/// The console with an id; without one, the first console.
pub fn select_console(report: &InspectionReport, console_id: Option<u32>) -> (result: Result<
    ConsoleSummary,
    Failure,
>)
    ensures
        match (result, console_selection(report@, console_id)) {
            (Ok(console), Ok(expected)) => console@ == expected,
            (Err(failure), Err(message)) => failure@ == seq![message],
            _ => false,
        },
{
    let ghost views = console_views(report.consoles@);
    if report.consoles.len() == 0 {
        return Err(
            Failure::new(
                concat5(
                    "the VM `",
                    report.vm.name.as_str(),
                    "` on ",
                    report.bus_label.as_str(),
                    " does not report any display consoles",
                ),
            ),
        );
    }
    let id = match console_id {
        Some(id) => id,
        None => {
            assert(views[0] == report.consoles@[0]@);
            return Ok(report.consoles[0].clone());
        },
    };
    for i in 0..report.consoles.len()
        invariant
            views == console_views(report.consoles@),
            views == report@.consoles,
            console_id == Some(id),
            report.consoles.len() > 0,
            first_console(views, id, 0) == first_console(views, id, i as int),
    {
        assert(views[i as int] == report.consoles@[i as int]@);
        if report.consoles[i].id == id {
            return Ok(report.consoles[i].clone());
        }
    }
    let choices = format_console_choices(&report.consoles);
    let wanted = to_decimal(id as u64);
    Err(
        Failure::new(
            concat6(
                "console ",
                wanted.as_str(),
                " was not found on VM `",
                report.vm.name.as_str(),
                "`.\nAvailable consoles:\n",
                choices.as_str(),
            ),
        ),
    )
}

proof fn selected_are_selected(vms: Seq<VmView>, selector: Seq<char>)
    ensures
        forall|i: int|
            0 <= i < selected(vms, selector).len() ==> selects(
                selector,
                #[trigger] selected(vms, selector)[i],
            ) && vms.contains(selected(vms, selector)[i]),
        forall|j: int|
            0 <= j < vms.len() && selects(selector, #[trigger] vms[j]) ==> selected(
                vms,
                selector,
            ).contains(vms[j]),
    decreases vms.len(),
{
    if vms.len() > 0 {
        let shorter = vms.drop_last();
        selected_are_selected(shorter, selector);
        let all = selected(vms, selector);
        let before = selected(shorter, selector);
        assert forall|i: int| 0 <= i < all.len() implies selects(selector, #[trigger] all[i])
            && vms.contains(all[i]) by {
            if i < before.len() {
                assert(all[i] == before[i]);
                let k = choose|k: int| 0 <= k < shorter.len() && shorter[k] == before[i];
                assert(vms[k] == all[i]);
            } else {
                assert(vms[vms.len() - 1] == all[i]);
            }
        }
        assert forall|j: int| 0 <= j < vms.len() && selects(selector, #[trigger] vms[j]) implies
            all.contains(vms[j]) by {
            if j < shorter.len() {
                assert(shorter[j] == vms[j]);
                let k = choose|k: int| 0 <= k < before.len() && before[k] == vms[j];
                assert(all[k] == vms[j]);
            } else {
                assert(all[all.len() - 1] == vms[j]);
            }
        }
    }
}

/// A machine that a selector picks is one that was found and that the selector names, and no other
/// machine is named by it.
pub proof fn picked_machine_is_the_one_named(
    discovery: DiscoveryView,
    selector: Seq<char>,
    other: VmView,
)
    requires
        discovery.vms.contains(other),
        selects(selector, other),
    ensures
        vm_selection(discovery, Some(selector)) matches Ok(vm) ==> {
            &&& discovery.vms.contains(vm)
            &&& selects(selector, vm)
            &&& other == vm
        },
{
    let matches = selected(discovery.vms, selector);
    selected_are_selected(discovery.vms, selector);
    let j = choose|j: int| 0 <= j < discovery.vms.len() && discovery.vms[j] == other;
    assert(selects(selector, discovery.vms[j]));
    if matches.len() == 1 {
        assert(selects(selector, matches[0]) && discovery.vms.contains(matches[0]));
        let k = choose|k: int| 0 <= k < matches.len() && matches[k] == other;
        assert(k == 0);
    }
}

/// What `connect` does when no machine was named.
#[derive(Debug)]
pub enum ConnectChoice {
    /// Resolve the target with this selector.
    Resolve(Option<String>),
    /// Let the user pick a machine.
    Ask,
}

/// How the machine to connect to is picked: the one that was named, the only one there is, or one
/// that the user picks. `vms` are the machines found where none was named.
pub fn connect_choice(named: Option<&str>, vms: &Vec<VmSummary>) -> (choice: ConnectChoice)
    ensures
        match named {
            Some(selector) => choice matches ConnectChoice::Resolve(Some(text)) && text@
                == selector@,
            None => if vms.len() == 0 {
                choice == ConnectChoice::Resolve(None)
            } else if vms.len() == 1 {
                choice matches ConnectChoice::Resolve(Some(text)) && text@ == vms@[0].uuid@
            } else {
                choice is Ask
            },
        },
{
    match named {
        Some(selector) => ConnectChoice::Resolve(Some(selector.to_owned())),
        None => if vms.len() == 0 {
            ConnectChoice::Resolve(None)
        } else if vms.len() == 1 {
            ConnectChoice::Resolve(Some(vms[0].uuid.clone()))
        } else {
            ConnectChoice::Ask
        },
    }
}

/// The selector is the machine's name, its UUID or its owner.
pub open spec fn names(selector: Seq<char>, vm: VmSummary) -> bool {
    ||| vm.name@ == selector
    ||| vm.uuid@ == selector
    ||| vm.owner@ == selector
}

proof fn selected_one_at_a_time(vms: Seq<VmView>, selector: Seq<char>)
    ensures
        selected(vms, selector).len() == 0 <==> forall|i: int|
            0 <= i < vms.len() ==> !selects(selector, #[trigger] vms[i]),
        selected(vms, selector).len() == 1 ==> exists|i: int|
            0 <= i < vms.len() && selected(vms, selector)[0] == #[trigger] vms[i] && selects(
                selector,
                vms[i],
            ) && forall|j: int|
                0 <= j < vms.len() && j != i ==> !selects(selector, #[trigger] vms[j]),
        selected(vms, selector).len() > 1 ==> exists|i: int, j: int|
            0 <= i < j < vms.len() && selects(selector, #[trigger] vms[i]) && selects(
                selector,
                #[trigger] vms[j],
            ),
    decreases vms.len(),
{
    if vms.len() > 0 {
        let fewer = vms.drop_last();
        let last = vms.len() - 1;
        selected_one_at_a_time(fewer, selector);
        assert(forall|i: int| 0 <= i < fewer.len() ==> fewer[i] == #[trigger] vms[i]);
        let before = selected(fewer, selector);
        if selects(selector, vms[last]) {
            if before.len() == 0 {
                assert forall|j: int| 0 <= j < vms.len() && j != last implies !selects(
                    selector,
                    #[trigger] vms[j],
                ) by {
                    assert(fewer[j] == vms[j]);
                }
                assert(selected(vms, selector)[0] == vms[last]);
            } else {
                let some = if before.len() == 1 {
                    choose|i: int|
                        0 <= i < fewer.len() && before[0] == #[trigger] fewer[i] && selects(
                            selector,
                            fewer[i],
                        )
                } else {
                    let (i, j) = choose|i: int, j: int|
                        0 <= i < j < fewer.len() && selects(selector, #[trigger] fewer[i])
                            && selects(selector, #[trigger] fewer[j]);
                    i
                };
                assert(selects(selector, vms[some]));
                assert(selects(selector, vms[last]));
            }
        } else {
            if before.len() == 0 {
                assert forall|i: int| 0 <= i < vms.len() implies !selects(
                    selector,
                    #[trigger] vms[i],
                ) by {
                    if i < last {
                        assert(fewer[i] == vms[i]);
                    }
                }
            } else if before.len() == 1 {
                let i = choose|i: int|
                    0 <= i < fewer.len() && before[0] == #[trigger] fewer[i] && selects(
                        selector,
                        fewer[i],
                    ) && forall|j: int|
                        0 <= j < fewer.len() && j != i ==> !selects(selector, #[trigger] fewer[j]);
                assert forall|j: int| 0 <= j < vms.len() && j != i implies !selects(
                    selector,
                    #[trigger] vms[j],
                ) by {
                    if j < last {
                        assert(fewer[j] == vms[j]);
                    }
                }
                assert(selected(vms, selector)[0] == vms[i]);
                assert(selects(selector, vms[i]));
            } else {
                let (i, j) = choose|i: int, j: int|
                    0 <= i < j < fewer.len() && selects(selector, #[trigger] fewer[i]) && selects(
                        selector,
                        #[trigger] fewer[j],
                    );
                assert(selects(selector, vms[i]) && selects(selector, vms[j]));
            }
        }
    }
}

/// A selector picks a machine exactly where it is the name, the UUID or the owner of one entry and
/// of no other; that entry is then picked. Without a selector the only entry is picked, and none
/// where there are several.
pub proof fn selectors_pick_the_machine_they_name(
    discovery: Discovery,
    selector: Option<&str>,
    result: Result<VmSummary, Failure>,
    at: int,
)
    requires
        0 <= at < discovery.vms.len(),
        call_ensures(select_vm, (&discovery, selector), result),
    ensures
        selector is None ==> (result is Ok <==> discovery.vms.len() == 1),
        selector is None && result is Ok ==> result->Ok_0@ == discovery.vms@[at]@,
        selector matches Some(text) ==> {
            &&& result is Ok && names(text@, discovery.vms@[at]) ==> result->Ok_0@
                == discovery.vms@[at]@
            &&& result matches Ok(vm) ==> names(text@, vm)
            &&& names(text@, discovery.vms@[at]) && (forall|i: int|
                0 <= i < discovery.vms.len() && i != at ==> !names(
                    text@,
                    #[trigger] discovery.vms@[i],
                )) ==> result is Ok
            &&& forall|i: int|
                names(text@, discovery.vms@[at]) && 0 <= i < discovery.vms.len() && i != at && names(
                    text@,
                    #[trigger] discovery.vms@[i],
                ) ==> result is Err
        },
{
    let vms = vm_views(discovery.vms@);
    assert(vms.len() == discovery.vms.len());
    assert(forall|i: int| 0 <= i < vms.len() ==> vms[i] == #[trigger] discovery.vms@[i]@);
    if selector is Some {
        let text = selector->0@;
        selected_one_at_a_time(vms, text);
        assert forall|i: int| 0 <= i < vms.len() implies names(text, #[trigger] discovery.vms@[i])
            == selects(text, vms[i]) by {
            assert(vms[i] == discovery.vms@[i]@);
        }
        if result is Ok {
            let i = choose|i: int|
                0 <= i < vms.len() && selected(vms, text)[0] == #[trigger] vms[i] && selects(
                    text,
                    vms[i],
                ) && forall|j: int|
                    0 <= j < vms.len() && j != i ==> !selects(text, #[trigger] vms[j]);
            assert(names(text, discovery.vms@[i]));
            assert(result->Ok_0@ == vms[i]);
        }
        if names(text, discovery.vms@[at]) && (forall|i: int|
            0 <= i < discovery.vms.len() && i != at ==> !names(text, #[trigger] discovery.vms@[i])) {
            assert(selects(text, vms[at]));
            if selected(vms, text).len() > 1 {
                let (i, j) = choose|i: int, j: int|
                    0 <= i < j < vms.len() && selects(text, #[trigger] vms[i]) && selects(
                        text,
                        #[trigger] vms[j],
                    );
                assert(names(text, discovery.vms@[i]) && names(text, discovery.vms@[j]));
            }
        }
        assert forall|i: int|
            names(text, discovery.vms@[at]) && 0 <= i < discovery.vms.len() && i != at && names(
                text,
                #[trigger] discovery.vms@[i],
            ) implies result is Err by {
            assert(selects(text, vms[at]) && selects(text, vms[i]));
        }
    }
}

/// The console that was asked for is the first with that number, and without a number the first one
/// of all. There is none exactly where no console has the number, or where there is no console.
pub proof fn consoles_are_picked_by_number(
    report: InspectionReport,
    console_id: Option<u32>,
    result: Result<ConsoleSummary, Failure>,
    at: int,
)
    requires
        0 <= at < report.consoles.len(),
        call_ensures(select_console, (&report, console_id), result),
    ensures
        console_id is None ==> result is Ok && result->Ok_0@ == report.consoles@[0]@,
        console_id matches Some(id) ==> {
            &&& report.consoles@[at].id == id && (forall|i: int|
                0 <= i < at ==> (#[trigger] report.consoles@[i]).id != id) ==> result is Ok
                && result->Ok_0@ == report.consoles@[at]@
            &&& result matches Ok(console) ==> console.id == id
            &&& (forall|i: int|
                0 <= i < report.consoles.len() ==> (#[trigger] report.consoles@[i]).id != id)
                ==> result is Err
        },
{
    let consoles = console_views(report.consoles@);
    assert(consoles.len() == report.consoles.len());
    assert(forall|i: int| 0 <= i < consoles.len() ==> consoles[i] == #[trigger] report.consoles@[i]@);
    if console_id is Some {
        let id = console_id->0;
        first_console_is_first(consoles, id, 0);
        assert forall|i: int| 0 <= i < consoles.len() implies (#[trigger] report.consoles@[i]).id
            == consoles[i].id by {
            assert(consoles[i] == report.consoles@[i]@);
        }
        if report.consoles@[at].id == id && (forall|i: int|
            0 <= i < at ==> (#[trigger] report.consoles@[i]).id != id) {
            assert forall|i: int| 0 <= i < at implies (#[trigger] consoles[i]).id != id by {
                assert(report.consoles@[i].id != id);
            }
            assert(consoles[at].id == id);
        }
        if first_console(consoles, id, 0) is Some {
            let i = choose|i: int|
                0 <= i < consoles.len() && (#[trigger] consoles[i]).id == id
                    && first_console(consoles, id, 0) == Some(consoles[i]);
            assert(report.consoles@[i].id == id);
        }
    }
}

proof fn first_console_is_first(consoles: Seq<ConsoleView>, id: u32, from: int)
    requires
        0 <= from <= consoles.len(),
    ensures
        forall|at: int|
            from <= at < consoles.len() && (#[trigger] consoles[at]).id == id && (forall|i: int|
                from <= i < at ==> (#[trigger] consoles[i]).id != id) ==> first_console(
                consoles,
                id,
                from,
            ) == Some(consoles[at]),
        first_console(consoles, id, from) matches Some(found) ==> exists|i: int|
            from <= i < consoles.len() && (#[trigger] consoles[i]).id == id && found == consoles[i],
    decreases consoles.len() - from,
{
    if from < consoles.len() && consoles[from].id != id {
        first_console_is_first(consoles, id, from + 1);
    }
}

/// A machine that was named is looked for by that name; one that is the only one by its UUID; and
/// where there are several the user is asked.
pub proof fn users_are_asked_where_there_is_a_choice(
    named: Option<&str>,
    vms: Vec<VmSummary>,
    choice: ConnectChoice,
)
    requires
        call_ensures(connect_choice, (named, &vms), choice),
    ensures
        choice is Ask <==> named is None && vms.len() > 1,
        named matches Some(text) ==> choice is Resolve && choice->Resolve_0 is Some
            && choice->Resolve_0->0@ == text@,
        named is None && vms.len() == 1 ==> choice is Resolve && choice->Resolve_0 is Some
            && choice->Resolve_0->0@ == vms[0].uuid@,
{
}

proof fn parts_occur(parts: Seq<Seq<char>>, separator: Seq<char>, at: int)
    requires
        0 <= at < parts.len(),
    ensures
        occurs(joined(parts, separator), parts[at]),
    decreases parts.len(),
{
    let text = joined(parts, separator);
    if parts.len() == 1 {
        assert(text.subrange(0, text.len() as int) =~= text);
        assert(occurs_at(text, parts[at], 0));
    } else {
        let before = joined(parts.drop_last(), separator);
        let last = parts.len() - 1;
        if at == last {
            let place = (before + separator).len() as int;
            assert(text.subrange(place, place + parts[at].len()) =~= parts[at]);
            assert(occurs_at(text, parts[at], place));
        } else {
            parts_occur(parts.drop_last(), separator, at);
            let place = choose|place: int| occurs_at(before, parts[at], place);
            assert(text.subrange(place, place + parts[at].len()) =~= before.subrange(
                place,
                place + parts[at].len(),
            ));
            assert(occurs_at(text, parts[at], place));
        }
    }
}

proof fn parts_of_parts_occur(text: Seq<char>, before: Seq<char>, part: Seq<char>, needle: Seq<char>)
    requires
        occurs(part, needle),
        text.len() >= before.len() + part.len(),
        text.subrange(before.len() as int, before.len() as int + part.len()) == part,
    ensures
        occurs(text, needle),
{
    let at = choose|at: int| occurs_at(part, needle, at);
    let place = before.len() + at;
    let found = text.subrange(place, place + needle.len());
    let wanted = part.subrange(at, at + needle.len());
    assert forall|i: int| 0 <= i < needle.len() implies found[i] == #[trigger] wanted[i] by {
        assert(text.subrange(before.len() as int, before.len() as int + part.len())[at + i]
            == text[place + i]);
    }
    assert(found =~= wanted);
    assert(occurs_at(text, needle, place));
}

/// Where the user has to choose among several machines, the message lists each of them.
pub proof fn every_choice_is_listed(
    discovery: Discovery,
    result: Result<VmSummary, Failure>,
    at: int,
)
    requires
        0 <= at < discovery.vms.len(),
        discovery.vms.len() > 1,
        call_ensures(select_vm, (&discovery, None), result),
    ensures
        result is Err,
        occurs(result->Err_0@[0], vm_choice(discovery.vms@[at]@)),
{
    let vms = vm_views(discovery.vms@);
    assert(vms.len() == discovery.vms.len());
    let parts = vms.map_values(|vm: VmView| vm_choice(vm));
    assert(vms[at] == discovery.vms@[at]@);
    assert(parts[at] == vm_choice(discovery.vms@[at]@));
    parts_occur(parts, "\n"@, at);
    let text = result->Err_0@[0];
    let before = "multiple QEMU D-Bus VMs are visible on the "@ + discovery.bus_label@
        + ". Re-run with `--vm <NAME|UUID|OWNER>`.\nAvailable VMs:\n"@;
    assert(text =~= before + vm_choices(vms));
    assert(text.subrange(before.len() as int, before.len() as int + vm_choices(vms).len())
        =~= vm_choices(vms));
    parts_of_parts_occur(text, before, vm_choices(vms), parts[at]);
}

/// A choice shows the machine's name, UUID, owner and source.
pub proof fn choices_show_the_machine(vm: VmSummary)
    ensures
        occurs(vm_choice(vm@), vm.name@),
        occurs(vm_choice(vm@), vm.uuid@),
        occurs(vm_choice(vm@), vm.owner@),
        occurs(vm_choice(vm@), vm.source_label@),
{
    let text = vm_choice(vm@);
    let bar = " | "@;
    let name_at = "- "@.len() as int;
    let uuid_at = name_at + vm.name@.len() + bar.len();
    let owner_at = uuid_at + vm.uuid@.len() + bar.len();
    let source_at = owner_at + vm.owner@.len() + bar.len();
    assert(text.subrange(name_at, name_at + vm.name@.len()) =~= vm.name@);
    assert(occurs_at(text, vm.name@, name_at));
    assert(text.subrange(uuid_at, uuid_at + vm.uuid@.len()) =~= vm.uuid@);
    assert(occurs_at(text, vm.uuid@, uuid_at));
    assert(text.subrange(owner_at, owner_at + vm.owner@.len()) =~= vm.owner@);
    assert(occurs_at(text, vm.owner@, owner_at));
    assert(text.subrange(source_at, source_at + vm.source_label@.len()) =~= vm.source_label@);
    assert(occurs_at(text, vm.source_label@, source_at));
}

}
