//! What the commands print, line by line.

use vstd::prelude::*;

use crate::diagnostics::CheckView;
use crate::diagnostics::DoctorCheck;
use crate::diagnostics::DoctorReport;
use crate::diagnostics::DoctorStatus;
use crate::diagnostics::check_views;
use crate::qemu::types::chardev_views;
use crate::qemu::types::console_views;
use crate::qemu::types::vm_views;
use crate::qemu::types::ChardevSummary;
use crate::qemu::types::ChardevView;
use crate::qemu::types::ConsoleSummary;
use crate::qemu::types::ConsoleView;
use crate::qemu::types::Discovery;
use crate::qemu::types::DiscoveryView;
use crate::qemu::types::InspectionReport;
use crate::qemu::types::InspectionView;
use crate::qemu::types::VmSummary;
use crate::qemu::types::VmView;
use crate::text::append_texts;
use crate::text::concat2;
use crate::text::concat3;
use crate::text::concat4;
use crate::text::concat6;
use crate::text::concat8;
use crate::text::join;
use crate::text::joined;
use crate::text::no_texts;
use crate::text::number::decimal;
use crate::text::number::to_decimal;
use crate::text::push_text;
use crate::text::scan::lines;
use crate::text::scan::lines_of;
use crate::text::texts;

verus! {

/// The word for an answer.
pub open spec fn answer(value: bool) -> Seq<char> {
    if value {
        "yes"@
    } else {
        "no"@
    }
}

/// The word for an answer.
pub fn yes_no(value: bool) -> (word: &'static str)
    ensures
        word@ == answer(value),
{
    if value {
        "yes"
    } else {
        "no"
    }
}

/// The line that lists interfaces.
pub open spec fn interface_line(head: Seq<char>, interfaces: Seq<Seq<char>>) -> Seq<char> {
    if interfaces.len() == 0 {
        head + "none reported"@
    } else {
        head + joined(interfaces, ", "@)
    }
}

fn format_interfaces(head: &str, interfaces: &Vec<String>) -> (line: String)
    ensures
        line@ == interface_line(head@, texts(interfaces@)),
{
    if interfaces.len() == 0 {
        concat2(head, "none reported")
    } else {
        let list = join(interfaces, ", ");
        concat2(head, list.as_str())
    }
}

/// The lines for one machine of the list.
pub open spec fn vm_lines(vm: VmView) -> Seq<Seq<char>> {
    seq![
        vm.name,
        "  UUID: "@ + vm.uuid,
        "  D-Bus owner: "@ + vm.owner,
        "  Source: "@ + vm.source_label,
        "  Consoles: "@ + decimal(vm.console_ids.len()),
        interface_line("  Interfaces: "@, vm.interfaces),
    ]
}

fn format_vm(vm: &VmSummary) -> (list: Vec<String>)
    ensures
        texts(list@) == vm_lines(vm@),
{
    let consoles = to_decimal(vm.console_ids.len() as u64);
    let mut list = no_texts();
    push_text(&mut list, vm.name.clone());
    push_text(&mut list, concat2("  UUID: ", vm.uuid.as_str()));
    push_text(&mut list, concat2("  D-Bus owner: ", vm.owner.as_str()));
    push_text(&mut list, concat2("  Source: ", vm.source_label.as_str()));
    push_text(&mut list, concat2("  Consoles: ", consoles.as_str()));
    push_text(&mut list, format_interfaces("  Interfaces: ", &vm.interfaces));
    assert(texts(list@) =~= vm_lines(vm@));
    list
}

/// The lines for the machines of a list, with an empty line between two of them.
pub open spec fn vm_blocks(vms: Seq<VmView>) -> Seq<Seq<char>>
    decreases vms.len(),
{
    if vms.len() == 0 {
        Seq::empty()
    } else if vms.len() == 1 {
        vm_lines(vms[0])
    } else {
        vm_blocks(vms.drop_last()).push(Seq::empty()) + vm_lines(vms.last())
    }
}

/// The hint where no machine was found.
pub const NO_VM_HINT: &'static str =
    ".\nHint: start QEMU with `-display dbus` or pass `--address <DBUS_ADDRESS>`.";

/// What `list` prints.
pub open spec fn list_lines(discovery: DiscoveryView) -> Seq<Seq<char>> {
    if discovery.vms.len() == 0 {
        seq!["No QEMU D-Bus VMs found on the "@ + discovery.bus_label + NO_VM_HINT@]
    } else {
        vm_blocks(discovery.vms)
    }
}

/// What `list` prints.
pub fn vm_list(discovery: &Discovery) -> (list: Vec<String>)
    ensures
        texts(list@) == list_lines(discovery@),
{
    let mut list = no_texts();
    if discovery.vms.len() == 0 {
        push_text(
            &mut list,
            concat3("No QEMU D-Bus VMs found on the ", discovery.bus_label.as_str(), NO_VM_HINT),
        );
        assert(texts(list@) =~= list_lines(discovery@));
        return list;
    }
    let ghost views = vm_views(discovery.vms@);
    assert(views.take(0) =~= Seq::<VmView>::empty());
    for i in 0..discovery.vms.len()
        invariant
            views == vm_views(discovery.vms@),
            texts(list@) == vm_blocks(views.take(i as int)),
    {
        proof {
            assert(views.take(i + 1).drop_last() =~= views.take(i as int));
            assert(views.take(i + 1).last() == discovery.vms@[i as int]@);
            if i == 0 {
                assert(views.take(1)[0] == discovery.vms@[0]@);
                assert(Seq::<Seq<char>>::empty() + vm_lines(views[0]) =~= vm_lines(views[0]));
            }
        }
        if i > 0 {
            push_text(&mut list, String::new());
            assert(texts(list@) =~= vm_blocks(views.take(i as int)).push(Seq::<char>::empty()));
        }
        append_texts(&mut list, format_vm(&discovery.vms[i]));
    }
    assert(views.take(views.len() as int) =~= views);
    list
}

/// The lines for a console.
pub open spec fn console_lines(console: ConsoleView) -> Seq<Seq<char>> {
    seq![
        "  - Console "@ + decimal(console.id as nat) + ": "@ + console.label,
        "    Type: "@ + console.kind + " | Head: "@ + decimal(console.head as nat) + " | Size: "@
            + decimal(console.width as nat) + "x"@ + decimal(console.height as nat),
        interface_line("    Interfaces: "@, console.interfaces),
    ]
}

fn format_console(console: &ConsoleSummary) -> (list: Vec<String>)
    ensures
        texts(list@) == console_lines(console@),
{
    let id = to_decimal(console.id as u64);
    let head = to_decimal(console.head as u64);
    let width = to_decimal(console.width as u64);
    let height = to_decimal(console.height as u64);
    let mut list = no_texts();
    push_text(&mut list, concat4("  - Console ", id.as_str(), ": ", console.label.as_str()));
    push_text(
        &mut list,
        concat8(
            "    Type: ",
            console.kind.as_str(),
            " | Head: ",
            head.as_str(),
            " | Size: ",
            width.as_str(),
            "x",
            height.as_str(),
        ),
    );
    push_text(&mut list, format_interfaces("    Interfaces: ", &console.interfaces));
    assert(texts(list@) =~= console_lines(console@));
    list
}

/// The lines for a character device.
pub open spec fn chardev_lines(chardev: ChardevView) -> Seq<Seq<char>> {
    seq![
        "  - "@ + chardev.name,
        "    Owner: "@ + chardev.owner + " | Frontend open: "@ + answer(chardev.frontend_open)
            + " | Echo: "@ + answer(chardev.echo),
    ]
}

fn format_chardev(chardev: &ChardevSummary) -> (list: Vec<String>)
    ensures
        texts(list@) == chardev_lines(chardev@),
{
    let mut list = no_texts();
    push_text(&mut list, concat2("  - ", chardev.name.as_str()));
    push_text(
        &mut list,
        concat6(
            "    Owner: ",
            chardev.owner.as_str(),
            " | Frontend open: ",
            yes_no(chardev.frontend_open),
            " | Echo: ",
            yes_no(chardev.echo),
        ),
    );
    assert(texts(list@) =~= chardev_lines(chardev@));
    list
}

/// The lines for all consoles.
pub open spec fn all_console_lines(consoles: Seq<ConsoleView>) -> Seq<Seq<char>>
    decreases consoles.len(),
{
    if consoles.len() == 0 {
        Seq::empty()
    } else {
        all_console_lines(consoles.drop_last()) + console_lines(consoles.last())
    }
}

/// The lines for all character devices.
pub open spec fn all_chardev_lines(chardevs: Seq<ChardevView>) -> Seq<Seq<char>>
    decreases chardevs.len(),
{
    if chardevs.len() == 0 {
        Seq::empty()
    } else {
        all_chardev_lines(chardevs.drop_last()) + chardev_lines(chardevs.last())
    }
}

/// The lines for the machine itself.
pub open spec fn machine_lines(report: InspectionView) -> Seq<Seq<char>> {
    let name = seq![
        report.vm.name,
        "  UUID: "@ + report.vm.uuid,
        "  D-Bus owner: "@ + report.vm.owner,
        "  Bus: "@ + report.bus_label,
    ];
    let address = match report.vm.source_address {
        Some(text) => seq!["  Address: "@ + text],
        None => Seq::empty(),
    };
    name + address + seq![
        interface_line("  VM interfaces: "@, report.vm.interfaces),
        "  Audio object: "@ + answer(report.has_audio),
        "  Clipboard object: "@ + answer(report.has_clipboard),
        "  Chardevs: "@ + decimal(report.chardevs.len()),
    ]
}

/// What `inspect` prints.
pub open spec fn inspection_lines(report: InspectionView) -> Seq<Seq<char>> {
    let consoles = if report.consoles.len() == 0 {
        seq![Seq::empty(), "No consoles reported."@]
    } else {
        seq![Seq::empty(), "Consoles:"@] + all_console_lines(report.consoles)
    };
    let chardevs = if report.chardevs.len() == 0 {
        Seq::empty()
    } else {
        seq![Seq::empty(), "Chardevs:"@] + all_chardev_lines(report.chardevs)
    };
    machine_lines(report) + consoles + chardevs
}

fn format_machine(report: &InspectionReport) -> (list: Vec<String>)
    ensures
        texts(list@) == machine_lines(report@),
{
    let chardevs = to_decimal(report.chardevs.len() as u64);
    let mut list = no_texts();
    push_text(&mut list, report.vm.name.clone());
    push_text(&mut list, concat2("  UUID: ", report.vm.uuid.as_str()));
    push_text(&mut list, concat2("  D-Bus owner: ", report.vm.owner.as_str()));
    push_text(&mut list, concat2("  Bus: ", report.bus_label.as_str()));
    if let Some(address) = &report.vm.source_address {
        push_text(&mut list, concat2("  Address: ", address.as_str()));
    }
    push_text(&mut list, format_interfaces("  VM interfaces: ", &report.vm.interfaces));
    push_text(&mut list, concat2("  Audio object: ", yes_no(report.has_audio)));
    push_text(&mut list, concat2("  Clipboard object: ", yes_no(report.has_clipboard)));
    push_text(&mut list, concat2("  Chardevs: ", chardevs.as_str()));
    assert(texts(list@) =~= machine_lines(report@));
    list
}

fn format_consoles(consoles: &Vec<ConsoleSummary>) -> (list: Vec<String>)
    ensures
        texts(list@) == all_console_lines(console_views(consoles@)),
{
    let ghost views = console_views(consoles@);
    let mut list = no_texts();
    assert(views.take(0) =~= Seq::<ConsoleView>::empty());
    for i in 0..consoles.len()
        invariant
            views == console_views(consoles@),
            texts(list@) == all_console_lines(views.take(i as int)),
    {
        assert(views.take(i + 1).drop_last() =~= views.take(i as int));
        assert(views.take(i + 1).last() == consoles@[i as int]@);
        append_texts(&mut list, format_console(&consoles[i]));
    }
    assert(views.take(views.len() as int) =~= views);
    list
}

fn format_chardevs(chardevs: &Vec<ChardevSummary>) -> (list: Vec<String>)
    ensures
        texts(list@) == all_chardev_lines(chardev_views(chardevs@)),
{
    let ghost views = chardev_views(chardevs@);
    let mut list = no_texts();
    assert(views.take(0) =~= Seq::<ChardevView>::empty());
    for i in 0..chardevs.len()
        invariant
            views == chardev_views(chardevs@),
            texts(list@) == all_chardev_lines(views.take(i as int)),
    {
        assert(views.take(i + 1).drop_last() =~= views.take(i as int));
        assert(views.take(i + 1).last() == chardevs@[i as int]@);
        append_texts(&mut list, format_chardev(&chardevs[i]));
    }
    assert(views.take(views.len() as int) =~= views);
    list
}

/// What `inspect` prints.
pub fn inspection(report: &InspectionReport) -> (list: Vec<String>)
    ensures
        texts(list@) == inspection_lines(report@),
{
    let mut list = format_machine(report);
    push_text(&mut list, String::new());
    if report.consoles.len() == 0 {
        push_text(&mut list, "No consoles reported.".to_owned());
    } else {
        push_text(&mut list, "Consoles:".to_owned());
        append_texts(&mut list, format_consoles(&report.consoles));
    }
    if report.chardevs.len() > 0 {
        push_text(&mut list, String::new());
        push_text(&mut list, "Chardevs:".to_owned());
        append_texts(&mut list, format_chardevs(&report.chardevs));
    }
    assert(texts(list@) =~= inspection_lines(report@));
    list
}

/// The line for a warning.
pub open spec fn warning_line(warning: Seq<char>) -> Seq<char> {
    "Warning: "@ + warning
}

/// One line for each warning.
pub fn warning_lines(warnings: &Vec<String>) -> (list: Vec<String>)
    ensures
        texts(list@) == texts(warnings@).map_values(|warning: Seq<char>| warning_line(warning)),
{
    let ghost wanted = texts(warnings@).map_values(|warning: Seq<char>| warning_line(warning));
    let mut list = no_texts();
    for i in 0..warnings.len()
        invariant
            wanted == texts(warnings@).map_values(|warning: Seq<char>| warning_line(warning)),
            texts(list@) == wanted.take(i as int),
    {
        assert(wanted[i as int] == warning_line(warnings@[i as int]@));
        push_text(&mut list, concat2("Warning: ", warnings[i].as_str()));
        assert(texts(list@) =~= wanted.take(i + 1));
    }
    assert(texts(list@) =~= wanted);
    list
}

/// The mark of a check.
pub open spec fn status_label(status: DoctorStatus) -> Seq<char> {
    match status {
        DoctorStatus::Pass => "OK"@,
        DoctorStatus::Warn => "WARN"@,
        DoctorStatus::Fail => "FAIL"@,
    }
}

/// The lines for a check: the first line of the detail beside the name, the others below.
pub open spec fn check_lines(check: CheckView) -> Seq<Seq<char>> {
    let detail = lines_of(check.detail);
    let head = "  ["@ + status_label(check.status) + "] "@ + check.name;
    if detail.len() == 0 {
        seq![head]
    } else {
        seq![head + ": "@ + detail[0]] + detail.drop_first().map_values(
            |line: Seq<char>| "      "@ + line,
        )
    }
}

fn format_check(check: &DoctorCheck) -> (list: Vec<String>)
    ensures
        texts(list@) == check_lines(check@),
{
    let label = match check.status {
        DoctorStatus::Pass => "OK",
        DoctorStatus::Warn => "WARN",
        DoctorStatus::Fail => "FAIL",
    };
    let detail = lines(check.detail.as_str());
    let ghost views = texts(detail@);
    let mut list = no_texts();
    if detail.len() == 0 {
        push_text(&mut list, concat4("  [", label, "] ", check.name));
        assert(texts(list@) =~= check_lines(check@));
        return list;
    }
    push_text(
        &mut list,
        concat6("  [", label, "] ", check.name, ": ", detail[0].as_str()),
    );
    let ghost rest = views.drop_first().map_values(|line: Seq<char>| "      "@ + line);
    let ghost first = texts(list@);
    assert(first =~= seq![first[0]]);
    for i in 1..detail.len()
        invariant
            views == texts(detail@),
            rest == views.drop_first().map_values(|line: Seq<char>| "      "@ + line),
            first.len() == 1,
            texts(list@) == first + rest.take(i - 1),
    {
        assert(rest[i - 1] == "      "@ + detail@[i as int]@);
        push_text(&mut list, concat2("      ", detail[i].as_str()));
        assert(texts(list@) =~= first + rest.take(i as int));
    }
    assert(texts(list@) =~= check_lines(check@));
    list
}

/// The lines for all checks.
pub open spec fn all_check_lines(checks: Seq<CheckView>) -> Seq<Seq<char>>
    decreases checks.len(),
{
    if checks.len() == 0 {
        Seq::empty()
    } else {
        all_check_lines(checks.drop_last()) + check_lines(checks.last())
    }
}

fn format_checks(checks: &Vec<DoctorCheck>) -> (list: Vec<String>)
    ensures
        texts(list@) == all_check_lines(check_views(checks@)),
{
    let ghost views = check_views(checks@);
    let mut list = no_texts();
    assert(views.take(0) =~= Seq::<CheckView>::empty());
    for i in 0..checks.len()
        invariant
            views == check_views(checks@),
            texts(list@) == all_check_lines(views.take(i as int)),
    {
        assert(views.take(i + 1).drop_last() =~= views.take(i as int));
        assert(views.take(i + 1).last() == checks@[i as int]@);
        append_texts(&mut list, format_check(&checks[i]));
    }
    assert(views.take(views.len() as int) =~= views);
    list
}

/// What `doctor` prints.
pub open spec fn doctor_lines(report: DoctorReport) -> Seq<Seq<char>> {
    let host = seq!["Host checks:"@] + all_check_lines(check_views(report.host_checks@));
    if report.vm_checks.len() == 0 {
        host
    } else {
        let title = match report.inspected_vm {
            Some(inspected) => "VM checks for "@ + inspected.vm.name@ + ":"@,
            None => "VM checks:"@,
        };
        host + seq![Seq::empty(), title] + all_check_lines(check_views(report.vm_checks@))
    }
}

/// What `doctor` prints.
pub fn doctor(report: &DoctorReport) -> (list: Vec<String>)
    ensures
        texts(list@) == doctor_lines(*report),
{
    let mut list = no_texts();
    push_text(&mut list, "Host checks:".to_owned());
    append_texts(&mut list, format_checks(&report.host_checks));
    if report.vm_checks.len() > 0 {
        push_text(&mut list, String::new());
        let title = match &report.inspected_vm {
            Some(inspected) => concat3("VM checks for ", inspected.vm.name.as_str(), ":"),
            None => "VM checks:".to_owned(),
        };
        push_text(&mut list, title);
        append_texts(&mut list, format_checks(&report.vm_checks));
    }
    assert(texts(list@) =~= doctor_lines(*report));
    list
}

proof fn blocks_stand_in_order(vms: Seq<VmView>)
    ensures
        vms.len() > 0 ==> vm_blocks(vms).len() == 7 * vms.len() - 1,
        forall|i: int, line: int|
            0 <= i < vms.len() && 0 <= line < 6 ==> #[trigger] vm_blocks(vms)[7 * i + line]
                == vm_lines(vms[i])[line],
        forall|i: int|
            0 <= i < vms.len() - 1 ==> #[trigger] vm_blocks(vms)[7 * i + 6] == Seq::<char>::empty(),
    decreases vms.len(),
{
    if vms.len() == 1 {
        assert forall|i: int, line: int| 0 <= i < 1 && 0 <= line < 6 implies #[trigger] vm_blocks(
            vms,
        )[7 * i + line] == vm_lines(vms[i])[line] by {
            assert(7 * i + line == line);
        }
    } else if vms.len() > 1 {
        let fewer = vms.drop_last();
        let last = vms.len() - 1;
        let before = vm_blocks(fewer);
        let now = vm_blocks(vms);
        blocks_stand_in_order(fewer);
        assert(now == before.push(Seq::empty()) + vm_lines(vms[last]));
        assert(before.len() == 7 * last - 1);
        assert forall|i: int, line: int|
            0 <= i < vms.len() && 0 <= line < 6 implies #[trigger] now[7 * i + line] == vm_lines(
            vms[i],
        )[line] by {
            if i < last {
                assert(before[7 * i + line] == vm_lines(fewer[i])[line]);
                assert(now[7 * i + line] == before[7 * i + line]);
                assert(fewer[i] == vms[i]);
            } else {
                assert(now[7 * last + line] == vm_lines(vms[last])[line]);
            }
        }
        assert forall|i: int| 0 <= i < last implies #[trigger] now[7 * i + 6]
            == Seq::<char>::empty() by {
            if i < last - 1 {
                assert(before[7 * i + 6] == Seq::<char>::empty());
            }
        }
    }
}

/// The list of machines has six lines for each of them, in order, with an empty line between two:
/// its name, UUID, owner, source and number of consoles, each as they are, and its interfaces.
pub proof fn lists_show_every_machine(discovery: Discovery, list: Vec<String>, at: int)
    requires
        0 <= at < discovery.vms.len(),
        call_ensures(vm_list, (&discovery,), list),
    ensures
        list.len() == 7 * discovery.vms.len() - 1,
        list@[7 * at]@ == discovery.vms@[at].name@,
        list@[7 * at + 1]@ == "  UUID: "@ + discovery.vms@[at].uuid@,
        list@[7 * at + 2]@ == "  D-Bus owner: "@ + discovery.vms@[at].owner@,
        list@[7 * at + 3]@ == "  Source: "@ + discovery.vms@[at].source_label@,
        list@[7 * at + 4]@ == "  Consoles: "@ + decimal(discovery.vms@[at].console_ids@.len()),
        list@[7 * at + 5]@ == "  Interfaces: "@ + if discovery.vms@[at].interfaces.len() == 0 {
            "none reported"@
        } else {
            joined(texts(discovery.vms@[at].interfaces@), ", "@)
        },
        at < discovery.vms.len() - 1 ==> list@[7 * at + 6]@.len() == 0,
{
    let vms = vm_views(discovery.vms@);
    assert(vms.len() == discovery.vms.len());
    assert(vms[at] == discovery.vms@[at]@);
    blocks_stand_in_order(vms);
    let lines = texts(list@);
    assert(lines == vm_blocks(vms));
    assert(lines.len() == list.len());
    let shown = vm_lines(vms[at]);
    assert(lines[7 * at + 0] == shown[0]);
    assert(lines[7 * at + 1] == shown[1]);
    assert(lines[7 * at + 2] == shown[2]);
    assert(lines[7 * at + 3] == shown[3]);
    assert(lines[7 * at + 4] == shown[4]);
    assert(lines[7 * at + 5] == shown[5]);
    assert(texts(discovery.vms@[at].interfaces@).len() == discovery.vms@[at].interfaces.len());
    if at < discovery.vms.len() - 1 {
        assert(lines[7 * at + 6] == Seq::<char>::empty());
    }
}

proof fn consoles_stand_in_order(consoles: Seq<ConsoleView>)
    ensures
        all_console_lines(consoles).len() == 3 * consoles.len(),
        forall|i: int, line: int|
            0 <= i < consoles.len() && 0 <= line < 3 ==> #[trigger] all_console_lines(consoles)[3 * i
                + line] == console_lines(consoles[i])[line],
    decreases consoles.len(),
{
    if consoles.len() > 0 {
        let fewer = consoles.drop_last();
        let last = consoles.len() - 1;
        let before = all_console_lines(fewer);
        let now = all_console_lines(consoles);
        consoles_stand_in_order(fewer);
        assert(now == before + console_lines(consoles[last]));
        assert forall|i: int, line: int|
            0 <= i < consoles.len() && 0 <= line < 3 implies #[trigger] now[3 * i + line]
            == console_lines(consoles[i])[line] by {
            if i < last {
                assert(before[3 * i + line] == console_lines(fewer[i])[line]);
                assert(fewer[i] == consoles[i]);
            }
        }
    }
}

proof fn chardevs_stand_in_order(chardevs: Seq<ChardevView>)
    ensures
        all_chardev_lines(chardevs).len() == 2 * chardevs.len(),
        forall|i: int, line: int|
            0 <= i < chardevs.len() && 0 <= line < 2 ==> #[trigger] all_chardev_lines(chardevs)[2 * i
                + line] == chardev_lines(chardevs[i])[line],
    decreases chardevs.len(),
{
    if chardevs.len() > 0 {
        let fewer = chardevs.drop_last();
        let last = chardevs.len() - 1;
        let before = all_chardev_lines(fewer);
        let now = all_chardev_lines(chardevs);
        chardevs_stand_in_order(fewer);
        assert(now == before + chardev_lines(chardevs[last]));
        assert forall|i: int, line: int|
            0 <= i < chardevs.len() && 0 <= line < 2 implies #[trigger] now[2 * i + line]
            == chardev_lines(chardevs[i])[line] by {
            if i < last {
                assert(before[2 * i + line] == chardev_lines(fewer[i])[line]);
                assert(fewer[i] == chardevs[i]);
            }
        }
    }
}

/// What is printed of an inspected machine begins with its name, UUID and owner, and shows every
/// console with its number, label, type, head and size, and every character device with its owner
/// and whether it is open and echoes.
pub proof fn inspections_show_everything(
    report: InspectionReport,
    list: Vec<String>,
    console: int,
    chardev: int,
)
    requires
        call_ensures(inspection, (&report,), list),
    ensures
        list@[0]@ == report.vm.name@,
        list@[1]@ == "  UUID: "@ + report.vm.uuid@,
        list@[2]@ == "  D-Bus owner: "@ + report.vm.owner@,
        list@[3]@ == "  Bus: "@ + report.bus_label@,
        report.vm.source_address matches Some(address) ==> list@[4]@ == "  Address: "@ + address@,
        ({
            let head: int = if report.vm.source_address is Some {
                9
            } else {
                8
            };
            &&& list@[head - 3]@ == "  Audio object: "@ + if report.has_audio {
                "yes"@
            } else {
                "no"@
            }
            &&& list@[head - 2]@ == "  Clipboard object: "@ + if report.has_clipboard {
                "yes"@
            } else {
                "no"@
            }
            &&& 0 <= console < report.consoles.len() ==> {
                let shown = report.consoles@[console];
                let at = head + 2 + 3 * console;
                &&& list@[at]@ == "  - Console "@ + decimal(shown.id as nat) + ": "@ + shown.label@
                &&& list@[at + 1]@ == "    Type: "@ + shown.kind@ + " | Head: "@ + decimal(
                    shown.head as nat,
                ) + " | Size: "@ + decimal(shown.width as nat) + "x"@ + decimal(shown.height as nat)
            }
            &&& 0 <= chardev < report.chardevs.len() ==> {
                let shown = report.chardevs@[chardev];
                let above = if report.consoles.len() == 0 {
                    2
                } else {
                    2 + 3 * report.consoles.len()
                };
                let at = head + above + 2 + 2 * chardev;
                &&& list@[at]@ == "  - "@ + shown.name@
                &&& list@[at + 1]@ == "    Owner: "@ + shown.owner@ + " | Frontend open: "@
                    + answer(shown.frontend_open) + " | Echo: "@ + answer(shown.echo)
            }
        }),
{
    let lines = texts(list@);
    let consoles = console_views(report.consoles@);
    let chardevs = chardev_views(report.chardevs@);
    let machine = machine_lines(report@);
    assert(lines.len() == list.len());
    assert(consoles.len() == report.consoles.len());
    assert(chardevs.len() == report.chardevs.len());
    consoles_stand_in_order(consoles);
    chardevs_stand_in_order(chardevs);
    let head: int = if report.vm.source_address is Some {
        9
    } else {
        8
    };
    assert(machine.len() == head);
    assert(forall|i: int| 0 <= i < head ==> lines[i] == machine[i]);
    assert(lines[0] == list@[0]@ && lines[1] == list@[1]@ && lines[2] == list@[2]@ && lines[3]
        == list@[3]@ && lines[4] == list@[4]@);
    assert(lines[head - 3] == list@[head - 3]@ && lines[head - 2] == list@[head - 2]@);
    if 0 <= console < report.consoles.len() {
        let at = head + 2 + 3 * console;
        assert(consoles[console] == report.consoles@[console]@);
        let shown = console_lines(consoles[console]);
        assert(all_console_lines(consoles)[3 * console + 0] == shown[0]);
        assert(all_console_lines(consoles)[3 * console + 1] == shown[1]);
        assert(lines[at] == shown[0] && lines[at + 1] == shown[1]);
        assert(lines[at] == list@[at]@ && lines[at + 1] == list@[at + 1]@);
    }
    if 0 <= chardev < report.chardevs.len() {
        let above: int = if report.consoles.len() == 0 {
            2
        } else {
            2 + 3 * report.consoles.len()
        };
        let at = head + above + 2 + 2 * chardev;
        assert(chardevs[chardev] == report.chardevs@[chardev]@);
        let shown = chardev_lines(chardevs[chardev]);
        assert(all_chardev_lines(chardevs)[2 * chardev + 0] == shown[0]);
        assert(all_chardev_lines(chardevs)[2 * chardev + 1] == shown[1]);
        assert(lines[at] == shown[0] && lines[at + 1] == shown[1]);
        assert(lines[at] == list@[at]@ && lines[at + 1] == list@[at + 1]@);
    }
}

proof fn check_lines_are_kept(checks: Seq<CheckView>, at: int)
    requires
        0 <= at < checks.len(),
    ensures
        exists|i: int|
            0 <= i < all_check_lines(checks).len() && #[trigger] all_check_lines(checks)[i]
                == check_lines(checks[at])[0],
    decreases checks.len(),
{
    let fewer = checks.drop_last();
    let before = all_check_lines(fewer);
    let now = all_check_lines(checks);
    if at < checks.len() - 1 {
        check_lines_are_kept(fewer, at);
        let i = choose|i: int|
            0 <= i < before.len() && #[trigger] before[i] == check_lines(fewer[at])[0];
        assert(now[i] == check_lines(checks[at])[0]);
    } else {
        assert(now[before.len() as int] == check_lines(checks[at])[0]);
    }
}

/// Every check is printed with the mark of its outcome before its name: OK, WARN or FAIL.
pub proof fn checks_are_printed_with_their_mark(report: DoctorReport, list: Vec<String>, at: int)
    requires
        call_ensures(doctor, (&report,), list),
    ensures
        0 <= at < report.host_checks.len() ==> exists|i: int|
            0 <= i < list.len() && is_head_of((#[trigger] list@[i])@, report.host_checks@[at]),
        0 <= at < report.vm_checks.len() ==> exists|i: int|
            0 <= i < list.len() && is_head_of((#[trigger] list@[i])@, report.vm_checks@[at]),
{
    let lines = texts(list@);
    assert(lines.len() == list.len());
    let host = check_views(report.host_checks@);
    let machine = check_views(report.vm_checks@);
    if 0 <= at < report.host_checks.len() {
        assert(host[at] == report.host_checks@[at]@);
        check_lines_are_kept(host, at);
        let i = choose|i: int|
            0 <= i < all_check_lines(host).len() && #[trigger] all_check_lines(host)[i]
                == check_lines(host[at])[0];
        assert(lines[i + 1] == check_lines(host[at])[0]);
        heads_are_first_lines(report.host_checks@[at]);
        assert(is_head_of(list@[i + 1]@, report.host_checks@[at]));
    }
    if 0 <= at < report.vm_checks.len() {
        assert(machine[at] == report.vm_checks@[at]@);
        check_lines_are_kept(machine, at);
        let i = choose|i: int|
            0 <= i < all_check_lines(machine).len() && #[trigger] all_check_lines(machine)[i]
                == check_lines(machine[at])[0];
        let first = 1 + all_check_lines(host).len() + 2;
        assert(lines[first + i] == check_lines(machine[at])[0]);
        heads_are_first_lines(report.vm_checks@[at]);
        assert(is_head_of(list@[first + i]@, report.vm_checks@[at]));
    }
}

/// The line begins with the mark and the name of the check.
pub open spec fn is_head_of(line: Seq<char>, check: DoctorCheck) -> bool {
    let head = "  ["@ + (match check.status {
        DoctorStatus::Pass => "OK"@,
        DoctorStatus::Warn => "WARN"@,
        DoctorStatus::Fail => "FAIL"@,
    }) + "] "@ + check.name@;
    line.len() >= head.len() && line.take(head.len() as int) == head
}

proof fn heads_are_first_lines(check: DoctorCheck)
    ensures
        is_head_of(check_lines(check@)[0], check),
{
    let head = "  ["@ + status_label(check.status) + "] "@ + check.name@;
    let line = check_lines(check@)[0];
    assert(line.take(head.len() as int) =~= head);
}

}
