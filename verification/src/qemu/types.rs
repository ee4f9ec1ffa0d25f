//! What is known of virtual machines, their consoles and their character devices.

use vstd::prelude::*;

use crate::text::clone_opt_string;
use crate::text::clone_strings;
use crate::text::opt_string;
use crate::text::order::rank_texts;
use crate::text::order::rank_then;
use crate::text::order::text_rank;
use crate::text::order::text_rank_flips;
use crate::text::order::text_rank_is_transitive;
use crate::text::order::text_rank_same;
use crate::text::order::Rank;
use crate::text::sort::Ranked;
use crate::text::texts;

verus! {

/// A virtual machine that was found.
#[derive(Debug)]
pub struct VmSummary {
    pub source_label: String,
    pub source_address: Option<String>,
    pub owner: String,
    pub name: String,
    pub uuid: String,
    pub console_ids: Vec<u32>,
    pub interfaces: Vec<String>,
}

/// A virtual machine, with its texts as sequences.
#[verifier::ext_equal]
pub struct VmView {
    pub source_label: Seq<char>,
    pub source_address: Option<Seq<char>>,
    pub owner: Seq<char>,
    pub name: Seq<char>,
    pub uuid: Seq<char>,
    pub console_ids: Seq<u32>,
    pub interfaces: Seq<Seq<char>>,
}

impl View for VmSummary {
    type V = VmView;

    open spec fn view(&self) -> VmView {
        VmView {
            source_label: self.source_label@,
            source_address: opt_string(self.source_address),
            owner: self.owner@,
            name: self.name@,
            uuid: self.uuid@,
            console_ids: self.console_ids@,
            interfaces: texts(self.interfaces@),
        }
    }
}

impl Clone for VmSummary {
    fn clone(&self) -> (copy: VmSummary)
        ensures
            copy@ == self@,
    {
        let copy = VmSummary {
            source_label: self.source_label.clone(),
            source_address: clone_opt_string(&self.source_address),
            owner: self.owner.clone(),
            name: self.name.clone(),
            uuid: self.uuid.clone(),
            console_ids: clone_ids(&self.console_ids),
            interfaces: clone_strings(&self.interfaces),
        };
        assert(copy@ =~= self@);
        copy
    }
}

fn clone_ids(ids: &Vec<u32>) -> (copy: Vec<u32>)
    ensures
        copy@ == ids@,
{
    let mut copy: Vec<u32> = Vec::new();
    for i in 0..ids.len()
        invariant
            copy@ == ids@.take(i as int),
    {
        copy.push(ids[i]);
    }
    assert(ids@.take(ids@.len() as int) =~= ids@);
    copy
}

/// Machines are ordered by name, then by UUID, by where they were found, and by owner.
pub open spec fn vm_rank(left: VmView, right: VmView) -> Rank {
    rank_then(
        text_rank(left.name, right.name),
        rank_then(
            text_rank(left.uuid, right.uuid),
            rank_then(
                text_rank(left.source_label, right.source_label),
                text_rank(left.owner, right.owner),
            ),
        ),
    )
}

impl Ranked for VmSummary {
    open spec fn rank_of(&self, other: &VmSummary) -> Rank {
        vm_rank(self@, other@)
    }

    proof fn ranks_flip(left: &VmSummary, right: &VmSummary) {
        text_rank_flips(left@.name, right@.name);
        text_rank_flips(left@.uuid, right@.uuid);
        text_rank_flips(left@.source_label, right@.source_label);
        text_rank_flips(left@.owner, right@.owner);
    }

    proof fn ranks_chain(a: &VmSummary, b: &VmSummary, c: &VmSummary) {
        chain(a@.name, b@.name, c@.name);
        chain(a@.uuid, b@.uuid, c@.uuid);
        chain(a@.source_label, b@.source_label, c@.source_label);
        chain(a@.owner, b@.owner, c@.owner);
    }

    fn rank(&self, other: &VmSummary) -> (rank: Rank) {
        let by_name = rank_texts(self.name.as_str(), other.name.as_str());
        if by_name != Rank::Same {
            return by_name;
        }
        let by_uuid = rank_texts(self.uuid.as_str(), other.uuid.as_str());
        if by_uuid != Rank::Same {
            return by_uuid;
        }
        let by_label = rank_texts(self.source_label.as_str(), other.source_label.as_str());
        if by_label != Rank::Same {
            return by_label;
        }
        rank_texts(self.owner.as_str(), other.owner.as_str())
    }
}

proof fn chain(a: Seq<char>, b: Seq<char>, c: Seq<char>)
    ensures
        !(text_rank(a, b) is After) && !(text_rank(b, c) is After) ==> {
            &&& !(text_rank(a, c) is After)
            &&& text_rank(a, c) is Same ==> text_rank(a, b) is Same && text_rank(b, c) is Same
            &&& text_rank(a, b) is Same && text_rank(b, c) is Same ==> text_rank(a, c) is Same
        },
{
    if !(text_rank(a, b) is After) && !(text_rank(b, c) is After) {
        text_rank_is_transitive(a, b, c);
        text_rank_same(a, b);
        text_rank_same(b, c);
        text_rank_same(a, c);
    }
}

/// The machines of a list.
pub open spec fn vm_views(vms: Seq<VmSummary>) -> Seq<VmView> {
    vms.map_values(|vm: VmSummary| vm@)
}

/// What a search has found.
#[derive(Debug)]
pub struct Discovery {
    pub bus_label: String,
    pub vms: Vec<VmSummary>,
    pub warnings: Vec<String>,
}

/// What a search has found, with its texts as sequences.
#[verifier::ext_equal]
pub struct DiscoveryView {
    pub bus_label: Seq<char>,
    pub vms: Seq<VmView>,
    pub warnings: Seq<Seq<char>>,
}

impl View for Discovery {
    type V = DiscoveryView;

    open spec fn view(&self) -> DiscoveryView {
        DiscoveryView {
            bus_label: self.bus_label@,
            vms: vm_views(self.vms@),
            warnings: texts(self.warnings@),
        }
    }
}

/// A console of a virtual machine.
#[derive(Debug)]
pub struct ConsoleSummary {
    pub id: u32,
    pub label: String,
    pub head: u32,
    pub kind: String,
    pub width: u32,
    pub height: u32,
    pub interfaces: Vec<String>,
}

/// A console, with its texts as sequences.
#[verifier::ext_equal]
pub struct ConsoleView {
    pub id: u32,
    pub label: Seq<char>,
    pub head: u32,
    pub kind: Seq<char>,
    pub width: u32,
    pub height: u32,
    pub interfaces: Seq<Seq<char>>,
}

impl View for ConsoleSummary {
    type V = ConsoleView;

    open spec fn view(&self) -> ConsoleView {
        ConsoleView {
            id: self.id,
            label: self.label@,
            head: self.head,
            kind: self.kind@,
            width: self.width,
            height: self.height,
            interfaces: texts(self.interfaces@),
        }
    }
}

impl Clone for ConsoleSummary {
    fn clone(&self) -> (copy: ConsoleSummary)
        ensures
            copy@ == self@,
    {
        let copy = ConsoleSummary {
            id: self.id,
            label: self.label.clone(),
            head: self.head,
            kind: self.kind.clone(),
            width: self.width,
            height: self.height,
            interfaces: clone_strings(&self.interfaces),
        };
        assert(copy@ =~= self@);
        copy
    }
}

/// The consoles of a list.
pub open spec fn console_views(consoles: Seq<ConsoleSummary>) -> Seq<ConsoleView> {
    consoles.map_values(|console: ConsoleSummary| console@)
}

/// A character device of a virtual machine.
#[derive(Debug)]
pub struct ChardevSummary {
    pub name: String,
    pub owner: String,
    pub frontend_open: bool,
    pub echo: bool,
}

/// A character device, with its texts as sequences.
#[verifier::ext_equal]
pub struct ChardevView {
    pub name: Seq<char>,
    pub owner: Seq<char>,
    pub frontend_open: bool,
    pub echo: bool,
}

impl View for ChardevSummary {
    type V = ChardevView;

    open spec fn view(&self) -> ChardevView {
        ChardevView {
            name: self.name@,
            owner: self.owner@,
            frontend_open: self.frontend_open,
            echo: self.echo,
        }
    }
}

/// The character devices of a list.
pub open spec fn chardev_views(chardevs: Seq<ChardevSummary>) -> Seq<ChardevView> {
    chardevs.map_values(|chardev: ChardevSummary| chardev@)
}

impl Ranked for ChardevSummary {
    open spec fn rank_of(&self, other: &ChardevSummary) -> Rank {
        rank_then(text_rank(self@.name, other@.name), text_rank(self@.owner, other@.owner))
    }

    proof fn ranks_flip(left: &ChardevSummary, right: &ChardevSummary) {
        text_rank_flips(left@.name, right@.name);
        text_rank_flips(left@.owner, right@.owner);
    }

    proof fn ranks_chain(a: &ChardevSummary, b: &ChardevSummary, c: &ChardevSummary) {
        chain(a@.name, b@.name, c@.name);
        chain(a@.owner, b@.owner, c@.owner);
    }

    fn rank(&self, other: &ChardevSummary) -> (rank: Rank) {
        let by_name = rank_texts(self.name.as_str(), other.name.as_str());
        if by_name != Rank::Same {
            return by_name;
        }
        rank_texts(self.owner.as_str(), other.owner.as_str())
    }
}

/// All that an inspection has found out about a virtual machine.
#[derive(Debug)]
pub struct InspectionReport {
    pub bus_label: String,
    pub vm: VmSummary,
    pub has_audio: bool,
    pub has_clipboard: bool,
    pub consoles: Vec<ConsoleSummary>,
    pub chardevs: Vec<ChardevSummary>,
    pub warnings: Vec<String>,
}

/// An inspection, with its texts as sequences.
#[verifier::ext_equal]
pub struct InspectionView {
    pub bus_label: Seq<char>,
    pub vm: VmView,
    pub has_audio: bool,
    pub has_clipboard: bool,
    pub consoles: Seq<ConsoleView>,
    pub chardevs: Seq<ChardevView>,
    pub warnings: Seq<Seq<char>>,
}

impl View for InspectionReport {
    type V = InspectionView;

    open spec fn view(&self) -> InspectionView {
        InspectionView {
            bus_label: self.bus_label@,
            vm: self.vm@,
            has_audio: self.has_audio,
            has_clipboard: self.has_clipboard,
            consoles: console_views(self.consoles@),
            chardevs: chardev_views(self.chardevs@),
            warnings: texts(self.warnings@),
        }
    }
}

/// The console that the viewer connects to.
#[derive(Debug)]
pub struct ConnectTarget {
    pub source_address: Option<String>,
    pub owner: String,
    pub vm_name: String,
    pub vm_uuid: String,
    pub console_id: u32,
    pub width: u32,
    pub height: u32,
    pub console_interfaces: Vec<String>,
    pub warnings: Vec<String>,
}

/// The console that the viewer connects to, with its texts as sequences.
#[verifier::ext_equal]
pub struct TargetView {
    pub source_address: Option<Seq<char>>,
    pub owner: Seq<char>,
    pub vm_name: Seq<char>,
    pub vm_uuid: Seq<char>,
    pub console_id: u32,
    pub width: u32,
    pub height: u32,
    pub console_interfaces: Seq<Seq<char>>,
    pub warnings: Seq<Seq<char>>,
}

impl View for ConnectTarget {
    type V = TargetView;

    open spec fn view(&self) -> TargetView {
        TargetView {
            source_address: opt_string(self.source_address),
            owner: self.owner@,
            vm_name: self.vm_name@,
            vm_uuid: self.vm_uuid@,
            console_id: self.console_id,
            width: self.width,
            height: self.height,
            console_interfaces: texts(self.console_interfaces@),
            warnings: texts(self.warnings@),
        }
    }
}

/// Whether the guest's side of the clipboard is there.
#[derive(Copy, Clone, Debug, PartialEq, Eq, Structural)]
pub enum ClipboardAgentStatus {
    Unknown,
    GuestDisconnected,
    Connected,
}

}
