//! What may keep sound and clipboard from working.

use vstd::prelude::*;

use super::types::ChardevSummary;
use super::types::ChardevView;
use super::types::chardev_views;
use super::types::ClipboardAgentStatus;
use crate::text::ascii::lowered;
use crate::text::ascii::to_ascii_lowercase;
use crate::text::same_text;
use crate::text::scan::contains;
use crate::text::scan::occurs;
use crate::text::texts;

verus! {

/// The warning for a machine without an audio object.
pub const MISSING_AUDIO: &'static str =
    "QEMU does not expose the D-Bus audio object. QD2 audio needs `-audiodev driver=dbus,id=...`, `-display dbus,...,audiodev=...`, and a sound device wired with `audiodev=...`.";

/// The warning for a machine without a clipboard object.
pub const MISSING_CLIPBOARD: &'static str =
    "QEMU does not expose the D-Bus clipboard object. Clipboard sharing usually needs a `qemu-vdagent` chardev with `clipboard=on` and a `virtserialport` named `com.redhat.spice.0`.";

/// The note for a machine whose clipboard agent cannot be seen.
pub const UNVERIFIABLE_AGENT: &'static str =
    "QEMU exposes the D-Bus clipboard object, but no clipboard/vdagent chardev is visible in the exported chardev list. Clipboard can still work in this setup, so QD2 cannot confirm the guest agent state from D-Bus alone.";

/// The warning for a machine whose clipboard agent is not running.
pub const DISCONNECTED_AGENT: &'static str =
    "A clipboard/vdagent channel is present, but the guest side is not connected. Make sure the guest vdagent service is running.";

/// The device carries the clipboard.
pub open spec fn is_clipboard_bridge(chardev: ChardevView) -> bool {
    ||| occurs(lowered(chardev.name), "vdagent"@)
    ||| occurs(lowered(chardev.owner), "vdagent"@)
    ||| lowered(chardev.owner) == "com.redhat.spice.0"@
    ||| occurs(lowered(chardev.owner), "spice"@)
}

/// Whether the guest's side of the clipboard is there.
pub open spec fn agent_status(chardevs: Seq<ChardevView>) -> ClipboardAgentStatus {
    if exists|i: int|
        0 <= i < chardevs.len() && is_clipboard_bridge(#[trigger] chardevs[i])
            && chardevs[i].frontend_open {
        ClipboardAgentStatus::Connected
    } else if exists|i: int| 0 <= i < chardevs.len() && is_clipboard_bridge(#[trigger] chardevs[i]) {
        ClipboardAgentStatus::GuestDisconnected
    } else {
        ClipboardAgentStatus::Unknown
    }
}

/// Whether the device carries the clipboard.
pub fn is_clipboard_bridge_chardev(chardev: &ChardevSummary) -> (bridge: bool)
    ensures
        bridge == is_clipboard_bridge(chardev@),
{
    let name = to_ascii_lowercase(chardev.name.as_str());
    let owner = to_ascii_lowercase(chardev.owner.as_str());
    contains(name.as_str(), "vdagent") || contains(owner.as_str(), "vdagent") || same_text(
        owner.as_str(),
        "com.redhat.spice.0",
    ) || contains(owner.as_str(), "spice")
}

/// Whether the guest's side of the clipboard is there.
pub fn clipboard_agent_status(chardevs: &Vec<ChardevSummary>) -> (status: ClipboardAgentStatus)
    ensures
        status == agent_status(chardev_views(chardevs@)),
{
    let ghost views = chardev_views(chardevs@);
    let mut found = false;
    for i in 0..chardevs.len()
        invariant
            views == chardev_views(chardevs@),
            found == exists|j: int| 0 <= j < i && is_clipboard_bridge(#[trigger] views[j]),
            forall|j: int|
                0 <= j < i && is_clipboard_bridge(#[trigger] views[j])
                    ==> !views[j].frontend_open,
    {
        assert(views[i as int] == chardevs@[i as int]@);
        if is_clipboard_bridge_chardev(&chardevs[i]) {
            if chardevs[i].frontend_open {
                return ClipboardAgentStatus::Connected;
            }
            found = true;
        }
    }
    if found {
        ClipboardAgentStatus::GuestDisconnected
    } else {
        ClipboardAgentStatus::Unknown
    }
}

/// The warnings for what an inspection has found.
pub open spec fn suggested(
    has_audio: bool,
    has_clipboard: bool,
    chardevs: Seq<ChardevView>,
) -> Seq<Seq<char>> {
    let audio = if has_audio {
        Seq::empty()
    } else {
        seq![MISSING_AUDIO@]
    };
    let clipboard = if !has_clipboard {
        seq![MISSING_CLIPBOARD@]
    } else if agent_status(chardevs) is GuestDisconnected {
        seq![DISCONNECTED_AGENT@]
    } else {
        Seq::empty()
    };
    audio + clipboard
}

/// The warnings for what an inspection has found.
pub fn suggested_warnings(
    has_audio: bool,
    has_clipboard: bool,
    chardevs: &Vec<ChardevSummary>,
) -> (warnings: Vec<String>)
    ensures
        texts(warnings@) == suggested(has_audio, has_clipboard, chardev_views(chardevs@)),
{
    let mut warnings: Vec<String> = Vec::new();
    if !has_audio {
        warnings.push(MISSING_AUDIO.to_owned());
    }
    if !has_clipboard {
        warnings.push(MISSING_CLIPBOARD.to_owned());
    } else {
        match clipboard_agent_status(chardevs) {
            ClipboardAgentStatus::GuestDisconnected => {
                warnings.push(DISCONNECTED_AGENT.to_owned());
            },
            _ => {},
        }
    }
    assert(texts(warnings@) =~= suggested(has_audio, has_clipboard, chardev_views(chardevs@)));
    warnings
}

/// The warnings for an inspected machine.
pub fn suggested_inspection_warnings(report: &super::types::InspectionReport) -> (warnings: Vec<
    String,
>)
    ensures
        texts(warnings@) == suggested(
            report.has_audio,
            report.has_clipboard,
            chardev_views(report.chardevs@),
        ),
{
    suggested_warnings(report.has_audio, report.has_clipboard, &report.chardevs)
}

/// A machine with sound, and with a clipboard whose agent is connected or cannot be seen, gives no
/// warning.
pub proof fn complete_setups_give_no_warning(chardevs: Seq<ChardevView>)
    requires
        !(agent_status(chardevs) is GuestDisconnected),
    ensures
        suggested(true, true, chardevs) == Seq::<Seq<char>>::empty(),
{
    assert(suggested(true, true, chardevs) =~= Seq::<Seq<char>>::empty());
}

/// A device carries the clipboard where its name or owner speaks of the agent, or its owner of
/// SPICE, in whatever case.
pub proof fn clipboard_devices_are_known_by_name(chardev: ChardevSummary, bridge: bool)
    requires
        call_ensures(is_clipboard_bridge_chardev, (&chardev,), bridge),
    ensures
        bridge <==> {
            ||| occurs(lowered(chardev.name@), "vdagent"@)
            ||| occurs(lowered(chardev.owner@), "vdagent"@)
            ||| occurs(lowered(chardev.owner@), "spice"@)
        },
{
    let owner = lowered(chardev.owner@);
    reveal_strlit("com.redhat.spice.0");
    reveal_strlit("spice");
    if owner == "com.redhat.spice.0"@ {
        assert(owner.subrange(11, 16) =~= "spice"@);
        assert(crate::text::scan::occurs_at(owner, "spice"@, 11));
    }
}

/// The agent is there where a device that carries the clipboard is open, and known to be gone where
/// there are such devices and none is open; else nothing is known of it.
pub proof fn open_devices_have_an_agent(
    chardevs: Vec<ChardevSummary>,
    status: ClipboardAgentStatus,
    at: int,
)
    requires
        call_ensures(clipboard_agent_status, (&chardevs,), status),
        0 <= at < chardevs.len(),
    ensures
        is_clipboard_bridge(chardevs@[at]@) ==> !(status is Unknown),
        is_clipboard_bridge(chardevs@[at]@) && chardevs@[at].frontend_open ==> status is Connected,
        (forall|i: int|
            0 <= i < chardevs.len() ==> !is_clipboard_bridge((#[trigger] chardevs@[i])@)) ==> status
            is Unknown,
        (forall|i: int|
            0 <= i < chardevs.len() && is_clipboard_bridge((#[trigger] chardevs@[i])@)
                ==> !chardevs@[i].frontend_open) ==> !(status is Connected),
{
    let views = chardev_views(chardevs@);
    assert(views.len() == chardevs.len());
    assert forall|i: int| 0 <= i < views.len() implies #[trigger] views[i] == chardevs@[i]@ by {}
    assert(views[at] == chardevs@[at]@);
    if (forall|i: int|
        0 <= i < chardevs.len() ==> !is_clipboard_bridge((#[trigger] chardevs@[i])@)) {
        assert forall|i: int| 0 <= i < views.len() implies !is_clipboard_bridge(
            #[trigger] views[i],
        ) by {
            assert(!is_clipboard_bridge(chardevs@[i]@));
        }
    }
    if (forall|i: int|
        0 <= i < chardevs.len() && is_clipboard_bridge((#[trigger] chardevs@[i])@)
            ==> !chardevs@[i].frontend_open) {
        assert forall|i: int|
            0 <= i < views.len() && is_clipboard_bridge(
                #[trigger] views[i],
            ) implies !views[i].frontend_open by {
            assert(is_clipboard_bridge(chardevs@[i]@));
        }
    }
}

/// There is one warning for missing sound, one for a missing clipboard, and one for an agent that is
/// known to be gone, and no other.
pub proof fn warnings_are_given_for_what_is_missing(
    has_audio: bool,
    has_clipboard: bool,
    chardevs: Vec<ChardevSummary>,
    warnings: Vec<String>,
    status: ClipboardAgentStatus,
)
    requires
        call_ensures(suggested_warnings, (has_audio, has_clipboard, &chardevs), warnings),
        call_ensures(clipboard_agent_status, (&chardevs,), status),
    ensures
        ({
            let list = texts(warnings@);
            let gone = has_clipboard && status is GuestDisconnected;
            &&& !has_audio ==> list.contains(MISSING_AUDIO@)
            &&& !has_clipboard ==> list.contains(MISSING_CLIPBOARD@)
            &&& gone ==> list.contains(DISCONNECTED_AGENT@)
            &&& warnings.len() == (if has_audio {
                0int
            } else {
                1
            }) + (if has_clipboard && !gone {
                0int
            } else {
                1
            })
        }),
{
    let list = texts(warnings@);
    assert(list.len() == warnings.len());
    if !has_audio {
        assert(list[0] == MISSING_AUDIO@);
    }
    let at: int = if has_audio {
        0
    } else {
        1
    };
    if !has_clipboard {
        assert(list[at] == MISSING_CLIPBOARD@);
    } else if status is GuestDisconnected {
        assert(list[at] == DISCONNECTED_AGENT@);
    }
}

}
