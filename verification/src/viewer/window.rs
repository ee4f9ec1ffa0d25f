//! The window: what becomes of the listener's events, of its keys and of its frame.

use vstd::prelude::*;

use super::clipboard::content::ClipboardContent;
use super::clipboard::content::ClipboardSelection;
use super::cursor::GuestCursor;
use super::dmabuf::DmabufFrame;
use super::dmabuf::UpdateDMABUF;
use super::events::ViewerEvent;
use super::framebuffer::FramePatch;
use super::framebuffer::FrameSnapshot;
use super::hotkeys::Action;
use super::hotkeys::HotkeySet;
use super::hotkeys::ViewerHotkeys;
use super::input::MouseMode;
use super::mouse::UiState;
use crate::error::Failure;
use crate::qemu::types::VmSummary;
use crate::text::concat2;
use crate::text::concat3;
use crate::text::concat4;
use crate::text::concat5;
use crate::text::joined;
use crate::text::number::decimal;
use crate::text::number::to_decimal;
use crate::text::opt_string;

verus! {

/// A whole picture of the guest display.
#[derive(Debug)]
pub enum Presentation {
    Frame(FrameSnapshot),
    Dmabuf(DmabufFrame),
}

/// What the window has to do about the events that have arrived since it last looked.
#[derive(Debug)]
pub struct EventBatch {
    /// The last whole picture.
    pub presentation: Option<Presentation>,
    /// The changes to the picture in software, since the last whole one, in order.
    pub patches: Vec<FramePatch>,
    /// The changes to the picture in a shared buffer, in order.
    pub dmabuf_updates: Vec<UpdateDMABUF>,
    /// The last mouse mode.
    pub mouse_mode: Option<MouseMode>,
    /// The last shape of the guest's pointer.
    pub cursor_shape: Option<Option<GuestCursor>>,
    /// Whether the guest's pointer is shown.
    pub cursor_visible: Option<bool>,
    /// What the guest has copied, in order.
    pub clipboard: Vec<(ClipboardSelection, ClipboardContent)>,
    /// The last status.
    pub status: Option<String>,
    /// The listener is gone.
    pub disconnected: bool,
}

/// What the window has to do, with its lists as sequences.
#[verifier::ext_equal]
pub struct BatchView {
    pub presentation: Option<Presentation>,
    pub patches: Seq<FramePatch>,
    pub dmabuf_updates: Seq<UpdateDMABUF>,
    pub mouse_mode: Option<MouseMode>,
    pub cursor_shape: Option<Option<GuestCursor>>,
    pub cursor_visible: Option<bool>,
    pub clipboard: Seq<(ClipboardSelection, ClipboardContent)>,
    pub status: Option<String>,
    pub disconnected: bool,
}

impl View for EventBatch {
    type V = BatchView;

    open spec fn view(&self) -> BatchView {
        BatchView {
            presentation: self.presentation,
            patches: self.patches@,
            dmabuf_updates: self.dmabuf_updates@,
            mouse_mode: self.mouse_mode,
            cursor_shape: self.cursor_shape,
            cursor_visible: self.cursor_visible,
            clipboard: self.clipboard@,
            status: self.status,
            disconnected: self.disconnected,
        }
    }
}

impl BatchView {
    /// Nothing to do.
    pub open spec fn nothing() -> BatchView {
        BatchView {
            presentation: None,
            patches: Seq::empty(),
            dmabuf_updates: Seq::empty(),
            mouse_mode: None,
            cursor_shape: None,
            cursor_visible: None,
            clipboard: Seq::empty(),
            status: None,
            disconnected: false,
        }
    }

    /// One more event. A whole picture makes the changes to the one before it void.
    pub open spec fn with(self, event: ViewerEvent) -> BatchView {
        match event {
            ViewerEvent::Frame(frame) => BatchView {
                presentation: Some(Presentation::Frame(frame)),
                patches: Seq::empty(),
                ..self
            },
            ViewerEvent::Dmabuf(frame) => BatchView {
                presentation: Some(Presentation::Dmabuf(frame)),
                patches: Seq::empty(),
                ..self
            },
            ViewerEvent::FramePatch(patch) => BatchView {
                patches: self.patches.push(patch),
                ..self
            },
            ViewerEvent::DmabufUpdate(update) => BatchView {
                dmabuf_updates: self.dmabuf_updates.push(update),
                ..self
            },
            ViewerEvent::CursorShapeChanged(shape) => BatchView {
                cursor_shape: Some(shape),
                ..self
            },
            ViewerEvent::CursorVisibilityChanged(visible) => BatchView {
                cursor_visible: Some(visible),
                ..self
            },
            ViewerEvent::MouseModeChanged(mode) => BatchView { mouse_mode: Some(mode), ..self },
            ViewerEvent::ClipboardGuestChanged(selection, content) => BatchView {
                clipboard: self.clipboard.push((selection, content)),
                ..self
            },
            ViewerEvent::Status(message) => BatchView { status: Some(message), ..self },
            ViewerEvent::Disconnected => BatchView { disconnected: true, ..self },
        }
    }

    /// What is to be done about events, in order.
    pub open spec fn of(events: Seq<ViewerEvent>) -> BatchView
        decreases events.len(),
    {
        if events.len() == 0 {
            BatchView::nothing()
        } else {
            BatchView::of(events.drop_last()).with(events.last())
        }
    }
}

impl EventBatch {
    /// Nothing to do.
    pub fn new() -> (batch: EventBatch)
        ensures
            batch@ == BatchView::nothing(),
    {
        let batch = EventBatch {
            presentation: None,
            patches: Vec::new(),
            dmabuf_updates: Vec::new(),
            mouse_mode: None,
            cursor_shape: None,
            cursor_visible: None,
            clipboard: Vec::new(),
            status: None,
            disconnected: false,
        };
        assert(batch@ =~= BatchView::nothing());
        batch
    }

    /// Takes in one more event.
    pub fn add_event(&mut self, event: ViewerEvent)
        ensures
            final(self)@ == old(self)@.with(event),
    {
        match event {
            ViewerEvent::Frame(frame) => {
                self.presentation = Some(Presentation::Frame(frame));
                self.patches = Vec::new();
            },
            ViewerEvent::Dmabuf(frame) => {
                self.presentation = Some(Presentation::Dmabuf(frame));
                self.patches = Vec::new();
            },
            ViewerEvent::FramePatch(patch) => self.patches.push(patch),
            ViewerEvent::DmabufUpdate(update) => self.dmabuf_updates.push(update),
            ViewerEvent::CursorShapeChanged(shape) => self.cursor_shape = Some(shape),
            ViewerEvent::CursorVisibilityChanged(visible) => self.cursor_visible = Some(visible),
            ViewerEvent::MouseModeChanged(mode) => self.mouse_mode = Some(mode),
            ViewerEvent::ClipboardGuestChanged(selection, content) => {
                self.clipboard.push((selection, content))
            },
            ViewerEvent::Status(message) => self.status = Some(message),
            ViewerEvent::Disconnected => self.disconnected = true,
        }
        assert(self@ =~= old(self)@.with(event));
    }

    /// Notes that no more events will come.
    pub fn closed(&mut self)
        ensures
            final(self)@ == old(self)@.with(ViewerEvent::Disconnected),
    {
        self.disconnected = true;
        assert(self@ =~= old(self)@.with(ViewerEvent::Disconnected));
    }
}

/// The whole picture that an event brings.
pub open spec fn picture_of(event: ViewerEvent) -> Option<Presentation> {
    match event {
        ViewerEvent::Frame(frame) => Some(Presentation::Frame(frame)),
        ViewerEvent::Dmabuf(frame) => Some(Presentation::Dmabuf(frame)),
        _ => None,
    }
}

/// The changes in software that events bring, in order.
pub open spec fn patches_of(events: Seq<ViewerEvent>) -> Seq<FramePatch>
    decreases events.len(),
{
    if events.len() == 0 {
        Seq::empty()
    } else {
        let before = patches_of(events.drop_last());
        match events.last() {
            ViewerEvent::FramePatch(patch) => before.push(patch),
            _ => before,
        }
    }
}

/// However many pictures arrive, the last one is shown, and then exactly the changes that came
/// after it, in order.
pub proof fn last_picture_is_shown(events: Seq<ViewerEvent>, at: int)
    requires
        0 <= at < events.len(),
        picture_of(events[at]) is Some,
        forall|later: int| at < later < events.len() ==> picture_of(#[trigger] events[later]) is None,
    ensures
        BatchView::of(events).presentation == picture_of(events[at]),
        BatchView::of(events).patches == patches_of(events.skip(at + 1)),
    decreases events.len(),
{
    let before = events.drop_last();
    if at == events.len() - 1 {
        assert(events.skip(at + 1) =~= Seq::<ViewerEvent>::empty());
    } else {
        assert(picture_of(events[events.len() - 1]) is None);
        assert(before[at] == events[at]);
        assert forall|later: int| at < later < before.len() implies picture_of(
            #[trigger] before[later],
        ) is None by {
            assert(before[later] == events[later]);
        }
        last_picture_is_shown(before, at);
        assert(events.skip(at + 1).drop_last() =~= before.skip(at + 1));
        assert(events.skip(at + 1).last() == events.last());
    }
}

/// Without a whole picture every change is kept.
pub proof fn changes_are_kept(events: Seq<ViewerEvent>)
    requires
        forall|i: int| 0 <= i < events.len() ==> picture_of(#[trigger] events[i]) is None,
    ensures
        BatchView::of(events).presentation is None,
        BatchView::of(events).patches == patches_of(events),
    decreases events.len(),
{
    if events.len() > 0 {
        let before = events.drop_last();
        assert(picture_of(events[events.len() - 1]) is None);
        assert forall|i: int| 0 <= i < before.len() implies picture_of(#[trigger] before[i]) is None by {
            assert(before[i] == events[i]);
        }
        changes_are_kept(before);
    }
}

/// How far a picture in a shared buffer got.
#[derive(Debug)]
pub enum ScanoutOutcome {
    Shown,
    NotImported(Failure),
    NotPrepared(Failure),
}

/// What becomes of the buffer that was shown before.
#[derive(Copy, Clone, Debug, PartialEq, Eq, Structural)]
pub enum BufferSlot {
    Keep,
    Clear,
    Replace,
}

/// The message about a picture in a shared buffer.
pub open spec fn scanout_text(outcome: ScanoutOutcome) -> Option<Seq<char>> {
    match outcome {
        ScanoutOutcome::Shown => None,
        ScanoutOutcome::NotImported(failure) => Some(
            "Could not import the DMABUF scanout: "@ + joined(failure@, ": "@),
        ),
        ScanoutOutcome::NotPrepared(failure) => Some(
            "Could not prepare the DMABUF scanout for display: "@ + joined(failure@, ": "@),
        ),
    }
}

/// Notes how far a picture in a shared buffer got, and tells what becomes of the buffer that was
/// shown before. A failure takes the place of the status.
pub fn scanout_shown(status: &mut Option<String>, outcome: ScanoutOutcome) -> (slot: BufferSlot)
    ensures
        slot == match outcome {
            ScanoutOutcome::Shown => BufferSlot::Replace,
            ScanoutOutcome::NotImported(_) => BufferSlot::Clear,
            ScanoutOutcome::NotPrepared(_) => BufferSlot::Keep,
        },
        opt_string(*final(status)) == match scanout_text(outcome) {
            Some(text) => Some(text),
            None => opt_string(*old(status)),
        },
{
    match outcome {
        ScanoutOutcome::Shown => BufferSlot::Replace,
        ScanoutOutcome::NotImported(failure) => {
            let reason = failure.in_full();
            *status = Some(concat2("Could not import the DMABUF scanout: ", reason.as_str()));
            BufferSlot::Clear
        },
        ScanoutOutcome::NotPrepared(failure) => {
            let reason = failure.in_full();
            *status = Some(
                concat2("Could not prepare the DMABUF scanout for display: ", reason.as_str()),
            );
            BufferSlot::Keep
        },
    }
}

/// The status where a buffer changes before there is one.
pub const EARLY_UPDATE: &'static str =
    "Received a DMABUF update before the initial scanout was available.";

/// Notes how far the changes of a shared buffer got: `Ok(false)` where there is no buffer, which is
/// told unless there is something else to tell.
pub fn buffer_refreshed(status: &mut Option<String>, outcome: Result<bool, Failure>)
    ensures
        opt_string(*final(status)) == match outcome {
            Ok(true) => opt_string(*old(status)),
            Ok(false) => if *old(status) is None {
                Some(EARLY_UPDATE@)
            } else {
                opt_string(*old(status))
            },
            Err(failure) => Some(
                "Could not refresh the DMABUF scanout: "@ + joined(failure@, ": "@),
            ),
        },
{
    match outcome {
        Ok(true) => {},
        Ok(false) => {
            if status.is_none() {
                *status = Some(EARLY_UPDATE.to_owned());
            }
        },
        Err(failure) => {
            let reason = failure.in_full();
            *status = Some(concat2("Could not refresh the DMABUF scanout: ", reason.as_str()));
        },
    }
}

/// The status to show, where there is a new one. That the listener is gone outweighs the rest.
pub fn status_line(status: Option<String>, disconnected: bool, vm_name: &str) -> (line: Option<
    String,
>)
    ensures
        opt_string(line) == if disconnected {
            Some("Disconnected from `"@ + vm_name@ + "`."@)
        } else {
            opt_string(status)
        },
{
    if disconnected {
        Some(concat3("Disconnected from `", vm_name, "`."))
    } else {
        status
    }
}

/// The title of a window that shows a frame.
pub open spec fn frame_title(base: Seq<char>, width: u32, height: u32) -> Seq<char> {
    base + " - "@ + decimal(width as nat) + "x"@ + decimal(height as nat)
}

impl UiState {
    /// Notes that a frame is shown, and gives the window's title. A frame of another size makes the
    /// pointer's last place void.
    pub fn present_frame(&mut self, base_title: &str, width: u32, height: u32) -> (title: String)
        ensures
            title@ == frame_title(base_title@, width, height),
            final(self).frame_size == Some((width, height)),
            final(self).last_pointer_guest_position == if old(self).frame_size == Some(
                (width, height),
            ) {
                old(self).last_pointer_guest_position
            } else {
                None
            },
    {
        let same = match self.frame_size {
            Some((known_width, known_height)) => known_width == width && known_height == height,
            None => false,
        };
        if !same {
            self.last_pointer_guest_position = None;
        }
        self.frame_size = Some((width, height));
        let across = to_decimal(width as u64);
        let down = to_decimal(height as u64);
        concat5(base_title, " - ", across.as_str(), "x", down.as_str())
    }
}

/// What a key does in the window, before the guest gets to see it.
#[derive(Copy, Clone, Debug, PartialEq, Eq, Structural)]
pub enum WindowAction {
    Perform(Action),
    LeaveFullscreen,
    Pass,
}

/// The key that leaves the full screen.
pub const KEY_ESCAPE: u32 = 0xff1b;

/// The key is bound to the action.
pub open spec fn bound(
    hotkeys: HotkeySet,
    action: Action,
    keyval: u32,
    lower_keyval: u32,
    modifiers: u32,
) -> bool {
    hotkeys.of(action).fires(keyval, lower_keyval, modifiers)
}

/// What a key does in the window. Releasing the input is not among it: that is up to the keyboard.
pub open spec fn key_action(
    hotkeys: HotkeySet,
    fullscreen: bool,
    keyval: u32,
    lower_keyval: u32,
    modifiers: u32,
) -> WindowAction {
    if bound(hotkeys, Action::ToggleFullscreen, keyval, lower_keyval, modifiers) {
        WindowAction::Perform(Action::ToggleFullscreen)
    } else if keyval == KEY_ESCAPE && fullscreen {
        WindowAction::LeaveFullscreen
    } else if bound(hotkeys, Action::RotateDmabufView, keyval, lower_keyval, modifiers) {
        WindowAction::Perform(Action::RotateDmabufView)
    } else if bound(hotkeys, Action::ToggleDmabufFlip, keyval, lower_keyval, modifiers) {
        WindowAction::Perform(Action::ToggleDmabufFlip)
    } else if bound(hotkeys, Action::ResetDmabufTransform, keyval, lower_keyval, modifiers) {
        WindowAction::Perform(Action::ResetDmabufTransform)
    } else {
        WindowAction::Pass
    }
}

/// What a key does in the window. `lower_keyval` is the key without shift.
pub fn window_action(
    hotkeys: &ViewerHotkeys,
    fullscreen: bool,
    keyval: u32,
    lower_keyval: u32,
    modifiers: u32,
) -> (action: WindowAction)
    ensures
        action == key_action(hotkeys@, fullscreen, keyval, lower_keyval, modifiers),
{
    if hotkeys.toggle_fullscreen().matches(keyval, lower_keyval, modifiers) {
        WindowAction::Perform(Action::ToggleFullscreen)
    } else if keyval == KEY_ESCAPE && fullscreen {
        WindowAction::LeaveFullscreen
    } else if hotkeys.rotate_dmabuf_view().matches(keyval, lower_keyval, modifiers) {
        WindowAction::Perform(Action::RotateDmabufView)
    } else if hotkeys.toggle_dmabuf_flip().matches(keyval, lower_keyval, modifiers) {
        WindowAction::Perform(Action::ToggleDmabufFlip)
    } else if hotkeys.reset_dmabuf_transform().matches(keyval, lower_keyval, modifiers) {
        WindowAction::Perform(Action::ResetDmabufTransform)
    } else {
        WindowAction::Pass
    }
}

/// The parts of the window that a change to or from fullscreen moves.
#[derive(Copy, Clone, Debug, PartialEq, Eq)]
pub struct ChromePlan {
    /// The title bar is shown.
    pub titlebar: bool,
    /// The strip at the top edge takes the pointer.
    pub hotspot: bool,
    /// The floating controls are shown for a while.
    pub floating_controls: bool,
    /// The icon of the fullscreen buttons.
    pub button_icon: &'static str,
}

/// What the window looks like.
pub fn chrome_plan(fullscreen: bool, decorated: bool) -> (plan: ChromePlan)
    ensures
        plan.titlebar == (!fullscreen && decorated),
        plan.hotspot == fullscreen,
        plan.floating_controls == fullscreen,
        plan.button_icon@ == if fullscreen {
            "view-restore-symbolic"@
        } else {
            "view-fullscreen-symbolic"@
        },
{
    ChromePlan {
        titlebar: !fullscreen && decorated,
        hotspot: fullscreen,
        floating_controls: fullscreen,
        button_icon: if fullscreen {
            "view-restore-symbolic"
        } else {
            "view-fullscreen-symbolic"
        },
    }
}

/// A value kept between two limits.
pub open spec fn kept_between(value: int, low: int, high: int) -> int {
    if value < low {
        low
    } else if value > high {
        high
    } else {
        value
    }
}

/// The size of a new window: that of the guest display, within what suits a desktop.
pub fn suggested_window_size(width: u32, height: u32) -> (size: (i32, i32))
    ensures
        size.0 == kept_between(width as int, 640, 1280),
        size.1 == kept_between(height as int, 480, 960),
{
    let across: i32 = if width < 640 {
        640
    } else if width > 1280 {
        1280
    } else {
        width as i32
    };
    let down: i32 = if height < 480 {
        480
    } else if height > 960 {
        960
    } else {
        height as i32
    };
    (across, down)
}

/// What a chooser shows of a machine.
#[derive(Debug)]
pub struct VmCard {
    pub name: String,
    pub uuid: String,
    pub source: String,
    pub details: String,
}

/// What a chooser shows of a machine.
pub fn vm_card(vm: &VmSummary) -> (card: VmCard)
    ensures
        card.name@ == vm.name@,
        card.uuid@ == "UUID: "@ + vm.uuid@,
        card.source@ == "Source: "@ + vm.source_label@,
        card.details@ == "Owner: "@ + vm.owner@ + "   |   Consoles: "@ + decimal(
            vm.console_ids@.len(),
        ),
{
    let consoles = to_decimal(vm.console_ids.len() as u64);
    VmCard {
        name: vm.name.clone(),
        uuid: concat2("UUID: ", vm.uuid.as_str()),
        source: concat2("Source: ", vm.source_label.as_str()),
        details: concat4("Owner: ", vm.owner.as_str(), "   |   Consoles: ", consoles.as_str()),
    }
}

/// The machine in the chosen row. Rows without a machine count for nothing.
pub fn chosen_vm(vms: &Vec<VmSummary>, row: Option<i32>) -> (vm: Option<VmSummary>)
    ensures
        match row {
            Some(index) if 0 <= index < vms@.len() => vm matches Some(found) && found@
                == vms@[index as int]@,
            _ => vm is None,
        },
{
    match row {
        Some(index) => {
            if index < 0 {
                return None;
            }
            let place: usize = index as usize;
            if place < vms.len() {
                Some(vms[place].clone())
            } else {
                None
            }
        },
        None => None,
    }
}

/// An event concerns its own part of a batch, and no other: the last picture, mode, pointer and
/// status count, changes and copies are kept in order, and only a whole picture makes changes of
/// the one before it void.
pub proof fn events_concern_their_own_part(batch: &mut EventBatch, event: ViewerEvent)
    requires
        call_ensures(EventBatch::add_event, (batch, event), ()),
    ensures
        event matches ViewerEvent::Frame(frame) ==> final(batch).presentation == Some(
            Presentation::Frame(frame),
        ),
        event matches ViewerEvent::Dmabuf(frame) ==> final(batch).presentation == Some(
            Presentation::Dmabuf(frame),
        ),
        !(event is Frame) && !(event is Dmabuf) ==> final(batch).presentation == old(
            batch,
        ).presentation,
        event is Frame || event is Dmabuf ==> final(batch).patches.len() == 0,
        event matches ViewerEvent::FramePatch(patch) ==> final(batch).patches@ == old(
            batch,
        ).patches@.push(patch),
        !(event is Frame) && !(event is Dmabuf) && !(event is FramePatch) ==> final(batch).patches@
            == old(batch).patches@,
        event matches ViewerEvent::DmabufUpdate(update) ==> final(batch).dmabuf_updates@ == old(
            batch,
        ).dmabuf_updates@.push(update),
        !(event is DmabufUpdate) ==> final(batch).dmabuf_updates@ == old(batch).dmabuf_updates@,
        event matches ViewerEvent::MouseModeChanged(mode) ==> final(batch).mouse_mode == Some(mode),
        !(event is MouseModeChanged) ==> final(batch).mouse_mode == old(batch).mouse_mode,
        event matches ViewerEvent::CursorShapeChanged(shape) ==> final(batch).cursor_shape == Some(
            shape,
        ),
        !(event is CursorShapeChanged) ==> final(batch).cursor_shape == old(batch).cursor_shape,
        event matches ViewerEvent::CursorVisibilityChanged(visible) ==> final(batch).cursor_visible
            == Some(visible),
        !(event is CursorVisibilityChanged) ==> final(batch).cursor_visible == old(
            batch,
        ).cursor_visible,
        event matches ViewerEvent::ClipboardGuestChanged(selection, content) ==> final(
            batch).clipboard@ == old(batch).clipboard@.push((selection, content)),
        !(event is ClipboardGuestChanged) ==> final(batch).clipboard@ == old(batch).clipboard@,
        event matches ViewerEvent::Status(message) ==> final(batch).status == Some(message),
        !(event is Status) ==> final(batch).status == old(batch).status,
        final(batch).disconnected <==> old(batch).disconnected || event is Disconnected,
{
}

/// However many events arrive, the last mouse mode, pointer and status are those that count, and
/// that the listener is gone is not forgotten.
pub proof fn last_news_counts(events: Seq<ViewerEvent>, at: int)
    requires
        0 <= at < events.len(),
    ensures
        events[at] is MouseModeChanged && (forall|i: int|
            at < i < events.len() ==> !(#[trigger] events[i] is MouseModeChanged))
            ==> BatchView::of(events).mouse_mode == Some(events[at]->MouseModeChanged_0),
        events[at] is CursorVisibilityChanged && (forall|i: int|
            at < i < events.len() ==> !(#[trigger] events[i] is CursorVisibilityChanged))
            ==> BatchView::of(events).cursor_visible == Some(events[at]->CursorVisibilityChanged_0),
        events[at] is CursorShapeChanged && (forall|i: int|
            at < i < events.len() ==> !(#[trigger] events[i] is CursorShapeChanged))
            ==> BatchView::of(events).cursor_shape == Some(events[at]->CursorShapeChanged_0),
        events[at] is Status && (forall|i: int|
            at < i < events.len() ==> !(#[trigger] events[i] is Status)) ==> BatchView::of(
            events,
        ).status == Some(events[at]->Status_0),
        events[at] is Disconnected ==> BatchView::of(events).disconnected,
        events[at] matches ViewerEvent::ClipboardGuestChanged(selection, content)
            ==> BatchView::of(events).clipboard.contains((selection, content)),
        events[at] matches ViewerEvent::DmabufUpdate(update) ==> BatchView::of(
            events,
        ).dmabuf_updates.contains(update),
    decreases events.len(),
{
    let sooner = events.drop_last();
    let end = events.last();
    let before = BatchView::of(sooner);
    let after = BatchView::of(events);
    assert(events[events.len() - 1] == end);
    if at < events.len() - 1 {
        last_news_counts(sooner, at);
        assert forall|i: int| at < i < sooner.len() implies #[trigger] sooner[i] == events[i] by {}
        if let ViewerEvent::ClipboardGuestChanged(selection, content) = events[at] {
            let i = choose|i: int|
                0 <= i < before.clipboard.len() && before.clipboard[i] == (selection, content);
            assert(after.clipboard[i] == (selection, content));
        }
        if let ViewerEvent::DmabufUpdate(update) = events[at] {
            let i = choose|i: int|
                0 <= i < before.dmabuf_updates.len() && before.dmabuf_updates[i] == update;
            assert(after.dmabuf_updates[i] == update);
        }
    } else {
        if let ViewerEvent::ClipboardGuestChanged(selection, content) = end {
            assert(after.clipboard[before.clipboard.len() as int] == (selection, content));
        }
        if let ViewerEvent::DmabufUpdate(update) = end {
            assert(after.dmabuf_updates[before.dmabuf_updates.len() as int] == update);
        }
    }
}

/// A key of the window does what it is bound to: what is performed is bound to the key, and is never
/// the release of the input. Escape leaves full screen unless it toggles it. A key that is passed on
/// is bound to nothing that the window does.
pub proof fn keys_do_what_they_are_bound_to(
    hotkeys: ViewerHotkeys,
    fullscreen: bool,
    keyval: u32,
    lower_keyval: u32,
    modifiers: u32,
    action: WindowAction,
)
    requires
        call_ensures(
            window_action,
            (&hotkeys, fullscreen, keyval, lower_keyval, modifiers),
            action,
        ),
    ensures
        ({
            let toggles = hotkeys@.toggle_fullscreen.fires(keyval, lower_keyval, modifiers);
            let rotates = hotkeys@.rotate_dmabuf_view.fires(keyval, lower_keyval, modifiers);
            let flips = hotkeys@.toggle_dmabuf_flip.fires(keyval, lower_keyval, modifiers);
            let resets = hotkeys@.reset_dmabuf_transform.fires(keyval, lower_keyval, modifiers);
            let leaves = keyval == 0xff1b && fullscreen;
            &&& action == WindowAction::Perform(Action::ToggleFullscreen) <==> toggles
            &&& action is LeaveFullscreen <==> leaves && !toggles
            &&& action is Pass <==> !toggles && !leaves && !rotates && !flips && !resets
            &&& action == WindowAction::Perform(Action::RotateDmabufView) ==> rotates
            &&& action == WindowAction::Perform(Action::ToggleDmabufFlip) ==> flips
            &&& action == WindowAction::Perform(Action::ResetDmabufTransform) ==> resets
            &&& action != WindowAction::Perform(Action::ReleaseCursor)
            &&& !toggles && !leaves ==> {
                &&& rotates && !flips && !resets ==> action == WindowAction::Perform(
                    Action::RotateDmabufView,
                )
                &&& flips && !rotates && !resets ==> action == WindowAction::Perform(
                    Action::ToggleDmabufFlip,
                )
                &&& resets && !rotates && !flips ==> action == WindowAction::Perform(
                    Action::ResetDmabufTransform,
                )
            }
        }),
{
}

/// A new window is as large as the guest display where that suits a desktop, and else the nearest
/// size that does; a larger display never gets a smaller window.
pub proof fn windows_suit_the_desktop(
    width: u32,
    height: u32,
    size: (i32, i32),
    other_width: u32,
    other_height: u32,
    other_size: (i32, i32),
)
    requires
        call_ensures(suggested_window_size, (width, height), size),
        call_ensures(suggested_window_size, (other_width, other_height), other_size),
    ensures
        640 <= size.0 <= 1280,
        480 <= size.1 <= 960,
        640 <= width <= 1280 ==> size.0 == width,
        480 <= height <= 960 ==> size.1 == height,
        width <= other_width ==> size.0 <= other_size.0,
        height <= other_height ==> size.1 <= other_size.1,
{
}

/// In full screen there are controls that float and no title bar; in a window there is a title bar
/// where the window is decorated, and nothing floats.
pub proof fn controls_are_always_at_hand(fullscreen: bool, decorated: bool, plan: ChromePlan)
    requires
        call_ensures(chrome_plan, (fullscreen, decorated), plan),
    ensures
        !(plan.titlebar && plan.floating_controls),
        plan.floating_controls <==> fullscreen,
        plan.hotspot <==> fullscreen,
        decorated ==> plan.titlebar || plan.floating_controls,
        !decorated ==> !plan.titlebar,
{
}

/// The pointer's last place is kept exactly while the frame keeps its size. The title shows the width
/// before the height.
pub proof fn places_are_kept_with_the_size(
    state: &mut UiState,
    base_title: &str,
    width: u32,
    height: u32,
    title: String,
)
    requires
        call_ensures(UiState::present_frame, (state, base_title, width, height), title),
    ensures
        final(state).frame_size == Some((width, height)),
        old(state).frame_size == Some((width, height)) ==> final(state).last_pointer_guest_position
            == old(state).last_pointer_guest_position,
        old(state).frame_size != Some((width, height)) ==> final(state).last_pointer_guest_position
            is None,
        title@.len() > base_title@.len(),
        title@.take(base_title@.len() as int) == base_title@,
        ({
            let shown = title@.skip(base_title@.len() as int + 3);
            let (across, down) = (decimal(width as nat), decimal(height as nat));
            &&& shown.len() == across.len() + 1 + down.len()
            &&& shown.take(across.len() as int) == across
            &&& shown.skip(across.len() as int + 1) == down
        }),
{
    reveal_strlit(" - ");
    reveal_strlit("x");
    assert(title@.take(base_title@.len() as int) =~= base_title@);
    let shown = title@.skip(base_title@.len() as int + 3);
    let (across, down) = (decimal(width as nat), decimal(height as nat));
    assert(shown.take(across.len() as int) =~= across);
    assert(shown.skip(across.len() as int + 1) =~= down);
}

/// A new batch holds nothing.
pub proof fn new_batches_are_empty(batch: EventBatch)
    requires
        call_ensures(EventBatch::new, (), batch),
    ensures
        batch.presentation is None,
        batch.patches.len() == 0 && batch.dmabuf_updates.len() == 0 && batch.clipboard.len() == 0,
        batch.mouse_mode is None && batch.cursor_shape is None && batch.cursor_visible is None,
        batch.status is None && !batch.disconnected,
{
}

/// A buffer is taken over where its picture is shown, kept where the picture could not be prepared,
/// and given up where it could not be imported; only a failure takes the place of the status. That
/// the listener is gone outweighs every status.
pub proof fn failures_take_the_place_of_the_status(
    status: &mut Option<String>,
    outcome: ScanoutOutcome,
    slot: BufferSlot,
    shown: Option<String>,
    disconnected: bool,
    vm_name: &str,
    line: Option<String>,
)
    requires
        call_ensures(scanout_shown, (status, outcome), slot),
        call_ensures(status_line, (shown, disconnected, vm_name), line),
    ensures
        slot is Replace <==> outcome is Shown,
        slot is Clear <==> outcome is NotImported,
        slot is Keep <==> outcome is NotPrepared,
        outcome is Shown ==> opt_string(*final(status)) == opt_string(*old(status)),
        !(outcome is Shown) ==> *final(status) is Some,
        disconnected ==> line is Some && crate::text::scan::occurs(line->0@, vm_name@),
        !disconnected ==> opt_string(line) == opt_string(shown),
{
    if disconnected {
        reveal_strlit("Disconnected from `");
        let text = line->0@;
        assert(text.subrange(19, 19int + vm_name@.len()) =~= vm_name@);
        assert(crate::text::scan::occurs_at(text, vm_name@, 19));
    }
}

}
