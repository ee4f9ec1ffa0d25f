//! From key events over the window to key events for the guest.

use vstd::prelude::*;

use super::hotkeys::Hotkey;
use super::input::InputEvent;
use super::keymap::gdk_keycode_to_qnum;
use super::keymap::gdk_qnum_of;
use super::keymap::qnum_of;

verus! {

/// A key combination that the menu sends to the guest.
#[derive(Copy, Clone, Debug, PartialEq, Eq, Structural)]
pub enum GuestShortcut {
    CtrlAltBackspace,
    CtrlAltDelete,
    CtrlAltF1,
    CtrlAltF2,
    CtrlAltF3,
    CtrlAltF4,
    CtrlAltF5,
    CtrlAltF6,
    CtrlAltF7,
    CtrlAltF8,
    CtrlAltF9,
}

/// QEMU's number for the left control key.
pub const QNUM_CONTROL: u32 = 29;

/// QEMU's number for the left alt key.
pub const QNUM_ALT: u32 = 56;

impl GuestShortcut {
    /// The shortcuts in the order of the menu.
    pub open spec fn menu() -> Seq<GuestShortcut> {
        seq![
            GuestShortcut::CtrlAltBackspace,
            GuestShortcut::CtrlAltDelete,
            GuestShortcut::CtrlAltF1,
            GuestShortcut::CtrlAltF2,
            GuestShortcut::CtrlAltF3,
            GuestShortcut::CtrlAltF4,
            GuestShortcut::CtrlAltF5,
            GuestShortcut::CtrlAltF6,
            GuestShortcut::CtrlAltF7,
            GuestShortcut::CtrlAltF8,
            GuestShortcut::CtrlAltF9,
        ]
    }

    /// The name of the key that goes with control and alt.
    pub open spec fn key_name(self) -> Seq<char> {
        match self {
            GuestShortcut::CtrlAltBackspace => "BackSpace"@,
            GuestShortcut::CtrlAltDelete => "Delete"@,
            GuestShortcut::CtrlAltF1 => "F1"@,
            GuestShortcut::CtrlAltF2 => "F2"@,
            GuestShortcut::CtrlAltF3 => "F3"@,
            GuestShortcut::CtrlAltF4 => "F4"@,
            GuestShortcut::CtrlAltF5 => "F5"@,
            GuestShortcut::CtrlAltF6 => "F6"@,
            GuestShortcut::CtrlAltF7 => "F7"@,
            GuestShortcut::CtrlAltF8 => "F8"@,
            GuestShortcut::CtrlAltF9 => "F9"@,
        }
    }

    /// QEMU's number for the key that goes with control and alt.
    pub open spec fn key_qnum(self) -> u32 {
        match self {
            GuestShortcut::CtrlAltBackspace => 14,
            GuestShortcut::CtrlAltDelete => 211,
            GuestShortcut::CtrlAltF1 => 59,
            GuestShortcut::CtrlAltF2 => 60,
            GuestShortcut::CtrlAltF3 => 61,
            GuestShortcut::CtrlAltF4 => 62,
            GuestShortcut::CtrlAltF5 => 63,
            GuestShortcut::CtrlAltF6 => 64,
            GuestShortcut::CtrlAltF7 => 65,
            GuestShortcut::CtrlAltF8 => 66,
            GuestShortcut::CtrlAltF9 => 67,
        }
    }

    /// The keys of the shortcut in the order in which they go down.
    pub open spec fn keys(self) -> Seq<u32> {
        seq![QNUM_CONTROL, QNUM_ALT, self.key_qnum()]
    }

    /// The shortcuts in the order of the menu.
    pub fn all() -> (list: Vec<GuestShortcut>)
        ensures
            list@ == Self::menu(),
    {
        let list = vec![
            GuestShortcut::CtrlAltBackspace,
            GuestShortcut::CtrlAltDelete,
            GuestShortcut::CtrlAltF1,
            GuestShortcut::CtrlAltF2,
            GuestShortcut::CtrlAltF3,
            GuestShortcut::CtrlAltF4,
            GuestShortcut::CtrlAltF5,
            GuestShortcut::CtrlAltF6,
            GuestShortcut::CtrlAltF7,
            GuestShortcut::CtrlAltF8,
            GuestShortcut::CtrlAltF9,
        ];
        assert(list@ =~= Self::menu());
        list
    }

    /// The text of the menu entry.
    pub fn label(self) -> (text: String)
        ensures
            text@ == "Ctrl + Alt + "@ + self.key_name(),
    {
        let key = match self {
            GuestShortcut::CtrlAltBackspace => "BackSpace",
            GuestShortcut::CtrlAltDelete => "Delete",
            GuestShortcut::CtrlAltF1 => "F1",
            GuestShortcut::CtrlAltF2 => "F2",
            GuestShortcut::CtrlAltF3 => "F3",
            GuestShortcut::CtrlAltF4 => "F4",
            GuestShortcut::CtrlAltF5 => "F5",
            GuestShortcut::CtrlAltF6 => "F6",
            GuestShortcut::CtrlAltF7 => "F7",
            GuestShortcut::CtrlAltF8 => "F8",
            GuestShortcut::CtrlAltF9 => "F9",
        };
        crate::text::concat2("Ctrl + Alt + ", key)
    }

    /// The keys of the shortcut in the order in which they go down.
    pub fn qnums(self) -> (keys: Vec<u32>)
        ensures
            keys@ == self.keys(),
    {
        let key: u32 = match self {
            GuestShortcut::CtrlAltBackspace => 14,
            GuestShortcut::CtrlAltDelete => 211,
            GuestShortcut::CtrlAltF1 => 59,
            GuestShortcut::CtrlAltF2 => 60,
            GuestShortcut::CtrlAltF3 => 61,
            GuestShortcut::CtrlAltF4 => 62,
            GuestShortcut::CtrlAltF5 => 63,
            GuestShortcut::CtrlAltF6 => 64,
            GuestShortcut::CtrlAltF7 => 65,
            GuestShortcut::CtrlAltF8 => 66,
            GuestShortcut::CtrlAltF9 => 67,
        };
        let keys: Vec<u32> = vec![QNUM_CONTROL, QNUM_ALT, key];
        assert(keys@ =~= self.keys());
        keys
    }
}

/// A press of each key.
pub open spec fn presses(keys: Seq<u32>) -> Seq<InputEvent> {
    keys.map_values(|qnum: u32| InputEvent::KeyPress(qnum))
}

/// A release of each key.
pub open spec fn releases(keys: Seq<u32>) -> Seq<InputEvent> {
    keys.map_values(|qnum: u32| InputEvent::KeyRelease(qnum))
}

/// The events for a shortcut: its keys go down in order and up in the reverse order.
pub fn send_guest_shortcut(shortcut: GuestShortcut) -> (events: Vec<InputEvent>)
    ensures
        events@ == presses(shortcut.keys()) + releases(shortcut.keys().reverse()),
{
    let keys = shortcut.qnums();
    let events = vec![
        InputEvent::KeyPress(keys[0]),
        InputEvent::KeyPress(keys[1]),
        InputEvent::KeyPress(keys[2]),
        InputEvent::KeyRelease(keys[2]),
        InputEvent::KeyRelease(keys[1]),
        InputEvent::KeyRelease(keys[0]),
    ];
    assert(events@ =~= presses(shortcut.keys()) + releases(shortcut.keys().reverse()));
    events
}

/// The keys that are down after a list of events, given those that were down before.
pub open spec fn held_after(held: Set<u32>, events: Seq<InputEvent>) -> Set<u32>
    decreases events.len(),
{
    if events.len() == 0 {
        held
    } else {
        let before = held_after(held, events.drop_last());
        match events.last() {
            InputEvent::KeyPress(qnum) => before.insert(qnum),
            InputEvent::KeyRelease(qnum) => before.remove(qnum),
            _ => before,
        }
    }
}

/// A shortcut leaves none of its keys down, and no other key changed.
pub proof fn shortcuts_leave_no_key_down(shortcut: GuestShortcut, held: Set<u32>)
    ensures
        held_after(held, presses(shortcut.keys()) + releases(shortcut.keys().reverse()))
            =~= held.remove(QNUM_CONTROL).remove(QNUM_ALT).remove(shortcut.key_qnum()),
{
    let events = presses(shortcut.keys()) + releases(shortcut.keys().reverse());
    reveal_with_fuel(held_after, 7);
    let e5 = events.drop_last();
    let e4 = e5.drop_last();
    let e3 = e4.drop_last();
    let e2 = e3.drop_last();
    let e1 = e2.drop_last();
    assert(e1.drop_last().len() == 0);
    assert(events.last() == InputEvent::KeyRelease(QNUM_CONTROL));
    assert(e5.last() == InputEvent::KeyRelease(QNUM_ALT));
    assert(e4.last() == InputEvent::KeyRelease(shortcut.key_qnum()));
    assert(e3.last() == InputEvent::KeyPress(shortcut.key_qnum()));
    assert(e2.last() == InputEvent::KeyPress(QNUM_ALT));
    assert(e1.last() == InputEvent::KeyPress(QNUM_CONTROL));
}

/// The keys but for the given one.
pub open spec fn without(keys: Seq<u32>, key: u32) -> Seq<u32> {
    if keys.contains(key) {
        keys.remove(keys.index_of(key))
    } else {
        keys
    }
}

/// The keys that the guest takes to be down, and those whose next release it must not hear of.
#[derive(Debug)]
pub struct PressedKeyState {
    pressed: Vec<u32>,
    suppressed_releases: Vec<u32>,
}

impl PressedKeyState {
    /// No key is listed twice.
    #[verifier::type_invariant]
    spec fn keys_are_distinct(&self) -> bool {
        &&& self.pressed@.no_duplicates()
        &&& self.suppressed_releases@.no_duplicates()
    }

    /// The keys that are down, in the order in which they went down.
    pub closed spec fn down(&self) -> Seq<u32> {
        self.pressed@
    }

    /// The keys whose next release is not passed on.
    pub closed spec fn suppressed(&self) -> Set<u32> {
        self.suppressed_releases@.to_set()
    }

    /// A key goes down. Tells whether it was up.
    pub fn press(&mut self, qnum: u32) -> (changed: bool)
        ensures
            changed == !old(self).down().contains(qnum),
            final(self).down() == if changed {
                old(self).down().push(qnum)
            } else {
                old(self).down()
            },
            final(self).suppressed() == old(self).suppressed(),
    {
        proof {
            use_type_invariant(&*self);
        }
        if position(&self.pressed, qnum).is_some() {
            return false;
        }
        let mut pressed: Vec<u32> = Vec::new();
        std::mem::swap(&mut pressed, &mut self.pressed);
        pressed.push(qnum);
        self.pressed = pressed;
        true
    }

    /// A key goes up. Tells whether it was down.
    pub fn release(&mut self, qnum: u32) -> (changed: bool)
        ensures
            changed == old(self).down().contains(qnum),
            final(self).down() == without(old(self).down(), qnum),
            final(self).suppressed() == old(self).suppressed(),
    {
        proof {
            use_type_invariant(&*self);
        }
        match position(&self.pressed, qnum) {
            None => false,
            Some(index) => {
                let mut pressed: Vec<u32> = Vec::new();
                std::mem::swap(&mut pressed, &mut self.pressed);
                let ghost before = pressed@;
                assert(before[index as int] == qnum && before[before.index_of(qnum)] == qnum);
                pressed.remove(index);
                assert(pressed@ =~= before.remove(index as int));
                self.pressed = pressed;
                true
            },
        }
    }

    /// The next release of the key is not passed on.
    pub fn suppress_next_release(&mut self, qnum: u32)
        ensures
            final(self).down() == old(self).down(),
            final(self).suppressed() == old(self).suppressed().insert(qnum),
    {
        proof {
            use_type_invariant(&*self);
        }
        if position(&self.suppressed_releases, qnum).is_some() {
            assert(self.suppressed_releases@.to_set() =~= self.suppressed_releases@.to_set().insert(
                qnum,
            ));
            return;
        }
        let mut suppressed: Vec<u32> = Vec::new();
        std::mem::swap(&mut suppressed, &mut self.suppressed_releases);
        let ghost before = suppressed@;
        suppressed.push(qnum);
        proof {
            assert(suppressed@.to_set() =~= before.to_set().insert(qnum)) by {
                assert forall|k: u32| suppressed@.contains(k) == (before.contains(k) || k == qnum) by {
                    if before.contains(k) {
                        let i = choose|i: int| 0 <= i < before.len() && before[i] == k;
                        assert(suppressed@[i] == k);
                    }
                    if k == qnum {
                        assert(suppressed@[before.len() as int] == k);
                    }
                }
            }
        }
        self.suppressed_releases = suppressed;
    }

    /// Whether this release is one not to pass on. It is the last such.
    pub fn take_suppressed_release(&mut self, qnum: u32) -> (taken: bool)
        ensures
            taken == old(self).suppressed().contains(qnum),
            final(self).suppressed() == old(self).suppressed().remove(qnum),
            final(self).down() == old(self).down(),
    {
        proof {
            use_type_invariant(&*self);
        }
        match position(&self.suppressed_releases, qnum) {
            None => {
                assert(self.suppressed_releases@.to_set() =~= self.suppressed_releases@.to_set()
                    .remove(qnum));
                false
            },
            Some(index) => {
                let mut suppressed: Vec<u32> = Vec::new();
                std::mem::swap(&mut suppressed, &mut self.suppressed_releases);
                let ghost before = suppressed@;
                suppressed.remove(index);
                proof {
                    assert(suppressed@ =~= before.remove(index as int));
                    assert forall|k: u32| suppressed@.contains(k) == (before.contains(k) && k
                        != qnum) by {
                        if before.contains(k) && k != qnum {
                            let i = choose|i: int| 0 <= i < before.len() && before[i] == k;
                            if i < index {
                                assert(suppressed@[i] == k);
                            } else {
                                assert(suppressed@[i - 1] == k);
                            }
                        }
                    }
                    assert(suppressed@.to_set() =~= before.to_set().remove(qnum));
                }
                self.suppressed_releases = suppressed;
                true
            },
        }
    }

    /// Lets go of every key. The guest hears of each, and not again when the key itself goes up.
    pub fn release_all(&mut self) -> (events: Vec<InputEvent>)
        ensures
            events@ == releases(old(self).down()),
            final(self).down() == Seq::<u32>::empty(),
            final(self).suppressed() == old(self).suppressed().union(old(self).down().to_set()),
    {
        proof {
            use_type_invariant(&*self);
        }
        let mut pressed: Vec<u32> = Vec::new();
        std::mem::swap(&mut pressed, &mut self.pressed);
        let ghost before = self.suppressed();
        let mut events: Vec<InputEvent> = Vec::new();
        assert(pressed@.take(0).to_set() =~= Set::<u32>::empty());
        for i in 0..pressed.len()
            invariant
                events@ == releases(pressed@.take(i as int)),
                self.down() == Seq::<u32>::empty(),
                self.suppressed() =~= before.union(pressed@.take(i as int).to_set()),
        {
            events.push(InputEvent::KeyRelease(pressed[i]));
            self.suppress_next_release(pressed[i]);
            proof {
                let shorter = pressed@.take(i as int);
                let longer = pressed@.take(i + 1);
                assert(longer =~= shorter.push(pressed@[i as int]));
                assert(releases(longer) =~= releases(shorter).push(
                    InputEvent::KeyRelease(pressed@[i as int]),
                ));
                assert forall|k: u32| longer.contains(k) == (shorter.contains(k) || k
                    == pressed@[i as int]) by {
                    if shorter.contains(k) {
                        let j = choose|j: int| 0 <= j < shorter.len() && shorter[j] == k;
                        assert(longer[j] == k);
                    }
                    if k == pressed@[i as int] {
                        assert(longer[i as int] == k);
                    }
                }
                assert(longer.to_set() =~= shorter.to_set().insert(pressed@[i as int]));
            }
        }
        assert(pressed@.take(pressed@.len() as int) =~= pressed@);
        events
    }
}

impl Default for PressedKeyState {
    fn default() -> (state: PressedKeyState)
        ensures
            state.down() == Seq::<u32>::empty(),
            state.suppressed() == Set::<u32>::empty(),
    {
        let state = PressedKeyState { pressed: Vec::new(), suppressed_releases: Vec::new() };
        assert(state.suppressed() =~= Set::<u32>::empty());
        state
    }
}

fn position(list: &Vec<u32>, wanted: u32) -> (index: Option<usize>)
    ensures
        match index {
            Some(i) => i < list.len() && list@[i as int] == wanted,
            None => !list@.contains(wanted),
        },
{
    for i in 0..list.len()
        invariant
            forall|j: int| 0 <= j < i ==> list@[j] != wanted,
    {
        if list[i] == wanted {
            return Some(i);
        }
    }
    None
}

/// What comes of a key that went down.
#[derive(Debug)]
pub struct KeyOutcome {
    /// What the guest is told.
    pub events: Vec<InputEvent>,
    /// The window's own shortcuts do not get to see the key.
    pub stop: bool,
    /// Keyboard and pointer are given back to the host.
    pub release_grab: bool,
}

/// A key went down over the window.
pub fn key_pressed(
    state: &mut PressedKeyState,
    grabbed: bool,
    release_hotkey: &Hotkey,
    keyval: u32,
    lower_keyval: u32,
    keycode: u32,
    modifiers: u32,
) -> (outcome: KeyOutcome)
    ensures
        match gdk_qnum_of(keycode) {
            Some(qnum) if grabbed => if release_hotkey.fires(keyval, lower_keyval, modifiers) {
                &&& outcome.events@ == releases(old(state).down())
                &&& outcome.stop
                &&& outcome.release_grab
                &&& final(state).down() == Seq::<u32>::empty()
                &&& final(state).suppressed() == old(state).suppressed().union(
                    old(state).down().to_set(),
                ).insert(qnum)
            } else {
                &&& outcome.stop
                &&& !outcome.release_grab
                &&& final(state).suppressed() == old(state).suppressed()
                &&& if old(state).down().contains(qnum) {
                    &&& outcome.events@ == Seq::<InputEvent>::empty()
                    &&& final(state).down() == old(state).down()
                } else {
                    &&& outcome.events@ == seq![InputEvent::KeyPress(qnum)]
                    &&& final(state).down() == old(state).down().push(qnum)
                }
            },
            _ => {
                &&& outcome.events@ == Seq::<InputEvent>::empty()
                &&& !outcome.stop
                &&& !outcome.release_grab
                &&& *final(state) == *old(state)
            },
        },
{
    let qnum = match gdk_keycode_to_qnum(keycode) {
        Some(qnum) => qnum,
        None => return KeyOutcome { events: Vec::new(), stop: false, release_grab: false },
    };
    if !grabbed {
        return KeyOutcome { events: Vec::new(), stop: false, release_grab: false };
    }
    if release_hotkey.matches(keyval, lower_keyval, modifiers) {
        let events = state.release_all();
        state.suppress_next_release(qnum);
        return KeyOutcome { events, stop: true, release_grab: true };
    }
    let mut events: Vec<InputEvent> = Vec::new();
    if state.press(qnum) {
        events.push(InputEvent::KeyPress(qnum));
    }
    assert(events@ =~= if old(state).down().contains(qnum) {
        Seq::<InputEvent>::empty()
    } else {
        seq![InputEvent::KeyPress(qnum)]
    });
    KeyOutcome { events, stop: true, release_grab: false }
}

/// A key went up over the window.
pub fn key_released(state: &mut PressedKeyState, keycode: u32) -> (event: Option<InputEvent>)
    ensures
        match gdk_qnum_of(keycode) {
            None => event is None && *final(state) == *old(state),
            Some(qnum) => {
                &&& final(state).suppressed() == old(state).suppressed().remove(qnum)
                &&& if old(state).suppressed().contains(qnum) || !old(state).down().contains(qnum) {
                    event is None && final(state).down() == old(state).down()
                } else {
                    &&& event == Some(InputEvent::KeyRelease(qnum))
                    &&& final(state).down() == without(old(state).down(), qnum)
                }
            },
        },
{
    let qnum = match gdk_keycode_to_qnum(keycode) {
        Some(qnum) => qnum,
        None => return None,
    };
    if state.take_suppressed_release(qnum) {
        return None;
    }
    if state.release(qnum) {
        Some(InputEvent::KeyRelease(qnum))
    } else {
        None
    }
}

/// Letting go of every key leaves the guest with none of them down.
pub proof fn release_all_lets_go_of_every_key(down: Seq<u32>, held: Set<u32>)
    requires
        held.subset_of(down.to_set()),
    ensures
        held_after(held, releases(down)) =~= Set::<u32>::empty(),
{
    releases_remove(down, held);
    assert forall|k: u32| !held_after(held, releases(down)).contains(k) by {
        if held.contains(k) {
            assert(down.to_set().contains(k));
        }
    }
}

proof fn releases_remove(down: Seq<u32>, held: Set<u32>)
    ensures
        forall|k: u32|
            #[trigger] held_after(held, releases(down)).contains(k) == (held.contains(k)
                && !down.contains(k)),
    decreases down.len(),
{
    if down.len() > 0 {
        releases_remove(down.drop_last(), held);
        assert(releases(down).drop_last() =~= releases(down.drop_last()));
        assert(releases(down).last() == InputEvent::KeyRelease(down.last()));
        assert forall|k: u32|
            #[trigger] held_after(held, releases(down)).contains(k) == (held.contains(k)
                && !down.contains(k)) by {
            let earlier = held_after(held, releases(down.drop_last()));
            assert(earlier.contains(k) == (held.contains(k) && !down.drop_last().contains(k)));
            assert(held_after(held, releases(down)) == earlier.remove(down.last()));
            if down.contains(k) && k != down.last() {
                let i = choose|i: int| 0 <= i < down.len() && down[i] == k;
                assert(down.drop_last()[i] == k);
            }
            if down.drop_last().contains(k) {
                let i = choose|i: int| 0 <= i < down.len() - 1 && down.drop_last()[i] == k;
                assert(down[i] == k);
            }
            if k == down.last() {
                assert(down[down.len() - 1] == k);
            }
        }
    } else {
        assert(releases(down).len() == 0);
    }
}

/// The Linux keycode of a key by the name that the menu gives it.
pub open spec fn keycode_named(name: Seq<char>) -> u32 {
    if name == seq!['B', 'a', 'c', 'k', 'S', 'p', 'a', 'c', 'e'] {
        14
    } else if name == seq!['D', 'e', 'l', 'e', 't', 'e'] {
        111
    } else {
        (58 + (name[1] as u32 - '0' as u32)) as u32
    }
}

/// The menu entry of a shortcut names its keys: what is sent is the left control key, the left alt
/// key and the key that stands at the end of the label, each under the number that it has when it
/// is pressed on the keyboard. The menu has every shortcut once.
pub proof fn shortcuts_send_what_they_say(
    shortcut: GuestShortcut,
    label: String,
    keys: Vec<u32>,
    menu: Vec<GuestShortcut>,
)
    requires
        call_ensures(GuestShortcut::label, (shortcut,), label),
        call_ensures(GuestShortcut::qnums, (shortcut,), keys),
        call_ensures(GuestShortcut::all, (), menu),
    ensures
        ({
            let name = label@.skip(13);
            &&& label@.len() > 13
            &&& label@.take(13) == "Ctrl + Alt + "@
            &&& name.len() == 2 ==> name[0] == 'F' && '1' <= name[1] <= '9'
            &&& keys.len() == 3
            &&& Some(keys[0]) == qnum_of(29)
            &&& Some(keys[1]) == qnum_of(56)
            &&& Some(keys[2]) == qnum_of(keycode_named(name))
        }),
        exists|i: int| 0 <= i < menu.len() && #[trigger] menu[i] == shortcut,
        forall|i: int, j: int| 0 <= i < j < menu.len() ==> #[trigger] menu[i] != #[trigger] menu[j],
{
    reveal_strlit("Ctrl + Alt + ");
    reveal_strlit("BackSpace");
    reveal_strlit("Delete");
    reveal_strlit("F1");
    reveal_strlit("F2");
    reveal_strlit("F3");
    reveal_strlit("F4");
    reveal_strlit("F5");
    reveal_strlit("F6");
    reveal_strlit("F7");
    reveal_strlit("F8");
    reveal_strlit("F9");
    let name = label@.skip(13);
    assert(name =~= shortcut.key_name());
    assert(label@.take(13) =~= "Ctrl + Alt + "@);
    assert(name == seq!['B', 'a', 'c', 'k', 'S', 'p', 'a', 'c', 'e'] <==> shortcut
        is CtrlAltBackspace) by {
        if shortcut is CtrlAltBackspace {
            assert(name =~= seq!['B', 'a', 'c', 'k', 'S', 'p', 'a', 'c', 'e']);
        } else if name == seq!['B', 'a', 'c', 'k', 'S', 'p', 'a', 'c', 'e'] {
            assert(name.len() == 9);
        }
    }
    assert(name == seq!['D', 'e', 'l', 'e', 't', 'e'] <==> shortcut is CtrlAltDelete) by {
        if shortcut is CtrlAltDelete {
            assert(name =~= seq!['D', 'e', 'l', 'e', 't', 'e']);
        } else if name == seq!['D', 'e', 'l', 'e', 't', 'e'] {
            assert(name.len() == 6);
        }
    }
    let list = GuestShortcut::menu();
    assert(list[0] is CtrlAltBackspace && list[1] is CtrlAltDelete && list[2] is CtrlAltF1
        && list[3] is CtrlAltF2 && list[4] is CtrlAltF3 && list[5] is CtrlAltF4 && list[6]
        is CtrlAltF5 && list[7] is CtrlAltF6 && list[8] is CtrlAltF7 && list[9] is CtrlAltF8
        && list[10] is CtrlAltF9);
    assert(menu[0] is CtrlAltBackspace && menu[1] is CtrlAltDelete && menu[2] is CtrlAltF1
        && menu[3] is CtrlAltF2 && menu[4] is CtrlAltF3 && menu[5] is CtrlAltF4 && menu[6]
        is CtrlAltF5 && menu[7] is CtrlAltF6 && menu[8] is CtrlAltF7 && menu[9] is CtrlAltF8
        && menu[10] is CtrlAltF9);
}

/// A shortcut goes down in the order of its keys and up in the reverse order, so that the keys are
/// all down together in between, and none of them is down afterwards.
pub proof fn shortcuts_are_chords(
    shortcut: GuestShortcut,
    keys: Vec<u32>,
    events: Vec<InputEvent>,
    held: Set<u32>,
)
    requires
        call_ensures(GuestShortcut::qnums, (shortcut,), keys),
        call_ensures(send_guest_shortcut, (shortcut,), events),
    ensures
        events.len() == 2 * keys.len(),
        forall|i: int|
            0 <= i < keys.len() ==> {
                &&& held_after(held, events@.take(keys.len() as int)).contains(#[trigger] keys[i])
                &&& !held_after(held, events@).contains(keys[i])
            },
        forall|key: u32|
            !keys@.contains(key) ==> #[trigger] held_after(held, events@).contains(key)
                == held.contains(key),
{
    let pressed = presses(shortcut.keys());
    shortcuts_leave_no_key_down(shortcut, held);
    assert(events@.take(3) =~= pressed);
    reveal_with_fuel(held_after, 4);
    assert(pressed.drop_last().drop_last().drop_last() =~= Seq::<InputEvent>::empty());
    assert(keys[0] == QNUM_CONTROL && keys[1] == QNUM_ALT && keys[2] == shortcut.key_qnum());
}

proof fn without_is_removal(keys: Seq<u32>, key: u32)
    requires
        keys.no_duplicates(),
    ensures
        forall|other: u32| #[trigger]
            without(keys, key).contains(other) <==> keys.contains(other) && other != key,
{
    if keys.contains(key) {
        let at = keys.index_of(key);
        let rest = keys.remove(at);
        assert(keys[at] == key);
        assert forall|other: u32| #[trigger] rest.contains(other) <==> keys.contains(other) && other
            != key by {
            if rest.contains(other) {
                let i = choose|i: int| 0 <= i < rest.len() && rest[i] == other;
                let j = if i < at {
                    i
                } else {
                    i + 1
                };
                assert(keys[j] == other);
            }
            if keys.contains(other) && other != key {
                let j = choose|j: int| 0 <= j < keys.len() && keys[j] == other;
                let i = if j < at {
                    j
                } else {
                    j - 1
                };
                assert(rest[i] == other);
            }
        }
    }
}

/// A key that goes down under a grab is down for the guest, which hears of it once; with the hotkey
/// that gives the grab back, the guest holds nothing any more. Without a grab, and for a key without
/// a number, nothing happens. What the guest holds is always what is known to be down.
pub proof fn pressed_keys_are_down_for_the_guest(
    state: &mut PressedKeyState,
    grabbed: bool,
    release_hotkey: Hotkey,
    keyval: u32,
    lower_keyval: u32,
    keycode: u32,
    modifiers: u32,
    outcome: KeyOutcome,
)
    requires
        old(state).down().no_duplicates(),
        call_ensures(
            key_pressed,
            (state, grabbed, &release_hotkey, keyval, lower_keyval, keycode, modifiers),
            outcome,
        ),
    ensures
        final(state).down().to_set() =~= held_after(old(state).down().to_set(), outcome.events@),
        outcome.release_grab <==> grabbed && gdk_qnum_of(keycode) is Some && release_hotkey.fires(
            keyval,
            lower_keyval,
            modifiers,
        ),
        outcome.release_grab ==> final(state).down().len() == 0,
        outcome.stop <==> grabbed && gdk_qnum_of(keycode) is Some,
        outcome.stop && !outcome.release_grab ==> {
            let qnum = gdk_qnum_of(keycode)->0;
            &&& final(state).down().contains(qnum)
            &&& forall|other: u32|
                other != qnum ==> #[trigger] final(state).down().contains(other) == old(
                    state,
                ).down().contains(other)
            &&& outcome.events.len() == if old(state).down().contains(qnum) {
                0int
            } else {
                1int
            }
        },
        !outcome.stop ==> outcome.events.len() == 0 && *final(state) == *old(state),
{
    let before = old(state).down();
    let held = before.to_set();
    reveal_with_fuel(held_after, 2);
    assert(outcome.events.len() == 1 ==> outcome.events@.drop_last()
        =~= Seq::<InputEvent>::empty());
    if outcome.release_grab {
        release_all_lets_go_of_every_key(before, held);
        assert(final(state).down().to_set() =~= Set::<u32>::empty());
    } else if outcome.events.len() == 1 {
        let qnum = gdk_qnum_of(keycode)->0;
        let now = before.push(qnum);
        assert forall|other: u32| now.contains(other) <==> before.contains(other) || other
            == qnum by {
            if before.contains(other) {
                let i = choose|i: int| 0 <= i < before.len() && before[i] == other;
                assert(now[i] == other);
            }
            assert(now[before.len() as int] == qnum);
            if now.contains(other) {
                let i = choose|i: int| 0 <= i < now.len() && now[i] == other;
                if i < before.len() {
                    assert(before[i] == other);
                }
            }
        }
        assert(final(state).down().to_set() =~= held.insert(qnum));
    }
}

/// A key that goes up is up for the guest, which hears of it where the key was down for it and its
/// release was not announced before. What the guest holds is always what is known to be down.
pub proof fn released_keys_are_up_for_the_guest(
    state: &mut PressedKeyState,
    keycode: u32,
    event: Option<InputEvent>,
)
    requires
        old(state).down().no_duplicates(),
        call_ensures(key_released, (state, keycode), event),
    ensures
        final(state).down().to_set() =~= held_after(
            old(state).down().to_set(),
            if event is Some {
                seq![event->0]
            } else {
                Seq::empty()
            },
        ),
        event is Some <==> {
            let qnum = gdk_qnum_of(keycode)->0;
            &&& gdk_qnum_of(keycode) is Some
            &&& old(state).down().contains(qnum)
            &&& !old(state).suppressed().contains(qnum)
        },
        event is Some ==> !final(state).down().contains(gdk_qnum_of(keycode)->0),
        gdk_qnum_of(keycode) matches Some(qnum) ==> !final(state).suppressed().contains(qnum),
        forall|other: u32|
            Some(other) != gdk_qnum_of(keycode) ==> #[trigger] final(state).down().contains(other)
                == old(state).down().contains(other),
{
    reveal_with_fuel(held_after, 2);
    if event is Some {
        let qnum = gdk_qnum_of(keycode)->0;
        without_is_removal(old(state).down(), qnum);
        assert(seq![event->0].drop_last() =~= Seq::<InputEvent>::empty());
        assert(final(state).down().to_set() =~= old(state).down().to_set().remove(qnum));
    }
}

}
