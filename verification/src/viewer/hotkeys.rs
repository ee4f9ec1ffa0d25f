//! The viewer's own key bindings.

use vstd::prelude::*;

use crate::error::Failure;
use crate::text::ascii::ascii_digit;
use crate::text::ascii::all_digits_from;
use crate::text::ascii::lowered;
use crate::text::ascii::replace_char;
use crate::text::ascii::to_ascii_lowercase;
use crate::text::ascii::with_replaced;
use crate::text::concat2;
use crate::text::concat3;
use crate::text::concat5;
use crate::text::concat7;
use crate::text::list_has;
use crate::text::same_text;
use crate::text::scan::cut_once;
use crate::text::scan::pieces;
use crate::text::scan::skip_chars;
use crate::text::scan::split;
use crate::text::scan::split_once;
use crate::text::scan::trim;
use crate::text::scan::trimmed;
use crate::text::texts;
use crate::text::to_chars;

verus! {

/// The mask of the shift key.
pub const SHIFT_MASK: u32 = 0x1;

/// The mask of the control key.
pub const CONTROL_MASK: u32 = 0x4;

/// The mask of the alt key.
pub const ALT_MASK: u32 = 0x8;

/// The mask of the super key.
pub const SUPER_MASK: u32 = 0x400_0000;

/// The mask of the hyper key.
pub const HYPER_MASK: u32 = 0x800_0000;

/// The mask of the meta key.
pub const META_MASK: u32 = 0x1000_0000;

/// The modifiers that a binding can ask for.
pub const BINDING_MASK: u32 = 0x1c00_000d;

/// A key binding.
#[derive(Debug)]
pub enum Hotkey {
    Disabled,
    Key { key: u32, modifiers: u32, accelerator: String },
    Modifiers { modifiers: u32, accelerator: String },
}

/// A key binding, with its text as a sequence.
#[verifier::ext_equal]
pub enum HotkeyView {
    Disabled,
    Key { key: u32, modifiers: u32, accelerator: Seq<char> },
    Modifiers { modifiers: u32, accelerator: Seq<char> },
}

impl View for Hotkey {
    type V = HotkeyView;

    open spec fn view(&self) -> HotkeyView {
        match self {
            Hotkey::Disabled => HotkeyView::Disabled,
            Hotkey::Key { key, modifiers, accelerator } => HotkeyView::Key {
                key: *key,
                modifiers: *modifiers,
                accelerator: accelerator@,
            },
            Hotkey::Modifiers { modifiers, accelerator } => HotkeyView::Modifiers {
                modifiers: *modifiers,
                accelerator: accelerator@,
            },
        }
    }
}

impl HotkeyView {
    /// The binding fires on a key with the given modifiers held. `lower_keyval` is the key in lower
    /// case. A binding of modifiers alone fires on the last of them to go down.
    pub open spec fn fires(self, keyval: u32, lower_keyval: u32, modifiers: u32) -> bool {
        match self {
            HotkeyView::Disabled => false,
            HotkeyView::Key { key, modifiers: expected, .. } => {
                lower_keyval == key && modifiers & BINDING_MASK == expected
            },
            HotkeyView::Modifiers { modifiers: expected, .. } => match modifier_of_key(keyval) {
                Some(current) => {
                    &&& (modifiers & BINDING_MASK) | current == expected
                    &&& expected & current == current
                },
                None => false,
            },
        }
    }

    /// The text of the binding; none where it is disabled.
    pub open spec fn text(self) -> Option<Seq<char>> {
        match self {
            HotkeyView::Disabled => None,
            HotkeyView::Key { accelerator, .. } => Some(accelerator),
            HotkeyView::Modifiers { accelerator, .. } => Some(accelerator),
        }
    }

    /// The two bindings are the same combination.
    pub open spec fn collides(self, other: HotkeyView) -> bool {
        match (self, other) {
            (
                HotkeyView::Key { accelerator: a, .. },
                HotkeyView::Key { accelerator: b, .. },
            ) => a == b,
            (
                HotkeyView::Modifiers { accelerator: a, .. },
                HotkeyView::Modifiers { accelerator: b, .. },
            ) => a == b,
            _ => false,
        }
    }
}

/// The modifier that a key is.
pub open spec fn modifier_of_key(keyval: u32) -> Option<u32> {
    if keyval == 0xffe3 || keyval == 0xffe4 {
        Some(CONTROL_MASK)
    } else if keyval == 0xffe9 || keyval == 0xffea {
        Some(ALT_MASK)
    } else if keyval == 0xffe1 || keyval == 0xffe2 {
        Some(SHIFT_MASK)
    } else if keyval == 0xffeb || keyval == 0xffec {
        Some(SUPER_MASK)
    } else if keyval == 0xffe7 || keyval == 0xffe8 {
        Some(META_MASK)
    } else if keyval == 0xffed || keyval == 0xffee {
        Some(HYPER_MASK)
    } else {
        None
    }
}

/// The modifier that a key is.
pub fn modifier_mask_for_key(keyval: u32) -> (mask: Option<u32>)
    ensures
        mask == modifier_of_key(keyval),
{
    if keyval == 0xffe3 || keyval == 0xffe4 {
        Some(CONTROL_MASK)
    } else if keyval == 0xffe9 || keyval == 0xffea {
        Some(ALT_MASK)
    } else if keyval == 0xffe1 || keyval == 0xffe2 {
        Some(SHIFT_MASK)
    } else if keyval == 0xffeb || keyval == 0xffec {
        Some(SUPER_MASK)
    } else if keyval == 0xffe7 || keyval == 0xffe8 {
        Some(META_MASK)
    } else if keyval == 0xffed || keyval == 0xffee {
        Some(HYPER_MASK)
    } else {
        None
    }
}

impl Hotkey {
    /// The binding fires on a key with the given modifiers held.
    pub open spec fn fires(&self, keyval: u32, lower_keyval: u32, modifiers: u32) -> bool {
        self@.fires(keyval, lower_keyval, modifiers)
    }

    /// Whether the binding fires.
    pub fn matches(&self, keyval: u32, lower_keyval: u32, modifiers: u32) -> (fires: bool)
        ensures
            fires == self.fires(keyval, lower_keyval, modifiers),
    {
        match self {
            Hotkey::Disabled => false,
            Hotkey::Key { key, modifiers: expected, .. } => {
                lower_keyval == *key && modifiers & BINDING_MASK == *expected
            },
            Hotkey::Modifiers { modifiers: expected, .. } => match modifier_mask_for_key(keyval) {
                Some(current) => {
                    (modifiers & BINDING_MASK) | current == *expected && *expected & current
                        == current
                },
                None => false,
            },
        }
    }

    /// The text of the binding; none where it is disabled.
    pub fn accelerator(&self) -> (text: Option<&str>)
        ensures
            crate::text::opt_text(text) == self@.text(),
    {
        match self {
            Hotkey::Disabled => None,
            Hotkey::Key { accelerator, .. } => Some(accelerator.as_str()),
            Hotkey::Modifiers { accelerator, .. } => Some(accelerator.as_str()),
        }
    }

    /// The text of the binding.
    pub fn describe(&self) -> (text: &str)
        ensures
            text@ == match self@.text() {
                Some(accelerator) => accelerator,
                None => "disabled"@,
            },
    {
        match self {
            Hotkey::Disabled => "disabled",
            Hotkey::Key { accelerator, .. } => accelerator.as_str(),
            Hotkey::Modifiers { accelerator, .. } => accelerator.as_str(),
        }
    }

    /// Whether the two bindings are the same combination.
    pub fn collides(&self, other: &Hotkey) -> (same: bool)
        ensures
            same == self@.collides(other@),
    {
        match (self, other) {
            (Hotkey::Key { accelerator: a, .. }, Hotkey::Key { accelerator: b, .. }) => same_text(
                a.as_str(),
                b.as_str(),
            ),
            (
                Hotkey::Modifiers { accelerator: a, .. },
                Hotkey::Modifiers { accelerator: b, .. },
            ) => same_text(a.as_str(), b.as_str()),
            _ => false,
        }
    }

    /// The binding of a key, named `name` in lower case, with modifiers.
    pub fn key(key: u32, name: &str, modifiers: u32) -> (hotkey: Hotkey)
        ensures
            hotkey@ == key_binding(key, name@, modifiers),
    {
        let mask: u32 = modifiers & BINDING_MASK;
        let prefix = accelerator_prefix(mask);
        Hotkey::Key { key, modifiers: mask, accelerator: concat2(prefix.as_str(), name) }
    }

    /// The binding of modifiers alone.
    pub fn modifiers(modifiers: u32) -> (hotkey: Hotkey)
        ensures
            hotkey@ == modifier_binding(modifiers),
    {
        let mask: u32 = modifiers & BINDING_MASK;
        Hotkey::Modifiers { modifiers: mask, accelerator: accelerator_prefix(mask) }
    }
}

/// The label, where the modifiers have the mask.
pub open spec fn label_if(modifiers: u32, mask: u32, label: Seq<char>) -> Seq<char> {
    if modifiers & mask == mask {
        label
    } else {
        Seq::empty()
    }
}

/// The labels of the modifiers.
pub open spec fn prefix_of(modifiers: u32) -> Seq<char> {
    label_if(modifiers, CONTROL_MASK, "<Control>"@) + label_if(modifiers, ALT_MASK, "<Alt>"@)
        + label_if(modifiers, SHIFT_MASK, "<Shift>"@) + label_if(modifiers, SUPER_MASK, "<Super>"@)
        + label_if(modifiers, META_MASK, "<Meta>"@) + label_if(modifiers, HYPER_MASK, "<Hyper>"@)
}

/// The binding of a key with modifiers.
pub open spec fn key_binding(key: u32, name: Seq<char>, modifiers: u32) -> HotkeyView {
    HotkeyView::Key {
        key,
        modifiers: modifiers & BINDING_MASK,
        accelerator: prefix_of(modifiers & BINDING_MASK) + name,
    }
}

/// The binding of modifiers alone.
pub open spec fn modifier_binding(modifiers: u32) -> HotkeyView {
    HotkeyView::Modifiers {
        modifiers: modifiers & BINDING_MASK,
        accelerator: prefix_of(modifiers & BINDING_MASK),
    }
}

fn push_label(text: &mut String, modifiers: u32, mask: u32, label: &str)
    ensures
        final(text)@ == old(text)@ + label_if(modifiers, mask, label@),
{
    if modifiers & mask == mask {
        text.append(label);
    } else {
        assert(text@ + Seq::<char>::empty() =~= text@);
    }
}

fn accelerator_prefix(modifiers: u32) -> (text: String)
    ensures
        text@ == prefix_of(modifiers),
{
    let mut text = String::new();
    push_label(&mut text, modifiers, CONTROL_MASK, "<Control>");
    assert(text@ =~= label_if(modifiers, CONTROL_MASK, "<Control>"@));
    push_label(&mut text, modifiers, ALT_MASK, "<Alt>");
    push_label(&mut text, modifiers, SHIFT_MASK, "<Shift>");
    push_label(&mut text, modifiers, SUPER_MASK, "<Super>");
    push_label(&mut text, modifiers, META_MASK, "<Meta>");
    push_label(&mut text, modifiers, HYPER_MASK, "<Hyper>");
    text
}

/// A key that the windowing system knows: the name it was asked for, its value in lower case, and
/// the name of that value.
#[derive(Debug)]
pub struct KnownKey {
    pub asked: String,
    pub key: u32,
    pub name: String,
}

/// The first known key that was asked for by a name: its value and name.
pub open spec fn lookup(keys: Seq<KnownKey>, asked: Seq<char>) -> Option<(u32, Seq<char>)>
    decreases keys.len(),
{
    if keys.len() == 0 {
        None
    } else if keys[0].asked@ == asked {
        Some((keys[0].key, keys[0].name@))
    } else {
        lookup(keys.drop_first(), asked)
    }
}

fn find_key(keys: &Vec<KnownKey>, asked: &str) -> (found: Option<usize>)
    ensures
        match found {
            Some(i) => i < keys.len() && lookup(keys@, asked@) == Some(
                (keys@[i as int].key, keys@[i as int].name@),
            ),
            None => lookup(keys@, asked@) is None,
        },
{
    let mut i: usize = 0;
    assert(keys@.skip(0) =~= keys@);
    while i < keys.len()
        invariant
            i <= keys.len(),
            lookup(keys@, asked@) == lookup(keys@.skip(i as int), asked@),
        decreases keys.len() - i,
    {
        assert(keys@.skip(i as int).drop_first() =~= keys@.skip(i + 1));
        if same_text(keys[i].asked.as_str(), asked) {
            return Some(i);
        }
        i = i + 1;
    }
    None
}

/// The modifier that a token names.
pub open spec fn modifier_named(token: Seq<char>) -> Option<u32> {
    let word = lowered(trimmed(token));
    if word == "ctrl"@ || word == "control"@ || word == "ctl"@ {
        Some(CONTROL_MASK)
    } else if word == "alt"@ {
        Some(ALT_MASK)
    } else if word == "shift"@ {
        Some(SHIFT_MASK)
    } else if word == "super"@ || word == "win"@ || word == "windows"@ || word == "logo"@ {
        Some(SUPER_MASK)
    } else if word == "meta"@ {
        Some(META_MASK)
    } else if word == "hyper"@ {
        Some(HYPER_MASK)
    } else {
        None
    }
}

/// The modifier that a token names.
pub fn parse_modifier(token: &str) -> (mask: Option<u32>)
    ensures
        mask == modifier_named(token@),
{
    let core = trim(token);
    let lower = to_ascii_lowercase(core.as_str());
    let word = lower.as_str();
    if same_text(word, "ctrl") || same_text(word, "control") || same_text(word, "ctl") {
        Some(CONTROL_MASK)
    } else if same_text(word, "alt") {
        Some(ALT_MASK)
    } else if same_text(word, "shift") {
        Some(SHIFT_MASK)
    } else if same_text(word, "super") || same_text(word, "win") || same_text(word, "windows")
        || same_text(word, "logo") {
        Some(SUPER_MASK)
    } else if same_text(word, "meta") {
        Some(META_MASK)
    } else if same_text(word, "hyper") {
        Some(HYPER_MASK)
    } else {
        None
    }
}

/// The word is an `f` with nothing but digits behind it.
pub open spec fn is_function_key(word: Seq<char>) -> bool {
    word.len() > 0 && word[0] == 'f' && forall|i: int| 1 <= i < word.len() ==> ascii_digit(word[i])
}

/// The name by which the windowing system is asked for the key that a token names.
pub open spec fn canonical_name(token: Seq<char>) -> Seq<char> {
    let word = lowered(trimmed(token));
    if word == "enter"@ || word == "return"@ {
        "Return"@
    } else if word == "esc"@ || word == "escape"@ {
        "Escape"@
    } else if word == "space"@ || word == "spacebar"@ {
        "space"@
    } else if word == "backspace"@ {
        "BackSpace"@
    } else if word == "tab"@ {
        "Tab"@
    } else if word == "left"@ {
        "Left"@
    } else if word == "right"@ {
        "Right"@
    } else if word == "up"@ {
        "Up"@
    } else if word == "down"@ {
        "Down"@
    } else if word == "home"@ {
        "Home"@
    } else if word == "end"@ {
        "End"@
    } else if word == "insert"@ || word == "ins"@ {
        "Insert"@
    } else if word == "delete"@ || word == "del"@ {
        "Delete"@
    } else if word == "pageup"@ || word == "page-up"@ {
        "Page_Up"@
    } else if word == "pagedown"@ || word == "page-down"@ {
        "Page_Down"@
    } else if word == "plus"@ {
        "plus"@
    } else if word == "minus"@ || word == "dash"@ {
        "minus"@
    } else if word == "equal"@ || word == "equals"@ {
        "equal"@
    } else if word == "comma"@ {
        "comma"@
    } else if word == "period"@ || word == "dot"@ {
        "period"@
    } else if word == "slash"@ {
        "slash"@
    } else if word == "backslash"@ {
        "backslash"@
    } else if word == "semicolon"@ {
        "semicolon"@
    } else if word == "apostrophe"@ || word == "quote"@ {
        "apostrophe"@
    } else if is_function_key(word) {
        "F"@ + word.skip(1)
    } else {
        word
    }
}

/// The name by which the windowing system is asked for the key that a token names.
pub fn canonical_key_name(token: &str) -> (name: String)
    ensures
        name@ == canonical_name(token@),
{
    let core = trim(token);
    let lower = to_ascii_lowercase(core.as_str());
    let word = lower.as_str();
    if same_text(word, "enter") || same_text(word, "return") {
        "Return".to_owned()
    } else if same_text(word, "esc") || same_text(word, "escape") {
        "Escape".to_owned()
    } else if same_text(word, "space") || same_text(word, "spacebar") {
        "space".to_owned()
    } else if same_text(word, "backspace") {
        "BackSpace".to_owned()
    } else if same_text(word, "tab") {
        "Tab".to_owned()
    } else if same_text(word, "left") {
        "Left".to_owned()
    } else if same_text(word, "right") {
        "Right".to_owned()
    } else if same_text(word, "up") {
        "Up".to_owned()
    } else if same_text(word, "down") {
        "Down".to_owned()
    } else if same_text(word, "home") {
        "Home".to_owned()
    } else if same_text(word, "end") {
        "End".to_owned()
    } else if same_text(word, "insert") || same_text(word, "ins") {
        "Insert".to_owned()
    } else if same_text(word, "delete") || same_text(word, "del") {
        "Delete".to_owned()
    } else if same_text(word, "pageup") || same_text(word, "page-up") {
        "Page_Up".to_owned()
    } else if same_text(word, "pagedown") || same_text(word, "page-down") {
        "Page_Down".to_owned()
    } else if same_text(word, "plus") {
        "plus".to_owned()
    } else if same_text(word, "minus") || same_text(word, "dash") {
        "minus".to_owned()
    } else if same_text(word, "equal") || same_text(word, "equals") {
        "equal".to_owned()
    } else if same_text(word, "comma") {
        "comma".to_owned()
    } else if same_text(word, "period") || same_text(word, "dot") {
        "period".to_owned()
    } else if same_text(word, "slash") {
        "slash".to_owned()
    } else if same_text(word, "backslash") {
        "backslash".to_owned()
    } else if same_text(word, "semicolon") {
        "semicolon".to_owned()
    } else if same_text(word, "apostrophe") || same_text(word, "quote") {
        "apostrophe".to_owned()
    } else if names_function_key(word) {
        let digits = skip_chars(word, 1);
        concat2("F", digits.as_str())
    } else {
        lower
    }
}

fn names_function_key(word: &str) -> (is: bool)
    ensures
        is == is_function_key(word@),
{
    let chars = to_chars(word);
    if chars.len() == 0 || chars[0] != 'f' {
        false
    } else {
        all_digits_from(word, 1)
    }
}


/// The message about a binding, with the binding quoted.
pub open spec fn about(before: Seq<char>, raw: Seq<char>, after: Seq<char>) -> Seq<char> {
    before + "`"@ + raw + "`"@ + after
}

fn about_failure(before: &str, raw: &str, after: &str) -> (failure: Failure)
    ensures
        failure@ == seq![about(before@, raw@, after@)],
{
    Failure::new(concat5(before, "`", raw, "`", after))
}

/// What a binding has been found to hold so far: modifiers, and a key with its name.
#[verifier::ext_equal]
pub struct TokenState {
    pub modifiers: u32,
    pub key: Option<(u32, Seq<char>)>,
}

/// One more token of the binding `raw`.
pub open spec fn token_step(
    raw: Seq<char>,
    keys: Seq<KnownKey>,
    before: TokenState,
    token: Seq<char>,
) -> Result<TokenState, Seq<Seq<char>>> {
    let part = trimmed(token);
    if part.len() == 0 {
        Err(seq![about("hotkey "@, raw, " contains an empty token"@)])
    } else {
        match modifier_named(part) {
            Some(mask) => Ok(
                (TokenState { modifiers: before.modifiers | mask, key: before.key }),
            ),
            None => match lookup(keys, canonical_name(part)) {
                None => Err(
                    seq![
                        "unknown key name `"@ + part + "` in `"@ + raw + "`"@,
                    ],
                ),
                Some(key) => if before.key is Some {
                    Err(seq![about("hotkey "@, raw, " may contain only one non-modifier key"@)])
                } else {
                    Ok((TokenState { modifiers: before.modifiers, key: Some(key) }))
                },
            },
        }
    }
}

/// The tokens of the binding `raw`, one after the other, up to the first that is refused.
pub open spec fn token_fold(raw: Seq<char>, keys: Seq<KnownKey>, tokens: Seq<Seq<char>>) -> Result<
    TokenState,
    Seq<Seq<char>>,
>
    decreases tokens.len(),
{
    if tokens.len() == 0 {
        Ok((TokenState { modifiers: 0, key: None }))
    } else {
        match token_fold(raw, keys, tokens.drop_last()) {
            Err(message) => Err(message),
            Ok(before) => token_step(raw, keys, before, tokens.last()),
        }
    }
}

/// The word switches a binding off.
pub open spec fn switches_off(raw: Seq<char>) -> bool {
    let word = lowered(raw);
    word == "off"@ || word == "none"@ || word == "disabled"@
}

/// The binding that a text describes.
pub open spec fn binding_of(text: Seq<char>, keys: Seq<KnownKey>) -> Result<
    HotkeyView,
    Seq<Seq<char>>,
> {
    let raw = trimmed(text);
    if raw.len() == 0 {
        Err(seq!["hotkey value cannot be empty"@])
    } else if switches_off(raw) {
        Ok(HotkeyView::Disabled)
    } else {
        match token_fold(raw, keys, pieces(raw, '+')) {
            Err(message) => Err(message),
            Ok(found) => match found.key {
                Some((key, name)) => Ok(key_binding(key, name, found.modifiers)),
                None => if found.modifiers == 0 {
                    Err(
                        seq![about("hotkey "@, raw, " does not contain any key or modifier"@)],
                    )
                } else {
                    Ok(modifier_binding(found.modifiers))
                },
            },
        }
    }
}

/// The binding that a text describes. `keys` are the keys that the windowing system knows.
pub fn parse_binding(text: &str, keys: &Vec<KnownKey>) -> (result: Result<Hotkey, Failure>)
    ensures
        match (result, binding_of(text@, keys@)) {
            (Ok(hotkey), Ok(expected)) => hotkey@ == expected,
            (Err(failure), Err(expected)) => failure@ == expected,
            _ => false,
        },
{
    let core = trim(text);
    let raw = core.as_str();
    if raw.is_empty() {
        return Err(Failure::of("hotkey value cannot be empty"));
    }
    let lower = to_ascii_lowercase(raw);
    if same_text(lower.as_str(), "off") || same_text(lower.as_str(), "none") || same_text(
        lower.as_str(),
        "disabled",
    ) {
        return Ok(Hotkey::Disabled);
    }
    let parts = split(raw, '+');
    let ghost tokens = texts(parts@);
    let mut modifiers: u32 = 0;
    let mut key: Option<usize> = None;
    assert(tokens.take(0) =~= Seq::<Seq<char>>::empty());
    for i in 0..parts.len()
        invariant
            tokens == texts(parts@),
            raw@ == trimmed(text@),
            key matches Some(k) ==> k < keys.len(),
            token_fold(raw@, keys@, tokens.take(i as int)) == Ok::<TokenState, Seq<Seq<char>>>(
                (TokenState {
                    modifiers,
                    key: match key {
                        Some(k) => Some((keys@[k as int].key, keys@[k as int].name@)),
                        None => None,
                    },
                }),
            ),
            raw@.len() > 0,
            !switches_off(raw@),
            tokens == pieces(raw@, '+'),
    {
        proof {
            assert(tokens.take(i + 1).drop_last() =~= tokens.take(i as int));
            assert(tokens.take(i + 1).last() == parts@[i as int]@);
        }
        let core_part = trim(parts[i].as_str());
        let part = core_part.as_str();
        if part.is_empty() {
            proof {
                fold_stops(raw@, keys@, tokens, i + 1);
            }
            return Err(about_failure("hotkey ", raw, " contains an empty token"));
        }
        if let Some(mask) = parse_modifier(part) {
            modifiers = modifiers | mask;
        } else {
            let name = canonical_key_name(part);
            match find_key(keys, name.as_str()) {
                None => {
                    proof {
                        fold_stops(raw@, keys@, tokens, i + 1);
                    }
                    return Err(
                        Failure::new(concat5("unknown key name `", part, "` in `", raw, "`")),
                    );
                },
                Some(found) => {
                    if key.is_some() {
                        proof {
                            fold_stops(raw@, keys@, tokens, i + 1);
                        }
                        return Err(
                            about_failure(
                                "hotkey ",
                                raw,
                                " may contain only one non-modifier key",
                            ),
                        );
                    }
                    key = Some(found);
                },
            }
        }
    }
    assert(tokens.take(tokens.len() as int) =~= tokens);
    match key {
        Some(found) => Ok(Hotkey::key(keys[found].key, keys[found].name.as_str(), modifiers)),
        None => {
            if modifiers == 0 {
                Err(about_failure("hotkey ", raw, " does not contain any key or modifier"))
            } else {
                Ok(Hotkey::modifiers(modifiers))
            }
        },
    }
}

proof fn fold_stops(raw: Seq<char>, keys: Seq<KnownKey>, tokens: Seq<Seq<char>>, count: int)
    requires
        0 <= count <= tokens.len(),
        token_fold(raw, keys, tokens.take(count)) is Err,
    ensures
        token_fold(raw, keys, tokens) == token_fold(raw, keys, tokens.take(count)),
    decreases tokens.len() - count,
{
    if count < tokens.len() {
        assert(tokens.take(count + 1).drop_last() =~= tokens.take(count));
        fold_stops(raw, keys, tokens, count + 1);
    } else {
        assert(tokens.take(count) =~= tokens);
    }
}


/// What a binding is for.
#[derive(Copy, Clone, Debug, PartialEq, Eq, Structural)]
pub enum Action {
    ToggleFullscreen,
    ReleaseCursor,
    RotateDmabufView,
    ToggleDmabufFlip,
    ResetDmabufTransform,
}

/// The action that a name stands for.
pub open spec fn action_named(name: Seq<char>) -> Option<Action> {
    if name == "toggle-fullscreen"@ {
        Some(Action::ToggleFullscreen)
    } else if name == "release-cursor"@ || name == "release-grab"@ {
        Some(Action::ReleaseCursor)
    } else if name == "rotate-dmabuf-view"@ {
        Some(Action::RotateDmabufView)
    } else if name == "toggle-dmabuf-flip"@ {
        Some(Action::ToggleDmabufFlip)
    } else if name == "reset-dmabuf-transform"@ {
        Some(Action::ResetDmabufTransform)
    } else {
        None
    }
}

/// The name of an action.
pub open spec fn action_name(action: Action) -> Seq<char> {
    match action {
        Action::ToggleFullscreen => "toggle-fullscreen"@,
        Action::ReleaseCursor => "release-cursor"@,
        Action::RotateDmabufView => "rotate-dmabuf-view"@,
        Action::ToggleDmabufFlip => "toggle-dmabuf-flip"@,
        Action::ResetDmabufTransform => "reset-dmabuf-transform"@,
    }
}

/// The actions in the order in which they are looked at.
pub open spec fn actions() -> Seq<Action> {
    seq![
        Action::ToggleFullscreen,
        Action::ReleaseCursor,
        Action::RotateDmabufView,
        Action::ToggleDmabufFlip,
        Action::ResetDmabufTransform,
    ]
}

fn find_action(name: &str) -> (action: Option<Action>)
    ensures
        action == action_named(name@),
{
    if same_text(name, "toggle-fullscreen") {
        Some(Action::ToggleFullscreen)
    } else if same_text(name, "release-cursor") || same_text(name, "release-grab") {
        Some(Action::ReleaseCursor)
    } else if same_text(name, "rotate-dmabuf-view") {
        Some(Action::RotateDmabufView)
    } else if same_text(name, "toggle-dmabuf-flip") {
        Some(Action::ToggleDmabufFlip)
    } else if same_text(name, "reset-dmabuf-transform") {
        Some(Action::ResetDmabufTransform)
    } else {
        None
    }
}

fn name_action(action: Action) -> (name: &'static str)
    ensures
        name@ == action_name(action),
{
    match action {
        Action::ToggleFullscreen => "toggle-fullscreen",
        Action::ReleaseCursor => "release-cursor",
        Action::RotateDmabufView => "rotate-dmabuf-view",
        Action::ToggleDmabufFlip => "toggle-dmabuf-flip",
        Action::ResetDmabufTransform => "reset-dmabuf-transform",
    }
}

/// The name of an action as a user may write it, in the form in which it is looked up.
pub open spec fn normalized_action(name: Seq<char>) -> Seq<char> {
    with_replaced(lowered(trimmed(name)), '_', '-')
}

/// The name of an action in the form in which it is looked up.
pub fn normalize_action_name(name: &str) -> (normal: String)
    ensures
        normal@ == normalized_action(name@),
{
    let core = trim(name);
    let lower = to_ascii_lowercase(core.as_str());
    replace_char(lower.as_str(), '_', '-')
}

/// The value of the `F11` key.
pub const KEY_F11: u32 = 0xffc8;

/// The value of the `r` key.
pub const KEY_R: u32 = 0x72;

/// The value of the `f` key.
pub const KEY_F: u32 = 0x66;

/// The value of the `0` key.
pub const KEY_0: u32 = 0x30;

/// The mask of control and alt together.
pub const CONTROL_ALT_MASK: u32 = 0xc;

/// One binding for each action.
#[derive(Debug)]
pub struct ViewerHotkeys {
    toggle_fullscreen: Hotkey,
    release_cursor: Hotkey,
    rotate_dmabuf_view: Hotkey,
    toggle_dmabuf_flip: Hotkey,
    reset_dmabuf_transform: Hotkey,
}

/// One binding for each action, with their texts as sequences.
#[verifier::ext_equal]
pub struct HotkeySet {
    pub toggle_fullscreen: HotkeyView,
    pub release_cursor: HotkeyView,
    pub rotate_dmabuf_view: HotkeyView,
    pub toggle_dmabuf_flip: HotkeyView,
    pub reset_dmabuf_transform: HotkeyView,
}

impl HotkeySet {
    /// The binding of an action.
    pub open spec fn of(self, action: Action) -> HotkeyView {
        match action {
            Action::ToggleFullscreen => self.toggle_fullscreen,
            Action::ReleaseCursor => self.release_cursor,
            Action::RotateDmabufView => self.rotate_dmabuf_view,
            Action::ToggleDmabufFlip => self.toggle_dmabuf_flip,
            Action::ResetDmabufTransform => self.reset_dmabuf_transform,
        }
    }

    /// The bindings with that of one action replaced.
    pub open spec fn with(self, action: Action, binding: HotkeyView) -> HotkeySet {
        match action {
            Action::ToggleFullscreen => HotkeySet { toggle_fullscreen: binding, ..self },
            Action::ReleaseCursor => HotkeySet { release_cursor: binding, ..self },
            Action::RotateDmabufView => HotkeySet { rotate_dmabuf_view: binding, ..self },
            Action::ToggleDmabufFlip => HotkeySet { toggle_dmabuf_flip: binding, ..self },
            Action::ResetDmabufTransform => HotkeySet { reset_dmabuf_transform: binding, ..self },
        }
    }

    /// The bindings that hold where the user says nothing.
    pub open spec fn defaults() -> HotkeySet {
        HotkeySet {
            toggle_fullscreen: key_binding(KEY_F11, "F11"@, 0),
            release_cursor: modifier_binding(CONTROL_ALT_MASK),
            rotate_dmabuf_view: key_binding(KEY_R, "r"@, CONTROL_ALT_MASK),
            toggle_dmabuf_flip: key_binding(KEY_F, "f"@, CONTROL_ALT_MASK),
            reset_dmabuf_transform: key_binding(KEY_0, "0"@, CONTROL_ALT_MASK),
        }
    }

    /// An earlier action, from the `from`-th on, has the binding of the `index`-th.
    pub open spec fn earlier_owner(self, index: int, from: int) -> Option<Action>
        decreases index - from,
    {
        if from >= index {
            None
        } else if self.of(actions()[from]).collides(self.of(actions()[index])) {
            Some(actions()[from])
        } else {
            self.earlier_owner(index, from + 1)
        }
    }

    /// What is wrong with the bindings from the `index`-th action on.
    pub open spec fn conflict_from(self, index: int) -> Option<Seq<char>>
        decreases 5 - index,
    {
        if index >= 5 {
            None
        } else {
            match self.earlier_owner(index, 0) {
                Some(owner) => Some(
                    "hotkey conflict: `"@ + action_name(actions()[index]) + "` and `"@
                        + action_name(owner) + "` are both bound to `"@ + self.of(
                        actions()[index],
                    ).text()->0 + "`"@,
                ),
                None => self.conflict_from(index + 1),
            }
        }
    }

    /// No two actions have the same binding.
    pub open spec fn conflict_free(self) -> bool {
        forall|left: Action, right: Action|
            left != right ==> !(#[trigger] self.of(left)).collides(#[trigger] self.of(right))
    }
}

impl View for ViewerHotkeys {
    type V = HotkeySet;

    closed spec fn view(&self) -> HotkeySet {
        HotkeySet {
            toggle_fullscreen: self.toggle_fullscreen@,
            release_cursor: self.release_cursor@,
            rotate_dmabuf_view: self.rotate_dmabuf_view@,
            toggle_dmabuf_flip: self.toggle_dmabuf_flip@,
            reset_dmabuf_transform: self.reset_dmabuf_transform@,
        }
    }
}

/// The bindings found so far, and the names of the actions that were given one.
#[verifier::ext_equal]
pub struct OverrideState {
    pub hotkeys: HotkeySet,
    pub seen: Seq<Seq<char>>,
}

/// The message for a name that stands for no action.
pub open spec fn unknown_action_text(name: Seq<char>) -> Seq<char> {
    "unknown hotkey action `"@ + name + UNKNOWN_ACTION_TAIL@
}

/// The end of the message for a name that stands for no action.
pub const UNKNOWN_ACTION_TAIL: &'static str =
    "`; supported actions are: toggle-fullscreen, release-cursor, rotate-dmabuf-view, toggle-dmabuf-flip, reset-dmabuf-transform";

/// One more assignment.
pub open spec fn override_step(keys: Seq<KnownKey>, before: OverrideState, item: Seq<char>) -> Result<
    OverrideState,
    Seq<Seq<char>>,
> {
    let assignment = trimmed(item);
    if assignment.len() == 0 {
        Err(seq!["`--hotkeys` contains an empty assignment"@])
    } else {
        match cut_once(assignment, '=') {
            None => Err(
                seq![
                    "invalid hotkey override `"@ + assignment
                        + "`; expected `action=accelerator`"@,
                ],
            ),
            Some((raw_name, raw_binding)) => {
                let name = normalized_action(raw_name);
                if before.seen.contains(name) {
                    Err(seq![about("hotkey action "@, name, " was specified more than once"@)])
                } else {
                    match binding_of(raw_binding, keys) {
                        Err(message) => Err(
                            seq!["invalid hotkey for action `"@ + name + "`"@] + message,
                        ),
                        Ok(binding) => match action_named(name) {
                            None => Err(seq![unknown_action_text(name)]),
                            Some(action) => Ok(
                                (OverrideState {
                                    hotkeys: before.hotkeys.with(action, binding),
                                    seen: before.seen.push(name),
                                }),
                            ),
                        },
                    }
                }
            },
        }
    }
}

/// The assignments, one after the other, up to the first that is refused.
pub open spec fn override_fold(keys: Seq<KnownKey>, items: Seq<Seq<char>>) -> Result<
    OverrideState,
    Seq<Seq<char>>,
>
    decreases items.len(),
{
    if items.len() == 0 {
        Ok((OverrideState { hotkeys: HotkeySet::defaults(), seen: Seq::empty() }))
    } else {
        match override_fold(keys, items.drop_last()) {
            Err(message) => Err(message),
            Ok(before) => override_step(keys, before, items.last()),
        }
    }
}

/// The bindings that a list of overrides gives.
pub open spec fn hotkeys_of(spec_text: Option<Seq<char>>, keys: Seq<KnownKey>) -> Result<
    HotkeySet,
    Seq<Seq<char>>,
> {
    match spec_text {
        None => Ok(HotkeySet::defaults()),
        Some(text) => if trimmed(text).len() == 0 {
            Ok(HotkeySet::defaults())
        } else {
            match override_fold(keys, pieces(trimmed(text), ',')) {
                Err(message) => Err(message),
                Ok(found) => match found.hotkeys.conflict_from(0) {
                    Some(message) => Err(seq![message]),
                    None => Ok(found.hotkeys),
                },
            }
        },
    }
}

proof fn override_stops(keys: Seq<KnownKey>, items: Seq<Seq<char>>, count: int)
    requires
        0 <= count <= items.len(),
        override_fold(keys, items.take(count)) is Err,
    ensures
        override_fold(keys, items) == override_fold(keys, items.take(count)),
    decreases items.len() - count,
{
    if count < items.len() {
        assert(items.take(count + 1).drop_last() =~= items.take(count));
        override_stops(keys, items, count + 1);
    } else {
        assert(items.take(count) =~= items);
    }
}

impl ViewerHotkeys {
    /// The bindings that `action=accelerator` overrides give, with the defaults for every action
    /// that they do not mention. `keys` are the keys that the windowing system knows.
    pub fn parse(spec_text: Option<&str>, keys: &Vec<KnownKey>) -> (result: Result<
        ViewerHotkeys,
        Failure,
    >)
        ensures
            match (result, hotkeys_of(crate::text::opt_text(spec_text), keys@)) {
                (Ok(hotkeys), Ok(expected)) => hotkeys@ == expected,
                (Err(failure), Err(expected)) => failure@ == expected,
                _ => false,
            },
    {
        let mut hotkeys = ViewerHotkeys::default();
        let text = match spec_text {
            Some(text) => text,
            None => return Ok(hotkeys),
        };
        let core = trim(text);
        if core.as_str().is_empty() {
            return Ok(hotkeys);
        }
        let parts = split(core.as_str(), ',');
        let ghost items = texts(parts@);
        let mut seen: Vec<String> = Vec::new();
        assert(items.take(0) =~= Seq::<Seq<char>>::empty());
        assert(texts(seen@) =~= Seq::<Seq<char>>::empty());
        for i in 0..parts.len()
            invariant
                items == texts(parts@),
                items == pieces(trimmed(text@), ','),
                trimmed(text@).len() > 0,
                crate::text::opt_text(spec_text) == Some(text@),
                override_fold(keys@, items.take(i as int)) == Ok::<OverrideState, Seq<Seq<char>>>(
                    (OverrideState { hotkeys: hotkeys@, seen: texts(seen@) }),
                ),
        {
            proof {
                assert(items.take(i + 1).drop_last() =~= items.take(i as int));
                assert(items.take(i + 1).last() == parts@[i as int]@);
                if override_fold(keys@, items.take(i + 1)) is Err {
                    override_stops(keys@, items, i + 1);
                }
            }
            let assignment = trim(parts[i].as_str());
            if assignment.as_str().is_empty() {
                return Err(Failure::of("`--hotkeys` contains an empty assignment"));
            }
            let (raw_name, raw_binding) = match split_once(assignment.as_str(), '=') {
                Some(halves) => halves,
                None => {
                    return Err(
                        Failure::new(
                            concat3(
                                "invalid hotkey override `",
                                assignment.as_str(),
                                "`; expected `action=accelerator`",
                            ),
                        ),
                    );
                },
            };
            let name = normalize_action_name(raw_name.as_str());
            if list_has(&seen, name.as_str()) {
                return Err(
                    about_failure("hotkey action ", name.as_str(), " was specified more than once"),
                );
            }
            let binding = match parse_binding(raw_binding.as_str(), keys) {
                Ok(binding) => binding,
                Err(failure) => {
                    return Err(
                        failure.context(
                            concat3("invalid hotkey for action `", name.as_str(), "`"),
                        ),
                    );
                },
            };
            match hotkeys.set_binding(name.as_str(), binding) {
                Ok(_) => {},
                Err(failure) => return Err(failure),
            }
            let ghost before = texts(seen@);
            let ghost name_text = name@;
            seen.push(name);
            assert(texts(seen@) =~= before.push(name_text));
        }
        assert(items.take(items.len() as int) =~= items);
        match hotkeys.validate_conflicts() {
            Ok(_) => Ok(hotkeys),
            Err(failure) => Err(failure),
        }
    }

    fn set_binding(&mut self, name: &str, binding: Hotkey) -> (result: Result<(), Failure>)
        ensures
            match action_named(name@) {
                Some(action) => result is Ok && final(self)@ == old(self)@.with(action, binding@),
                None => {
                    &&& result matches Err(failure)
                    &&& failure@ == seq![unknown_action_text(name@)]
                    &&& *final(self) == *old(self)
                },
            },
    {
        match find_action(name) {
            Some(Action::ToggleFullscreen) => {
                self.toggle_fullscreen = binding;
            },
            Some(Action::ReleaseCursor) => {
                self.release_cursor = binding;
            },
            Some(Action::RotateDmabufView) => {
                self.rotate_dmabuf_view = binding;
            },
            Some(Action::ToggleDmabufFlip) => {
                self.toggle_dmabuf_flip = binding;
            },
            Some(Action::ResetDmabufTransform) => {
                self.reset_dmabuf_transform = binding;
            },
            None => {
                return Err(
                    Failure::new(concat3("unknown hotkey action `", name, UNKNOWN_ACTION_TAIL)),
                );
            },
        }
        Ok(())
    }

    fn binding(&self, action: Action) -> (binding: &Hotkey)
        ensures
            binding@ == self@.of(action),
    {
        match action {
            Action::ToggleFullscreen => &self.toggle_fullscreen,
            Action::ReleaseCursor => &self.release_cursor,
            Action::RotateDmabufView => &self.rotate_dmabuf_view,
            Action::ToggleDmabufFlip => &self.toggle_dmabuf_flip,
            Action::ResetDmabufTransform => &self.reset_dmabuf_transform,
        }
    }

    fn validate_conflicts(&self) -> (result: Result<(), Failure>)
        ensures
            match self@.conflict_from(0) {
                None => result is Ok,
                Some(message) => result matches Err(failure) && failure@ == seq![message],
            },
    {
        let order: Vec<Action> = vec![
            Action::ToggleFullscreen,
            Action::ReleaseCursor,
            Action::RotateDmabufView,
            Action::ToggleDmabufFlip,
            Action::ResetDmabufTransform,
        ];
        assert(order@ =~= actions());
        for index in 0..5usize
            invariant
                order@ == actions(),
                self@.conflict_from(0) == self@.conflict_from(index as int),
        {
            let current = self.binding(order[index]);
            for earlier in 0..index
                invariant
                    order@ == actions(),
                    index < 5,
                    current@ == self@.of(actions()[index as int]),
                    self@.conflict_from(0) == self@.conflict_from(index as int),
                    self@.earlier_owner(index as int, 0) == self@.earlier_owner(
                        index as int,
                        earlier as int,
                    ),
            {
                if self.binding(order[earlier]).collides(current) {
                    return Err(
                        Failure::new(
                            concat7(
                                "hotkey conflict: `",
                                name_action(order[index]),
                                "` and `",
                                name_action(order[earlier]),
                                "` are both bound to `",
                                current.describe(),
                                "`",
                            ),
                        ),
                    );
                }
            }
        }
        Ok(())
    }

    /// The binding that switches between window and full screen.
    pub fn toggle_fullscreen(&self) -> (binding: &Hotkey)
        ensures
            binding@ == self@.toggle_fullscreen,
    {
        &self.toggle_fullscreen
    }

    /// The binding that gives keyboard and pointer back to the host.
    pub fn release_cursor(&self) -> (binding: &Hotkey)
        ensures
            binding@ == self@.release_cursor,
    {
        &self.release_cursor
    }

    /// The binding that turns the view.
    pub fn rotate_dmabuf_view(&self) -> (binding: &Hotkey)
        ensures
            binding@ == self@.rotate_dmabuf_view,
    {
        &self.rotate_dmabuf_view
    }

    /// The binding that flips the view.
    pub fn toggle_dmabuf_flip(&self) -> (binding: &Hotkey)
        ensures
            binding@ == self@.toggle_dmabuf_flip,
    {
        &self.toggle_dmabuf_flip
    }

    /// The binding that sets the view back.
    pub fn reset_dmabuf_transform(&self) -> (binding: &Hotkey)
        ensures
            binding@ == self@.reset_dmabuf_transform,
    {
        &self.reset_dmabuf_transform
    }

    /// The bindings that are not disabled, with a title each.
    pub fn shortcuts_for_dialog(&self) -> (rows: Vec<(String, String)>)
        ensures
            dialog_rows(rows@) == self@.dialog(5),
    {
        let order: Vec<Action> = vec![
            Action::ReleaseCursor,
            Action::ToggleFullscreen,
            Action::RotateDmabufView,
            Action::ToggleDmabufFlip,
            Action::ResetDmabufTransform,
        ];
        assert(order@ =~= dialog_order());
        let mut rows: Vec<(String, String)> = Vec::new();
        assert(dialog_rows(rows@) =~= Seq::<(Seq<char>, Seq<char>)>::empty());
        for i in 0..5usize
            invariant
                order@ == dialog_order(),
                dialog_rows(rows@) == self@.dialog(i as int),
        {
            let ghost before = dialog_rows(rows@);
            if let Some(text) = self.binding(order[i]).accelerator() {
                rows.push((title_action(order[i]).to_owned(), text.to_owned()));
                assert(dialog_rows(rows@) =~= before.push(
                    (action_title(dialog_order()[i as int]), text@),
                ));
            }
        }
        rows
    }
}

/// The titles and texts of a list of rows.
pub open spec fn dialog_rows(rows: Seq<(String, String)>) -> Seq<(Seq<char>, Seq<char>)> {
    rows.map_values(|row: (String, String)| (row.0@, row.1@))
}

/// The actions in the order of the dialog.
pub open spec fn dialog_order() -> Seq<Action> {
    seq![
        Action::ReleaseCursor,
        Action::ToggleFullscreen,
        Action::RotateDmabufView,
        Action::ToggleDmabufFlip,
        Action::ResetDmabufTransform,
    ]
}

/// The title of an action.
pub open spec fn action_title(action: Action) -> Seq<char> {
    match action {
        Action::ToggleFullscreen => "Toggle fullscreen"@,
        Action::ReleaseCursor => "Release keyboard and mouse"@,
        Action::RotateDmabufView => "Rotate DMABUF view"@,
        Action::ToggleDmabufFlip => "Toggle DMABUF vertical flip"@,
        Action::ResetDmabufTransform => "Reset DMABUF transform"@,
    }
}

fn title_action(action: Action) -> (title: &'static str)
    ensures
        title@ == action_title(action),
{
    match action {
        Action::ToggleFullscreen => "Toggle fullscreen",
        Action::ReleaseCursor => "Release keyboard and mouse",
        Action::RotateDmabufView => "Rotate DMABUF view",
        Action::ToggleDmabufFlip => "Toggle DMABUF vertical flip",
        Action::ResetDmabufTransform => "Reset DMABUF transform",
    }
}

impl HotkeySet {
    /// The rows for the first `count` actions of the dialog: those that are not disabled.
    pub open spec fn dialog(self, count: int) -> Seq<(Seq<char>, Seq<char>)>
        decreases count,
    {
        if count <= 0 {
            Seq::empty()
        } else {
            let action = dialog_order()[count - 1];
            match self.of(action).text() {
                Some(text) => self.dialog(count - 1).push((action_title(action), text)),
                None => self.dialog(count - 1),
            }
        }
    }
}

impl Default for ViewerHotkeys {
    fn default() -> (hotkeys: ViewerHotkeys)
        ensures
            hotkeys@ == HotkeySet::defaults(),
    {
        ViewerHotkeys {
            toggle_fullscreen: Hotkey::key(KEY_F11, "F11", 0),
            release_cursor: Hotkey::modifiers(CONTROL_ALT_MASK),
            rotate_dmabuf_view: Hotkey::key(KEY_R, "r", CONTROL_ALT_MASK),
            toggle_dmabuf_flip: Hotkey::key(KEY_F, "f", CONTROL_ALT_MASK),
            reset_dmabuf_transform: Hotkey::key(KEY_0, "0", CONTROL_ALT_MASK),
        }
    }
}


/// Whatever overrides are accepted, no two actions share a binding.
pub proof fn accepted_hotkeys_do_not_conflict(spec_text: Option<Seq<char>>, keys: Seq<KnownKey>)
    ensures
        hotkeys_of(spec_text, keys) matches Ok(hotkeys) ==> hotkeys.conflict_free(),
{
    if let Ok(hotkeys) = hotkeys_of(spec_text, keys) {
        if hotkeys == HotkeySet::defaults() {
            defaults_do_not_conflict();
        } else {
            no_conflict_is_conflict_free(hotkeys);
        }
    }
}

proof fn no_earlier_owner(hotkeys: HotkeySet, index: int, from: int)
    requires
        0 <= from <= index < 5,
        hotkeys.earlier_owner(index, from) is None,
    ensures
        forall|i: int|
            from <= i < index ==> !hotkeys.of(#[trigger] actions()[i]).collides(
                hotkeys.of(actions()[index]),
            ),
    decreases index - from,
{
    if from < index {
        no_earlier_owner(hotkeys, index, from + 1);
    }
}

proof fn no_conflict_from(hotkeys: HotkeySet, index: int)
    requires
        0 <= index <= 5,
        hotkeys.conflict_from(index) is None,
    ensures
        forall|i: int, j: int|
            index <= j < 5 && 0 <= i < j ==> !hotkeys.of(#[trigger] actions()[i]).collides(
                hotkeys.of(#[trigger] actions()[j]),
            ),
    decreases 5 - index,
{
    if index < 5 {
        no_conflict_from(hotkeys, index + 1);
        no_earlier_owner(hotkeys, index, 0);
    }
}

proof fn no_conflict_is_conflict_free(hotkeys: HotkeySet)
    requires
        hotkeys.conflict_from(0) is None,
    ensures
        hotkeys.conflict_free(),
{
    no_conflict_from(hotkeys, 0);
    assert forall|left: Action, right: Action| left != right implies !(#[trigger] hotkeys.of(
        left,
    )).collides(#[trigger] hotkeys.of(right)) by {
        let i = place_of(left);
        let j = place_of(right);
        assert(actions()[i] == left);
        assert(actions()[j] == right);
        if i < j {
            assert(!hotkeys.of(actions()[i]).collides(hotkeys.of(actions()[j])));
        } else {
            assert(!hotkeys.of(actions()[j]).collides(hotkeys.of(actions()[i])));
        }
    }
}

spec fn place_of(action: Action) -> int {
    match action {
        Action::ToggleFullscreen => 0,
        Action::ReleaseCursor => 1,
        Action::RotateDmabufView => 2,
        Action::ToggleDmabufFlip => 3,
        Action::ResetDmabufTransform => 4,
    }
}

proof fn defaults_do_not_conflict()
    ensures
        HotkeySet::defaults().conflict_free(),
{
    let prefix = prefix_of(CONTROL_ALT_MASK & BINDING_MASK);
    let bare = prefix_of(0u32 & BINDING_MASK);
    assert(0u32 & 0x1c00_000d == 0) by (bit_vector);
    assert(0u32 & 0x1 == 0 && 0u32 & 0x4 == 0 && 0u32 & 0x8 == 0 && 0u32 & 0x400_0000 == 0 && 0u32
        & 0x800_0000 == 0 && 0u32 & 0x1000_0000 == 0) by (bit_vector);
    assert(bare.len() == 0);
    reveal_strlit("F11");
    reveal_strlit("r");
    reveal_strlit("f");
    reveal_strlit("0");
    reveal_strlit("<Control>");
    assert(0xcu32 & 0x1c00_000d == 0xc) by (bit_vector);
    assert(0xcu32 & 0x4 == 0x4) by (bit_vector);
    assert(prefix[0] == '<');
    assert((bare + "F11"@)[0] == 'F');
    assert((prefix + "r"@)[0] == '<');
    assert((prefix + "r"@).last() == 'r');
    assert((prefix + "f"@).last() == 'f');
    assert((prefix + "0"@).last() == '0');
}

/// Without overrides every action has its default binding.
pub proof fn no_overrides_give_the_defaults(keys: Seq<KnownKey>)
    ensures
        hotkeys_of(None, keys) == Ok::<HotkeySet, Seq<Seq<char>>>(HotkeySet::defaults()),
{
}

/// A disabled binding never fires.
pub proof fn disabled_bindings_never_fire(keyval: u32, lower_keyval: u32, modifiers: u32)
    ensures
        !HotkeyView::Disabled.fires(keyval, lower_keyval, modifiers),
{
}

/// Locks and buttons that are held do not keep a binding from firing.
pub proof fn other_modifiers_do_not_matter(
    binding: HotkeyView,
    keyval: u32,
    lower_keyval: u32,
    modifiers: u32,
    others: u32,
)
    requires
        others & BINDING_MASK == 0,
    ensures
        binding.fires(keyval, lower_keyval, modifiers | others) == binding.fires(
            keyval,
            lower_keyval,
            modifiers,
        ),
{
    assert(others & 0x1c00_000d == 0 ==> (modifiers | others) & 0x1c00_000d == modifiers
        & 0x1c00_000d) by (bit_vector);
}

/// The names by which the keys of one binding are asked for.
pub open spec fn names_in_tokens(tokens: Seq<Seq<char>>) -> Seq<Seq<char>>
    decreases tokens.len(),
{
    if tokens.len() == 0 {
        Seq::empty()
    } else {
        names_in_tokens(tokens.drop_last()).push(canonical_name(trimmed(tokens.last())))
    }
}

/// The names by which the keys of one assignment are asked for.
pub open spec fn names_in_item(item: Seq<char>) -> Seq<Seq<char>> {
    match cut_once(trimmed(item), '=') {
        None => Seq::empty(),
        Some((_, binding)) => names_in_tokens(pieces(trimmed(binding), '+')),
    }
}

/// The names by which the keys of a list of assignments are asked for.
pub open spec fn names_in_items(items: Seq<Seq<char>>) -> Seq<Seq<char>>
    decreases items.len(),
{
    if items.len() == 0 {
        Seq::empty()
    } else {
        names_in_items(items.drop_last()) + names_in_item(items.last())
    }
}

/// The names by which the keys of a list of overrides are asked for.
pub open spec fn key_names(spec_text: Option<Seq<char>>) -> Seq<Seq<char>> {
    match spec_text {
        None => Seq::empty(),
        Some(text) => names_in_items(pieces(trimmed(text), ',')),
    }
}

/// The names that the windowing system has to be asked for before the overrides are parsed.
pub fn key_names_in(spec_text: Option<&str>) -> (names: Vec<String>)
    ensures
        texts(names@) == key_names(crate::text::opt_text(spec_text)),
{
    let mut names: Vec<String> = Vec::new();
    assert(texts(names@) =~= Seq::<Seq<char>>::empty());
    let text = match spec_text {
        Some(text) => text,
        None => return names,
    };
    let core = trim(text);
    let parts = split(core.as_str(), ',');
    let ghost items = texts(parts@);
    assert(items.take(0) =~= Seq::<Seq<char>>::empty());
    for i in 0..parts.len()
        invariant
            items == texts(parts@),
            texts(names@) == names_in_items(items.take(i as int)),
    {
        assert(items.take(i + 1).drop_last() =~= items.take(i as int));
        assert(items.take(i + 1).last() == parts@[i as int]@);
        let ghost before = texts(names@);
        let assignment = trim(parts[i].as_str());
        if let Some((_, binding)) = split_once(assignment.as_str(), '=') {
            let binding_core = trim(binding.as_str());
            let token_parts = split(binding_core.as_str(), '+');
            let ghost tokens = texts(token_parts@);
            assert(tokens.take(0) =~= Seq::<Seq<char>>::empty());
            assert(before + Seq::<Seq<char>>::empty() =~= before);
            for j in 0..token_parts.len()
                invariant
                    tokens == texts(token_parts@),
                    texts(names@) == before + names_in_tokens(tokens.take(j as int)),
            {
                assert(tokens.take(j + 1).drop_last() =~= tokens.take(j as int));
                assert(tokens.take(j + 1).last() == token_parts@[j as int]@);
                let ghost so_far = texts(names@);
                let part = trim(token_parts[j].as_str());
                let name = canonical_key_name(part.as_str());
                let ghost name_text = name@;
                names.push(name);
                assert(texts(names@) =~= so_far.push(name_text));
                assert(so_far.push(name_text) =~= before + names_in_tokens(tokens.take(j + 1)));
            }
            assert(tokens.take(tokens.len() as int) =~= tokens);
        } else {
            assert(before + Seq::<Seq<char>>::empty() =~= before);
        }
    }
    assert(items.take(items.len() as int) =~= items);
    names
}

/// The two lists give the same answer for every one of the names.
pub open spec fn agree_on(left: Seq<KnownKey>, right: Seq<KnownKey>, names: Seq<Seq<char>>) -> bool {
    forall|i: int|
        0 <= i < names.len() ==> #[trigger] lookup(left, names[i]) == lookup(right, names[i])
}

proof fn tokens_agree(
    raw: Seq<char>,
    left: Seq<KnownKey>,
    right: Seq<KnownKey>,
    tokens: Seq<Seq<char>>,
)
    requires
        agree_on(left, right, names_in_tokens(tokens)),
    ensures
        token_fold(raw, left, tokens) == token_fold(raw, right, tokens),
    decreases tokens.len(),
{
    if tokens.len() > 0 {
        let names = names_in_tokens(tokens);
        let shorter = names_in_tokens(tokens.drop_last());
        assert forall|i: int| 0 <= i < shorter.len() implies #[trigger] lookup(left, shorter[i])
            == lookup(right, shorter[i]) by {
            assert(names[i] == shorter[i]);
            assert(lookup(left, names[i]) == lookup(right, names[i]));
        }
        tokens_agree(raw, left, right, tokens.drop_last());
        let last = names.len() - 1;
        assert(names[last] == canonical_name(trimmed(tokens.last())));
        assert(lookup(left, names[last]) == lookup(right, names[last]));
    }
}

proof fn items_agree(left: Seq<KnownKey>, right: Seq<KnownKey>, items: Seq<Seq<char>>)
    requires
        agree_on(left, right, names_in_items(items)),
    ensures
        override_fold(left, items) == override_fold(right, items),
    decreases items.len(),
{
    if items.len() > 0 {
        let names = names_in_items(items);
        let shorter = names_in_items(items.drop_last());
        let rest = names_in_item(items.last());
        assert forall|i: int| 0 <= i < shorter.len() implies #[trigger] lookup(left, shorter[i])
            == lookup(right, shorter[i]) by {
            assert(names[i] == shorter[i]);
            assert(lookup(left, names[i]) == lookup(right, names[i]));
        }
        items_agree(left, right, items.drop_last());
        assert forall|i: int| 0 <= i < rest.len() implies #[trigger] lookup(left, rest[i])
            == lookup(right, rest[i]) by {
            assert(names[shorter.len() + i] == rest[i]);
            assert(lookup(left, names[shorter.len() + i]) == lookup(
                right,
                names[shorter.len() + i],
            ));
        }
        if let Some((_, binding)) = cut_once(trimmed(items.last()), '=') {
            let raw = trimmed(binding);
            tokens_agree(raw, left, right, pieces(raw, '+'));
        }
    }
}

/// The bindings depend on the windowing system only through the names that are asked for.
pub proof fn only_the_asked_names_matter(
    spec_text: Option<Seq<char>>,
    left: Seq<KnownKey>,
    right: Seq<KnownKey>,
)
    requires
        agree_on(left, right, key_names(spec_text)),
    ensures
        hotkeys_of(spec_text, left) == hotkeys_of(spec_text, right),
{
    if let Some(text) = spec_text {
        items_agree(left, right, pieces(trimmed(text), ','));
    }
}

/// The words for keys.
pub open spec fn key_words() -> Seq<Seq<char>> {
    seq![
        "enter"@,
        "return"@,
        "esc"@,
        "escape"@,
        "space"@,
        "spacebar"@,
        "backspace"@,
        "tab"@,
        "left"@,
        "right"@,
        "up"@,
        "down"@,
        "home"@,
        "end"@,
        "insert"@,
        "ins"@,
        "delete"@,
        "del"@,
        "pageup"@,
        "page-up"@,
        "pagedown"@,
        "page-down"@,
        "plus"@,
        "minus"@,
        "dash"@,
        "equal"@,
        "equals"@,
        "comma"@,
        "period"@,
        "dot"@,
        "slash"@,
        "backslash"@,
        "semicolon"@,
        "apostrophe"@,
        "quote"@,
    ]
}

/// The name that the windowing system has for the key that a word means.
pub open spec fn key_meant(at: int) -> Seq<char> {
    seq![
        "Return"@,
        "Return"@,
        "Escape"@,
        "Escape"@,
        "space"@,
        "space"@,
        "BackSpace"@,
        "Tab"@,
        "Left"@,
        "Right"@,
        "Up"@,
        "Down"@,
        "Home"@,
        "End"@,
        "Insert"@,
        "Insert"@,
        "Delete"@,
        "Delete"@,
        "Page_Up"@,
        "Page_Up"@,
        "Page_Down"@,
        "Page_Down"@,
        "plus"@,
        "minus"@,
        "minus"@,
        "equal"@,
        "equal"@,
        "comma"@,
        "period"@,
        "period"@,
        "slash"@,
        "backslash"@,
        "semicolon"@,
        "apostrophe"@,
        "apostrophe"@,
    ][at]
}

#[verifier::spinoff_prover]
proof fn key_words_are_distinct()
    ensures
        forall|i: int, j: int|
            0 <= i < j < key_words().len() ==> #[trigger] key_words()[i] != #[trigger] key_words()[j],
{
    reveal_strlit("enter");
    reveal_strlit("return");
    reveal_strlit("esc");
    reveal_strlit("escape");
    reveal_strlit("space");
    reveal_strlit("spacebar");
    reveal_strlit("backspace");
    reveal_strlit("tab");
    reveal_strlit("left");
    reveal_strlit("right");
    reveal_strlit("up");
    reveal_strlit("down");
    reveal_strlit("home");
    reveal_strlit("end");
    reveal_strlit("insert");
    reveal_strlit("ins");
    reveal_strlit("delete");
    reveal_strlit("del");
    reveal_strlit("pageup");
    reveal_strlit("page-up");
    reveal_strlit("pagedown");
    reveal_strlit("page-down");
    reveal_strlit("plus");
    reveal_strlit("minus");
    reveal_strlit("dash");
    reveal_strlit("equal");
    reveal_strlit("equals");
    reveal_strlit("comma");
    reveal_strlit("period");
    reveal_strlit("dot");
    reveal_strlit("slash");
    reveal_strlit("backslash");
    reveal_strlit("semicolon");
    reveal_strlit("apostrophe");
    reveal_strlit("quote");
    let words = key_words();
    assert(words[0].len() == 5);
    assert(words[1].len() == 6);
    assert(words[2].len() == 3);
    assert(words[3].len() == 6);
    assert(words[4].len() == 5);
    assert(words[5].len() == 8);
    assert(words[6].len() == 9);
    assert(words[7].len() == 3);
    assert(words[8].len() == 4);
    assert(words[9].len() == 5);
    assert(words[10].len() == 2);
    assert(words[11].len() == 4);
    assert(words[12].len() == 4);
    assert(words[13].len() == 3);
    assert(words[14].len() == 6);
    assert(words[15].len() == 3);
    assert(words[16].len() == 6);
    assert(words[17].len() == 3);
    assert(words[18].len() == 6);
    assert(words[19].len() == 7);
    assert(words[20].len() == 8);
    assert(words[21].len() == 9);
    assert(words[22].len() == 4);
    assert(words[23].len() == 5);
    assert(words[24].len() == 4);
    assert(words[25].len() == 5);
    assert(words[26].len() == 6);
    assert(words[27].len() == 5);
    assert(words[28].len() == 6);
    assert(words[29].len() == 3);
    assert(words[30].len() == 5);
    assert(words[31].len() == 9);
    assert(words[32].len() == 9);
    assert(words[33].len() == 10);
    assert(words[34].len() == 5);
    assert(words[0][0] != words[4][0]);
    assert(words[0][0] != words[9][0]);
    assert(words[0][0] != words[23][0]);
    assert(words[0][1] != words[25][1]);
    assert(words[0][0] != words[27][0]);
    assert(words[0][0] != words[30][0]);
    assert(words[0][0] != words[34][0]);
    assert(words[1][0] != words[3][0]);
    assert(words[1][0] != words[14][0]);
    assert(words[1][0] != words[16][0]);
    assert(words[1][0] != words[18][0]);
    assert(words[1][0] != words[26][0]);
    assert(words[1][0] != words[28][0]);
    assert(words[2][0] != words[7][0]);
    assert(words[2][1] != words[13][1]);
    assert(words[2][0] != words[15][0]);
    assert(words[2][0] != words[17][0]);
    assert(words[2][0] != words[29][0]);
    assert(words[3][0] != words[14][0]);
    assert(words[3][0] != words[16][0]);
    assert(words[3][0] != words[18][0]);
    assert(words[3][1] != words[26][1]);
    assert(words[3][0] != words[28][0]);
    assert(words[4][0] != words[9][0]);
    assert(words[4][0] != words[23][0]);
    assert(words[4][0] != words[25][0]);
    assert(words[4][0] != words[27][0]);
    assert(words[4][1] != words[30][1]);
    assert(words[4][0] != words[34][0]);
    assert(words[5][0] != words[20][0]);
    assert(words[6][0] != words[21][0]);
    assert(words[6][5] != words[31][5]);
    assert(words[6][0] != words[32][0]);
    assert(words[7][0] != words[13][0]);
    assert(words[7][0] != words[15][0]);
    assert(words[7][0] != words[17][0]);
    assert(words[7][0] != words[29][0]);
    assert(words[8][0] != words[11][0]);
    assert(words[8][0] != words[12][0]);
    assert(words[8][0] != words[22][0]);
    assert(words[8][0] != words[24][0]);
    assert(words[9][0] != words[23][0]);
    assert(words[9][0] != words[25][0]);
    assert(words[9][0] != words[27][0]);
    assert(words[9][0] != words[30][0]);
    assert(words[9][0] != words[34][0]);
    assert(words[11][0] != words[12][0]);
    assert(words[11][0] != words[22][0]);
    assert(words[11][1] != words[24][1]);
    assert(words[12][0] != words[22][0]);
    assert(words[12][0] != words[24][0]);
    assert(words[13][0] != words[15][0]);
    assert(words[13][0] != words[17][0]);
    assert(words[13][0] != words[29][0]);
    assert(words[14][0] != words[16][0]);
    assert(words[14][0] != words[18][0]);
    assert(words[14][0] != words[26][0]);
    assert(words[14][0] != words[28][0]);
    assert(words[15][0] != words[17][0]);
    assert(words[15][0] != words[29][0]);
    assert(words[16][0] != words[18][0]);
    assert(words[16][0] != words[26][0]);
    assert(words[16][0] != words[28][0]);
    assert(words[17][1] != words[29][1]);
    assert(words[18][0] != words[26][0]);
    assert(words[18][1] != words[28][1]);
    assert(words[21][0] != words[31][0]);
    assert(words[21][0] != words[32][0]);
    assert(words[22][0] != words[24][0]);
    assert(words[23][0] != words[25][0]);
    assert(words[23][0] != words[27][0]);
    assert(words[23][0] != words[30][0]);
    assert(words[23][0] != words[34][0]);
    assert(words[25][0] != words[27][0]);
    assert(words[25][0] != words[30][0]);
    assert(words[25][0] != words[34][0]);
    assert(words[26][0] != words[28][0]);
    assert(words[27][0] != words[30][0]);
    assert(words[27][0] != words[34][0]);
    assert(words[30][0] != words[34][0]);
    assert(words[31][0] != words[32][0]);
}

/// Every word for a key, in whatever case and with whatever blanks around it, leads to the name of
/// that key.
#[verifier::spinoff_prover]
pub proof fn words_lead_to_their_key(token: &str, name: String, at: int)
    requires
        0 <= at < key_words().len(),
        lowered(trimmed(token@)) == key_words()[at],
        call_ensures(canonical_key_name, (token,), name),
    ensures
        name@ == key_meant(at),
{
    key_words_are_distinct();
    let words = key_words();
    assert(forall|i: int| 0 <= i < words.len() && i != at ==> #[trigger] words[i] != words[at]);
    key_words_stand_in_place();
}

/// A word that is none of those for keys is taken for the name of a key itself, but for function
/// keys, whose name begins with a capital.
pub proof fn other_words_are_names(token: &str, name: String)
    requires
        !key_words().contains(lowered(trimmed(token@))),
        call_ensures(canonical_key_name, (token,), name),
    ensures
        ({
            let word = lowered(trimmed(token@));
            let function_key = word.len() > 0 && word[0] == 'f' && forall|i: int|
                1 <= i < word.len() ==> '0' <= #[trigger] word[i] <= '9';
            &&& !function_key ==> name@ == word
            &&& function_key ==> name@.len() == word.len() && name@[0] == 'F' && forall|i: int|
                1 <= i < word.len() ==> #[trigger] name@[i] == word[i]
        }),
{
    let word = lowered(trimmed(token@));
    let words = key_words();
    assert(forall|i: int| 0 <= i < words.len() ==> #[trigger] words[i] != word);
    key_words_stand_in_place();
    reveal_strlit("F");
}

proof fn key_words_stand_in_place()
    ensures
        ({
            let words = key_words();
            &&& words[0] == "enter"@
            &&& words[1] == "return"@
            &&& words[2] == "esc"@
            &&& words[3] == "escape"@
            &&& words[4] == "space"@
            &&& words[5] == "spacebar"@
            &&& words[6] == "backspace"@
            &&& words[7] == "tab"@
            &&& words[8] == "left"@
            &&& words[9] == "right"@
            &&& words[10] == "up"@
            &&& words[11] == "down"@
            &&& words[12] == "home"@
            &&& words[13] == "end"@
            &&& words[14] == "insert"@
            &&& words[15] == "ins"@
            &&& words[16] == "delete"@
            &&& words[17] == "del"@
            &&& words[18] == "pageup"@
            &&& words[19] == "page-up"@
            &&& words[20] == "pagedown"@
            &&& words[21] == "page-down"@
            &&& words[22] == "plus"@
            &&& words[23] == "minus"@
            &&& words[24] == "dash"@
            &&& words[25] == "equal"@
            &&& words[26] == "equals"@
            &&& words[27] == "comma"@
            &&& words[28] == "period"@
            &&& words[29] == "dot"@
            &&& words[30] == "slash"@
            &&& words[31] == "backslash"@
            &&& words[32] == "semicolon"@
            &&& words[33] == "apostrophe"@
            &&& words[34] == "quote"@
        }),
{
}

/// A modifier is held: its bit is set.
pub open spec fn held(modifiers: u32, mask: u32) -> bool {
    modifiers & mask == mask
}

/// The same of shift, control, alt, super, hyper and meta are held.
pub open spec fn same_held(left: u32, right: u32) -> bool {
    &&& held(left, 0x1) == held(right, 0x1)
    &&& held(left, 0x4) == held(right, 0x4)
    &&& held(left, 0x8) == held(right, 0x8)
    &&& held(left, 0x400_0000) == held(right, 0x400_0000)
    &&& held(left, 0x800_0000) == held(right, 0x800_0000)
    &&& held(left, 0x1000_0000) == held(right, 0x1000_0000)
}

/// Each modifier key, on the left or on the right, stands for its own bit.
pub proof fn modifier_keys_have_their_bits(keyval: u32, mask: Option<u32>)
    requires
        call_ensures(modifier_mask_for_key, (keyval,), mask),
    ensures
        mask == Some(0x1u32) <==> keyval == 0xffe1 || keyval == 0xffe2,
        mask == Some(0x4u32) <==> keyval == 0xffe3 || keyval == 0xffe4,
        mask == Some(0x1000_0000u32) <==> keyval == 0xffe7 || keyval == 0xffe8,
        mask == Some(0x8u32) <==> keyval == 0xffe9 || keyval == 0xffea,
        mask == Some(0x400_0000u32) <==> keyval == 0xffeb || keyval == 0xffec,
        mask == Some(0x800_0000u32) <==> keyval == 0xffed || keyval == 0xffee,
        mask is None <==> keyval < 0xffe1 || keyval > 0xffee || keyval == 0xffe5 || keyval
            == 0xffe6,
{
}

/// A key with modifiers fires on that key exactly while those modifiers are held and no others.
/// Locks and buttons do not matter.
pub proof fn keys_fire_with_their_modifiers(
    key: u32,
    name: &str,
    modifiers: u32,
    hotkey: Hotkey,
    keyval: u32,
    lower_keyval: u32,
    now: u32,
    fires: bool,
)
    requires
        call_ensures(Hotkey::key, (key, name, modifiers), hotkey),
        call_ensures(Hotkey::matches, (&hotkey, keyval, lower_keyval, now), fires),
    ensures
        fires <==> lower_keyval == key && same_held(now, modifiers),
{
    masked_bits_are_held_bits(now, modifiers);
}

proof fn masked_bits_are_held_bits(left: u32, right: u32)
    ensures
        left & BINDING_MASK == right & BINDING_MASK <==> same_held(left, right),
{
    assert((left & 0x1c00_000d == right & 0x1c00_000d) == ((left & 0x1 == 0x1) == (right & 0x1
        == 0x1) && (left & 0x4 == 0x4) == (right & 0x4 == 0x4) && (left & 0x8 == 0x8) == (right
        & 0x8 == 0x8) && (left & 0x400_0000 == 0x400_0000) == (right & 0x400_0000 == 0x400_0000)
        && (left & 0x800_0000 == 0x800_0000) == (right & 0x800_0000 == 0x800_0000) && (left
        & 0x1000_0000 == 0x1000_0000) == (right & 0x1000_0000 == 0x1000_0000))) by (bit_vector);
}

/// Modifiers alone fire on the last of them to go down: on a key that is one of them, while the
/// others, and no more, are held.
pub proof fn modifiers_fire_with_the_last(
    modifiers: u32,
    hotkey: Hotkey,
    keyval: u32,
    lower_keyval: u32,
    now: u32,
    fires: bool,
    current: Option<u32>,
)
    requires
        call_ensures(Hotkey::modifiers, (modifiers,), hotkey),
        call_ensures(Hotkey::matches, (&hotkey, keyval, lower_keyval, now), fires),
        call_ensures(modifier_mask_for_key, (keyval,), current),
    ensures
        fires <==> current is Some && held(modifiers, current->0) && same_held(
            now | current->0,
            modifiers,
        ),
{
    if current is Some {
        let mask = current->0;
        masked_bits_are_held_bits(now | mask, modifiers);
        assert(((now & 0x1c00_000d) | mask == (now | mask) & 0x1c00_000d) && (((modifiers
            & 0x1c00_000d) & mask == mask) == (modifiers & mask == mask))) by (bit_vector)
            requires
                mask == 0x1u32 || mask == 0x4 || mask == 0x8 || mask == 0x400_0000 || mask
                    == 0x800_0000 || mask == 0x1000_0000,
        ;
    }
}

/// The text of a binding has the labels of its modifiers in front, in the order control, alt, shift,
/// super, meta, hyper: taking the last of them away takes its label off the end.
pub proof fn labels_follow_the_modifiers(modifiers: u32)
    ensures
        !held(modifiers, 0x4) && !held(modifiers, 0x8) && !held(modifiers, 0x1) && !held(
            modifiers,
            0x400_0000,
        ) && !held(modifiers, 0x1000_0000) && !held(modifiers, 0x800_0000) ==> prefix_of(modifiers)
            == Seq::<char>::empty(),
        held(modifiers, 0x800_0000) ==> prefix_of(modifiers) == prefix_of(modifiers ^ 0x800_0000)
            + "<Hyper>"@,
        held(modifiers, 0x1000_0000) && !held(modifiers, 0x800_0000) ==> prefix_of(modifiers)
            == prefix_of(modifiers ^ 0x1000_0000) + "<Meta>"@,
        held(modifiers, 0x400_0000) && !held(modifiers, 0x1000_0000) && !held(
            modifiers,
            0x800_0000,
        ) ==> prefix_of(modifiers) == prefix_of(modifiers ^ 0x400_0000) + "<Super>"@,
        held(modifiers, 0x1) && !held(modifiers, 0x400_0000) && !held(modifiers, 0x1000_0000)
            && !held(modifiers, 0x800_0000) ==> prefix_of(modifiers) == prefix_of(modifiers ^ 0x1)
            + "<Shift>"@,
        held(modifiers, 0x8) && !held(modifiers, 0x1) && !held(modifiers, 0x400_0000) && !held(
            modifiers,
            0x1000_0000,
        ) && !held(modifiers, 0x800_0000) ==> prefix_of(modifiers) == prefix_of(modifiers ^ 0x8)
            + "<Alt>"@,
        held(modifiers, 0x4) && !held(modifiers, 0x8) && !held(modifiers, 0x1) && !held(
            modifiers,
            0x400_0000,
        ) && !held(modifiers, 0x1000_0000) && !held(modifiers, 0x800_0000) ==> prefix_of(modifiers)
            == "<Control>"@,
{
    one_bit_goes(modifiers, 0x4);
    one_bit_goes(modifiers, 0x8);
    one_bit_goes(modifiers, 0x1);
    one_bit_goes(modifiers, 0x400_0000);
    one_bit_goes(modifiers, 0x1000_0000);
    one_bit_goes(modifiers, 0x800_0000);
    let none = Seq::<char>::empty();
    assert(prefix_of(modifiers) =~= label_if(modifiers, CONTROL_MASK, "<Control>"@) + (label_if(
        modifiers,
        ALT_MASK,
        "<Alt>"@,
    ) + label_if(modifiers, SHIFT_MASK, "<Shift>"@) + label_if(modifiers, SUPER_MASK, "<Super>"@)
        + label_if(modifiers, META_MASK, "<Meta>"@) + label_if(modifiers, HYPER_MASK, "<Hyper>"@)));
    assert(forall|text: Seq<char>| #[trigger] (text + none) =~= text);
}

proof fn one_bit_goes(modifiers: u32, mask: u32)
    requires
        mask == 0x1u32 || mask == 0x4 || mask == 0x8 || mask == 0x400_0000 || mask == 0x800_0000
            || mask == 0x1000_0000,
    ensures
        held(modifiers, mask) ==> !held(modifiers ^ mask, mask),
        mask != 0x1 ==> held(modifiers ^ mask, 0x1) == held(modifiers, 0x1),
        mask != 0x4 ==> held(modifiers ^ mask, 0x4) == held(modifiers, 0x4),
        mask != 0x8 ==> held(modifiers ^ mask, 0x8) == held(modifiers, 0x8),
        mask != 0x400_0000 ==> held(modifiers ^ mask, 0x400_0000) == held(modifiers, 0x400_0000),
        mask != 0x800_0000 ==> held(modifiers ^ mask, 0x800_0000) == held(modifiers, 0x800_0000),
        mask != 0x1000_0000 ==> held(modifiers ^ mask, 0x1000_0000) == held(modifiers, 0x1000_0000),
{
    assert(((modifiers & mask == mask) ==> (modifiers ^ mask) & mask != mask) && (mask != 0x1 ==> (
    modifiers ^ mask) & 0x1 == modifiers & 0x1) && (mask != 0x4 ==> (modifiers ^ mask) & 0x4
        == modifiers & 0x4) && (mask != 0x8 ==> (modifiers ^ mask) & 0x8 == modifiers & 0x8) && (
    mask != 0x400_0000 ==> (modifiers ^ mask) & 0x400_0000 == modifiers & 0x400_0000) && (mask
        != 0x800_0000 ==> (modifiers ^ mask) & 0x800_0000 == modifiers & 0x800_0000) && (mask
        != 0x1000_0000 ==> (modifiers ^ mask) & 0x1000_0000 == modifiers & 0x1000_0000))
        by (bit_vector)
        requires
            mask == 0x1u32 || mask == 0x4 || mask == 0x8 || mask == 0x400_0000 || mask
                == 0x800_0000 || mask == 0x1000_0000,
    ;
}

/// The bindings of actions are apart: what is bound to one is found again there, and every other
/// action keeps its binding.
pub proof fn bindings_are_apart(
    hotkeys: HotkeySet,
    action: Action,
    other: Action,
    binding: HotkeyView,
)
    ensures
        hotkeys.with(action, binding).of(action) == binding,
        other != action ==> hotkeys.with(action, binding).of(other) == hotkeys.of(other),
{
}

/// Each action has a name, and a name stands for one action. The release of the input has a second
/// name.
pub proof fn actions_have_their_names(name: Seq<char>)
    ensures
        action_named(name) == Some(Action::ToggleFullscreen) <==> name == "toggle-fullscreen"@,
        action_named(name) == Some(Action::ReleaseCursor) <==> name == "release-cursor"@ || name
            == "release-grab"@,
        action_named(name) == Some(Action::RotateDmabufView) <==> name == "rotate-dmabuf-view"@,
        action_named(name) == Some(Action::ToggleDmabufFlip) <==> name == "toggle-dmabuf-flip"@,
        action_named(name) == Some(Action::ResetDmabufTransform) <==> name
            == "reset-dmabuf-transform"@,
        forall|action: Action| action_named(#[trigger] action_name(action)) == Some(action),
{
    reveal_strlit("toggle-fullscreen");
    reveal_strlit("release-cursor");
    reveal_strlit("release-grab");
    reveal_strlit("rotate-dmabuf-view");
    reveal_strlit("toggle-dmabuf-flip");
    reveal_strlit("reset-dmabuf-transform");
    assert("toggle-fullscreen"@.len() == 17);
    assert("release-cursor"@.len() == 14);
    assert("release-grab"@.len() == 12);
    assert("rotate-dmabuf-view"@.len() == 18);
    assert("toggle-dmabuf-flip"@.len() == 18);
    assert("reset-dmabuf-transform"@.len() == 22);
    assert("rotate-dmabuf-view"@[0] == 'r');
    assert("toggle-dmabuf-flip"@[0] == 't');
}

/// An assignment that is accepted changes the binding of the action that it names, to what its text
/// describes, and no other. The name may be written in any case and with underscores.
pub proof fn assignments_concern_one_action(
    keys: Seq<KnownKey>,
    before: OverrideState,
    item: Seq<char>,
    name: Seq<char>,
    binding: Seq<char>,
    other: Action,
)
    requires
        trimmed(item) == name + seq!['='] + binding,
        !name.contains('='),
    ensures
        override_step(keys, before, item) matches Ok(after) ==> {
            let action = action_named(with_replaced(lowered(trimmed(name)), '_', '-'));
            &&& action is Some
            &&& binding_of(binding, keys) is Ok
            &&& after.hotkeys.of(action->0) == binding_of(binding, keys)->Ok_0
            &&& other != action->0 ==> after.hotkeys.of(other) == before.hotkeys.of(other)
        },
        binding_of(binding, keys) is Err ==> override_step(keys, before, item) is Err,
        action_named(with_replaced(lowered(trimmed(name)), '_', '-')) is None ==> override_step(
            keys,
            before,
            item,
        ) is Err,
        before.seen.contains(with_replaced(lowered(trimmed(name)), '_', '-')) ==> override_step(
            keys,
            before,
            item,
        ) is Err,
{
    let assignment = trimmed(item);
    let at = name.len() as int;
    assert(assignment[at] == '=');
    assert forall|i: int| 0 <= i < at implies assignment[i] != '=' by {
        assert(assignment[i] == name[i]);
    }
    assert(crate::text::scan::first_at(assignment, '=', at));
    crate::text::scan::cut_once_at(assignment, '=', at);
    assert(assignment.take(at) =~= name);
    assert(assignment.skip(at + 1) =~= binding);
    assert(assignment.contains('='));
}

/// The parts of a binding count wherever they stand: it has a modifier exactly where one of its
/// parts names that modifier, and a key exactly where one of its parts names none. That part is the
/// only such one, and the key is the one that it names.
pub proof fn parts_of_a_binding_count(
    raw: Seq<char>,
    keys: Seq<KnownKey>,
    tokens: Seq<Seq<char>>,
)
    ensures
        token_fold(raw, keys, tokens) matches Ok(found) ==> {
            &&& forall|i: int|
                0 <= i < tokens.len() ==> match modifier_named(trimmed(#[trigger] tokens[i])) {
                    Some(mask) => held(found.modifiers, mask),
                    None => found.key is Some && found.key == lookup(
                        keys,
                        canonical_name(trimmed(tokens[i])),
                    ),
                }
            &&& found.key is Some ==> exists|i: int|
                0 <= i < tokens.len() && modifier_named(trimmed(#[trigger] tokens[i])) is None
            &&& forall|mask: u32|
                (mask == 0x1u32 || mask == 0x4 || mask == 0x8 || mask == 0x400_0000 || mask
                    == 0x800_0000 || mask == 0x1000_0000) && #[trigger] held(found.modifiers, mask)
                    ==> exists|i: int|
                    0 <= i < tokens.len() && modifier_named(trimmed(#[trigger] tokens[i])) == Some(
                        mask,
                    )
        },
    decreases tokens.len(),
{
    if tokens.len() == 0 {
        assert(forall|mask: u32| #[trigger] held(0, mask) ==> mask == 0) by {
            assert forall|mask: u32| #[trigger] held(0, mask) implies mask == 0 by {
                assert(0u32 & mask == 0) by (bit_vector);
            }
        }
    } else if token_fold(raw, keys, tokens) is Ok {
        let fewer = tokens.drop_last();
        parts_of_a_binding_count(raw, keys, fewer);
        let before = token_fold(raw, keys, fewer)->Ok_0;
        let found = token_fold(raw, keys, tokens)->Ok_0;
        let last = tokens.len() - 1;
        let part = trimmed(tokens[last]);
        let named = modifier_named(part);
        assert(tokens.last() == tokens[last]);
        if named is Some {
            let more = named->0;
            assert forall|mask: u32|
                mask == 0x1u32 || mask == 0x4 || mask == 0x8 || mask == 0x400_0000 || mask
                    == 0x800_0000 || mask == 0x1000_0000 implies #[trigger] held(
                found.modifiers,
                mask,
            ) == (held(before.modifiers, mask) || mask == more) by {
                let old_bits = before.modifiers;
                assert(((old_bits | more) & mask == mask) == (old_bits & mask == mask || mask
                    == more)) by (bit_vector)
                    requires
                        mask == 0x1u32 || mask == 0x4 || mask == 0x8 || mask == 0x400_0000 || mask
                            == 0x800_0000 || mask == 0x1000_0000,
                        more == 0x1u32 || more == 0x4 || more == 0x8 || more == 0x400_0000 || more
                            == 0x800_0000 || more == 0x1000_0000,
                ;
            }
        }
        assert forall|i: int| 0 <= i < tokens.len() implies match modifier_named(
            trimmed(#[trigger] tokens[i]),
        ) {
            Some(mask) => held(found.modifiers, mask),
            None => found.key is Some && found.key == lookup(
                keys,
                canonical_name(trimmed(tokens[i])),
            ),
        } by {
            if i < last {
                assert(fewer[i] == tokens[i]);
            }
        }
        if found.key is Some {
            if named is Some {
                let i = choose|i: int|
                    0 <= i < fewer.len() && modifier_named(trimmed(#[trigger] fewer[i])) is None;
                assert(modifier_named(trimmed(tokens[i])) is None);
            } else {
                assert(modifier_named(trimmed(tokens[last])) is None);
            }
        }
        assert forall|mask: u32|
            (mask == 0x1u32 || mask == 0x4 || mask == 0x8 || mask == 0x400_0000 || mask
                == 0x800_0000 || mask == 0x1000_0000) && #[trigger] held(
                found.modifiers,
                mask,
            ) implies exists|i: int|
            0 <= i < tokens.len() && modifier_named(trimmed(#[trigger] tokens[i])) == Some(mask) by {
            if named == Some(mask) {
                assert(modifier_named(trimmed(tokens[last])) == Some(mask));
            } else {
                assert(held(before.modifiers, mask));
                let i = choose|i: int|
                    0 <= i < fewer.len() && modifier_named(trimmed(#[trigger] fewer[i])) == Some(
                        mask,
                    );
                assert(modifier_named(trimmed(tokens[i])) == Some(mask));
            }
        }
    }
}

/// A word for a modifier names it by its bit, in whatever case and with whatever blanks around it.
pub proof fn modifiers_are_named(token: &str, mask: Option<u32>)
    requires
        call_ensures(parse_modifier, (token,), mask),
    ensures
        ({
            let word = lowered(trimmed(token@));
            &&& mask == Some(0x4u32) <==> word == "ctrl"@ || word == "control"@ || word == "ctl"@
            &&& mask == Some(0x8u32) <==> word == "alt"@
            &&& mask == Some(0x1u32) <==> word == "shift"@
            &&& mask == Some(0x400_0000u32) <==> word == "super"@ || word == "win"@ || word
                == "windows"@ || word == "logo"@
            &&& mask == Some(0x1000_0000u32) <==> word == "meta"@
            &&& mask == Some(0x800_0000u32) <==> word == "hyper"@
        }),
{
    reveal_strlit("ctrl");
    reveal_strlit("control");
    reveal_strlit("ctl");
    reveal_strlit("alt");
    reveal_strlit("shift");
    reveal_strlit("super");
    reveal_strlit("win");
    reveal_strlit("windows");
    reveal_strlit("logo");
    reveal_strlit("meta");
    reveal_strlit("hyper");
    assert("ctrl"@.len() == 4 && "control"@.len() == 7 && "ctl"@.len() == 3 && "alt"@.len() == 3
        && "shift"@.len() == 5 && "super"@.len() == 5 && "win"@.len() == 3 && "windows"@.len() == 7
        && "logo"@.len() == 4 && "meta"@.len() == 4 && "hyper"@.len() == 5);
    assert("ctrl"@[0] == 'c' && "control"@[0] == 'c' && "ctl"@[0] == 'c' && "alt"@[0] == 'a'
        && "shift"@[1] == 'h' && "super"@[1] == 'u' && "win"@[0] == 'w' && "windows"@[0] == 'w'
        && "logo"@[0] == 'l' && "meta"@[0] == 'm' && "hyper"@[1] == 'y');
}

/// The first key that goes by a name is the one that is found, and none is found exactly where none
/// goes by it.
pub proof fn first_known_key_is_found(keys: Seq<KnownKey>, asked: Seq<char>)
    ensures
        lookup(keys, asked) is None <==> forall|i: int|
            0 <= i < keys.len() ==> (#[trigger] keys[i]).asked@ != asked,
        forall|i: int|
            0 <= i < keys.len() && (#[trigger] keys[i]).asked@ == asked && (forall|j: int|
                0 <= j < i ==> (#[trigger] keys[j]).asked@ != asked) ==> lookup(keys, asked)
                == Some((keys[i].key, keys[i].name@)),
    decreases keys.len(),
{
    if keys.len() > 0 && keys[0].asked@ != asked {
        let rest = keys.drop_first();
        first_known_key_is_found(rest, asked);
        assert forall|i: int|
            0 <= i < keys.len() && (#[trigger] keys[i]).asked@ == asked && (forall|j: int|
                0 <= j < i ==> (#[trigger] keys[j]).asked@ != asked) implies lookup(keys, asked)
            == Some((keys[i].key, keys[i].name@)) by {
            assert(rest[i - 1] == keys[i]);
            assert forall|j: int| 0 <= j < i - 1 implies (#[trigger] rest[j]).asked@ != asked by {
                assert(rest[j] == keys[j + 1]);
            }
        }
        if lookup(keys, asked) is None {
            assert forall|i: int| 0 <= i < keys.len() implies (#[trigger] keys[i]).asked@
                != asked by {
                if i > 0 {
                    assert(keys[i] == rest[i - 1]);
                }
            }
        } else {
            let i = choose|i: int| 0 <= i < rest.len() && (#[trigger] rest[i]).asked@ == asked;
            assert(keys[i + 1].asked@ == asked);
        }
    }
}

/// Where nothing is said, F11 alone toggles full screen, control and alt together give the input
/// back, and control and alt with r, f or 0 turn, flip and reset the view.
pub proof fn defaults_fire_on_their_keys(
    hotkeys: ViewerHotkeys,
    keyval: u32,
    lower_keyval: u32,
    now: u32,
)
    requires
        call_ensures(ViewerHotkeys::default, (), hotkeys),
    ensures
        hotkeys@.toggle_fullscreen.fires(keyval, lower_keyval, now) <==> lower_keyval == 0xffc8
            && same_held(now, 0),
        hotkeys@.rotate_dmabuf_view.fires(keyval, lower_keyval, now) <==> lower_keyval == 'r' as u32
            && same_held(now, 0xc),
        hotkeys@.toggle_dmabuf_flip.fires(keyval, lower_keyval, now) <==> lower_keyval == 'f' as u32
            && same_held(now, 0xc),
        hotkeys@.reset_dmabuf_transform.fires(keyval, lower_keyval, now) <==> lower_keyval
            == '0' as u32 && same_held(now, 0xc),
        hotkeys@.release_cursor.fires(keyval, lower_keyval, now) <==> {
            ||| (keyval == 0xffe3 || keyval == 0xffe4) && same_held(now | 0x4, 0xc)
            ||| (keyval == 0xffe9 || keyval == 0xffea) && same_held(now | 0x8, 0xc)
        },
{
    masked_bits_are_held_bits(now, 0);
    masked_bits_are_held_bits(now, 0xc);
    masked_bits_are_held_bits(now | 0x4, 0xc);
    masked_bits_are_held_bits(now | 0x8, 0xc);
    assert((now & 0x1c00_000d) | 0x4 == (now | 0x4) & 0x1c00_000d && (now & 0x1c00_000d) | 0x8 == (
    now | 0x8) & 0x1c00_000d && (0xcu32 & 0x1c00_000d) & 0x4 == 0x4 && (0xcu32 & 0x1c00_000d) & 0x8
        == 0x8 && (0xcu32 & 0x1c00_000d) & 0x1 != 0x1 && (0xcu32 & 0x1c00_000d) & 0x400_0000
        != 0x400_0000 && (0xcu32 & 0x1c00_000d) & 0x800_0000 != 0x800_0000 && (0xcu32 & 0x1c00_000d)
        & 0x1000_0000 != 0x1000_0000) by (bit_vector);
}

/// Bindings are refused exactly where two actions share one.
pub proof fn shared_bindings_are_refused(hotkeys: HotkeySet)
    ensures
        hotkeys.conflict_from(0) is None <==> hotkeys.conflict_free(),
{
    if hotkeys.conflict_from(0) is None {
        no_conflict_is_conflict_free(hotkeys);
    } else {
        some_conflict_is_found(hotkeys, 0);
    }
}

proof fn some_conflict_is_found(hotkeys: HotkeySet, index: int)
    requires
        0 <= index <= 5,
        hotkeys.conflict_from(index) is Some,
    ensures
        !hotkeys.conflict_free(),
    decreases 5 - index,
{
    if index < 5 {
        if hotkeys.earlier_owner(index, 0) is Some {
            some_owner_is_found(hotkeys, index, 0);
        } else {
            some_conflict_is_found(hotkeys, index + 1);
        }
    }
}

proof fn some_owner_is_found(hotkeys: HotkeySet, index: int, from: int)
    requires
        0 <= from <= index < 5,
        hotkeys.earlier_owner(index, from) is Some,
    ensures
        !hotkeys.conflict_free(),
    decreases index - from,
{
    if hotkeys.of(actions()[from]).collides(hotkeys.of(actions()[index])) {
        assert(actions()[from] != actions()[index]);
    } else {
        some_owner_is_found(hotkeys, index, from + 1);
    }
}

/// The dialog has a row for every action that has a binding, with its title and text, and no other.
pub proof fn dialogs_list_what_is_bound(
    hotkeys: ViewerHotkeys,
    rows: Vec<(String, String)>,
    action: Action,
)
    requires
        call_ensures(ViewerHotkeys::shortcuts_for_dialog, (&hotkeys,), rows),
    ensures
        hotkeys@.of(action).text() matches Some(text) ==> dialog_rows(rows@).contains(
            (action_title(action), text),
        ),
        rows.len() == (if hotkeys@.toggle_fullscreen is Disabled {
            0int
        } else {
            1
        }) + (if hotkeys@.release_cursor is Disabled {
            0int
        } else {
            1
        }) + (if hotkeys@.rotate_dmabuf_view is Disabled {
            0int
        } else {
            1
        }) + (if hotkeys@.toggle_dmabuf_flip is Disabled {
            0int
        } else {
            1
        }) + (if hotkeys@.reset_dmabuf_transform is Disabled {
            0int
        } else {
            1
        }),
{
    let set = hotkeys@;
    reveal_with_fuel(HotkeySet::dialog, 6);
    assert(dialog_rows(rows@).len() == rows.len());
    dialog_keeps_rows(set, 1);
    dialog_keeps_rows(set, 2);
    dialog_keeps_rows(set, 3);
    dialog_keeps_rows(set, 4);
    dialog_keeps_rows(set, 5);
}

proof fn dialog_keeps_rows(hotkeys: HotkeySet, count: int)
    requires
        1 <= count <= 5,
    ensures
        forall|row: (Seq<char>, Seq<char>)|
            hotkeys.dialog(count - 1).contains(row) ==> #[trigger] hotkeys.dialog(count).contains(
                row,
            ),
        hotkeys.of(dialog_order()[count - 1]).text() matches Some(text) ==> hotkeys.dialog(
            count,
        ).contains((action_title(dialog_order()[count - 1]), text)),
{
    let before = hotkeys.dialog(count - 1);
    let now = hotkeys.dialog(count);
    let action = dialog_order()[count - 1];
    if hotkeys.of(action).text() is Some {
        assert(now[before.len() as int] == (action_title(action), hotkeys.of(action).text()->0));
    }
    assert forall|row: (Seq<char>, Seq<char>)| before.contains(row) implies #[trigger] now.contains(
        row,
    ) by {
        let i = choose|i: int| 0 <= i < before.len() && before[i] == row;
        assert(now[i] == row);
    }
}

/// A binding is switched off exactly by one of three words, in whatever case and with whatever
/// blanks around it; a binding that is not switched off fires on something.
pub proof fn three_words_switch_off(text: &str, keys: Vec<KnownKey>, result: Result<Hotkey, Failure>)
    requires
        call_ensures(parse_binding, (text, &keys), result),
    ensures
        result matches Ok(hotkey) ==> (hotkey is Disabled <==> {
            let word = lowered(trimmed(text@));
            ||| word == "off"@
            ||| word == "none"@
            ||| word == "disabled"@
        }),
        trimmed(text@).len() == 0 ==> result is Err,
        result matches Ok(hotkey) ==> (hotkey is Modifiers ==> hotkey@->Modifiers_modifiers != 0
            || hotkey@->Modifiers_accelerator.len() == 0),
{
    reveal_strlit("off");
    reveal_strlit("none");
    reveal_strlit("disabled");
    if result is Ok && result->Ok_0 is Modifiers {
        let modifiers = result->Ok_0@->Modifiers_modifiers;
        if modifiers == 0 {
            labels_follow_the_modifiers(modifiers);
            assert(0u32 & 0x1 == 0 && 0u32 & 0x4 == 0 && 0u32 & 0x8 == 0 && 0u32 & 0x400_0000 == 0
                && 0u32 & 0x800_0000 == 0 && 0u32 & 0x1000_0000 == 0) by (bit_vector);
        }
    }
}

/// The action that an assignment names.
pub open spec fn assigned_action(item: Seq<char>) -> Option<Action> {
    match cut_once(trimmed(item), '=') {
        Some((name, _)) => action_named(normalized_action(name)),
        None => None,
    }
}

/// An action that no assignment names keeps its default binding, whatever else is assigned.
pub proof fn unnamed_actions_keep_their_default(
    keys: Seq<KnownKey>,
    items: Seq<Seq<char>>,
    action: Action,
)
    requires
        forall|i: int| 0 <= i < items.len() ==> assigned_action(#[trigger] items[i]) != Some(action),
    ensures
        override_fold(keys, items) matches Ok(found) ==> found.hotkeys.of(action)
            == HotkeySet::defaults().of(action),
    decreases items.len(),
{
    if items.len() > 0 {
        let fewer = items.drop_last();
        assert forall|i: int| 0 <= i < fewer.len() implies assigned_action(#[trigger] fewer[i])
            != Some(action) by {
            assert(fewer[i] == items[i]);
        }
        unnamed_actions_keep_their_default(keys, fewer, action);
        assert(assigned_action(items[items.len() - 1]) != Some(action));
    }
}

/// The last assignment to an action decides its binding.
pub proof fn last_assignment_decides(
    keys: Seq<KnownKey>,
    items: Seq<Seq<char>>,
    action: Action,
    at: int,
)
    requires
        0 <= at < items.len(),
        assigned_action(items[at]) == Some(action),
        forall|i: int|
            at < i < items.len() ==> assigned_action(#[trigger] items[i]) != Some(action),
    ensures
        override_fold(keys, items) matches Ok(found) ==> Ok::<HotkeyView, Seq<Seq<char>>>(
            found.hotkeys.of(action),
        ) == binding_of((cut_once(trimmed(items[at]), '=')->0).1, keys),
    decreases items.len(),
{
    let fewer = items.drop_last();
    if at < items.len() - 1 {
        assert forall|i: int| at < i < fewer.len() implies assigned_action(#[trigger] fewer[i])
            != Some(action) by {
            assert(fewer[i] == items[i]);
        }
        last_assignment_decides(keys, fewer, action, at);
        assert(assigned_action(items[items.len() - 1]) != Some(action));
    }
}

/// The part of a binding can stand in one: it is not blank, and names a modifier or a known key.
pub open spec fn usable(keys: Seq<KnownKey>, token: Seq<char>) -> bool {
    &&& trimmed(token).len() > 0
    &&& modifier_named(trimmed(token)) is Some || lookup(keys, canonical_name(trimmed(token)))
        is Some
}

proof fn usable_parts_are_accepted(
    raw: Seq<char>,
    keys: Seq<KnownKey>,
    tokens: Seq<Seq<char>>,
)
    ensures
        token_fold(raw, keys, tokens) is Ok <==> {
            &&& forall|i: int| 0 <= i < tokens.len() ==> usable(keys, #[trigger] tokens[i])
            &&& forall|i: int, j: int|
                0 <= i < j < tokens.len() ==> modifier_named(trimmed(#[trigger] tokens[i])) is Some
                    || modifier_named(trimmed(#[trigger] tokens[j])) is Some
        },
        token_fold(raw, keys, tokens) is Ok && tokens.len() > 0 ==> {
            let found = token_fold(raw, keys, tokens)->Ok_0;
            found.key is Some || found.modifiers != 0
        },
    decreases tokens.len(),
{
    if tokens.len() > 0 {
        let fewer = tokens.drop_last();
        let last = tokens.len() - 1;
        usable_parts_are_accepted(raw, keys, fewer);
        parts_of_a_binding_count(raw, keys, fewer);
        parts_of_a_binding_count(raw, keys, tokens);
        assert(forall|i: int| 0 <= i < fewer.len() ==> fewer[i] == #[trigger] tokens[i]);
        assert(tokens.last() == tokens[last]);
        trimming_is_done_once(tokens[last]);
        if token_fold(raw, keys, tokens) is Ok {
            let before = token_fold(raw, keys, fewer)->Ok_0;
            assert forall|i: int| 0 <= i < tokens.len() implies usable(keys, #[trigger] tokens[i]) by {
                if i < last {
                    assert(usable(keys, fewer[i]));
                }
            }
            assert forall|i: int, j: int| 0 <= i < j < tokens.len() implies modifier_named(
                trimmed(#[trigger] tokens[i]),
            ) is Some || modifier_named(trimmed(#[trigger] tokens[j])) is Some by {
                assert(fewer[i] == tokens[i]);
                if j < last {
                    assert(fewer[j] == tokens[j]);
                }
            }
            let found = token_fold(raw, keys, tokens)->Ok_0;
            if modifier_named(trimmed(tokens[last])) is Some {
                let mask = modifier_named(trimmed(tokens[last]))->0;
                assert(held(found.modifiers, mask));
                assert(0u32 & mask == 0) by (bit_vector);
            }
        } else if (forall|i: int| 0 <= i < tokens.len() ==> usable(keys, #[trigger] tokens[i]))
            && (forall|i: int, j: int|
            0 <= i < j < tokens.len() ==> modifier_named(trimmed(#[trigger] tokens[i])) is Some
                || modifier_named(trimmed(#[trigger] tokens[j])) is Some) {
            assert forall|i: int| 0 <= i < fewer.len() implies usable(keys, #[trigger] fewer[i]) by {
                assert(usable(keys, tokens[i]));
            }
            assert forall|i: int, j: int| 0 <= i < j < fewer.len() implies modifier_named(
                trimmed(#[trigger] fewer[i]),
            ) is Some || modifier_named(trimmed(#[trigger] fewer[j])) is Some by {
                assert(tokens[i] == fewer[i] && tokens[j] == fewer[j]);
            }
            let before = token_fold(raw, keys, fewer)->Ok_0;
            assert(usable(keys, tokens[last]));
            if before.key is Some {
                let i = choose|i: int|
                    0 <= i < fewer.len() && modifier_named(trimmed(#[trigger] fewer[i])) is None;
                assert(tokens[i] == fewer[i]);
            }
        }
    }
}

proof fn trimming_is_done_once(text: Seq<char>)
    ensures
        trimmed(trimmed(text)) == trimmed(text),
{
    crate::text::scan::trimmed_texts_stay(text);
}

/// A text is accepted as a binding exactly where it is not blank and either switches the binding
/// off, or has between its plus signs nothing but modifiers and known keys, and one key at most.
pub proof fn usable_bindings_are_accepted(
    text: &str,
    keys: Vec<KnownKey>,
    result: Result<Hotkey, Failure>,
)
    requires
        call_ensures(parse_binding, (text, &keys), result),
    ensures
        result is Ok <==> {
            let raw = trimmed(text@);
            let parts = pieces(raw, '+');
            &&& raw.len() > 0
            &&& switches_off(raw) || {
                &&& forall|i: int| 0 <= i < parts.len() ==> usable(keys@, #[trigger] parts[i])
                &&& forall|i: int, j: int|
                    0 <= i < j < parts.len() ==> modifier_named(trimmed(#[trigger] parts[i]))
                        is Some || modifier_named(trimmed(#[trigger] parts[j])) is Some
            }
        },
{
    let raw = trimmed(text@);
    let parts = pieces(raw, '+');
    crate::text::scan::pieces_are_not_empty(raw, '+');
    usable_parts_are_accepted(raw, keys@, parts);
}

/// An assignment is accepted exactly where it names an action that was not named before, in this
/// spelling, and gives it a binding that is accepted.
pub proof fn usable_assignments_are_accepted(
    keys: Seq<KnownKey>,
    before: OverrideState,
    item: Seq<char>,
)
    ensures
        override_step(keys, before, item) is Ok <==> {
            let halves = cut_once(trimmed(item), '=');
            &&& halves is Some
            &&& action_named(normalized_action((halves->0).0)) is Some
            &&& !before.seen.contains(normalized_action((halves->0).0))
            &&& binding_of((halves->0).1, keys) is Ok
        },
{
    if trimmed(item).len() == 0 {
        assert(cut_once(trimmed(item), '=') is None);
    }
}

/// A list of assignments is accepted exactly where each of them is, after those before it, and no
/// two actions end up with the same binding. A blank list gives the defaults.
pub proof fn usable_lists_are_accepted(
    spec_text: Option<&str>,
    keys: Vec<KnownKey>,
    result: Result<ViewerHotkeys, Failure>,
)
    requires
        call_ensures(ViewerHotkeys::parse, (spec_text, &keys), result),
    ensures
        spec_text is None || trimmed(spec_text->0@).len() == 0 ==> result is Ok && result->Ok_0@
            == HotkeySet::defaults(),
        spec_text is Some && trimmed(spec_text->0@).len() > 0 ==> {
            let found = override_fold(keys@, pieces(trimmed(spec_text->0@), ','));
            &&& result is Ok <==> found is Ok && found->Ok_0.hotkeys.conflict_free()
            &&& result is Ok ==> result->Ok_0@ == found->Ok_0.hotkeys
        },
{
    if spec_text is Some && trimmed(spec_text->0@).len() > 0 {
        let found = override_fold(keys@, pieces(trimmed(spec_text->0@), ','));
        if found is Ok {
            shared_bindings_are_refused(found->Ok_0.hotkeys);
        }
    }
}

}
