//! Reading the host's clipboards and writing the guest's content to them.

use vstd::prelude::*;

use super::bridge::opt_content;
use super::content::is_supported_text_mime;
use super::content::is_text_mime;
use super::content::kind_of_mime;
use super::content::mimes_are_distinct;
use super::content::rich_kind;
use super::content::rich_mime;
use super::content::ClipboardContent;
use super::content::ClipboardSelection;
use super::content::ContentView;
use super::content::RichKind;
use super::super::events::ViewerInput;
use super::super::hotkeys::CONTROL_MASK;
use super::super::hotkeys::SHIFT_MASK;
use crate::error::Failure;
use crate::text::ascii::lowered;
use crate::text::ascii::to_ascii_lowercase;
use crate::text::opt_text;
use crate::text::same_text;
use crate::text::scan::trim;
use crate::text::scan::trimmed;
use crate::text::texts;

verus! {

/// What is read of a clipboard.
#[derive(Copy, Clone, Debug, PartialEq, Eq, Structural)]
pub struct ReadPlan {
    pub text: bool,
    pub html: bool,
    pub uri_list: bool,
    pub png: bool,
}

/// One of the names stands for plain text.
pub open spec fn offers_text(mimes: Seq<Seq<char>>) -> bool {
    exists|i: int| 0 <= i < mimes.len() && is_text_mime(#[trigger] mimes[i])
}

/// One of the names stands for this kind.
pub open spec fn offers_kind(mimes: Seq<Seq<char>>, kind: RichKind) -> bool {
    exists|i: int| 0 <= i < mimes.len() && rich_kind(#[trigger] mimes[i]) == Some(kind)
}

/// What is read of a clipboard that offers the names: text also where nothing is named, or where
/// the toolkit knows it as text.
pub open spec fn read_plan(mimes: Seq<Seq<char>>, has_string_type: bool) -> ReadPlan {
    ReadPlan {
        text: has_string_type || mimes.len() == 0 || offers_text(mimes),
        html: offers_kind(mimes, RichKind::Html),
        uri_list: offers_kind(mimes, RichKind::UriList),
        png: offers_kind(mimes, RichKind::Png),
    }
}

impl ReadPlan {
    /// How many parts are read.
    pub open spec fn count(self) -> int {
        (if self.text {
            1int
        } else {
            0
        }) + (if self.html {
            1int
        } else {
            0
        }) + (if self.uri_list {
            1int
        } else {
            0
        }) + (if self.png {
            1int
        } else {
            0
        })
    }

    /// How many parts are read.
    pub fn parts(self) -> (count: usize)
        ensures
            count == self.count(),
    {
        let mut count: usize = 0;
        if self.text {
            count = count + 1;
        }
        if self.html {
            count = count + 1;
        }
        if self.uri_list {
            count = count + 1;
        }
        if self.png {
            count = count + 1;
        }
        count
    }
}

fn has_text(mimes: &Vec<String>) -> (found: bool)
    ensures
        found == offers_text(texts(mimes@)),
{
    let ghost names = texts(mimes@);
    for i in 0..mimes.len()
        invariant
            names == texts(mimes@),
            forall|j: int| 0 <= j < i ==> !is_text_mime(#[trigger] names[j]),
    {
        assert(names[i as int] == mimes@[i as int]@);
        if is_supported_text_mime(mimes[i].as_str()) {
            return true;
        }
    }
    false
}

fn has_kind(mimes: &Vec<String>, kind: RichKind) -> (found: bool)
    ensures
        found == offers_kind(texts(mimes@), kind),
{
    let ghost names = texts(mimes@);
    for i in 0..mimes.len()
        invariant
            names == texts(mimes@),
            forall|j: int| 0 <= j < i ==> rich_kind(#[trigger] names[j]) != Some(kind),
    {
        assert(names[i as int] == mimes@[i as int]@);
        if let Some(found) = kind_of_mime(mimes[i].as_str()) {
            if found == kind {
                return true;
            }
        }
    }
    false
}

/// What is read of a clipboard that offers the names.
pub fn plan_host_read(offered_mimes: &Vec<String>, has_string_type: bool) -> (plan: ReadPlan)
    ensures
        plan == read_plan(texts(offered_mimes@), has_string_type),
{
    ReadPlan {
        text: has_string_type || offered_mimes.len() == 0 || has_text(offered_mimes),
        html: has_kind(offered_mimes, RichKind::Html),
        uri_list: has_kind(offered_mimes, RichKind::UriList),
        png: has_kind(offered_mimes, RichKind::Png),
    }
}

/// A part that has been read.
#[derive(Debug)]
pub enum ClipboardReadPart {
    Text(String),
    Bytes { mime: String, data: Vec<u8> },
    Empty,
}

/// The content with a part that has been read.
pub open spec fn with_read_part(content: ContentView, part: ClipboardReadPart) -> ContentView {
    match part {
        ClipboardReadPart::Text(text) => content.with_text(text@),
        ClipboardReadPart::Bytes { mime, data } => content.with_data(mime@, data@),
        ClipboardReadPart::Empty => content,
    }
}

/// A clipboard that is being read, part by part.
#[derive(Debug)]
pub struct HostClipboardRead {
    selection: ClipboardSelection,
    generation: u64,
    pending_parts: usize,
    content: ClipboardContent,
}

impl HostClipboardRead {
    /// The selection that is read.
    pub closed spec fn spec_selection(&self) -> ClipboardSelection {
        self.selection
    }

    /// The number of this reading.
    pub closed spec fn spec_generation(&self) -> u64 {
        self.generation
    }

    /// How many parts are still to come.
    pub closed spec fn pending(&self) -> int {
        self.pending_parts as int
    }

    /// What has been read.
    pub closed spec fn spec_content(&self) -> ContentView {
        self.content@
    }

    /// A reading of which no part is there yet.
    pub fn new(selection: ClipboardSelection, generation: u64, plan: ReadPlan) -> (read:
        HostClipboardRead)
        ensures
            read.spec_selection() == selection,
            read.spec_generation() == generation,
            read.pending() == plan.count(),
            read.spec_content() == ContentView::empty(),
    {
        HostClipboardRead {
            selection,
            generation,
            pending_parts: plan.parts(),
            content: ClipboardContent::empty(),
        }
    }

    /// Takes over a part. Tells whether it was the last.
    pub fn complete_part(&mut self, part: ClipboardReadPart) -> (completed: bool)
        requires
            old(self).pending() > 0,
        ensures
            final(self).spec_selection() == old(self).spec_selection(),
            final(self).spec_generation() == old(self).spec_generation(),
            final(self).pending() == old(self).pending() - 1,
            final(self).spec_content() == with_read_part(old(self).spec_content(), part),
            completed == (final(self).pending() == 0),
    {
        match part {
            ClipboardReadPart::Text(text) => self.content.merge_text(text),
            ClipboardReadPart::Bytes { mime, data } => self.content.merge_mime_bytes(
                mime.as_str(),
                data,
            ),
            ClipboardReadPart::Empty => {},
        }
        self.pending_parts = self.pending_parts - 1;
        self.pending_parts == 0
    }

    /// What has been read.
    pub fn content(&self) -> (content: ClipboardContent)
        ensures
            content@ == self.spec_content(),
    {
        self.content.duplicate()
    }

    /// The selection that is read.
    pub fn selection(&self) -> (selection: ClipboardSelection)
        ensures
            selection == self.spec_selection(),
    {
        self.selection
    }

    /// The number of this reading.
    pub fn generation(&self) -> (generation: u64)
        ensures
            generation == self.spec_generation(),
    {
        self.generation
    }
}

/// What the window knows of one of the host's clipboards.
#[derive(Debug)]
pub struct SelectionUiState {
    read_generation: u64,
    ignored_remote_content: Option<ClipboardContent>,
    last_seen_content: Option<ClipboardContent>,
    pending_guest_content: Option<ClipboardContent>,
    awaiting_remote_echo: bool,
}

/// What the window knows of one of the host's clipboards, as sequences.
#[verifier::ext_equal]
pub struct SelectionUiView {
    pub generation: u64,
    pub ignored: Option<ContentView>,
    pub last_seen: Option<ContentView>,
    pub pending: Option<ContentView>,
    pub awaiting_echo: bool,
}

impl View for SelectionUiState {
    type V = SelectionUiView;

    closed spec fn view(&self) -> SelectionUiView {
        SelectionUiView {
            generation: self.read_generation,
            ignored: opt_content(self.ignored_remote_content),
            last_seen: opt_content(self.last_seen_content),
            pending: opt_content(self.pending_guest_content),
            awaiting_echo: self.awaiting_remote_echo,
        }
    }
}

/// The number of the next reading: one more, and never zero.
pub open spec fn next_generation(generation: u64) -> u64 {
    if generation == u64::MAX {
        1
    } else {
        (generation + 1) as u64
    }
}

/// The content, unless it is empty.
pub open spec fn unless_empty(content: ContentView) -> Option<ContentView> {
    if content == ContentView::empty() {
        None
    } else {
        Some(content)
    }
}

impl SelectionUiView {
    /// Nothing is known.
    pub open spec fn initial() -> SelectionUiView {
        SelectionUiView {
            generation: 0,
            ignored: None,
            last_seen: None,
            pending: None,
            awaiting_echo: false,
        }
    }

    /// What is known once a reading is complete, and whether the listener hears of it. A reading
    /// that a later one has overtaken counts for nothing; what the viewer itself has put there, and
    /// what is unchanged, is not news.
    pub open spec fn snapshot(self, generation: u64, content: ContentView) -> (
        SelectionUiView,
        bool,
    ) {
        if self.generation != generation {
            (self, false)
        } else if self.ignored == Some(content) {
            (
                SelectionUiView {
                    ignored: None,
                    awaiting_echo: false,
                    last_seen: unless_empty(content),
                    ..self
                },
                false,
            )
        } else if self.awaiting_echo && content == ContentView::empty() {
            (self, false)
        } else {
            let settled = SelectionUiView {
                ignored: if self.awaiting_echo {
                    None
                } else {
                    self.ignored
                },
                awaiting_echo: false,
                ..self
            };
            if self.last_seen == Some(content) {
                (settled, false)
            } else {
                (SelectionUiView { last_seen: unless_empty(content), ..settled }, true)
            }
        }
    }

    /// What is known once the guest's content is on the host's clipboard.
    pub open spec fn applied(self, content: ContentView) -> SelectionUiView {
        SelectionUiView {
            ignored: Some(content),
            last_seen: unless_empty(content),
            pending: None,
            awaiting_echo: true,
            ..self
        }
    }

    /// What is known where the guest's content could not be put on the host's clipboard.
    pub open spec fn refused(self, content: ContentView) -> SelectionUiView {
        SelectionUiView { pending: Some(content), ..self }
    }
}

fn keep_unless_empty(content: &ClipboardContent) -> (kept: Option<ClipboardContent>)
    ensures
        opt_content(kept) == unless_empty(content@),
{
    if content.is_empty() {
        None
    } else {
        Some(content.duplicate())
    }
}

fn holds(current: &Option<ClipboardContent>, content: &ClipboardContent) -> (same: bool)
    ensures
        same == (opt_content(*current) == Some(content@)),
{
    match current {
        Some(found) => found.same_as(content),
        None => false,
    }
}

impl SelectionUiState {
    fn initial() -> (state: SelectionUiState)
        ensures
            state@ == SelectionUiView::initial(),
    {
        SelectionUiState {
            read_generation: 0,
            ignored_remote_content: None,
            last_seen_content: None,
            pending_guest_content: None,
            awaiting_remote_echo: false,
        }
    }

    fn next_read_generation(&mut self) -> (generation: u64)
        ensures
            generation == next_generation(old(self)@.generation),
            final(self)@ == (SelectionUiView { generation, ..old(self)@ }),
    {
        if self.read_generation == u64::MAX {
            self.read_generation = 1;
        } else {
            self.read_generation = self.read_generation + 1;
        }
        self.read_generation
    }

    fn snapshot(&mut self, generation: u64, content: &ClipboardContent) -> (news: bool)
        ensures
            (final(self)@, news) == old(self)@.snapshot(generation, content@),
    {
        if self.read_generation != generation {
            return false;
        }
        if holds(&self.ignored_remote_content, content) {
            self.ignored_remote_content = None;
            self.awaiting_remote_echo = false;
            self.last_seen_content = keep_unless_empty(content);
            return false;
        }
        if self.awaiting_remote_echo && content.is_empty() {
            return false;
        }
        if self.awaiting_remote_echo {
            self.awaiting_remote_echo = false;
            self.ignored_remote_content = None;
        }
        if holds(&self.last_seen_content, content) {
            return false;
        }
        self.last_seen_content = keep_unless_empty(content);
        true
    }

    fn applied(&mut self, content: &ClipboardContent)
        ensures
            final(self)@ == old(self)@.applied(content@),
    {
        self.ignored_remote_content = Some(content.duplicate());
        self.last_seen_content = keep_unless_empty(content);
        self.pending_guest_content = None;
        self.awaiting_remote_echo = true;
    }

    fn refused(&mut self, content: &ClipboardContent)
        ensures
            final(self)@ == old(self)@.refused(content@),
    {
        self.pending_guest_content = Some(content.duplicate());
    }

    fn pending(&self) -> (content: Option<ClipboardContent>)
        ensures
            opt_content(content) == self@.pending,
    {
        match &self.pending_guest_content {
            Some(content) => Some(content.duplicate()),
            None => None,
        }
    }
}

/// What the window knows of the host's clipboards.
#[derive(Debug)]
pub struct ClipboardUiState {
    clipboard: SelectionUiState,
    primary: SelectionUiState,
}

/// What the window knows of the host's clipboards, as sequences.
#[verifier::ext_equal]
pub struct UiView {
    pub clipboard: SelectionUiView,
    pub primary: SelectionUiView,
}

impl View for ClipboardUiState {
    type V = UiView;

    closed spec fn view(&self) -> UiView {
        UiView { clipboard: self.clipboard@, primary: self.primary@ }
    }
}

impl UiView {
    /// What is known of one selection; nothing of one that is not supported.
    pub open spec fn of(self, selection: ClipboardSelection) -> Option<SelectionUiView> {
        match selection {
            ClipboardSelection::Clipboard => Some(self.clipboard),
            ClipboardSelection::Primary => Some(self.primary),
            ClipboardSelection::Secondary => None,
        }
    }

    /// The same but for one selection.
    pub open spec fn with(self, selection: ClipboardSelection, state: SelectionUiView) -> UiView {
        match selection {
            ClipboardSelection::Clipboard => UiView { clipboard: state, ..self },
            ClipboardSelection::Primary => UiView { primary: state, ..self },
            ClipboardSelection::Secondary => self,
        }
    }
}

/// The message where the guest's content could not be put on the host's clipboard.
pub const CLAIM_FAILURE: &'static str =
    "failed to claim the host clipboard; Wayland may require a recent local input event";

impl ClipboardUiState {
    /// Nothing is known.
    pub fn new() -> (state: ClipboardUiState)
        ensures
            state@ == (UiView {
                clipboard: SelectionUiView::initial(),
                primary: SelectionUiView::initial(),
            }),
    {
        ClipboardUiState {
            clipboard: SelectionUiState::initial(),
            primary: SelectionUiState::initial(),
        }
    }

    /// The number of a new reading, which overtakes all earlier ones.
    pub fn next_read_generation(&mut self, selection: ClipboardSelection) -> (generation: Option<
        u64,
    >)
        ensures
            match old(self)@.of(selection) {
                None => generation is None && final(self)@ == old(self)@,
                Some(state) => {
                    &&& generation == Some(next_generation(state.generation))
                    &&& final(self)@ == old(self)@.with(
                        selection,
                        (SelectionUiView { generation: next_generation(state.generation), ..state }),
                    )
                },
            },
    {
        match selection {
            ClipboardSelection::Clipboard => Some(self.clipboard.next_read_generation()),
            ClipboardSelection::Primary => Some(self.primary.next_read_generation()),
            ClipboardSelection::Secondary => None,
        }
    }

    /// A reading is complete: what the listener is to be told, if it is news.
    pub fn finish_host_snapshot(
        &mut self,
        selection: ClipboardSelection,
        generation: u64,
        content: ClipboardContent,
    ) -> (input: Option<ViewerInput>)
        ensures
            match old(self)@.of(selection) {
                None => input is None && final(self)@ == old(self)@,
                Some(state) => {
                    let (after, news) = state.snapshot(generation, content@);
                    &&& final(self)@ == old(self)@.with(selection, after)
                    &&& if news {
                        &&& input matches Some(ViewerInput::ClipboardHostChanged(which, sent))
                        &&& which == selection
                        &&& opt_content(sent) == unless_empty(content@)
                    } else {
                        input is None
                    }
                },
            },
    {
        let news = match selection {
            ClipboardSelection::Clipboard => self.clipboard.snapshot(generation, &content),
            ClipboardSelection::Primary => self.primary.snapshot(generation, &content),
            ClipboardSelection::Secondary => false,
        };
        if news {
            Some(ViewerInput::ClipboardHostChanged(selection, keep_unless_empty(&content)))
        } else {
            None
        }
    }

    /// The guest's content was put on the host's clipboard, or was refused there. Content that was
    /// refused is kept for another attempt.
    pub fn apply_guest_clipboard(
        &mut self,
        selection: ClipboardSelection,
        content: &ClipboardContent,
        outcome: Result<(), Failure>,
    ) -> (result: Result<(), Failure>)
        ensures
            match old(self)@.of(selection) {
                None => result is Ok && final(self)@ == old(self)@,
                Some(state) => match outcome {
                    Ok(_) => result is Ok && final(self)@ == old(self)@.with(
                        selection,
                        state.applied(content@),
                    ),
                    Err(cause) => {
                        &&& result matches Err(failure)
                        &&& failure@ == seq![CLAIM_FAILURE@] + cause@
                        &&& final(self)@ == old(self)@.with(selection, state.refused(content@))
                    },
                },
            },
    {
        match outcome {
            Ok(_) => {
                match selection {
                    ClipboardSelection::Clipboard => self.clipboard.applied(content),
                    ClipboardSelection::Primary => self.primary.applied(content),
                    ClipboardSelection::Secondary => {},
                }
                Ok(())
            },
            Err(cause) => {
                match selection {
                    ClipboardSelection::Clipboard => self.clipboard.refused(content),
                    ClipboardSelection::Primary => self.primary.refused(content),
                    ClipboardSelection::Secondary => {
                        return Ok(());
                    },
                }
                Err(cause.context(CLAIM_FAILURE.to_owned()))
            },
        }
    }

    /// The guest's content that is still to be put on the host's clipboard.
    pub fn pending_guest_content(&self, selection: ClipboardSelection) -> (content: Option<
        ClipboardContent,
    >)
        ensures
            opt_content(content) == match self@.of(selection) {
                Some(state) => state.pending,
                None => None,
            },
    {
        match selection {
            ClipboardSelection::Clipboard => self.clipboard.pending(),
            ClipboardSelection::Primary => self.primary.pending(),
            ClipboardSelection::Secondary => None,
        }
    }
}

/// What the guest has put on the host's clipboard does not come back to it: the echo of the content
/// is not news, and neither is the moment of emptiness before it.
pub proof fn echoes_are_not_news(state: SelectionUiView, content: ContentView)
    ensures
        !state.applied(content).snapshot(state.generation, content).1,
        !state.applied(content).snapshot(state.generation, ContentView::empty()).1,
        state.applied(content).snapshot(state.generation, content).0.last_seen == unless_empty(
            content,
        ),
{
}

/// What the user copies after that is news.
pub proof fn copies_after_an_echo_are_news(
    state: SelectionUiView,
    content: ContentView,
    copied: ContentView,
)
    requires
        copied != content,
        copied != ContentView::empty(),
    ensures
        state.applied(content).snapshot(state.generation, content).0.snapshot(
            state.generation,
            copied,
        ).1,
{
}

/// The same content is reported once.
pub proof fn news_is_told_once(state: SelectionUiView, content: ContentView)
    requires
        content != ContentView::empty(),
        state.snapshot(state.generation, content).1,
    ensures
        !state.snapshot(state.generation, content).0.snapshot(state.generation, content).1,
{
}

/// A reading that was overtaken changes nothing.
pub proof fn overtaken_readings_count_for_nothing(
    state: SelectionUiView,
    generation: u64,
    content: ContentView,
)
    requires
        generation != state.generation,
    ensures
        state.snapshot(generation, content) == (state, false),
{
}

/// The keys are those of a paste: control and V without shift, or shift and insert without control.
pub open spec fn is_paste(keyval: u32, modifiers: u32) -> bool {
    let control = modifiers & CONTROL_MASK == CONTROL_MASK;
    let shift = modifiers & SHIFT_MASK == SHIFT_MASK;
    ||| (keyval == 0x56 || keyval == 0x76) && control && !shift
    ||| keyval == 0xff63 && !control && shift
}

/// Whether the keys are those of a paste.
pub fn is_paste_shortcut(keyval: u32, modifiers: u32) -> (paste: bool)
    ensures
        paste == is_paste(keyval, modifiers),
{
    let control = modifiers & CONTROL_MASK == CONTROL_MASK;
    let shift = modifiers & SHIFT_MASK == SHIFT_MASK;
    ((keyval == 0x56 || keyval == 0x76) && control && !shift) || (keyval == 0xff63 && !control
        && shift)
}

/// The value switches the trace of the clipboard on.
pub open spec fn switches_trace_on(value: Option<Seq<char>>) -> bool {
    match value {
        None => false,
        Some(text) => {
            let word = lowered(trimmed(text));
            word.len() > 0 && word != "0"@ && word != "false"@
        },
    }
}

/// Whether the value of the environment switches the trace of the clipboard on.
pub fn clipboard_debug_enabled(value: Option<&str>) -> (enabled: bool)
    ensures
        enabled == switches_trace_on(opt_text(value)),
{
    match value {
        None => false,
        Some(text) => {
            let core = trim(text);
            let word = to_ascii_lowercase(core.as_str());
            !word.as_str().is_empty() && !same_text(word.as_str(), "0") && !same_text(
                word.as_str(),
                "false",
            )
        },
    }
}

/// The selections are apart: what becomes known of one is found again there, and what is known of
/// every other one stays as it was. Only the clipboard and the primary selection are supported.
pub proof fn ui_selections_are_apart(
    view: UiView,
    selection: ClipboardSelection,
    other: ClipboardSelection,
    state: SelectionUiView,
)
    ensures
        view.of(selection) is None <==> selection is Secondary,
        !(selection is Secondary) ==> view.with(selection, state).of(selection) == Some(state),
        selection is Secondary ==> view.with(selection, state) == view,
        other != selection ==> view.with(selection, state).of(other) == view.of(other),
{
}

/// A new reading has a number that differs from that of the reading before, is not zero, and is
/// the current one; no other selection is concerned.
pub proof fn readings_are_told_apart(
    ui: &mut ClipboardUiState,
    selection: ClipboardSelection,
    generation: Option<u64>,
)
    requires
        call_ensures(ClipboardUiState::next_read_generation, (ui, selection), generation),
    ensures
        generation is None <==> selection is Secondary,
        generation matches Some(number) ==> {
            let before = old(ui)@.of(selection)->0;
            let after = final(ui)@.of(selection)->0;
            &&& number != 0
            &&& number != before.generation
            &&& before.generation < u64::MAX ==> number == before.generation + 1
            &&& after.generation == number
            &&& after.ignored == before.ignored && after.last_seen == before.last_seen
            &&& after.pending == before.pending && after.awaiting_echo == before.awaiting_echo
        },
        forall|other: ClipboardSelection|
            other != selection ==> #[trigger] final(ui)@.of(other) == old(ui)@.of(other),
{
}

/// Of a finished reading the listener is told exactly where it is the current one, differs from what
/// was seen last, and is neither what the viewer has put there nor the emptiness just before that;
/// it is told what was read, for the selection that was read. No other selection is concerned.
pub proof fn differing_readings_are_news(
    ui: &mut ClipboardUiState,
    selection: ClipboardSelection,
    generation: u64,
    content: ClipboardContent,
    input: Option<ViewerInput>,
)
    requires
        call_ensures(
            ClipboardUiState::finish_host_snapshot,
            (ui, selection, generation, content),
            input,
        ),
    ensures
        ({
            let nothing = content@.plain_text is None && content@.html is None && content@.uri_list
                is None && content@.png is None;
            &&& input is Some <==> {
                let before = old(ui)@.of(selection)->0;
                &&& !(selection is Secondary)
                &&& before.generation == generation
                &&& before.ignored != Some(content@)
                &&& !(before.awaiting_echo && nothing)
                &&& before.last_seen != Some(content@)
            }
            &&& input matches Some(told) ==> {
                &&& told matches ViewerInput::ClipboardHostChanged(which, sent)
                &&& which == selection
                &&& sent is None <==> nothing
                &&& sent matches Some(copy) ==> copy@ == content@
                &&& final(ui)@.of(selection)->0.last_seen == if nothing {
                    None
                } else {
                    Some(content@)
                }
                &&& !final(ui)@.of(selection)->0.awaiting_echo
            }
            &&& forall|other: ClipboardSelection|
                other != selection ==> #[trigger] final(ui)@.of(other) == old(ui)@.of(other)
        }),
{
}

/// What the guest has copied is kept for another attempt exactly while the host refuses it. Once it
/// is on the host's clipboard, its echo is expected and nothing is kept. No other selection is
/// concerned.
pub proof fn refused_content_is_kept(
    ui: &mut ClipboardUiState,
    selection: ClipboardSelection,
    content: ClipboardContent,
    outcome: Result<(), Failure>,
    result: Result<(), Failure>,
)
    requires
        call_ensures(
            ClipboardUiState::apply_guest_clipboard,
            (ui, selection, &content, outcome),
            result,
        ),
    ensures
        result is Err <==> outcome is Err && !(selection is Secondary),
        !(selection is Secondary) ==> {
            let before = old(ui)@.of(selection)->0;
            let after = final(ui)@.of(selection)->0;
            &&& after.generation == before.generation
            &&& outcome is Err ==> {
                &&& after.pending == Some(content@)
                &&& after.last_seen == before.last_seen
                &&& after.ignored == before.ignored
                &&& after.awaiting_echo == before.awaiting_echo
            }
            &&& outcome is Ok ==> {
                &&& after.pending is None
                &&& after.ignored == Some(content@)
                &&& after.awaiting_echo
            }
        },
        forall|other: ClipboardSelection|
            other != selection ==> #[trigger] final(ui)@.of(other) == old(ui)@.of(other),
{
}

/// A part is read exactly where one of its names is offered. Plain text is also read where the
/// toolkit knows it as text, or where nothing is named.
pub proof fn offered_parts_are_read(
    offered_mimes: Vec<String>,
    has_string_type: bool,
    plan: ReadPlan,
)
    requires
        call_ensures(plan_host_read, (&offered_mimes, has_string_type), plan),
    ensures
        ({
            let offered = texts(offered_mimes@);
            &&& plan.html <==> offered.contains("text/html"@)
            &&& plan.uri_list <==> offered.contains("text/uri-list"@)
            &&& plan.png <==> offered.contains("image/png"@)
            &&& plan.text <==> has_string_type || offered_mimes.len() == 0 || offered.contains(
                "text/plain;charset=utf-8"@,
            ) || offered.contains("text/plain"@) || offered.contains("UTF8_STRING"@)
                || offered.contains("TEXT"@) || offered.contains("STRING"@)
        }),
{
    let offered = texts(offered_mimes@);
    mimes_are_distinct();
    assert(rich_mime(RichKind::Html) == "text/html"@);
    assert(rich_mime(RichKind::UriList) == "text/uri-list"@);
    assert(rich_mime(RichKind::Png) == "image/png"@);
    assert(rich_kind("text/html"@) == Some(RichKind::Html));
    assert(rich_kind("text/uri-list"@) == Some(RichKind::UriList));
    assert(rich_kind("image/png"@) == Some(RichKind::Png));
    assert(forall|i: int| 0 <= i < offered.len() ==> offered.contains(#[trigger] offered[i]));
    assert(forall|mime: Seq<char>| #[trigger]
        offered.contains(mime) && is_text_mime(mime) ==> offers_text(offered)) by {
        assert forall|mime: Seq<char>| #[trigger]
            offered.contains(mime) && is_text_mime(mime) implies offers_text(offered) by {
            let i = choose|i: int| 0 <= i < offered.len() && offered[i] == mime;
            assert(is_text_mime(offered[i]));
        }
    }
    assert forall|mime: Seq<char>, kind: RichKind| #[trigger]
        offered.contains(mime) && #[trigger] rich_mime(kind) == mime implies offers_kind(
        offered,
        kind,
    ) by {
        let i = choose|i: int| 0 <= i < offered.len() && offered[i] == mime;
        assert(rich_kind(offered[i]) == Some(kind));
    }
}

/// Each part that is wanted adds one to the number of parts, whatever else is wanted.
pub proof fn wanted_parts_are_counted(plan: ReadPlan, count: usize)
    requires
        call_ensures(ReadPlan::parts, (plan,), count),
    ensures
        count == 0 <==> !plan.text && !plan.html && !plan.uri_list && !plan.png,
        plan.text ==> count == (ReadPlan { text: false, ..plan }).count() + 1,
        plan.html ==> count == (ReadPlan { html: false, ..plan }).count() + 1,
        plan.uri_list ==> count == (ReadPlan { uri_list: false, ..plan }).count() + 1,
        plan.png ==> count == (ReadPlan { png: false, ..plan }).count() + 1,
{
}

/// A part that was read is taken over as it is, what came before stays, and the last of as many
/// parts as were wanted completes the reading.
pub proof fn read_parts_are_taken_over(
    read: &mut HostClipboardRead,
    part: ClipboardReadPart,
    completed: bool,
)
    requires
        old(read).pending() > 0,
        call_ensures(HostClipboardRead::complete_part, (read, part), completed),
    ensures
        completed <==> old(read).pending() == 1,
        final(read).pending() == old(read).pending() - 1,
        final(read).spec_selection() == old(read).spec_selection(),
        final(read).spec_generation() == old(read).spec_generation(),
        part is Empty ==> final(read).spec_content() == old(read).spec_content(),
        part matches ClipboardReadPart::Text(text) ==> {
            let before = old(read).spec_content();
            let after = final(read).spec_content();
            &&& after.plain_text == Some(text@)
            &&& after.html == before.html && after.uri_list == before.uri_list && after.png
                == before.png
        },
        part matches ClipboardReadPart::Bytes { mime, data } ==> {
            let before = old(read).spec_content();
            let after = final(read).spec_content();
            &&& after.html == if mime@ == "text/html"@ {
                Some(data@)
            } else {
                before.html
            }
            &&& after.uri_list == if mime@ == "text/uri-list"@ {
                Some(data@)
            } else {
                before.uri_list
            }
            &&& after.png == if mime@ == "image/png"@ {
                Some(data@)
            } else {
                before.png
            }
        },
{
    mimes_are_distinct();
    assert(rich_mime(RichKind::Html) == "text/html"@);
    assert(rich_mime(RichKind::UriList) == "text/uri-list"@);
    assert(rich_mime(RichKind::Png) == "image/png"@);
    assert(rich_kind("text/html"@) == Some(RichKind::Html));
    assert(rich_kind("text/uri-list"@) == Some(RichKind::UriList));
    assert(rich_kind("image/png"@) == Some(RichKind::Png));
    assert(!is_text_mime("text/html"@));
    assert(!is_text_mime("text/uri-list"@));
    assert(!is_text_mime("image/png"@));
}

/// Control (bit two) and V paste where shift (bit zero) is up, shift and Insert where control is up.
/// No other modifier matters, and nothing else pastes.
pub proof fn pastes_are_recognised(keyval: u32, modifiers: u32, paste: bool)
    requires
        call_ensures(is_paste_shortcut, (keyval, modifiers), paste),
    ensures
        paste <==> {
            let control = modifiers / 4 % 2 == 1;
            let shift = modifiers % 2 == 1;
            ||| control && !shift && (keyval == 'V' as u32 || keyval == 'v' as u32)
            ||| shift && !control && keyval == 0xff63
        },
{
    assert((modifiers & 4 == 4) == (modifiers / 4 % 2 == 1) && (modifiers & 1 == 1) == (modifiers
        % 2 == 1)) by (bit_vector);
}

/// At the beginning nothing has been seen, nothing waits and no echo is expected, so that the first
/// reading is news.
pub proof fn first_readings_are_news(
    fresh: ClipboardUiState,
    selection: ClipboardSelection,
    content: ContentView,
)
    requires
        !(selection is Secondary),
        call_ensures(ClipboardUiState::new, (), fresh),
    ensures
        ({
            let state = fresh@.of(selection)->0;
            &&& fresh@.of(selection) is Some
            &&& state.pending is None
            &&& state.last_seen is None
            &&& state.snapshot(state.generation, content).1
            &&& (SelectionUiView { generation: next_generation(state.generation), ..state }).snapshot(
                next_generation(state.generation),
                content,
            ).1
        }),
{
}

}
