//! Who owns the clipboard, and what is asked of whom.

use vstd::prelude::*;

use super::content::first_servable_name_is_answered;
use super::content::is_text_mime;
use super::content::mimes_are_distinct;
use super::content::offers_are_served;
use super::content::only_offers_are_served;
use super::content::rich_kind;
use super::content::rich_mime;
use super::content::same_for;
use super::content::text_mimes;
use super::content::ClipboardContent;
use super::content::ClipboardSelection;
use super::content::ContentView;
use super::content::RichKind;
use super::content::IMAGE_PNG;
use super::content::STRING;
use super::content::TEXT;
use super::content::TEXT_HTML;
use super::content::TEXT_PLAIN;
use super::content::TEXT_PLAIN_UTF8;
use super::content::TEXT_URI_LIST;
use super::content::UTF8_STRING;
use super::super::events::is_status;
use super::super::events::ViewerEvent;
use crate::error::Failure;
use crate::text::concat2;
use crate::text::joined;
use crate::text::list_has;
use crate::text::no_texts;
use crate::text::push_text;
use crate::text::texts;

verus! {

/// The names for plain text among the first `count` that are offered, the best first.
pub open spec fn preferred(offered: Seq<Seq<char>>, count: int) -> Seq<Seq<char>>
    decreases count,
{
    if count <= 0 {
        Seq::empty()
    } else {
        let mime = text_mimes()[count - 1];
        let before = preferred(offered, count - 1);
        if offered.contains(mime) {
            before.push(mime)
        } else {
            before
        }
    }
}

/// The names for plain text that are offered, the best first.
pub fn preferred_text_request_mimes(mimes: &Vec<String>) -> (wanted: Vec<String>)
    ensures
        texts(wanted@) == preferred(texts(mimes@), 5),
{
    let mut names = no_texts();
    push_text(&mut names, TEXT_PLAIN_UTF8.to_owned());
    push_text(&mut names, TEXT_PLAIN.to_owned());
    push_text(&mut names, UTF8_STRING.to_owned());
    push_text(&mut names, TEXT.to_owned());
    push_text(&mut names, STRING.to_owned());
    assert(texts(names@) =~= text_mimes());
    let mut wanted = no_texts();
    for i in 0..5usize
        invariant
            texts(names@) == text_mimes(),
            names.len() == 5,
            texts(wanted@) == preferred(texts(mimes@), i as int),
    {
        assert(text_mimes()[i as int] == names@[i as int]@);
        if list_has(mimes, names[i].as_str()) {
            push_text(&mut wanted, names[i].clone());
        }
    }
    wanted
}

/// One request: names of which the guest is to serve the first that it can.
#[derive(Debug)]
pub struct RemoteFetchPlan {
    pub requested_mimes: Vec<String>,
}

/// The requests of a plan.
pub open spec fn plan_view(plan: Seq<RemoteFetchPlan>) -> Seq<Seq<Seq<char>>> {
    plan.map_values(|request: RemoteFetchPlan| texts(request.requested_mimes@))
}

/// One request for the name, where it is offered.
pub open spec fn request_if(offered: Seq<Seq<char>>, mime: Seq<char>) -> Seq<Seq<Seq<char>>> {
    if offered.contains(mime) {
        seq![seq![mime]]
    } else {
        Seq::empty()
    }
}

/// The requests for an offer: one for plain text, and one for each thing else that is supported.
pub open spec fn fetch_plan(offered: Seq<Seq<char>>) -> Seq<Seq<Seq<char>>> {
    let text = preferred(offered, 5);
    let first = if text.len() > 0 {
        seq![text]
    } else {
        Seq::empty()
    };
    first + request_if(offered, TEXT_HTML@) + request_if(offered, TEXT_URI_LIST@) + request_if(
        offered,
        IMAGE_PNG@,
    )
}

fn push_request_if(plan: &mut Vec<RemoteFetchPlan>, offered: &Vec<String>, mime: &str)
    ensures
        plan_view(final(plan)@) == plan_view(old(plan)@) + request_if(texts(offered@), mime@),
{
    let ghost before = plan_view(plan@);
    if list_has(offered, mime) {
        let mut requested_mimes = no_texts();
        push_text(&mut requested_mimes, mime.to_owned());
        assert(texts(requested_mimes@) =~= seq![mime@]);
        plan.push(RemoteFetchPlan { requested_mimes });
    }
    assert(plan_view(plan@) =~= before + request_if(texts(offered@), mime@));
}

/// The requests for an offer.
pub fn remote_fetch_plan(mimes: &Vec<String>) -> (plan: Vec<RemoteFetchPlan>)
    ensures
        plan_view(plan@) == fetch_plan(texts(mimes@)),
{
    let mut plan: Vec<RemoteFetchPlan> = Vec::new();
    let text = preferred_text_request_mimes(mimes);
    let ghost wanted = texts(text@);
    if text.len() > 0 {
        plan.push(RemoteFetchPlan { requested_mimes: text });
    }
    assert(plan_view(plan@) =~= if wanted.len() > 0 {
        seq![wanted]
    } else {
        Seq::empty()
    });
    push_request_if(&mut plan, mimes, TEXT_HTML);
    push_request_if(&mut plan, mimes, TEXT_URI_LIST);
    push_request_if(&mut plan, mimes, IMAGE_PNG);
    plan
}

proof fn preferred_is_offered(offered: Seq<Seq<char>>, count: int)
    requires
        0 <= count <= 5,
    ensures
        forall|i: int|
            0 <= i < preferred(offered, count).len() ==> offered.contains(
                #[trigger] preferred(offered, count)[i],
            ) && is_text_mime(preferred(offered, count)[i]),
    decreases count,
{
    if count > 0 {
        preferred_is_offered(offered, count - 1);
        let before = preferred(offered, count - 1);
        let now = preferred(offered, count);
        assert forall|i: int| 0 <= i < now.len() implies offered.contains(#[trigger] now[i])
            && is_text_mime(now[i]) by {
            if i < before.len() {
                assert(now[i] == before[i]);
            } else {
                assert(now[i] == text_mimes()[count - 1]);
            }
        }
    }
}

/// The guest is asked only for what it has offered and what is supported.
pub proof fn only_offers_are_requested(offered: Seq<Seq<char>>, request: int, index: int)
    requires
        0 <= request < fetch_plan(offered).len(),
        0 <= index < fetch_plan(offered)[request].len(),
    ensures
        offered.contains(fetch_plan(offered)[request][index]),
        is_text_mime(fetch_plan(offered)[request][index]) || rich_kind(
            fetch_plan(offered)[request][index],
        ) is Some,
{
    preferred_is_offered(offered, 5);
    super::content::mimes_are_distinct();
    let plan = fetch_plan(offered);
    let text = preferred(offered, 5);
    if text.len() > 0 && request == 0 {
        assert(plan[0] == text);
    } else {
        assert(plan[request] == seq![TEXT_HTML@] || plan[request] == seq![TEXT_URI_LIST@]
            || plan[request] == seq![IMAGE_PNG@]);
        assert(plan[request].len() == 1);
    }
}

/// The guest's claim on the clipboard is accepted.
pub open spec fn accepts_grab(
    current_serial: u32,
    local_owner: bool,
    viewer_focused: bool,
    incoming_serial: u32,
) -> bool {
    ||| viewer_focused && local_owner
    ||| incoming_serial > current_serial
    ||| incoming_serial == current_serial && !local_owner
}

/// Whether the guest's claim on the clipboard is accepted: a newer claim always, an equal one where
/// the host has made none, and any where the user is working in the viewer.
pub fn should_accept_remote_grab(
    current_serial: u32,
    local_owner: bool,
    viewer_focused: bool,
    incoming_serial: u32,
) -> (accepted: bool)
    ensures
        accepted == accepts_grab(current_serial, local_owner, viewer_focused, incoming_serial),
{
    if viewer_focused && local_owner {
        return true;
    }
    incoming_serial > current_serial || (incoming_serial == current_serial && !local_owner)
}

/// What is known of one selection.
#[derive(Debug)]
pub struct SelectionBridgeState {
    current_serial: u32,
    local_owner: bool,
    host_content: Option<ClipboardContent>,
}

/// What is known of one selection, with the content as sequences.
#[verifier::ext_equal]
pub struct SelectionView {
    pub serial: u32,
    pub local_owner: bool,
    pub host_content: Option<ContentView>,
}

/// Optional content as sequences.
pub open spec fn opt_content(content: Option<ClipboardContent>) -> Option<ContentView> {
    match content {
        Some(found) => Some(found@),
        None => None,
    }
}

impl View for SelectionBridgeState {
    type V = SelectionView;

    closed spec fn view(&self) -> SelectionView {
        SelectionView {
            serial: self.current_serial,
            local_owner: self.local_owner,
            host_content: opt_content(self.host_content),
        }
    }
}

/// The number of the next claim: one more, and never zero.
pub open spec fn following(serial: u32) -> u32 {
    if serial == u32::MAX {
        1
    } else {
        (serial + 1) as u32
    }
}

/// What the guest is to be told after a change of the host's clipboard.
#[derive(Debug)]
pub enum HostAction {
    Grab { serial: u32, mimes: Vec<String> },
    Release,
    Nothing,
}

/// What the guest is to be told, with the names as sequences.
#[verifier::ext_equal]
pub enum HostActionView {
    Grab { serial: u32, mimes: Seq<Seq<char>> },
    Release,
    Nothing,
}

impl View for HostAction {
    type V = HostActionView;

    open spec fn view(&self) -> HostActionView {
        match self {
            HostAction::Grab { serial, mimes } => HostActionView::Grab {
                serial: *serial,
                mimes: texts(mimes@),
            },
            HostAction::Release => HostActionView::Release,
            HostAction::Nothing => HostActionView::Nothing,
        }
    }
}

impl SelectionView {
    /// Nothing is known.
    pub open spec fn initial() -> SelectionView {
        SelectionView { serial: 0, local_owner: false, host_content: None }
    }

    /// What is known, and what the guest is told, once the host's clipboard holds `content`.
    pub open spec fn host_update(self, content: Option<ContentView>) -> (
        SelectionView,
        HostActionView,
    ) {
        if content is None || content == Some(ContentView::empty()) {
            (
                SelectionView { local_owner: false, host_content: None, ..self },
                if self.host_content is Some || self.local_owner {
                    HostActionView::Release
                } else {
                    HostActionView::Nothing
                },
            )
        } else if self.local_owner && self.host_content == content {
            (self, HostActionView::Nothing)
        } else {
            (
                SelectionView {
                    serial: following(self.serial),
                    local_owner: true,
                    host_content: content,
                },
                HostActionView::Grab {
                    serial: following(self.serial),
                    mimes: (content->0).advertised(),
                },
            )
        }
    }

    /// What is known once the guest has claimed the clipboard.
    pub open spec fn guest_grab(self, serial: u32) -> SelectionView {
        SelectionView { serial, local_owner: false, host_content: self.host_content }
    }

    /// What is known once the guest has given the clipboard up.
    pub open spec fn guest_release(self) -> SelectionView {
        if self.local_owner {
            self
        } else {
            SelectionView { host_content: None, ..self }
        }
    }

    /// The answer to a request of the guest.
    pub open spec fn answer(self, mimes: Seq<Seq<char>>) -> Result<
        (Seq<char>, Seq<u8>),
        Seq<char>,
    > {
        if !self.local_owner {
            Err("the host clipboard is not currently owned by QD2"@)
        } else {
            match self.host_content {
                None => Err(
                    "the host clipboard does not currently contain a supported MIME type"@,
                ),
                Some(content) => match content.reply(mimes) {
                    None => Err(
                        "the guest requested a clipboard MIME type that QD2 does not support"@,
                    ),
                    Some(reply) => Ok(reply),
                },
            }
        }
    }
}

impl SelectionBridgeState {
    fn initial() -> (state: SelectionBridgeState)
        ensures
            state@ == SelectionView::initial(),
    {
        SelectionBridgeState { current_serial: 0, local_owner: false, host_content: None }
    }

    fn next_serial(&mut self) -> (serial: u32)
        ensures
            serial == following(old(self)@.serial),
            final(self)@ == (SelectionView { serial, ..old(self)@ }),
    {
        if self.current_serial == u32::MAX {
            self.current_serial = 1;
        } else {
            self.current_serial = self.current_serial + 1;
        }
        self.current_serial
    }

    fn host_update(&mut self, content: Option<ClipboardContent>) -> (action: HostAction)
        ensures
            (final(self)@, action@) == old(self)@.host_update(opt_content(content)),
    {
        let content = match content {
            Some(content) => if content.is_empty() {
                None
            } else {
                Some(content)
            },
            None => None,
        };
        match content {
            Some(content) => {
                let unchanged = match &self.host_content {
                    Some(current) => self.local_owner && current.same_as(&content),
                    None => false,
                };
                if unchanged {
                    return HostAction::Nothing;
                }
                let mimes = content.advertised_mimes();
                self.host_content = Some(content);
                self.local_owner = true;
                let serial = self.next_serial();
                HostAction::Grab { serial, mimes }
            },
            None => {
                let owned = self.host_content.is_some() || self.local_owner;
                self.host_content = None;
                self.local_owner = false;
                if owned {
                    HostAction::Release
                } else {
                    HostAction::Nothing
                }
            },
        }
    }

    fn guest_grab(&mut self, serial: u32, viewer_focused: bool) -> (accepted: bool)
        ensures
            accepted == accepts_grab(
                old(self)@.serial,
                old(self)@.local_owner,
                viewer_focused,
                serial,
            ),
            final(self)@ == if accepted {
                old(self)@.guest_grab(serial)
            } else {
                old(self)@
            },
    {
        if !should_accept_remote_grab(
            self.current_serial,
            self.local_owner,
            viewer_focused,
            serial,
        ) {
            return false;
        }
        self.current_serial = serial;
        self.local_owner = false;
        true
    }

    fn guest_release(&mut self)
        ensures
            final(self)@ == old(self)@.guest_release(),
    {
        if !self.local_owner {
            self.host_content = None;
        }
    }

    fn answer(&self, mimes: &Vec<String>) -> (result: Result<(String, Vec<u8>), String>)
        ensures
            answer_view(result) == self@.answer(texts(mimes@)),
    {
        if !self.local_owner {
            return Err("the host clipboard is not currently owned by QD2".to_owned());
        }
        match &self.host_content {
            None => Err(
                "the host clipboard does not currently contain a supported MIME type".to_owned(),
            ),
            Some(content) => match content.reply_for_requested_mimes(mimes) {
                None => Err(
                    "the guest requested a clipboard MIME type that QD2 does not support".to_owned(),
                ),
                Some(reply) => Ok(reply),
            },
        }
    }

    fn is_current(&self, serial: u32) -> (current: bool)
        ensures
            current == (!self@.local_owner && self@.serial == serial),
    {
        !self.local_owner && self.current_serial == serial
    }
}

/// An answer as sequences.
pub open spec fn answer_view(result: Result<(String, Vec<u8>), String>) -> Result<
    (Seq<char>, Seq<u8>),
    Seq<char>,
> {
    match result {
        Ok((mime, data)) => Ok((mime@, data@)),
        Err(message) => Err(message@),
    }
}

/// What is known of both selections, and whether the user is working in the viewer.
#[derive(Debug)]
pub struct ClipboardBridgeState {
    clipboard: SelectionBridgeState,
    primary: SelectionBridgeState,
    viewer_focused: bool,
}

/// What is known of both selections, as sequences.
#[verifier::ext_equal]
pub struct BridgeView {
    pub clipboard: SelectionView,
    pub primary: SelectionView,
    pub viewer_focused: bool,
}

impl View for ClipboardBridgeState {
    type V = BridgeView;

    closed spec fn view(&self) -> BridgeView {
        BridgeView {
            clipboard: self.clipboard@,
            primary: self.primary@,
            viewer_focused: self.viewer_focused,
        }
    }
}

impl BridgeView {
    /// What is known of one selection; nothing of one that is not supported.
    pub open spec fn of(self, selection: ClipboardSelection) -> Option<SelectionView> {
        match selection {
            ClipboardSelection::Clipboard => Some(self.clipboard),
            ClipboardSelection::Primary => Some(self.primary),
            ClipboardSelection::Secondary => None,
        }
    }

    /// The same but for one selection.
    pub open spec fn with(self, selection: ClipboardSelection, state: SelectionView) -> BridgeView {
        match selection {
            ClipboardSelection::Clipboard => BridgeView { clipboard: state, ..self },
            ClipboardSelection::Primary => BridgeView { primary: state, ..self },
            ClipboardSelection::Secondary => self,
        }
    }
}

/// What came of the requests for the guest's clipboard.
#[derive(Debug)]
pub struct GuestFetch {
    content: ClipboardContent,
    first_error: Option<Failure>,
}

impl GuestFetch {
    /// What has been received.
    pub closed spec fn received(&self) -> ContentView {
        self.content@
    }

    /// The first request that failed.
    pub closed spec fn failed(&self) -> Option<Seq<Seq<char>>> {
        match self.first_error {
            Some(failure) => Some(failure@),
            None => None,
        }
    }

    /// Nothing yet.
    pub fn new() -> (fetch: GuestFetch)
        ensures
            fetch.received() == ContentView::empty(),
            fetch.failed() is None,
    {
        GuestFetch { content: ClipboardContent::empty(), first_error: None }
    }

    /// Takes over the answer to one request.
    pub fn record(&mut self, reply: Result<(String, Vec<u8>), Failure>)
        ensures
            match reply {
                Ok((mime, data)) => {
                    &&& final(self).received() == old(self).received().with_data(mime@, data@)
                    &&& final(self).failed() == old(self).failed()
                },
                Err(failure) => {
                    &&& final(self).received() == old(self).received()
                    &&& final(self).failed() == if old(self).failed() is None {
                        Some(failure@)
                    } else {
                        old(self).failed()
                    }
                },
            },
    {
        match reply {
            Ok((mime, data)) => {
                self.content.merge_mime_bytes(mime.as_str(), data);
            },
            Err(failure) => {
                if self.first_error.is_none() {
                    self.first_error = Some(failure);
                }
            },
        }
    }
}

impl ClipboardBridgeState {
    /// Nothing is known, and the user is elsewhere.
    pub fn new() -> (state: ClipboardBridgeState)
        ensures
            state@ == (BridgeView {
                clipboard: SelectionView::initial(),
                primary: SelectionView::initial(),
                viewer_focused: false,
            }),
    {
        ClipboardBridgeState {
            clipboard: SelectionBridgeState::initial(),
            primary: SelectionBridgeState::initial(),
            viewer_focused: false,
        }
    }

    /// The guest has started or stopped sharing: all claims are void.
    pub fn reset(&mut self)
        ensures
            final(self)@ == (BridgeView {
                clipboard: SelectionView::initial(),
                primary: SelectionView::initial(),
                viewer_focused: old(self)@.viewer_focused,
            }),
    {
        self.clipboard = SelectionBridgeState::initial();
        self.primary = SelectionBridgeState::initial();
    }

    /// Notes whether the user is working in the viewer. Tells whether that is news.
    pub fn set_viewer_focused(&mut self, focused: bool) -> (changed: bool)
        ensures
            changed == (old(self)@.viewer_focused != focused),
            final(self)@ == (BridgeView { viewer_focused: focused, ..old(self)@ }),
    {
        let changed = self.viewer_focused != focused;
        self.viewer_focused = focused;
        changed
    }

    /// The host's clipboard has changed: what the guest is to be told.
    pub fn update_host_content(
        &mut self,
        selection: ClipboardSelection,
        content: Option<ClipboardContent>,
    ) -> (action: HostAction)
        ensures
            match old(self)@.of(selection) {
                None => action@ == HostActionView::Nothing && final(self)@ == old(self)@,
                Some(state) => {
                    let (after, expected) = state.host_update(opt_content(content));
                    action@ == expected && final(self)@ == old(self)@.with(selection, after)
                },
            },
    {
        match selection {
            ClipboardSelection::Clipboard => self.clipboard.host_update(content),
            ClipboardSelection::Primary => self.primary.host_update(content),
            ClipboardSelection::Secondary => HostAction::Nothing,
        }
    }

    /// The guest claims the clipboard: what it is to be asked for, if the claim is accepted.
    pub fn grab(&mut self, selection: ClipboardSelection, serial: u32, mimes: &Vec<String>) -> (plan:
        Option<Vec<RemoteFetchPlan>>)
        ensures
            match old(self)@.of(selection) {
                Some(state) if fetch_plan(texts(mimes@)).len() > 0 && accepts_grab(
                    state.serial,
                    state.local_owner,
                    old(self)@.viewer_focused,
                    serial,
                ) => {
                    &&& plan matches Some(requests)
                    &&& plan_view(requests@) == fetch_plan(texts(mimes@))
                    &&& final(self)@ == old(self)@.with(selection, state.guest_grab(serial))
                },
                _ => plan is None && final(self)@ == old(self)@,
            },
    {
        let requests = remote_fetch_plan(mimes);
        assert(plan_view(requests@).len() == requests.len());
        if requests.len() == 0 {
            return None;
        }
        let viewer_focused = self.viewer_focused;
        let accepted = match selection {
            ClipboardSelection::Clipboard => self.clipboard.guest_grab(serial, viewer_focused),
            ClipboardSelection::Primary => self.primary.guest_grab(serial, viewer_focused),
            ClipboardSelection::Secondary => false,
        };
        if accepted {
            Some(requests)
        } else {
            None
        }
    }

    /// The requests for a claim are through: what the window is to be told. What came in for a
    /// claim that is no longer the current one is dropped.
    pub fn finish_grab(&self, selection: ClipboardSelection, serial: u32, fetch: GuestFetch) -> (event:
        Option<ViewerEvent>)
        ensures
            if fetch.received() == ContentView::empty() {
                match fetch.failed() {
                    Some(failure) => event matches Some(status) && is_status(
                        status,
                        "Clipboard fetch failed: "@ + joined(failure, ": "@),
                    ),
                    None => event is None,
                }
            } else {
                match self@.of(selection) {
                    Some(state) if !state.local_owner && state.serial == serial => {
                        &&& event matches Some(ViewerEvent::ClipboardGuestChanged(which, content))
                        &&& which == selection
                        &&& content@ == fetch.received()
                    },
                    _ => event is None,
                }
            },
    {
        if fetch.content.is_empty() {
            return match fetch.first_error {
                Some(failure) => {
                    let reason = failure.in_full();
                    Some(
                        ViewerEvent::Status(concat2("Clipboard fetch failed: ", reason.as_str())),
                    )
                },
                None => None,
            };
        }
        let current = match selection {
            ClipboardSelection::Clipboard => self.clipboard.is_current(serial),
            ClipboardSelection::Primary => self.primary.is_current(serial),
            ClipboardSelection::Secondary => false,
        };
        if current {
            Some(ViewerEvent::ClipboardGuestChanged(selection, fetch.content))
        } else {
            None
        }
    }

    /// The guest gives the clipboard up.
    pub fn release(&mut self, selection: ClipboardSelection)
        ensures
            final(self)@ == match old(self)@.of(selection) {
                Some(state) => old(self)@.with(selection, state.guest_release()),
                None => old(self)@,
            },
    {
        match selection {
            ClipboardSelection::Clipboard => self.clipboard.guest_release(),
            ClipboardSelection::Primary => self.primary.guest_release(),
            ClipboardSelection::Secondary => {},
        }
    }

    /// The guest asks for what the host's clipboard holds.
    pub fn request(&self, selection: ClipboardSelection, mimes: &Vec<String>) -> (result: Result<
        (String, Vec<u8>),
        String,
    >)
        ensures
            answer_view(result) == match self@.of(selection) {
                Some(state) => state.answer(texts(mimes@)),
                None => Err("clipboard selection Secondary is not supported yet"@),
            },
    {
        match selection {
            ClipboardSelection::Clipboard => self.clipboard.answer(mimes),
            ClipboardSelection::Primary => self.primary.answer(mimes),
            ClipboardSelection::Secondary => Err(
                "clipboard selection Secondary is not supported yet".to_owned(),
            ),
        }
    }
}

/// The number of a claim is never zero.
pub proof fn serials_are_never_zero(serial: u32)
    ensures
        following(serial) != 0,
{
}

/// Once the host's clipboard has been offered, the guest gets every name that was offered.
pub proof fn offered_content_is_answered(
    state: SelectionView,
    content: ContentView,
    mime: Seq<char>,
)
    requires
        content != ContentView::empty(),
        content.advertised().contains(mime),
    ensures
        state.host_update(Some(content)).0.answer(seq![mime]) matches Ok(reply)
            && Some(reply) == content.served(mime),
{
    super::content::offers_are_served(content, mime);
    let mimes = seq![mime];
    assert(mimes.drop_last() =~= Seq::<Seq<char>>::empty());
    assert(content.reply(Seq::<Seq<char>>::empty()) is None);
    assert(mimes.last() == mime);
    assert(content.reply(mimes) == content.served(mime));
}

/// Once the guest has claimed the clipboard, it gets nothing from the host's.
pub proof fn claimed_clipboards_are_not_answered(
    state: SelectionView,
    serial: u32,
    mimes: Seq<Seq<char>>,
)
    ensures
        state.guest_grab(serial).answer(mimes) is Err,
{
}

/// Offering the same content again tells the guest nothing.
pub proof fn repeated_offers_are_silent(state: SelectionView, content: Option<ContentView>)
    ensures
        state.host_update(content).0.host_update(content) == (
            state.host_update(content).0,
            HostActionView::Nothing,
        ),
{
}

/// The selections are apart: what becomes known of one is found again there, and what is known of
/// every other one stays as it was. Only the clipboard and the primary selection are supported.
pub proof fn selections_are_apart(
    bridge: BridgeView,
    selection: ClipboardSelection,
    other: ClipboardSelection,
    state: SelectionView,
)
    ensures
        bridge.of(selection) is None <==> selection is Secondary,
        !(selection is Secondary) ==> bridge.with(selection, state).of(selection) == Some(state),
        selection is Secondary ==> bridge.with(selection, state) == bridge,
        other != selection ==> bridge.with(selection, state).of(other) == bridge.of(other),
        bridge.with(selection, state).viewer_focused == bridge.viewer_focused,
{
}

/// A change of one of the host's selections leaves what is known of every other one as it was. Where
/// the selection holds something, it is the host's from then on and the guest is offered the names
/// under which that can be had, under a new number, unless it was offered just that before. Where it
/// holds nothing, it is not the host's any more.
pub proof fn host_changes_concern_one_selection(
    bridge: &mut ClipboardBridgeState,
    selection: ClipboardSelection,
    content: Option<ClipboardContent>,
    action: HostAction,
)
    requires
        call_ensures(
            ClipboardBridgeState::update_host_content,
            (bridge, selection, content),
            action,
        ),
    ensures
        forall|other: ClipboardSelection|
            other != selection ==> #[trigger] final(bridge)@.of(other) == old(bridge)@.of(other),
        final(bridge)@.viewer_focused == old(bridge)@.viewer_focused,
        selection is Secondary ==> action is Nothing && final(bridge)@ == old(bridge)@,
        !(selection is Secondary) ==> {
            let before = old(bridge)@.of(selection)->0;
            let after = final(bridge)@.of(selection)->0;
            let something = content is Some && !(content->0@.plain_text is None && content->0@.html
                is None && content->0@.uri_list is None && content->0@.png is None);
            let repeated = before.local_owner && before.host_content == Some(content->0@);
            &&& final(bridge)@.of(selection) is Some
            &&& after.local_owner == something
            &&& after.host_content == if something {
                Some(content->0@)
            } else {
                None
            }
            &&& action is Grab <==> something && !repeated
            &&& action is Release <==> !something && (before.local_owner || before.host_content
                is Some)
            &&& !(action is Grab) ==> after.serial == before.serial
            &&& action matches HostAction::Grab { serial, mimes } ==> {
                &&& serial == after.serial
                &&& serial > before.serial || before.serial == u32::MAX && serial == 1
                &&& serial <= before.serial + 1
                &&& forall|mime: Seq<char>|
                    texts(mimes@).contains(mime) <==> #[trigger] content->0@.served(mime) is Some
            }
        },
{
    if !(selection is Secondary) {
        let before = old(bridge)@.of(selection)->0;
        let expected = before.host_update(opt_content(content));
        assert(final(bridge)@.of(selection) == Some(expected.0));
        if content is Some {
            let held = content->0@;
            assert(held == ContentView::empty() <==> held.plain_text is None && held.html is None
                && held.uri_list is None && held.png is None);
            assert forall|mime: Seq<char>|
                held.advertised().contains(mime) <==> #[trigger] held.served(mime) is Some by {
                if held.advertised().contains(mime) {
                    offers_are_served(held, mime);
                }
                if held.served(mime) is Some {
                    only_offers_are_served(held, mime);
                }
            }
        }
    }
}

/// A claim of the guest leaves what is known of every other selection as it was. A newer claim is
/// always accepted, a repeated one unless the host owns the selection and the user is elsewhere, an
/// older one only where the host owns it and the user is in the viewer, and none on what cannot be
/// asked for. Once it is accepted the guest owns the selection under that number.
pub proof fn guest_claims_concern_one_selection(
    bridge: &mut ClipboardBridgeState,
    selection: ClipboardSelection,
    serial: u32,
    mimes: Vec<String>,
    plan: Option<Vec<RemoteFetchPlan>>,
)
    requires
        call_ensures(ClipboardBridgeState::grab, (bridge, selection, serial, &mimes), plan),
    ensures
        forall|other: ClipboardSelection|
            other != selection ==> #[trigger] final(bridge)@.of(other) == old(bridge)@.of(other),
        final(bridge)@.viewer_focused == old(bridge)@.viewer_focused,
        plan is None ==> final(bridge)@ == old(bridge)@,
        plan is Some ==> !(selection is Secondary),
        !(selection is Secondary) ==> {
            let before = old(bridge)@.of(selection)->0;
            let after = final(bridge)@.of(selection)->0;
            let favoured = before.local_owner && old(bridge)@.viewer_focused;
            &&& plan is Some <==> fetch_plan(texts(mimes@)).len() > 0 && {
                ||| serial > before.serial
                ||| serial == before.serial && !before.local_owner
                ||| favoured
            }
            &&& plan is Some ==> after.serial == serial && !after.local_owner && after.host_content
                == before.host_content
        },
{
}

/// When the guest gives a selection up, what is known of every other one stays as it was, and so
/// does what the host owns.
pub proof fn guest_releases_concern_one_selection(
    bridge: &mut ClipboardBridgeState,
    selection: ClipboardSelection,
)
    requires
        call_ensures(ClipboardBridgeState::release, (bridge, selection), ()),
    ensures
        forall|other: ClipboardSelection|
            other != selection ==> #[trigger] final(bridge)@.of(other) == old(bridge)@.of(other),
        final(bridge)@.viewer_focused == old(bridge)@.viewer_focused,
        selection is Secondary ==> final(bridge)@ == old(bridge)@,
        !(selection is Secondary) ==> {
            let before = old(bridge)@.of(selection)->0;
            let after = final(bridge)@.of(selection)->0;
            &&& (after.serial, after.local_owner) == (before.serial, before.local_owner)
            &&& before.local_owner ==> after.host_content == before.host_content
            &&& !before.local_owner ==> after.host_content is None
        },
{
}

/// What the guest sends for a claim reaches the window exactly where something came in and the
/// claim is still the current one of that selection, and as it came in.
pub proof fn only_current_claims_reach_the_window(
    bridge: ClipboardBridgeState,
    selection: ClipboardSelection,
    serial: u32,
    fetch: GuestFetch,
    event: Option<ViewerEvent>,
)
    requires
        call_ensures(
            ClipboardBridgeState::finish_grab,
            (&bridge, selection, serial, fetch),
            event,
        ),
    ensures
        event matches Some(ViewerEvent::ClipboardGuestChanged(which, content)) ==> {
            &&& which == selection
            &&& content@ == fetch.received()
            &&& fetch.received() != ContentView::empty()
            &&& bridge@.of(selection) is Some
            &&& bridge@.of(selection)->0.serial == serial
            &&& !bridge@.of(selection)->0.local_owner
        },
        fetch.received() != ContentView::empty() && bridge@.of(selection) is Some && bridge@.of(
            selection,
        )->0.serial == serial && !bridge@.of(selection)->0.local_owner ==> event is Some
            && event->0 is ClipboardGuestChanged,
{
}

/// The host's content reaches the guest only where the host owns the selection that was asked for,
/// and then under the first name of the request that it can be had under.
pub proof fn requests_are_answered_from_their_selection(
    bridge: ClipboardBridgeState,
    selection: ClipboardSelection,
    mimes: Vec<String>,
    result: Result<(String, Vec<u8>), String>,
    first: int,
)
    requires
        call_ensures(ClipboardBridgeState::request, (&bridge, selection, &mimes), result),
        0 <= first < mimes.len(),
    ensures
        result is Ok ==> {
            &&& bridge@.of(selection) is Some
            &&& bridge@.of(selection)->0.local_owner
            &&& bridge@.of(selection)->0.host_content is Some
            &&& Some((result->Ok_0.0@, result->Ok_0.1@))
                == bridge@.of(selection)->0.host_content->0.served(result->Ok_0.0@)
        },
        bridge@.of(selection) is Some && bridge@.of(selection)->0.local_owner && bridge@.of(
            selection,
        )->0.host_content is Some && bridge@.of(selection)->0.host_content->0.served(
            mimes[first]@,
        ) is Some && (forall|i: int|
            0 <= i < first ==> bridge@.of(selection)->0.host_content->0.served(
                (#[trigger] mimes@[i])@,
            ) is None) ==> result is Ok && result->Ok_0.0@ == mimes[first]@,
{
    if bridge@.of(selection) is Some && bridge@.of(selection)->0.host_content is Some {
        let held = bridge@.of(selection)->0.host_content->0;
        let wanted = texts(mimes@);
        first_servable_name_is_answered(held, wanted);
        if held.served(mimes[first]@) is Some && (forall|i: int|
            0 <= i < first ==> held.served((#[trigger] mimes@[i])@) is None) {
            assert forall|i: int| 0 <= i < first implies held.served(#[trigger] wanted[i]) is None
                by {
                assert(wanted[i] == mimes@[i]@);
            }
            assert(wanted[first] == mimes@[first]@);
            assert(held.served(wanted[first]) is Some);
        }
    }
}

/// How good a name for plain text is: the smaller the better.
pub open spec fn text_rank(mime: Seq<char>) -> int {
    if mime == "text/plain;charset=utf-8"@ {
        0
    } else if mime == "text/plain"@ {
        1
    } else if mime == "UTF8_STRING"@ {
        2
    } else if mime == "TEXT"@ {
        3
    } else if mime == "STRING"@ {
        4
    } else {
        5
    }
}

proof fn preferred_is_complete(offered: Seq<Seq<char>>, count: int)
    requires
        0 <= count <= 5,
    ensures
        forall|mime: Seq<char>| #[trigger]
            preferred(offered, count).contains(mime) <==> offered.contains(mime) && text_rank(mime)
                < count,
        forall|i: int, j: int|
            0 <= i < j < preferred(offered, count).len() ==> text_rank(
                #[trigger] preferred(offered, count)[i],
            ) < text_rank(#[trigger] preferred(offered, count)[j]),
    decreases count,
{
    if count > 0 {
        preferred_is_complete(offered, count - 1);
        mimes_are_distinct();
        let best = text_mimes();
        let mime = best[count - 1];
        let before = preferred(offered, count - 1);
        assert(forall|i: int, j: int| 0 <= i < j < 5 ==> best[i] != best[j]);
        assert(best[0] == "text/plain;charset=utf-8"@);
        assert(best[1] == "text/plain"@);
        assert(best[2] == "UTF8_STRING"@);
        assert(best[3] == "TEXT"@);
        assert(best[4] == "STRING"@);
        assert(text_rank(mime) == count - 1);
        let now = preferred(offered, count);
        assert forall|name: Seq<char>| #[trigger] now.contains(name) <==> offered.contains(name)
            && text_rank(name) < count by {
            if offered.contains(mime) {
                assert(now == before.push(mime));
                if now.contains(name) {
                    let i = choose|i: int| 0 <= i < now.len() && now[i] == name;
                    if i < before.len() {
                        assert(before[i] == name);
                        assert(before.contains(name));
                    }
                }
                if before.contains(name) {
                    let i = choose|i: int| 0 <= i < before.len() && before[i] == name;
                    assert(now[i] == name);
                }
                assert(now[before.len() as int] == mime);
            }
            if text_rank(name) == count - 1 {
                assert(name == mime);
            }
            if text_rank(name) < count - 1 {
                assert(before.contains(name) <==> offered.contains(name));
            }
        }
        assert forall|i: int, j: int| 0 <= i < j < now.len() implies text_rank(#[trigger] now[i])
            < text_rank(#[trigger] now[j]) by {
            if j < before.len() {
                assert(before[i] == now[i] && before[j] == now[j]);
            } else {
                assert(before[i] == now[i]);
                assert(before.contains(before[i]));
            }
        }
    }
}

/// Everything of an offer that is supported is asked for: all names of plain text together, the
/// best first, and before anything else; HTML, a list of files and a picture each on their own.
pub proof fn whole_offers_are_requested(mimes: Vec<String>, plan: Vec<RemoteFetchPlan>)
    requires
        call_ensures(remote_fetch_plan, (&mimes,), plan),
    ensures
        ({
            let offered = texts(mimes@);
            let text = exists|mime: Seq<char>| #[trigger] offered.contains(mime) && text_rank(mime)
                < 5;
            &&& text ==> {
                &&& plan.len() > 0
                &&& forall|mime: Seq<char>| #[trigger]
                    texts(plan[0].requested_mimes@).contains(mime) <==> offered.contains(mime)
                        && text_rank(mime) < 5
                &&& forall|i: int, j: int|
                    0 <= i < j < plan[0].requested_mimes.len() ==> text_rank(
                        (#[trigger] plan[0].requested_mimes@[i])@,
                    ) < text_rank((#[trigger] plan[0].requested_mimes@[j])@)
            }
            &&& forall|mime: Seq<char>|
                mime == "text/html"@ || mime == "text/uri-list"@ || mime == "image/png"@ ==> (
                #[trigger] offered.contains(mime) <==> plan_view(plan@).contains(seq![mime]))
            &&& plan.len() == (if text {
                1int
            } else {
                0
            }) + (if offered.contains("text/html"@) {
                1int
            } else {
                0
            }) + (if offered.contains("text/uri-list"@) {
                1int
            } else {
                0
            }) + (if offered.contains("image/png"@) {
                1int
            } else {
                0
            })
        }),
{
    let offered = texts(mimes@);
    let best = preferred(offered, 5);
    let requests = plan_view(plan@);
    preferred_is_complete(offered, 5);
    mimes_are_distinct();
    let text = exists|mime: Seq<char>| #[trigger] offered.contains(mime) && text_rank(mime) < 5;
    if text {
        let mime = choose|mime: Seq<char>| #[trigger] offered.contains(mime) && text_rank(mime) < 5;
        assert(best.contains(mime));
    }
    if best.len() > 0 {
        assert(best.contains(best[0]));
        assert(requests[0] == best);
        assert(texts(plan[0].requested_mimes@) == best);
        assert forall|i: int, j: int|
            0 <= i < j < plan[0].requested_mimes.len() implies text_rank(
            (#[trigger] plan[0].requested_mimes@[i])@,
        ) < text_rank((#[trigger] plan[0].requested_mimes@[j])@) by {
            assert(best[i] == plan[0].requested_mimes@[i]@);
            assert(best[j] == plan[0].requested_mimes@[j]@);
        }
    }
    let first = if best.len() > 0 {
        seq![best]
    } else {
        Seq::empty()
    };
    let html = request_if(offered, TEXT_HTML@);
    let uri_list = request_if(offered, TEXT_URI_LIST@);
    let png = request_if(offered, IMAGE_PNG@);
    assert(requests == first + html + uri_list + png);
    assert forall|mime: Seq<char>|
        mime == "text/html"@ || mime == "text/uri-list"@ || mime == "image/png"@ implies (
    #[trigger] offered.contains(mime) <==> requests.contains(seq![mime])) by {
        assert(rich_mime(RichKind::Html) == TEXT_HTML@);
        assert(rich_mime(RichKind::UriList) == TEXT_URI_LIST@);
        assert(rich_mime(RichKind::Png) == IMAGE_PNG@);
        assert(rich_kind(mime) is Some);
        assert(!is_text_mime(mime));
        if offered.contains(mime) {
            let at = if mime == TEXT_HTML@ {
                first.len() as int
            } else if mime == TEXT_URI_LIST@ {
                (first + html).len() as int
            } else {
                (first + html + uri_list).len() as int
            };
            assert(requests[at] == seq![mime]);
        }
        if requests.contains(seq![mime]) {
            let at = choose|at: int| 0 <= at < requests.len() && requests[at] == seq![mime];
            assert(requests[at][0] == mime);
            only_offers_are_requested(offered, at, 0);
        }
    }
}

/// The first answer of the guest that fails is remembered, and only what came in counts.
pub proof fn first_failure_is_remembered(
    fetch: &mut GuestFetch,
    reply: Result<(String, Vec<u8>), Failure>,
)
    requires
        call_ensures(GuestFetch::record, (fetch, reply), ()),
    ensures
        old(fetch).failed() is Some ==> final(fetch).failed() == old(fetch).failed(),
        old(fetch).failed() is None && reply is Ok ==> final(fetch).failed() is None,
        old(fetch).failed() is None && reply is Err ==> final(fetch).failed() == Some(
            reply->Err_0@,
        ),
        reply is Err ==> final(fetch).received() == old(fetch).received(),
        reply matches Ok((mime, data)) ==> same_for(
            final(fetch).received(),
            ContentView::empty().with_data(mime@, data@),
            mime@,
        ),
{
}

/// A claim of the guest that is newer than the last one is accepted, and an older one refused, but
/// for a user who is working in the viewer while the host owns the selection: then every claim is
/// accepted. A repeated claim is accepted where the host does not own the selection.
pub proof fn newer_claims_win(
    current_serial: u32,
    local_owner: bool,
    viewer_focused: bool,
    incoming_serial: u32,
    accepted: bool,
)
    requires
        call_ensures(
            should_accept_remote_grab,
            (current_serial, local_owner, viewer_focused, incoming_serial),
            accepted,
        ),
    ensures
        incoming_serial > current_serial ==> accepted,
        incoming_serial == current_serial ==> (accepted <==> !local_owner || viewer_focused),
        incoming_serial < current_serial ==> (accepted <==> local_owner && viewer_focused),
{
}

/// When sharing starts anew nothing is known of any selection: none is the host's, and the first
/// offer has the number one. Where the user is working stays known.
pub proof fn sharing_starts_anew(
    bridge: &mut ClipboardBridgeState,
    fresh: ClipboardBridgeState,
    selection: ClipboardSelection,
)
    requires
        call_ensures(ClipboardBridgeState::reset, (bridge,), ()),
        call_ensures(ClipboardBridgeState::new, (), fresh),
        !(selection is Secondary),
    ensures
        final(bridge)@.viewer_focused == old(bridge)@.viewer_focused,
        !fresh@.viewer_focused,
        final(bridge)@.of(selection) == fresh@.of(selection),
        ({
            let state = fresh@.of(selection)->0;
            &&& state.serial == 0
            &&& !state.local_owner
            &&& state.host_content is None
        }),
{
}

}
