//! What a clipboard holds, and the names under which it is offered and asked for.

use vstd::prelude::*;
use vstd::utf8::decode_utf8;
use vstd::utf8::encode_utf8;
use vstd::utf8::valid_utf8;

use crate::text::concat2;
use crate::text::concat4;
use crate::text::from_chars;
use crate::text::join;
use crate::text::joined;
use crate::text::no_texts;
use crate::text::number::decimal;
use crate::text::number::to_decimal;
use crate::text::opt_string;
use crate::text::push_text;
use crate::text::same_text;
use crate::text::texts;
use crate::text::to_chars;

verus! {

/// Which of the clipboards.
#[derive(Copy, Clone, Debug, PartialEq, Eq, Structural)]
pub enum ClipboardSelection {
    Clipboard,
    Primary,
    Secondary,
}

/// UTF-8 text.
pub const TEXT_PLAIN_UTF8: &'static str = "text/plain;charset=utf-8";

/// Plain text.
pub const TEXT_PLAIN: &'static str = "text/plain";

/// UTF-8 text, under its name in X11.
pub const UTF8_STRING: &'static str = "UTF8_STRING";

/// Text, under its name in X11.
pub const TEXT: &'static str = "TEXT";

/// Latin text, under its name in X11.
pub const STRING: &'static str = "STRING";

/// A piece of HTML.
pub const TEXT_HTML: &'static str = "text/html";

/// A list of links.
pub const TEXT_URI_LIST: &'static str = "text/uri-list";

/// A picture.
pub const IMAGE_PNG: &'static str = "image/png";

/// The names for plain text, the best first.
pub open spec fn text_mimes() -> Seq<Seq<char>> {
    seq![TEXT_PLAIN_UTF8@, TEXT_PLAIN@, UTF8_STRING@, TEXT@, STRING@]
}

/// The names for what is not plain text.
pub open spec fn rich_mimes() -> Seq<Seq<char>> {
    seq![TEXT_HTML@, TEXT_URI_LIST@, IMAGE_PNG@]
}

/// The name stands for plain text.
pub open spec fn is_text_mime(mime: Seq<char>) -> bool {
    ||| mime == TEXT_PLAIN_UTF8@
    ||| mime == TEXT_PLAIN@
    ||| mime == UTF8_STRING@
    ||| mime == TEXT@
    ||| mime == STRING@
}

/// Whether the name stands for plain text.
pub fn is_supported_text_mime(mime: &str) -> (text: bool)
    ensures
        text == is_text_mime(mime@),
{
    same_text(mime, TEXT_PLAIN_UTF8) || same_text(mime, TEXT_PLAIN) || same_text(mime, UTF8_STRING)
        || same_text(mime, TEXT) || same_text(mime, STRING)
}

/// What is not plain text.
#[derive(Copy, Clone, Debug, PartialEq, Eq, Structural)]
pub enum RichKind {
    Html,
    UriList,
    Png,
}

/// What a name stands for, where it is not plain text.
pub open spec fn rich_kind(mime: Seq<char>) -> Option<RichKind> {
    if mime == TEXT_HTML@ {
        Some(RichKind::Html)
    } else if mime == TEXT_URI_LIST@ {
        Some(RichKind::UriList)
    } else if mime == IMAGE_PNG@ {
        Some(RichKind::Png)
    } else {
        None
    }
}

/// The name of what is not plain text.
pub open spec fn rich_mime(kind: RichKind) -> Seq<char> {
    match kind {
        RichKind::Html => TEXT_HTML@,
        RichKind::UriList => TEXT_URI_LIST@,
        RichKind::Png => IMAGE_PNG@,
    }
}

/// What a name stands for, where it is not plain text.
pub fn kind_of_mime(mime: &str) -> (kind: Option<RichKind>)
    ensures
        kind == rich_kind(mime@),
{
    if same_text(mime, TEXT_HTML) {
        Some(RichKind::Html)
    } else if same_text(mime, TEXT_URI_LIST) {
        Some(RichKind::UriList)
    } else if same_text(mime, IMAGE_PNG) {
        Some(RichKind::Png)
    } else {
        None
    }
}

/// The name of what is not plain text.
pub fn mime_of_kind(kind: RichKind) -> (mime: &'static str)
    ensures
        mime@ == rich_mime(kind),
{
    match kind {
        RichKind::Html => TEXT_HTML,
        RichKind::UriList => TEXT_URI_LIST,
        RichKind::Png => IMAGE_PNG,
    }
}

/// The name itself, where it stands for something that is supported and not plain text.
pub fn canonical_rich_mime(mime: &str) -> (canonical: Option<&'static str>)
    ensures
        crate::text::opt_text(canonical) == match rich_kind(mime@) {
            Some(kind) => Some(rich_mime(kind)),
            None => None,
        },
{
    match kind_of_mime(mime) {
        Some(kind) => Some(mime_of_kind(kind)),
        None => None,
    }
}

/// The names are all different, and each stands for one thing.
pub proof fn mimes_are_distinct()
    ensures
        text_mimes().no_duplicates(),
        rich_mimes().no_duplicates(),
        forall|mime: Seq<char>| #[trigger] is_text_mime(mime) ==> rich_kind(mime) is None,
        forall|kind: RichKind| rich_kind(#[trigger] rich_mime(kind)) == Some(kind),
{
    reveal_strlit("text/plain;charset=utf-8");
    reveal_strlit("text/plain");
    reveal_strlit("UTF8_STRING");
    reveal_strlit("TEXT");
    reveal_strlit("STRING");
    reveal_strlit("text/html");
    reveal_strlit("text/uri-list");
    reveal_strlit("image/png");
    assert(TEXT_PLAIN_UTF8@.len() == 24 && TEXT_PLAIN@.len() == 10 && UTF8_STRING@.len() == 11
        && TEXT@.len() == 4 && STRING@.len() == 6 && TEXT_HTML@.len() == 9 && TEXT_URI_LIST@.len()
        == 13 && IMAGE_PNG@.len() == 9);
    assert(TEXT_HTML@[0] == 't' && IMAGE_PNG@[0] == 'i');
}

/// What a clipboard holds. Each part is there or not.
#[derive(Debug)]
pub struct ClipboardContent {
    plain_text: Option<String>,
    html: Option<Vec<u8>>,
    uri_list: Option<Vec<u8>>,
    png: Option<Vec<u8>>,
}

/// What a clipboard holds, as sequences.
#[verifier::ext_equal]
pub struct ContentView {
    pub plain_text: Option<Seq<char>>,
    pub html: Option<Seq<u8>>,
    pub uri_list: Option<Seq<u8>>,
    pub png: Option<Seq<u8>>,
}

/// The bytes of an optional part.
pub open spec fn opt_bytes(value: Option<Vec<u8>>) -> Option<Seq<u8>> {
    match value {
        Some(bytes) => Some(bytes@),
        None => None,
    }
}

impl View for ClipboardContent {
    type V = ContentView;

    closed spec fn view(&self) -> ContentView {
        ContentView {
            plain_text: opt_string(self.plain_text),
            html: opt_bytes(self.html),
            uri_list: opt_bytes(self.uri_list),
            png: opt_bytes(self.png),
        }
    }
}

/// What `String::from_utf8_lossy` makes of bytes that are not UTF-8: a text with replacement
/// characters in it.
pub uninterp spec fn repaired_text(bytes: Seq<u8>) -> Seq<char>;

/// The text that bytes are taken for.
pub open spec fn lossy_text(bytes: Seq<u8>) -> Seq<char> {
    if valid_utf8(bytes) {
        decode_utf8(bytes)
    } else {
        repaired_text(bytes)
    }
}

/// `String::from_utf8_lossy`: bytes that are UTF-8 come out as the text that they encode, others as
/// a text that depends on the bytes alone.
#[verifier::external_body]
fn text_from_bytes(bytes: &Vec<u8>) -> (text: String)
    ensures
        text@ == if valid_utf8(bytes@) {
            decode_utf8(bytes@)
        } else {
            repaired_text(bytes@)
        },
{
    String::from_utf8_lossy(bytes).into_owned()
}

/// What the debug form of a string looks like: quoted, with escapes.
pub uninterp spec fn quoted(text: Seq<char>) -> Seq<char>;

/// `format!` with the debug form of a string.
#[verifier::external_body]
fn quote(text: &str) -> (shown: String)
    ensures
        shown@ == quoted(text@),
{
    format!("{:?}", text)
}

impl ContentView {
    /// An empty clipboard.
    pub open spec fn empty() -> ContentView {
        ContentView { plain_text: None, html: None, uri_list: None, png: None }
    }

    /// The part that is not plain text.
    pub open spec fn part(self, kind: RichKind) -> Option<Seq<u8>> {
        match kind {
            RichKind::Html => self.html,
            RichKind::UriList => self.uri_list,
            RichKind::Png => self.png,
        }
    }

    /// The content with a part replaced.
    pub open spec fn with_part(self, kind: RichKind, data: Seq<u8>) -> ContentView {
        match kind {
            RichKind::Html => ContentView { html: Some(data), ..self },
            RichKind::UriList => ContentView { uri_list: Some(data), ..self },
            RichKind::Png => ContentView { png: Some(data), ..self },
        }
    }

    /// The content with plain text.
    pub open spec fn with_text(self, text: Seq<char>) -> ContentView {
        ContentView { plain_text: Some(text), ..self }
    }

    /// The content with data that came under a name. What is not supported is ignored.
    pub open spec fn with_data(self, mime: Seq<char>, data: Seq<u8>) -> ContentView {
        if is_text_mime(mime) {
            self.with_text(lossy_text(data))
        } else {
            match rich_kind(mime) {
                Some(kind) => self.with_part(kind, data),
                None => self,
            }
        }
    }

    /// The names under which the content is offered.
    pub open spec fn advertised(self) -> Seq<Seq<char>> {
        let text = if self.plain_text is Some {
            text_mimes()
        } else {
            Seq::empty()
        };
        let html = if self.html is Some {
            seq![TEXT_HTML@]
        } else {
            Seq::empty()
        };
        let uri_list = if self.uri_list is Some {
            seq![TEXT_URI_LIST@]
        } else {
            Seq::empty()
        };
        let png = if self.png is Some {
            seq![IMAGE_PNG@]
        } else {
            Seq::empty()
        };
        text + html + uri_list + png
    }

    /// What is handed out under a name: the name to answer with, and the data.
    pub open spec fn served(self, mime: Seq<char>) -> Option<(Seq<char>, Seq<u8>)> {
        if is_text_mime(mime) {
            match self.plain_text {
                Some(text) => Some((mime, encode_utf8(text))),
                None => None,
            }
        } else {
            match rich_kind(mime) {
                Some(kind) => match self.part(kind) {
                    Some(data) => Some((mime, data)),
                    None => None,
                },
                None => None,
            }
        }
    }

    /// What is handed out under the first name that can be served.
    pub open spec fn reply(self, mimes: Seq<Seq<char>>) -> Option<(Seq<char>, Seq<u8>)>
        decreases mimes.len(),
    {
        if mimes.len() == 0 {
            None
        } else {
            match self.reply(mimes.drop_last()) {
                Some(found) => Some(found),
                None => self.served(mimes.last()),
            }
        }
    }

    /// The descriptions of the parts that are there.
    pub open spec fn part_descriptions(self) -> Seq<Seq<char>> {
        let text = match self.plain_text {
            Some(text) => seq!["text "@ + text_description(text)],
            None => Seq::empty(),
        };
        let html = match self.html {
            Some(data) => seq!["html bytes="@ + decimal(data.len())],
            None => Seq::empty(),
        };
        let uri_list = match self.uri_list {
            Some(data) => seq!["uri-list bytes="@ + decimal(data.len())],
            None => Seq::empty(),
        };
        let png = match self.png {
            Some(data) => seq!["png bytes="@ + decimal(data.len())],
            None => Seq::empty(),
        };
        text + html + uri_list + png
    }
}

/// How many characters of a text are shown in its description.
pub const MAX_PREVIEW_CHARS: usize = 48;

/// The beginning of a text.
pub open spec fn preview(text: Seq<char>) -> Seq<char> {
    if text.len() > MAX_PREVIEW_CHARS {
        text.take(MAX_PREVIEW_CHARS as int) + "..."@
    } else {
        text
    }
}

/// The length and the beginning of a text.
pub open spec fn text_description(text: Seq<char>) -> Seq<char> {
    "len="@ + decimal(encode_utf8(text).len()) + " preview="@ + quoted(preview(text))
}

/// The beginning of a text.
pub fn preview_text(text: &str) -> (start: String)
    ensures
        start@ == preview(text@),
{
    let chars = to_chars(text);
    if chars.len() > MAX_PREVIEW_CHARS {
        let start = from_chars(&chars, 0, MAX_PREVIEW_CHARS);
        assert(text@.subrange(0, MAX_PREVIEW_CHARS as int) =~= text@.take(
            MAX_PREVIEW_CHARS as int,
        ));
        concat2(start.as_str(), "...")
    } else {
        text.to_owned()
    }
}

/// The length and the beginning of a text.
pub fn describe_text(text: &str) -> (description: String)
    ensures
        description@ == text_description(text@),
{
    let bytes = text.as_bytes();
    let length = to_decimal(bytes.len() as u64);
    let start = preview_text(text);
    let shown = quote(start.as_str());
    concat4("len=", length.as_str(), " preview=", shown.as_str())
}

fn copy_bytes(bytes: &[u8]) -> (copy: Vec<u8>)
    ensures
        copy@ == bytes@,
{
    let mut copy: Vec<u8> = Vec::new();
    let len: usize = bytes.len();
    for i in 0..len
        invariant
            len == bytes@.len(),
            copy@ == bytes@.take(i as int),
    {
        copy.push(bytes[i]);
    }
    assert(bytes@.take(bytes@.len() as int) =~= bytes@);
    copy
}

fn copy_part(part: &Option<Vec<u8>>) -> (copy: Option<Vec<u8>>)
    ensures
        opt_bytes(copy) == opt_bytes(*part),
{
    match part {
        Some(bytes) => Some(copy_bytes(bytes.as_slice())),
        None => None,
    }
}

fn same_part(left: &Option<Vec<u8>>, right: &Option<Vec<u8>>) -> (same: bool)
    ensures
        same == (opt_bytes(*left) == opt_bytes(*right)),
{
    match (left, right) {
        (None, None) => true,
        (Some(a), Some(b)) => {
            if a.len() != b.len() {
                return false;
            }
            for i in 0..a.len()
                invariant
                    a.len() == b.len(),
                    forall|j: int| 0 <= j < i ==> a@[j] == b@[j],
                    *left == Some(*a),
                    *right == Some(*b),
            {
                if a[i] != b[i] {
                    return false;
                }
            }
            assert(a@ =~= b@);
            true
        },
        _ => false,
    }
}

fn push_size(parts: &mut Vec<String>, label: &str, data: &Option<Vec<u8>>)
    ensures
        texts(final(parts)@) == match opt_bytes(*data) {
            Some(bytes) => texts(old(parts)@).push(label@ + decimal(bytes.len())),
            None => texts(old(parts)@),
        },
{
    if let Some(bytes) = data {
        let size = to_decimal(bytes.len() as u64);
        push_text(parts, concat2(label, size.as_str()));
    }
}

impl ClipboardContent {
    /// Nothing.
    pub fn empty() -> (content: ClipboardContent)
        ensures
            content@ == ContentView::empty(),
    {
        ClipboardContent { plain_text: None, html: None, uri_list: None, png: None }
    }

    /// Whether there is nothing.
    pub fn is_empty(&self) -> (nothing: bool)
        ensures
            nothing == (self@ == ContentView::empty()),
    {
        self.plain_text.is_none() && self.html.is_none() && self.uri_list.is_none()
            && self.png.is_none()
    }

    /// A copy.
    pub fn duplicate(&self) -> (copy: ClipboardContent)
        ensures
            copy@ == self@,
    {
        ClipboardContent {
            plain_text: crate::text::clone_opt_string(&self.plain_text),
            html: copy_part(&self.html),
            uri_list: copy_part(&self.uri_list),
            png: copy_part(&self.png),
        }
    }

    /// Whether the two hold the same.
    pub fn same_as(&self, other: &ClipboardContent) -> (same: bool)
        ensures
            same == (self@ == other@),
    {
        let same_plain = match (&self.plain_text, &other.plain_text) {
            (None, None) => true,
            (Some(a), Some(b)) => same_text(a.as_str(), b.as_str()),
            _ => false,
        };
        same_plain && same_part(&self.html, &other.html) && same_part(
            &self.uri_list,
            &other.uri_list,
        ) && same_part(&self.png, &other.png)
    }

    /// The plain text.
    pub fn plain_text(&self) -> (text: Option<&str>)
        ensures
            crate::text::opt_text(text) == self@.plain_text,
    {
        crate::text::opt_as_str(&self.plain_text)
    }

    /// The part that is not plain text.
    pub fn part(&self, kind: RichKind) -> (data: Option<&Vec<u8>>)
        ensures
            match (data, self@.part(kind)) {
                (Some(found), Some(expected)) => found@ == expected,
                (None, None) => true,
                _ => false,
            },
    {
        match kind {
            RichKind::Html => self.html.as_ref(),
            RichKind::UriList => self.uri_list.as_ref(),
            RichKind::Png => self.png.as_ref(),
        }
    }

    /// The content in words.
    pub fn describe(&self) -> (description: String)
        ensures
            description@ == if self@ == ContentView::empty() {
                "empty"@
            } else {
                joined(self@.part_descriptions(), ", "@)
            },
    {
        if self.is_empty() {
            return "empty".to_owned();
        }
        let mut parts = no_texts();
        if let Some(text) = &self.plain_text {
            let description = describe_text(text.as_str());
            push_text(&mut parts, concat2("text ", description.as_str()));
        }
        push_size(&mut parts, "html bytes=", &self.html);
        push_size(&mut parts, "uri-list bytes=", &self.uri_list);
        push_size(&mut parts, "png bytes=", &self.png);
        assert(texts(parts@) =~= self@.part_descriptions());
        join(&parts, ", ")
    }

    /// The names under which the content is offered.
    pub fn advertised_mimes(&self) -> (mimes: Vec<String>)
        ensures
            texts(mimes@) == self@.advertised(),
    {
        let mut mimes = no_texts();
        if self.plain_text.is_some() {
            push_text(&mut mimes, TEXT_PLAIN_UTF8.to_owned());
            push_text(&mut mimes, TEXT_PLAIN.to_owned());
            push_text(&mut mimes, UTF8_STRING.to_owned());
            push_text(&mut mimes, TEXT.to_owned());
            push_text(&mut mimes, STRING.to_owned());
        }
        if self.html.is_some() {
            push_text(&mut mimes, TEXT_HTML.to_owned());
        }
        if self.uri_list.is_some() {
            push_text(&mut mimes, TEXT_URI_LIST.to_owned());
        }
        if self.png.is_some() {
            push_text(&mut mimes, IMAGE_PNG.to_owned());
        }
        assert(texts(mimes@) =~= self@.advertised());
        mimes
    }

    /// Takes over plain text.
    pub fn merge_text(&mut self, text: String)
        ensures
            final(self)@ == old(self)@.with_text(text@),
    {
        self.plain_text = Some(text);
    }

    /// Takes over data that came under a name. What is not supported is ignored.
    pub fn merge_mime_bytes(&mut self, mime: &str, data: Vec<u8>)
        ensures
            final(self)@ == old(self)@.with_data(mime@, data@),
    {
        if is_supported_text_mime(mime) {
            let text = text_from_bytes(&data);
            self.merge_text(text);
            return;
        }
        match kind_of_mime(mime) {
            Some(RichKind::Html) => {
                self.html = Some(data);
            },
            Some(RichKind::UriList) => {
                self.uri_list = Some(data);
            },
            Some(RichKind::Png) => {
                self.png = Some(data);
            },
            None => {},
        }
    }

    /// What is handed out under a name.
    fn serve(&self, mime: &str) -> (found: Option<(String, Vec<u8>)>)
        ensures
            reply_view(found) == self@.served(mime@),
    {
        if is_supported_text_mime(mime) {
            return match &self.plain_text {
                Some(text) => Some((mime.to_owned(), copy_bytes(text.as_str().as_bytes()))),
                None => None,
            };
        }
        match kind_of_mime(mime) {
            Some(kind) => match self.part(kind) {
                Some(data) => Some((mime.to_owned(), copy_bytes(data.as_slice()))),
                None => None,
            },
            None => None,
        }
    }

    /// What is handed out under the first name that can be served.
    pub fn reply_for_requested_mimes(&self, mimes: &Vec<String>) -> (reply: Option<
        (String, Vec<u8>),
    >)
        ensures
            reply_view(reply) == self@.reply(texts(mimes@)),
    {
        let ghost names = texts(mimes@);
        assert(names.take(0) =~= Seq::<Seq<char>>::empty());
        for i in 0..mimes.len()
            invariant
                names == texts(mimes@),
                self@.reply(names.take(i as int)) is None,
        {
            proof {
                assert(names.take(i + 1).drop_last() =~= names.take(i as int));
                assert(names.take(i + 1).last() == mimes@[i as int]@);
            }
            if let Some(found) = self.serve(mimes[i].as_str()) {
                proof {
                    reply_is_settled(self@, names, i + 1);
                }
                return Some(found);
            }
        }
        assert(names.take(names.len() as int) =~= names);
        None
    }
}

/// A reply as sequences.
pub open spec fn reply_view(reply: Option<(String, Vec<u8>)>) -> Option<(Seq<char>, Seq<u8>)> {
    match reply {
        Some((mime, data)) => Some((mime@, data@)),
        None => None,
    }
}

proof fn reply_is_settled(content: ContentView, mimes: Seq<Seq<char>>, count: int)
    requires
        0 <= count <= mimes.len(),
        content.reply(mimes.take(count)) is Some,
    ensures
        content.reply(mimes) == content.reply(mimes.take(count)),
    decreases mimes.len() - count,
{
    if count < mimes.len() {
        assert(mimes.take(count + 1).drop_last() =~= mimes.take(count));
        reply_is_settled(content, mimes, count + 1);
    } else {
        assert(mimes.take(count) =~= mimes);
    }
}

/// Whatever is offered can be served, under the name that was offered.
pub proof fn offers_are_served(content: ContentView, mime: Seq<char>)
    requires
        content.advertised().contains(mime),
    ensures
        content.served(mime) is Some,
        (content.served(mime)->0).0 == mime,
{
    mimes_are_distinct();
    let i = choose|i: int|
        0 <= i < content.advertised().len() && content.advertised()[i] == mime;
    assert(rich_kind(rich_mime(RichKind::Html)) == Some(RichKind::Html));
    assert(rich_kind(rich_mime(RichKind::UriList)) == Some(RichKind::UriList));
    assert(rich_kind(rich_mime(RichKind::Png)) == Some(RichKind::Png));
}

/// Only what is offered is served.
pub proof fn only_offers_are_served(content: ContentView, mime: Seq<char>)
    requires
        content.served(mime) is Some,
    ensures
        content.advertised().contains(mime),
{
    let list = content.advertised();
    let texts_before: int = if content.plain_text is Some {
        5
    } else {
        0
    };
    let html_before = texts_before + if content.html is Some {
        1int
    } else {
        0int
    };
    let uris_before = html_before + if content.uri_list is Some {
        1int
    } else {
        0int
    };
    if is_text_mime(mime) {
        assert(list[0] == TEXT_PLAIN_UTF8@ && list[1] == TEXT_PLAIN@ && list[2] == UTF8_STRING@
            && list[3] == TEXT@ && list[4] == STRING@);
    } else {
        match rich_kind(mime) {
            Some(RichKind::Html) => {
                assert(list[texts_before] == TEXT_HTML@);
            },
            Some(RichKind::UriList) => {
                assert(list[html_before] == TEXT_URI_LIST@);
            },
            Some(RichKind::Png) => {
                assert(list[uris_before] == IMAGE_PNG@);
            },
            None => {},
        }
    }
}

/// The part of a clipboard that a name stands for.
pub open spec fn same_for(left: ContentView, right: ContentView, mime: Seq<char>) -> bool {
    if is_text_mime(mime) {
        left.plain_text == right.plain_text
    } else {
        match rich_kind(mime) {
            Some(kind) => left.part(kind) == right.part(kind),
            None => true,
        }
    }
}

/// What is served, taken over on the other side, is what the clipboard held: sharing loses
/// nothing.
pub proof fn sharing_loses_nothing(content: ContentView, mime: Seq<char>, other: ContentView)
    requires
        content.served(mime) is Some,
    ensures
        same_for(
            other.with_data((content.served(mime)->0).0, (content.served(mime)->0).1),
            content,
            mime,
        ),
{
    if is_text_mime(mime) {
        vstd::utf8::encode_utf8_decode_utf8(content.plain_text->0);
        vstd::utf8::encode_utf8_valid_utf8(content.plain_text->0);
    }
}

/// The answer to a request is what stands under its first name that can be served: the names before
/// it cannot, and where none can there is no answer.
pub proof fn first_servable_name_is_answered(content: ContentView, mimes: Seq<Seq<char>>)
    ensures
        forall|i: int|
            0 <= i < mimes.len() && content.served(#[trigger] mimes[i]) is Some && (forall|j: int|
                0 <= j < i ==> content.served(#[trigger] mimes[j]) is None) ==> content.reply(mimes)
                == content.served(mimes[i]),
        content.reply(mimes) is None <==> forall|i: int|
            0 <= i < mimes.len() ==> content.served(#[trigger] mimes[i]) is None,
        content.reply(mimes) matches Some(reply) ==> content.served(reply.0) == Some(reply),
    decreases mimes.len(),
{
    if mimes.len() > 0 {
        let fewer = mimes.drop_last();
        first_servable_name_is_answered(content, fewer);
        assert(forall|i: int| 0 <= i < fewer.len() ==> mimes[i] == #[trigger] fewer[i]);
        assert forall|i: int|
            0 <= i < mimes.len() && content.served(#[trigger] mimes[i]) is Some && (forall|j: int|
                0 <= j < i ==> content.served(#[trigger] mimes[j]) is None) implies content.reply(
            mimes,
        ) == content.served(mimes[i]) by {
            if i < fewer.len() {
                assert(fewer[i] == mimes[i]);
                assert forall|j: int| 0 <= j < i implies content.served(#[trigger] fewer[j])
                    is None by {
                    assert(fewer[j] == mimes[j]);
                }
            } else {
                assert forall|j: int| 0 <= j < fewer.len() implies content.served(
                    #[trigger] fewer[j],
                ) is None by {
                    assert(fewer[j] == mimes[j]);
                }
            }
        }
        if content.reply(mimes) is None {
            assert forall|i: int| 0 <= i < mimes.len() implies content.served(#[trigger] mimes[i])
                is None by {
                if i < fewer.len() {
                    assert(fewer[i] == mimes[i]);
                }
            }
        } else if content.reply(fewer) is Some {
            let i = choose|i: int|
                0 <= i < fewer.len() && content.served(#[trigger] fewer[i]) is Some;
            assert(content.served(mimes[i]) is Some);
        } else {
            assert(content.served(mimes[mimes.len() - 1]) is Some);
        }
        mimes_are_distinct();
    }
}

/// What comes under a name is found under that name and under no other: bytes as they came, plain
/// text under all of its names. What comes under any other name is dropped.
pub proof fn data_stays_under_its_name(content: &mut ClipboardContent, mime: &str, data: Vec<u8>)
    requires
        call_ensures(ClipboardContent::merge_mime_bytes, (content, mime, data), ()),
    ensures
        ({
            let before = old(content)@;
            let after = final(content)@;
            let text = mime@ == "text/plain;charset=utf-8"@ || mime@ == "text/plain"@ || mime@
                == "UTF8_STRING"@ || mime@ == "TEXT"@ || mime@ == "STRING"@;
            &&& after.html == if mime@ == "text/html"@ {
                Some(data@)
            } else {
                before.html
            }
            &&& after.uri_list == if mime@ == "text/uri-list"@ {
                Some(data@)
            } else {
                before.uri_list
            }
            &&& after.png == if mime@ == "image/png"@ {
                Some(data@)
            } else {
                before.png
            }
            &&& !text ==> after.plain_text == before.plain_text
            &&& text ==> after.plain_text is Some
            &&& text && valid_utf8(data@) ==> encode_utf8(after.plain_text->0) == data@
        }),
{
    mimes_are_distinct();
    assert(rich_mime(RichKind::Html) == TEXT_HTML@);
    assert(rich_mime(RichKind::UriList) == TEXT_URI_LIST@);
    assert(rich_mime(RichKind::Png) == IMAGE_PNG@);
    assert(rich_kind(TEXT_HTML@) == Some(RichKind::Html));
    assert(rich_kind(TEXT_URI_LIST@) == Some(RichKind::UriList));
    assert(rich_kind(IMAGE_PNG@) == Some(RichKind::Png));
    assert(is_text_mime(mime@) ==> rich_kind(mime@) is None);
    if is_text_mime(mime@) && valid_utf8(data@) {
        vstd::utf8::decode_utf8_encode_utf8(data@);
    }
}

/// Under a name the content is served as it is: text in UTF-8 under each name of plain text, bytes
/// under their one name, and nothing under any other.
pub proof fn names_lead_to_their_parts(content: ContentView, mime: Seq<char>)
    ensures
        content.served(mime) == if mime == "text/plain;charset=utf-8"@ || mime == "text/plain"@
            || mime == "UTF8_STRING"@ || mime == "TEXT"@ || mime == "STRING"@ {
            match content.plain_text {
                Some(text) => Some((mime, encode_utf8(text))),
                None => None,
            }
        } else if mime == "text/html"@ {
            match content.html {
                Some(data) => Some((mime, data)),
                None => None,
            }
        } else if mime == "text/uri-list"@ {
            match content.uri_list {
                Some(data) => Some((mime, data)),
                None => None,
            }
        } else if mime == "image/png"@ {
            match content.png {
                Some(data) => Some((mime, data)),
                None => None,
            }
        } else {
            None
        },
{
}

/// A preview is the text itself where that is short; else it is as much of its beginning, and three
/// dots.
pub proof fn previews_begin_like_the_text(text: Seq<char>)
    ensures
        text.len() <= 48 ==> preview(text) == text,
        text.len() > 48 ==> {
            &&& preview(text).len() == 51
            &&& preview(text).skip(48) == seq!['.', '.', '.']
            &&& forall|i: int| 0 <= i < 48 ==> #[trigger] preview(text)[i] == text[i]
        },
{
    reveal_strlit("...");
}

}
