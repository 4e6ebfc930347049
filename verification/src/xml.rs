//! Markup events: what the interpreter consumes, and how the bytes of a
//! document become events.

use quick_xml::events::attributes::Attributes;
use quick_xml::events::{BytesText, Event};
use quick_xml::Reader;
use crate::error::Fault;
use crate::text::text_eq;
use vstd::prelude::*;
use vstd::slice::slice_subrange;
use vstd::utf8::{decode_utf8, valid_utf8};

verus! {

/// One attribute of an element: its name and its value as written.
pub struct Attribute {
    pub key: String,
    pub value: String,
}

/// An element's name and its attributes, in document order.
pub struct Element {
    pub name: String,
    pub attributes: Vec<Attribute>,
}

/// One step of a document.
pub enum XmlEvent {
    /// An element that opens and has content.
    Start(Element),
    /// An element that closes itself.
    Empty(Element),
    /// The end of an element, with its name.
    End(String),
    /// Character data, with entities resolved.
    Text(String),
    /// Markup that carries no data for a worksheet: comments, declarations
    /// and the like.
    Other,
    /// Markup that could not be read.
    Invalid,
}

/// An attribute as plain values.
pub struct AttributeView {
    pub key: Seq<char>,
    pub value: Seq<char>,
}

/// An element as plain values.
pub struct ElementView {
    pub name: Seq<char>,
    pub attributes: Seq<AttributeView>,
}

/// An event as plain values.
pub enum XmlEventView {
    Start(ElementView),
    Empty(ElementView),
    End(Seq<char>),
    Text(Seq<char>),
    Other,
    Invalid,
}

impl DeepView for Attribute {
    type V = AttributeView;

    open spec fn deep_view(&self) -> AttributeView {
        AttributeView { key: self.key@, value: self.value@ }
    }
}

impl DeepView for Element {
    type V = ElementView;

    open spec fn deep_view(&self) -> ElementView {
        ElementView { name: self.name@, attributes: self.attributes.deep_view() }
    }
}

impl DeepView for XmlEvent {
    type V = XmlEventView;

    open spec fn deep_view(&self) -> XmlEventView {
        match self {
            XmlEvent::Start(e) => XmlEventView::Start(e.deep_view()),
            XmlEvent::Empty(e) => XmlEventView::Empty(e.deep_view()),
            XmlEvent::End(name) => XmlEventView::End(name@),
            XmlEvent::Text(text) => XmlEventView::Text(text@),
            XmlEvent::Other => XmlEventView::Other,
            XmlEvent::Invalid => XmlEventView::Invalid,
        }
    }
}

/// The value of the last attribute named `key`, if there is one: where a
/// name comes twice, the later one counts.
pub open spec fn attribute_value(attributes: Seq<AttributeView>, key: Seq<char>) -> Option<
    Seq<char>,
>
    decreases attributes.len(),
{
    if attributes.len() == 0 {
        None
    } else if attributes.last().key == key {
        Some(attributes.last().value)
    } else {
        attribute_value(attributes.drop_last(), key)
    }
}

/// What comes of working through the attributes in order from `state`,
/// each by `step`, up to the first that fails.
pub open spec fn fold_attributes<S>(
    state: S,
    attributes: Seq<AttributeView>,
    step: spec_fn(S, AttributeView) -> Result<S, Fault>,
) -> Result<S, Fault>
    decreases attributes.len(),
{
    if attributes.len() == 0 {
        Ok(state)
    } else {
        match fold_attributes(state, attributes.drop_last(), step) {
            Ok(before) => step(before, attributes.last()),
            Err(fault) => Err(fault),
        }
    }
}

/// Working through one more attribute is one more step.
pub proof fn lemma_fold_attributes_next<S>(
    state: S,
    attributes: Seq<AttributeView>,
    step: spec_fn(S, AttributeView) -> Result<S, Fault>,
    i: int,
)
    requires
        0 <= i < attributes.len(),
    ensures
        fold_attributes(state, attributes.take(i + 1), step) == match fold_attributes(
            state,
            attributes.take(i),
            step,
        ) {
            Ok(before) => step(before, attributes[i]),
            Err(fault) => Err(fault),
        },
{
    assert(attributes.take(i + 1).drop_last() =~= attributes.take(i));
}

/// Once an attribute has failed, the fault stands whatever follows.
pub proof fn lemma_fold_attributes_fails<S>(
    state: S,
    attributes: Seq<AttributeView>,
    step: spec_fn(S, AttributeView) -> Result<S, Fault>,
    n: int,
)
    requires
        0 <= n <= attributes.len(),
    ensures
        fold_attributes(state, attributes.take(n), step) is Err ==> fold_attributes(
            state,
            attributes,
            step,
        ) == fold_attributes(state, attributes.take(n), step),
    decreases attributes.len() - n,
{
    if n == attributes.len() {
        assert(attributes.take(n) =~= attributes);
    } else {
        lemma_fold_attributes_next(state, attributes, step, n);
        lemma_fold_attributes_fails(state, attributes, step, n + 1);
    }
}

impl Element {
    /// An element with the given name and attributes.
    pub fn new(name: &str, attributes: Vec<Attribute>) -> (element: Element)
        ensures
            element.deep_view() == (ElementView {
                name: name@,
                attributes: attributes.deep_view(),
            }),
    {
        Element { name: name.to_owned(), attributes }
    }

    /// Looks an attribute up by its name.
    pub fn get_attribute(&self, key: &str) -> (value: Option<&str>)
        ensures
            value.deep_view() == attribute_value(self.deep_view().attributes, key@),
    {
        let ghost all = self.deep_view().attributes;
        let mut i: usize = self.attributes.len();
        assert(all.take(i as int) =~= all);
        while i > 0
            invariant
                i <= self.attributes.len(),
                all == self.attributes.deep_view(),
                attribute_value(all, key@) == attribute_value(all.take(i as int), key@),
            decreases i,
        {
            i -= 1;
            proof {
                assert(all.take(i + 1).drop_last() =~= all.take(i as int));
                assert(all.take(i + 1).last() == self.attributes[i as int].deep_view());
            }
            if text_eq(self.attributes[i].key.as_str(), key) {
                return Some(self.attributes[i].value.as_str());
            }
        }
        None
    }
}

impl Attribute {
    /// An attribute with the given name and value.
    pub fn new(key: &str, value: &str) -> (attribute: Attribute)
        ensures
            attribute.deep_view() == (AttributeView { key: key@, value: value@ }),
    {
        Attribute { key: key.to_owned(), value: value.to_owned() }
    }
}

/// The kinds of token that the tokenizer tells apart.
#[derive(Clone, Copy, PartialEq, Eq, Structural)]
pub enum RawKind {
    Start,
    Empty,
    End,
    Text,
    Other,
    Eof,
}

/// A token as the tokenizer hands it out: its kind, its bytes, and for an
/// element how many of them make up the name.
pub struct RawEvent {
    pub kind: RawKind,
    pub content: Vec<u8>,
    pub name_len: usize,
}

/// A token as plain values.
pub struct RawEventView {
    pub kind: RawKind,
    pub content: Seq<u8>,
    pub name_len: usize,
}

impl DeepView for RawEvent {
    type V = RawEventView;

    open spec fn deep_view(&self) -> RawEventView {
        RawEventView { kind: self.kind, content: self.content@, name_len: self.name_len }
    }
}

/// A tokenizer at work on the bytes of one document: a `quick_xml::Reader`
/// over a byte slice. What is inside it is not modelled: all that is said
/// of a reader is which tokens it has yet to hand out.
#[verifier::external_body]
pub struct TokenReader<'a> {
    reader: Reader<&'a [u8]>,
}

/// The tokens that `quick_xml` finds in a document, in order, up to the end
/// of the document or to the first place where it cannot be read; `None`
/// stands for that place. There are finitely many, and the same bytes hold
/// the same tokens.
pub uninterp spec fn xml_tokens(xml: Seq<u8>) -> Seq<Option<RawEventView>>;

/// The tokens that a reader has yet to hand out.
pub uninterp spec fn reader_pending(reader: TokenReader) -> Seq<Option<RawEventView>>;

/// The attributes that `quick_xml` finds in the bytes of an element after
/// its name: name and value of each, as written, in order.
pub uninterp spec fn xml_attributes(content: Seq<u8>, name_len: usize) -> Seq<(Seq<u8>, Seq<u8>)>;

/// The text that escaped character data stands for to `quick_xml`, if it
/// stands for any.
pub uninterp spec fn xml_text(escaped: Seq<u8>) -> Option<Seq<char>>;

/// The token that marks the end of a document.
pub open spec fn end_token() -> RawEventView {
    RawEventView { kind: RawKind::Eof, content: Seq::empty(), name_len: 0 }
}

/// Whether a token marks the end of a document.
pub open spec fn is_end(event: Option<RawEventView>) -> bool {
    match event {
        Some(raw) => raw.kind == RawKind::Eof,
        None => false,
    }
}

/// How one read changes what a reader holds: the first pending token comes
/// out and leaves; with none pending, the end token comes out.
pub open spec fn hands_out(
    before: Seq<Option<RawEventView>>,
    after: Seq<Option<RawEventView>>,
    event: Option<RawEventView>,
) -> bool {
    if before.len() == 0 {
        after.len() == 0 && event == Some(end_token())
    } else {
        &&& after == before.skip(1)
        &&& event == before[0]
        &&& !is_end(event)
    }
}

/// Calls `Reader::from_reader` on a byte slice and then `trim_text(true)`,
/// so that text comes without the white space around it and text of white
/// space alone does not come at all. The contract claims that what the
/// reader will hand out depends on the bytes alone.
#[verifier::external_body]
fn open_reader<'a>(xml: &'a [u8]) -> (reader: TokenReader<'a>)
    ensures
        reader_pending(reader) == xml_tokens(xml@),
{
    let mut reader = Reader::from_reader(xml);
    reader.trim_text(true);
    TokenReader { reader }
}

/// Calls `Reader::read_event` with a buffer of its own. A token carries
/// the bytes that the event holds, and for an element the length of its
/// name; the reader's error becomes `None`. The contract claims that the
/// reader hands out its pending tokens one by one, each of them once, and
/// that it hands out the end token when none is pending and from then on.
#[verifier::external_body]
fn next_raw_event(reader: &mut TokenReader) -> (event: Option<RawEvent>)
    ensures
        hands_out(
            reader_pending(*old(reader)),
            reader_pending(*final(reader)),
            event.deep_view(),
        ),
{
    let mut buf = Vec::new();
    let event = reader.reader.read_event(&mut buf).ok()?;
    let kind = match &event {
        Event::Start(_) => RawKind::Start,
        Event::Empty(_) => RawKind::Empty,
        Event::End(_) => RawKind::End,
        Event::Text(_) => RawKind::Text,
        Event::Eof => RawKind::Eof,
        _ => RawKind::Other,
    };
    let name_len = match &event { Event::Start(e) | Event::Empty(e) => e.name().len(), _ => 0 };
    Some(RawEvent { kind, content: event.to_vec(), name_len })
}

/// Calls `Attributes::new` on the bytes of an element, from the end of its
/// name on, with `with_checks(false)`, and runs the iterator to its end,
/// leaving out what it cannot read. The contract claims that the pairs
/// depend on the bytes and the length of the name alone.
#[verifier::external_body]
fn parse_attributes(content: &[u8], name_len: usize) -> (pairs: Vec<(Vec<u8>, Vec<u8>)>)
    ensures
        pairs.deep_view() == xml_attributes(content@, name_len),
{
    Attributes::new(content, name_len).with_checks(false).flatten().map(
        |a| (a.key.to_vec(), a.value.into_owned()),
    ).collect()
}

/// Calls `BytesText::unescape_and_decode` on escaped character data: the
/// text with its entities resolved, or `None` where an entity or the
/// encoding is wrong. The contract claims that the text depends on the
/// bytes alone, and not on the reader.
#[verifier::external_body]
fn unescape_text(escaped: &[u8], reader: &TokenReader) -> (text: Option<String>)
    ensures
        text.deep_view() == xml_text(escaped@),
{
    BytesText::from_escaped(escaped).unescape_and_decode(&reader.reader).ok()
}

/// Calls `String::from_utf8` on a copy of the bytes. The contract claims
/// that there is a string exactly where the bytes are valid UTF-8, and that
/// it holds the characters that they encode.
#[verifier::external_body]
fn utf8_text(bytes: &[u8]) -> (text: Option<String>)
    ensures
        text is Some <==> valid_utf8(bytes@),
        text matches Some(s) ==> s@ == decode_utf8(bytes@),
{
    String::from_utf8(bytes.to_vec()).ok()
}

/// Whether names and values are all valid UTF-8.
pub open spec fn pairs_are_text(pairs: Seq<(Seq<u8>, Seq<u8>)>) -> bool {
    forall|i: int|
        0 <= i < pairs.len() ==> valid_utf8((#[trigger] pairs[i]).0) && valid_utf8(pairs[i].1)
}

/// The attributes that names and values in UTF-8 stand for.
pub open spec fn attributes_of(pairs: Seq<(Seq<u8>, Seq<u8>)>) -> Seq<AttributeView> {
    Seq::new(
        pairs.len(),
        |i: int| AttributeView { key: decode_utf8(pairs[i].0), value: decode_utf8(pairs[i].1) },
    )
}

/// The element that a token and its attributes stand for, where the name
/// lies within the token and name and attributes are valid UTF-8.
pub open spec fn element_of(raw: RawEventView, pairs: Seq<(Seq<u8>, Seq<u8>)>) -> Option<
    ElementView,
> {
    let name = raw.content.subrange(0, raw.name_len as int);
    if raw.name_len <= raw.content.len() && valid_utf8(name) && pairs_are_text(pairs) {
        Some(ElementView { name: decode_utf8(name), attributes: attributes_of(pairs) })
    } else {
        None
    }
}

/// The event that a token stands for, given the attributes found in it and
/// the text that it stands for. An element takes its name from the head of
/// the token, and its attributes; the end of an element is named by the
/// whole token; text is what the token stands for. Whatever is not valid
/// UTF-8 or stands for no text makes the event invalid.
pub open spec fn assembled(
    raw: RawEventView,
    pairs: Seq<(Seq<u8>, Seq<u8>)>,
    text: Option<Seq<char>>,
) -> XmlEventView {
    match raw.kind {
        RawKind::Start => match element_of(raw, pairs) {
            Some(element) => XmlEventView::Start(element),
            None => XmlEventView::Invalid,
        },
        RawKind::Empty => match element_of(raw, pairs) {
            Some(element) => XmlEventView::Empty(element),
            None => XmlEventView::Invalid,
        },
        RawKind::End => if valid_utf8(raw.content) {
            XmlEventView::End(decode_utf8(raw.content))
        } else {
            XmlEventView::Invalid
        },
        RawKind::Text => match text {
            Some(text) => XmlEventView::Text(text),
            None => XmlEventView::Invalid,
        },
        RawKind::Other => XmlEventView::Other,
        RawKind::Eof => XmlEventView::Invalid,
    }
}

/// The event that a token stands for; the place where the document cannot
/// be read stands for an invalid event.
pub open spec fn event_of(token: Option<RawEventView>) -> XmlEventView {
    match token {
        None => XmlEventView::Invalid,
        Some(raw) => assembled(
            raw,
            xml_attributes(raw.content, raw.name_len),
            xml_text(raw.content),
        ),
    }
}

/// The events that tokens stand for, one for each.
pub open spec fn events_of(tokens: Seq<Option<RawEventView>>) -> Seq<XmlEventView> {
    Seq::new(tokens.len(), |i: int| event_of(tokens[i]))
}

/// The events of a document.
pub open spec fn document_events(xml: Seq<u8>) -> Seq<XmlEventView> {
    events_of(xml_tokens(xml))
}

/// Reads names and values in UTF-8 into attributes: all of them, or none
/// where any is not valid.
pub fn decode_attributes(pairs: &Vec<(Vec<u8>, Vec<u8>)>) -> (attributes: Option<Vec<Attribute>>)
    ensures
        attributes is Some <==> pairs_are_text(pairs.deep_view()),
        attributes matches Some(a) ==> a.deep_view() == attributes_of(pairs.deep_view()),
{
    let mut attributes: Vec<Attribute> = Vec::new();
    let mut i: usize = 0;
    while i < pairs.len()
        invariant
            i <= pairs.len(),
            pairs_are_text(pairs.deep_view().take(i as int)),
            attributes.deep_view() == attributes_of(pairs.deep_view().take(i as int)),
        decreases pairs.len() - i,
    {
        let pair = &pairs[i];
        assert(pairs.deep_view()[i as int] == (pair.0@, pair.1@));
        let key = match utf8_text(pair.0.as_slice()) {
            Some(key) => key,
            None => {
                return None;
            },
        };
        let value = match utf8_text(pair.1.as_slice()) {
            Some(value) => value,
            None => {
                return None;
            },
        };
        let ghost before = attributes.deep_view();
        let attribute = Attribute { key, value };
        let ghost added = attribute.deep_view();
        attributes.push(attribute);
        i += 1;
        proof {
            let done = pairs.deep_view().take(i as int);
            assert(done.drop_last() =~= pairs.deep_view().take(i - 1));
            assert(attributes.deep_view() =~= before.push(added));
            assert(attributes_of(done) =~= attributes_of(done.drop_last()).push(added));
            assert forall|j: int| 0 <= j < done.len() implies valid_utf8((#[trigger] done[j]).0)
                && valid_utf8(done[j].1) by {
                if j < i - 1 {
                    assert(done[j] == done.drop_last()[j]);
                }
            }
        }
    }
    assert(pairs.deep_view().take(i as int) =~= pairs.deep_view());
    Some(attributes)
}

fn assemble_element(raw: &RawEvent, pairs: &Vec<(Vec<u8>, Vec<u8>)>) -> (element: Option<
    Element,
>)
    ensures
        element.deep_view() == element_of(raw.deep_view(), pairs.deep_view()),
{
    if raw.name_len > raw.content.len() {
        return None;
    }
    let name = match utf8_text(slice_subrange(raw.content.as_slice(), 0, raw.name_len)) {
        Some(name) => name,
        None => {
            return None;
        },
    };
    match decode_attributes(pairs) {
        Some(attributes) => Some(Element { name, attributes }),
        None => None,
    }
}

/// Makes an event of a token, the attributes found in it and the text that
/// it stands for.
pub fn assemble_event(
    raw: &RawEvent,
    pairs: &Vec<(Vec<u8>, Vec<u8>)>,
    text: Option<String>,
) -> (event: XmlEvent)
    ensures
        event.deep_view() == assembled(raw.deep_view(), pairs.deep_view(), text.deep_view()),
{
    match raw.kind {
        RawKind::Start => match assemble_element(raw, pairs) {
            Some(element) => XmlEvent::Start(element),
            None => XmlEvent::Invalid,
        },
        RawKind::Empty => match assemble_element(raw, pairs) {
            Some(element) => XmlEvent::Empty(element),
            None => XmlEvent::Invalid,
        },
        RawKind::End => match utf8_text(raw.content.as_slice()) {
            Some(name) => XmlEvent::End(name),
            None => XmlEvent::Invalid,
        },
        RawKind::Text => match text {
            Some(text) => XmlEvent::Text(text),
            None => XmlEvent::Invalid,
        },
        RawKind::Other => XmlEvent::Other,
        RawKind::Eof => XmlEvent::Invalid,
    }
}

fn decode_event(token: &Option<RawEvent>, reader: &TokenReader) -> (event: XmlEvent)
    ensures
        event.deep_view() == event_of(token.deep_view()),
{
    match token {
        None => XmlEvent::Invalid,
        Some(raw) => match raw.kind {
            RawKind::Start | RawKind::Empty => {
                let pairs = parse_attributes(raw.content.as_slice(), raw.name_len);
                assemble_event(raw, &pairs, None)
            },
            RawKind::Text => {
                let text = unescape_text(raw.content.as_slice(), reader);
                assemble_event(raw, &Vec::new(), text)
            },
            _ => assemble_event(raw, &Vec::new(), None),
        },
    }
}

/// Reads a document into its events, in order. Where the document cannot
/// be read any further, the events end with `Invalid`.
pub fn tokenize(xml: &[u8]) -> (events: Vec<XmlEvent>)
    ensures
        events.deep_view() == document_events(xml@),
{
    let ghost tokens = xml_tokens(xml@);
    let mut reader = open_reader(xml);
    let mut events: Vec<XmlEvent> = Vec::new();
    let mut done = false;
    while !done
        invariant
            tokens == xml_tokens(xml@),
            events.len() <= tokens.len(),
            reader_pending(reader) == tokens.skip(events.len() as int),
            events.deep_view() == events_of(tokens.take(events.len() as int)),
            done ==> events.len() == tokens.len(),
        decreases tokens.len() - events.len() + if done { 0int } else { 1int },
    {
        let ghost before = events.deep_view();
        let ghost n = events.len() as int;
        let token = next_raw_event(&mut reader);
        assert(is_end(token.deep_view()) == (token matches Some(raw) && raw.kind == RawKind::Eof));
        let end = match &token {
            Some(raw) => raw.kind == RawKind::Eof,
            None => false,
        };
        if end {
            done = true;
            assert(reader_pending(reader) =~= tokens.skip(n));
        } else {
            let event = decode_event(&token, &reader);
            events.push(event);
            proof {
                assert(tokens.skip(n)[0] == tokens[n]);
                assert(tokens.skip(n).skip(1) =~= tokens.skip(n + 1));
                assert forall|j: int| 0 <= j < n + 1 implies #[trigger] events.deep_view()[j]
                    == events_of(tokens.take(n + 1))[j] by {
                    if j < n {
                        assert(events.deep_view()[j] == before[j]);
                        assert(tokens.take(n + 1)[j] == tokens.take(n)[j]);
                    } else {
                        assert(events.deep_view()[j] == events@[j].deep_view());
                    }
                }
                assert(events.deep_view() =~= events_of(tokens.take(n + 1)));
            }
        }
    }
    assert(tokens.take(events.len() as int) =~= tokens);
    events
}

} // verus!
