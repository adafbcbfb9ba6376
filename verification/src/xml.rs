//! Reading a document as a flat list of markup events.
//!
//! The tokenizing is done by `quick_xml`; this module turns what it returns
//! into plain values and gathers them, so that everything built on the
//! events is independent of the reader.

use quick_xml::events::BytesStart;
use quick_xml::events::Event;
use quick_xml::Reader;
use vstd::prelude::*;
use vstd::string::StringSliceAdditionalSpecFns;

verus! {

/// `quick_xml::Reader`, the reader that hands out the events of a document
/// one by one. Nothing of its inside is looked at.
#[verifier::external_type_specification]
#[verifier::external_body]
#[verifier::reject_recursive_types(R)]
pub struct ExReader<R>(Reader<R>);

/// An event as the reader hands it out, its texts still as bytes. A tag
/// comes with its name and with its whole content, name and attributes.
pub enum RawEvent {
    Start(Vec<u8>, Vec<u8>),
    Empty(Vec<u8>, Vec<u8>),
    Text(Vec<u8>),
    End(Vec<u8>),
    Eof,
    Error(String),
    Other,
}

/// The mathematical value of a [`RawEvent`].
pub enum RawEventView {
    Start(Seq<u8>, Seq<u8>),
    Empty(Seq<u8>, Seq<u8>),
    Text(Seq<u8>),
    End(Seq<u8>),
    Eof,
    Error(Seq<char>),
    Other,
}

impl DeepView for RawEvent {
    type V = RawEventView;

    open spec fn deep_view(&self) -> RawEventView {
        match self {
            RawEvent::Start(name, content) => RawEventView::Start(name@, content@),
            RawEvent::Empty(name, content) => RawEventView::Empty(name@, content@),
            RawEvent::Text(text) => RawEventView::Text(text@),
            RawEvent::End(name) => RawEventView::End(name@),
            RawEvent::Eof => RawEventView::Eof,
            RawEvent::Error(message) => RawEventView::Error(message@),
            RawEvent::Other => RawEventView::Other,
        }
    }
}

impl RawEventView {
    /// Whether nothing is read after this event: the end of the document or
    /// an error.
    pub open spec fn is_last(self) -> bool {
        self is Eof || self is Error
    }
}

/// One markup event of a document.
#[derive(Debug)]
pub enum XmlEvent {
    /// An opening tag, with its attributes in document order.
    Start { name: String, attributes: Vec<(String, String)> },
    /// A tag that closes itself.
    Empty { name: String, attributes: Vec<(String, String)> },
    /// Character data, without the white space around it.
    Text { text: String },
    /// A closing tag.
    End { name: String },
    /// The end of the document.
    Eof,
    /// The document is not well formed; `message` describes the fault.
    Error { message: String },
    /// Anything else: comments, declarations, processing instructions,
    /// CDATA sections, references.
    Other,
}

/// The mathematical value of an [`XmlEvent`].
pub enum XmlEventView {
    Start { name: Seq<char>, attributes: Seq<(Seq<char>, Seq<char>)> },
    Empty { name: Seq<char>, attributes: Seq<(Seq<char>, Seq<char>)> },
    Text { text: Seq<char> },
    End { name: Seq<char> },
    Eof,
    Error { message: Seq<char> },
    Other,
}

impl DeepView for XmlEvent {
    type V = XmlEventView;

    open spec fn deep_view(&self) -> XmlEventView {
        match self {
            XmlEvent::Start { name, attributes } => XmlEventView::Start {
                name: name@,
                attributes: attributes.deep_view(),
            },
            XmlEvent::Empty { name, attributes } => XmlEventView::Empty {
                name: name@,
                attributes: attributes.deep_view(),
            },
            XmlEvent::Text { text } => XmlEventView::Text { text: text@ },
            XmlEvent::End { name } => XmlEventView::End { name: name@ },
            XmlEvent::Eof => XmlEventView::Eof,
            XmlEvent::Error { message } => XmlEventView::Error { message: message@ },
            XmlEvent::Other => XmlEventView::Other,
        }
    }
}

/// The events that a reader with text trimming hands out for the document
/// `text`, up to and including the first that is the end of the document or
/// an error.
pub uninterp spec fn document_events(text: Seq<char>) -> Seq<RawEventView>;

/// The events that `reader` has still to hand out, up to and including the
/// first that is the end of the document or an error.
pub uninterp spec fn pending_events(reader: Reader<&[u8]>) -> Seq<RawEventView>;

/// The attributes that stand in the content of a tag behind its name, in
/// order, each as the bytes of its key and of its value; `None` stands for
/// one that is malformed.
pub uninterp spec fn tag_attributes(name: Seq<char>, content: Seq<char>) -> Seq<
    Option<(Seq<u8>, Seq<u8>)>,
>;

/// The text that bytes encode in UTF-8, with the replacement character in
/// place of what is no valid encoding.
pub uninterp spec fn lossy_text(bytes: Seq<u8>) -> Seq<char>;

/// Whether `events` is a whole run of events: it ends with the end of the
/// document or an error and holds neither before.
pub open spec fn is_closed(events: Seq<RawEventView>) -> bool {
    events.len() > 0 && events.last().is_last() && forall|i: int|
        0 <= i < events.len() - 1 ==> !(#[trigger] events[i]).is_last()
}

/// `Reader::from_str` with `Config::trim_text` switched on gives a reader
/// over the document. Reading it to the end, or to the first error, gives a
/// finite run of events that depends on the text alone.
#[verifier::external_body]
fn open_reader<'a>(xml: &'a str) -> (reader: Reader<&'a [u8]>)
    ensures
        pending_events(reader) == document_events(xml@),
        is_closed(pending_events(reader)),
{
    let mut reader = Reader::from_str(xml);
    reader.config_mut().trim_text(true);
    reader
}

/// `Reader::read_event` hands out the next event of the document and moves
/// the reader behind it. A tag is given as its name and its content, text
/// as it stands in the document, an error as its debug text. Behind the end
/// of the document or an error nothing is said of what the reader would
/// hand out next.
#[verifier::external_body]
fn next_event(reader: &mut Reader<&[u8]>) -> (event: RawEvent)
    requires
        pending_events(*old(reader)).len() > 0,
    ensures
        event.deep_view() == pending_events(*old(reader))[0],
        !event.deep_view().is_last() ==> pending_events(*final(reader)) == pending_events(
            *old(reader),
        ).skip(1),
{
    match reader.read_event() {
        Ok(Event::Start(e)) => RawEvent::Start(e.name().as_ref().to_vec(), e.to_vec()),
        Ok(Event::Empty(e)) => RawEvent::Empty(e.name().as_ref().to_vec(), e.to_vec()),
        Ok(Event::Text(e)) => RawEvent::Text(e.to_vec()),
        Ok(Event::End(e)) => RawEvent::End(e.name().as_ref().to_vec()),
        Ok(Event::Eof) => RawEvent::Eof,
        Ok(_) => RawEvent::Other,
        Err(e) => RawEvent::Error(format!("{:?}", e)),
    }
}

/// `String::from_utf8_lossy` gives the text that the bytes encode.
#[verifier::external_body]
fn utf8_lossy(bytes: &[u8]) -> (text: String)
    ensures
        text@ == lossy_text(bytes@),
{
    String::from_utf8_lossy(bytes).into_owned()
}

/// `BytesStart::attributes` walks over the attributes in the content of a
/// tag whose name takes the first bytes of it; each comes out as its key
/// and its value, both as they stand in the document, or as `None` where it
/// is malformed.
#[verifier::external_body]
fn read_attributes(name: &str, content: &str) -> (attributes: Vec<Option<(Vec<u8>, Vec<u8>)>>)
    requires
        vstd::utf8::encode_utf8(name@).len() <= vstd::utf8::encode_utf8(content@).len(),
    ensures
        attributes.deep_view() == tag_attributes(name@, content@),
{
    BytesStart::from_content(content, name.len()).attributes().map(
        |a| a.ok().map(|a| (a.key.as_ref().to_vec(), a.value.to_vec())),
    ).collect()
}

/// The attributes of `all` that are well formed, in order, as text.
pub open spec fn well_formed(all: Seq<Option<(Seq<u8>, Seq<u8>)>>) -> Seq<(Seq<char>, Seq<char>)>
    decreases all.len(),
{
    if all.len() == 0 {
        Seq::empty()
    } else {
        match all.last() {
            Some(a) => well_formed(all.drop_last()).push((lossy_text(a.0), lossy_text(a.1))),
            None => well_formed(all.drop_last()),
        }
    }
}

/// The attributes behind the name in the content of a tag. A name that is
/// longer than the content leaves room for none.
pub open spec fn attributes_behind(name: Seq<char>, content: Seq<char>) -> Seq<
    (Seq<char>, Seq<char>),
> {
    if vstd::utf8::encode_utf8(name).len() <= vstd::utf8::encode_utf8(content).len() {
        well_formed(tag_attributes(name, content))
    } else {
        Seq::empty()
    }
}

/// The attributes of the tag with the given name and content.
pub open spec fn attributes_in(name: Seq<u8>, content: Seq<u8>) -> Seq<(Seq<char>, Seq<char>)> {
    attributes_behind(lossy_text(name), lossy_text(content))
}

/// The event that a raw event stands for: the same with its bytes read as
/// text, the attributes of a tag taken out of its content and the malformed
/// ones dropped.
pub open spec fn event_of(raw: RawEventView) -> XmlEventView {
    match raw {
        RawEventView::Start(name, content) => XmlEventView::Start {
            name: lossy_text(name),
            attributes: attributes_in(name, content),
        },
        RawEventView::Empty(name, content) => XmlEventView::Empty {
            name: lossy_text(name),
            attributes: attributes_in(name, content),
        },
        RawEventView::Text(text) => XmlEventView::Text { text: lossy_text(text) },
        RawEventView::End(name) => XmlEventView::End { name: lossy_text(name) },
        RawEventView::Eof => XmlEventView::Eof,
        RawEventView::Error(message) => XmlEventView::Error { message },
        RawEventView::Other => XmlEventView::Other,
    }
}

/// The events of the document `text`.
pub open spec fn events_of(text: Seq<char>) -> Seq<XmlEventView> {
    document_events(text).map_values(|raw: RawEventView| event_of(raw))
}

/// The well-formed attributes of a tag.
fn attributes_of(name: &str, content: &str) -> (attributes: Vec<(String, String)>)
    ensures
        attributes.deep_view() == attributes_behind(name@, content@),
{
    let mut attributes: Vec<(String, String)> = Vec::new();
    if name.as_bytes().len() > content.as_bytes().len() {
        assert(attributes.deep_view() =~= Seq::<(Seq<char>, Seq<char>)>::empty());
        return attributes;
    }
    let all = read_attributes(name, content);
    assert(attributes.deep_view() =~= well_formed(all.deep_view().take(0)));
    let mut i: usize = 0;
    while i < all.len()
        invariant
            i <= all.len(),
            attributes.deep_view() == well_formed(all.deep_view().take(i as int)),
        decreases all.len() - i,
    {
        let ghost kept = attributes.deep_view();
        proof {
            assert(all.deep_view().take(i + 1).drop_last() =~= all.deep_view().take(i as int));
            assert(all.deep_view().take(i + 1).last() == all.deep_view()[i as int]);
        }
        match &all[i] {
            Some(a) => {
                let pair = (utf8_lossy(a.0.as_slice()), utf8_lossy(a.1.as_slice()));
                let ghost value = pair.deep_view();
                attributes.push(pair);
                proof {
                    assert(a.0.deep_view() =~= a.0@);
                    assert(a.1.deep_view() =~= a.1@);
                    assert(all.deep_view()[i as int] == Some((a.0@, a.1@)));
                    assert(attributes.deep_view() =~= kept.push(value));
                }
            },
            None => {
                assert(all.deep_view()[i as int] is None);
            },
        }
        i += 1;
    }
    assert(all.deep_view().take(all.len() as int) =~= all.deep_view());
    attributes
}

/// Turns a raw event into the event it stands for.
fn cook(raw: RawEvent) -> (event: XmlEvent)
    ensures
        event.deep_view() == event_of(raw.deep_view()),
{
    match raw {
        RawEvent::Start(name, content) => {
            let name = utf8_lossy(name.as_slice());
            let content = utf8_lossy(content.as_slice());
            let attributes = attributes_of(name.as_str(), content.as_str());
            XmlEvent::Start { name, attributes }
        },
        RawEvent::Empty(name, content) => {
            let name = utf8_lossy(name.as_slice());
            let content = utf8_lossy(content.as_slice());
            let attributes = attributes_of(name.as_str(), content.as_str());
            XmlEvent::Empty { name, attributes }
        },
        RawEvent::Text(text) => XmlEvent::Text { text: utf8_lossy(text.as_slice()) },
        RawEvent::End(name) => XmlEvent::End { name: utf8_lossy(name.as_slice()) },
        RawEvent::Eof => XmlEvent::Eof,
        RawEvent::Error(message) => XmlEvent::Error { message },
        RawEvent::Other => XmlEvent::Other,
    }
}

/// Reads the whole document into its events. The list ends with
/// [`XmlEvent::Eof`], or with [`XmlEvent::Error`] where the document is not
/// well formed, and holds neither before its end.
pub fn read_events(xml: &str) -> (events: Vec<XmlEvent>)
    ensures
        events.deep_view() == events_of(xml@),
        events.len() > 0,
        events.deep_view().last() is Eof || events.deep_view().last() is Error,
{
    let mut reader = open_reader(xml);
    let ghost all = document_events(xml@);
    let mut events: Vec<XmlEvent> = Vec::new();
    loop
        invariant_except_break
            events.len() < all.len(),
            pending_events(reader) == all.skip(events.len() as int),
        invariant
            all == document_events(xml@),
            is_closed(all),
            events.len() <= all.len(),
            events.deep_view() == all.take(events.len() as int).map_values(
                |raw: RawEventView| event_of(raw),
            ),
        ensures
            events.deep_view() == events_of(xml@),
            events.len() > 0,
            events.deep_view().last() is Eof || events.deep_view().last() is Error,
        decreases all.len() - events.len(),
    {
        let ghost k = events.len() as int;
        let ghost before = events.deep_view();
        let raw = next_event(&mut reader);
        let last = match raw {
            RawEvent::Eof => true,
            RawEvent::Error(_) => true,
            _ => false,
        };
        let event = cook(raw);
        let ghost value = event.deep_view();
        events.push(event);
        proof {
            assert(all.skip(k)[0] == all[k]);
            assert(all.skip(k).skip(1) =~= all.skip(k + 1));
            assert(events.deep_view() =~= before.push(value));
            assert(events.deep_view() =~= all.take(k + 1).map_values(
                |raw: RawEventView| event_of(raw),
            ));
        }
        if last {
            proof {
                assert(all[k].is_last());
                assert(k == all.len() - 1);
                assert(all.take(k + 1) =~= all);
            }
            break ;
        }
    }
    events
}

} // verus!
