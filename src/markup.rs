//! quick-xml's reader, sealed so that each value records which text it reads
//! and how far: only the functions here create or advance that record, each
//! together with the call that moves the reader.
use vstd::prelude::*;
use quick_xml::events::attributes::{AttrError, Attribute, Attributes};
use quick_xml::events::{BytesStart, Event};
use quick_xml::Error as XmlError;
use quick_xml::Reader;
use crate::decode::{Attr, AttrView};

verus! {

#[verifier::external_type_specification]
#[verifier::external_body]
#[verifier::reject_recursive_types(R)]
pub struct ExReader<R>(Reader<R>);

#[verifier::external_type_specification]
#[verifier::external_body]
pub struct ExBytesStart<'a>(BytesStart<'a>);

#[verifier::external_type_specification]
#[verifier::external_body]
pub struct ExAttributes<'a>(Attributes<'a>);

#[verifier::external_type_specification]
#[verifier::external_body]
pub struct ExAttribute<'a>(Attribute<'a>);

#[verifier::external_type_specification]
#[verifier::external_body]
pub struct ExAttrError(AttrError);

#[verifier::external_type_specification]
#[verifier::external_body]
pub struct ExXmlError(XmlError);

/// A markup event as plain values: tags keep their name, other events
/// only their kind. `Failed` stands for a reader error.
pub enum EventView {
    Open(Seq<u8>),
    Leaf(Seq<u8>),
    Close(Seq<u8>),
    Text,
    CData,
    Comment,
    Decl,
    PI,
    DocType,
    Eof,
    Failed,
}

/// One step of a tag's attribute iterator.
pub enum AttrStep {
    Item(AttrView),
    Done,
    Failed,
}

/// The `k`-th event that quick-xml's reader, with its default settings,
/// yields on `text`.
pub uninterp spec fn markup_event(text: Seq<u8>, k: nat) -> EventView;

/// The `j`-th step of the attribute iterator of the tag of the `k`-th event
/// of `text`, values unescaped.
pub uninterp spec fn markup_attribute(text: Seq<u8>, k: nat, j: nat) -> AttrStep;

/// The name of a tag event.
pub open spec fn event_name(ev: EventView) -> Seq<u8> {
    match ev {
        EventView::Open(n) => n,
        EventView::Leaf(n) => n,
        EventView::Close(n) => n,
        _ => Seq::empty(),
    }
}

/// A reader over `text` that has yielded `read` events.
pub struct Markup<'a> {
    reader: Reader<&'a [u8]>,
    text: Ghost<Seq<u8>>,
    read: Ghost<nat>,
}

impl<'a> Markup<'a> {
    pub closed spec fn text(&self) -> Seq<u8> {
        self.text@
    }

    pub closed spec fn read(&self) -> nat {
        self.read@
    }
}

/// The start tag of the `event`-th event of `text`.
pub struct Tag<'a> {
    start: BytesStart<'a>,
    text: Ghost<Seq<u8>>,
    event: Ghost<nat>,
}

impl<'a> Tag<'a> {
    pub closed spec fn text(&self) -> Seq<u8> {
        self.text@
    }

    pub closed spec fn event(&self) -> nat {
        self.event@
    }
}

/// One markup event, one variant for each of quick-xml's.
pub enum Token<'a> {
    Open(Tag<'a>),
    Leaf(Tag<'a>),
    Close(Vec<u8>),
    Text,
    CData,
    Comment,
    Decl,
    PI,
    DocType,
    Eof,
}

/// The token read as the `k`-th event of `text` stands for `ev`.
pub open spec fn token_matches(t: Token, ev: EventView, text: Seq<u8>, k: nat) -> bool {
    match t {
        Token::Open(tag) => ev is Open && tag.text() == text && tag.event() == k,
        Token::Leaf(tag) => ev is Leaf && tag.text() == text && tag.event() == k,
        Token::Close(name) => ev == EventView::Close(name@),
        Token::Text => ev is Text,
        Token::CData => ev is CData,
        Token::Comment => ev is Comment,
        Token::Decl => ev is Decl,
        Token::PI => ev is PI,
        Token::DocType => ev is DocType,
        Token::Eof => ev is Eof,
    }
}

/// The attribute iterator of the tag of the `event`-th event of `text`,
/// after `index` steps.
pub struct AttrCursor<'b> {
    it: Attributes<'b>,
    text: Ghost<Seq<u8>>,
    event: Ghost<nat>,
    index: Ghost<nat>,
}

impl<'b> AttrCursor<'b> {
    pub closed spec fn text(&self) -> Seq<u8> {
        self.text@
    }

    pub closed spec fn event(&self) -> nat {
        self.event@
    }

    pub closed spec fn index(&self) -> nat {
        self.index@
    }
}

/// Relies on quick_xml::Reader::from_reader: a reader at the start of the
/// bytes, with the default settings (closing tags are checked against the
/// opening ones).
#[verifier::external_body]
pub fn open_reader<'a>(text: &'a [u8]) -> (m: Markup<'a>)
    ensures
        m.text() == text@,
        m.read() == 0,
{
    Markup { reader: Reader::from_reader(text), text: Ghost(text@), read: Ghost(0) }
}

/// Relies on quick_xml::Reader::read_event: the next event of the text, a
/// start tag carrying the event's place. Every event but `Eof` takes at
/// least one byte of the text, so from the text's length on only `Eof` or an
/// error comes.
#[verifier::external_body]
pub fn next_token<'a>(m: &mut Markup<'a>) -> (r: Result<Token<'a>, XmlError>)
    ensures
        match r {
            Ok(t) => token_matches(
                t,
                markup_event(old(m).text(), old(m).read()),
                old(m).text(),
                old(m).read(),
            ),
            Err(_) => markup_event(old(m).text(), old(m).read()) == EventView::Failed,
        },
        old(m).read() >= old(m).text().len() ==> (r matches Ok(t) ==> t is Eof),
        final(m).text() == old(m).text(),
        final(m).read() == old(m).read() + 1,
{
    let k = m.read;
    m.read = Ghost(m.read@ + 1);
    Ok(match m.reader.read_event()? {
        Event::Start(e) => Token::Open(Tag { start: e, text: m.text, event: k }),
        Event::Empty(e) => Token::Leaf(Tag { start: e, text: m.text, event: k }),
        Event::End(e) => Token::Close(e.name().as_ref().to_vec()),
        Event::Text(_) => Token::Text,
        Event::CData(_) => Token::CData,
        Event::Comment(_) => Token::Comment,
        Event::Decl(_) => Token::Decl,
        Event::PI(_) => Token::PI,
        Event::DocType(_) => Token::DocType,
        Event::Eof => Token::Eof,
    })
}

/// Relies on quick_xml::events::BytesStart::name: the name of the tag.
#[verifier::external_body]
pub fn tag_name(tag: &Tag) -> (r: Vec<u8>)
    ensures
        r@ == event_name(markup_event(tag.text(), tag.event())),
{
    tag.start.name().as_ref().to_vec()
}

/// Relies on quick_xml::events::BytesStart::attributes: an iterator over the
/// tag's attributes, which reports a repeated key as an error.
#[verifier::external_body]
pub fn attributes_of<'b>(tag: &'b Tag) -> (c: AttrCursor<'b>)
    ensures
        c.text() == tag.text(),
        c.event() == tag.event(),
        c.index() == 0,
{
    AttrCursor { it: tag.start.attributes(), text: tag.text, event: tag.event, index: Ghost(0) }
}

/// Relies on quick_xml's attribute iterator and on
/// quick_xml::events::attributes::Attribute::unescape_value: the next
/// attribute, its value decoded and unescaped. Every attribute takes at least
/// one byte of the text.
#[verifier::external_body]
pub fn next_attribute(c: &mut AttrCursor) -> (r: Option<Result<Attr, XmlError>>)
    ensures
        match r {
            None => markup_attribute(old(c).text(), old(c).event(), old(c).index())
                == AttrStep::Done,
            Some(Ok(a)) => markup_attribute(old(c).text(), old(c).event(), old(c).index())
                == AttrStep::Item(a@),
            Some(Err(_)) => markup_attribute(old(c).text(), old(c).event(), old(c).index())
                == AttrStep::Failed,
        },
        old(c).index() >= old(c).text().len() ==> !(r matches Some(Ok(_))),
        final(c).text() == old(c).text(),
        final(c).event() == old(c).event(),
        final(c).index() == old(c).index() + 1,
{
    c.index = Ghost(c.index@ + 1);
    match c.it.next() {
        None => None,
        Some(Ok(a)) => match a.unescape_value() {
            Ok(v) => Some(Ok(Attr { key: a.key.as_ref().to_vec(), value: v.into_owned() })),
            Err(e) => Some(Err(e)),
        },
        Some(Err(e)) => Some(Err(XmlError::InvalidAttr(e))),
    }
}

} // verus!
