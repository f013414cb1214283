//! Reading the report's markup into elements.
//!
//! quick-xml's reader is deterministic: the `k`-th event of a text, and the
//! `j`-th attribute of that event's tag, depend on the text alone
//! (`markup_event`, `markup_attribute`, in the `markup` module, which alone
//! creates and advances readers). `markup_of` assembles from them the
//! elements that a text holds, and `read_elements` returns exactly those.
use vstd::prelude::*;
use crate::decode::{
    decode, decode_elements, element_views, Attr, AttrView, Element, ElementKind, ElementView,
    ParseError,
};
use crate::info::{Malloc, MallocView};
use crate::markup::{
    attributes_of, event_name, markup_attribute, markup_event, next_attribute, next_token, open_reader,
    tag_name, AttrStep, EventView, Tag, Token,
};

verus! {

/// The attributes of the tag of event `k`, from the `j`-th on; `None` when the
/// iterator fails.
pub open spec fn attributes_from(text: Seq<u8>, k: nat, j: nat) -> Option<Seq<AttrView>>
    decreases text.len() - j,
{
    match markup_attribute(text, k, j) {
        AttrStep::Done => Some(Seq::empty()),
        AttrStep::Failed => None,
        AttrStep::Item(a) => if j >= text.len() {
            None
        } else {
            match attributes_from(text, k, j + 1) {
                None => None,
                Some(rest) => Some(seq![a] + rest),
            }
        },
    }
}

/// The element of a tag event.
pub open spec fn tag_element(text: Seq<u8>, k: nat, kind: ElementKind, name: Seq<u8>) -> Option<
    ElementView,
> {
    match attributes_from(text, k, 0) {
        None => None,
        Some(attrs) => Some(ElementView { kind: kind, name: name, attrs: attrs }),
    }
}

/// Prepends an element to the rest, failing when either failed.
pub open spec fn prepend(e: Option<ElementView>, rest: Option<Seq<ElementView>>) -> Option<
    Seq<ElementView>,
> {
    match (e, rest) {
        (Some(x), Some(r)) => Some(seq![x] + r),
        _ => None,
    }
}

/// The elements of `text` from its `k`-th event on: tags become elements,
/// text, comments, declarations and other events are left out, and a reader
/// error makes the whole `None`.
pub open spec fn elements_from(text: Seq<u8>, k: nat) -> Option<Seq<ElementView>>
    decreases text.len() - k,
{
    match markup_event(text, k) {
        EventView::Eof => Some(Seq::empty()),
        EventView::Failed => None,
        ev => if k >= text.len() {
            None
        } else {
            let rest = elements_from(text, k + 1);
            match ev {
                EventView::Open(name) => prepend(
                    tag_element(text, k, ElementKind::Open, name),
                    rest,
                ),
                EventView::Leaf(name) => prepend(
                    tag_element(text, k, ElementKind::Leaf, name),
                    rest,
                ),
                EventView::Close(name) => prepend(
                    Some(ElementView { kind: ElementKind::Close, name: name, attrs: Seq::empty() }),
                    rest,
                ),
                _ => rest,
            }
        },
    }
}

/// The elements of a text, or `None` when the reader refuses it.
pub open spec fn markup_of(text: Seq<u8>) -> Option<Seq<ElementView>> {
    elements_from(text, 0)
}

/// The report that a text holds.
pub open spec fn report_of(text: Seq<u8>) -> Result<MallocView, ParseError> {
    match markup_of(text) {
        None => Err(ParseError::Syntax),
        Some(es) => decode(es),
    }
}

/// The element of the tag of event `k`: its name and every attribute.
fn element_of(kind: ElementKind, tag: &Tag) -> (r: Result<Element, ParseError>)
    ensures
        r matches Ok(e) ==> e.name@ == event_name(markup_event(tag.text(), tag.event())),
        r matches Ok(e) ==> tag_element(tag.text(), tag.event(), kind, e.name@) == Some(e@),
        r matches Err(x) ==> x == ParseError::Syntax,
        r is Err ==> attributes_from(tag.text(), tag.event(), 0) is None,
{
    let ghost text = tag.text();
    let ghost k = tag.event();
    let name = tag_name(tag);
    let mut c = attributes_of(tag);
    let mut attrs: Vec<Attr> = Vec::new();
    loop
        invariant
            c.text() == text,
            c.event() == k,
            text == tag.text(),
            k == tag.event(),
            c.index() <= text.len(),
            name@ == event_name(markup_event(text, k)),
            attributes_from(text, k, 0) == match attributes_from(text, k, c.index()) {
                Some(rest) => Some(attrs@.map_values(|a: Attr| a@) + rest),
                None => None::<Seq<AttrView>>,
            },
        decreases text.len() - c.index(),
    {
        let ghost before = attrs@.map_values(|a: Attr| a@);
        let ghost j = c.index();
        match next_attribute(&mut c) {
            None => {
                assert(attributes_from(text, k, j) == Some(Seq::<AttrView>::empty()));
                assert(before + Seq::<AttrView>::empty() =~= before);
                return Ok(Element { kind, name, attrs });
            },
            Some(Err(_)) => {
                assert(attributes_from(text, k, j) is None);
                return Err(ParseError::Syntax);
            },
            Some(Ok(a)) => {
                let ghost av = a@;
                attrs.push(a);
                proof {
                    assert(attrs@.map_values(|a: Attr| a@) =~= before.push(av));
                    match attributes_from(text, k, c.index()) {
                        Some(rest) => {
                            assert(before + (seq![av] + rest) =~= before.push(av) + rest);
                        },
                        None => {},
                    }
                }
            },
        }
    }
}

/// Reads the text into its elements, in document order, leaving out text,
/// comments and declarations.
pub fn read_elements(text: &[u8]) -> (r: Result<Vec<Element>, ParseError>)
    ensures
        match r {
            Ok(es) => markup_of(text@) == Some(element_views(es@)),
            Err(x) => x == ParseError::Syntax && markup_of(text@) is None,
        },
{
    let mut m = open_reader(text);
    let mut es: Vec<Element> = Vec::new();
    loop
        invariant
            m.text() == text@,
            m.read() <= text@.len(),
            markup_of(text@) == match elements_from(text@, m.read()) {
                Some(rest) => Some(element_views(es@) + rest),
                None => None::<Seq<ElementView>>,
            },
        decreases text@.len() - m.read(),
    {
        let ghost k = m.read();
        let ghost before = element_views(es@);
        let token = match next_token(&mut m) {
            Err(_) => return Err(ParseError::Syntax),
            Ok(t) => t,
        };
        let ghost rest = elements_from(text@, (k + 1) as nat);
        let item: Option<Element> = match token {
            Token::Eof => {
                assert(before + Seq::<ElementView>::empty() =~= before);
                return Ok(es);
            },
            Token::Close(name) => Some(Element { kind: ElementKind::Close, name, attrs: Vec::new() }),
            Token::Open(tag) => match element_of(ElementKind::Open, &tag) {
                Err(x) => return Err(x),
                Ok(e) => Some(e),
            },
            Token::Leaf(tag) => match element_of(ElementKind::Leaf, &tag) {
                Err(x) => return Err(x),
                Ok(e) => Some(e),
            },
            Token::Text | Token::CData | Token::Comment | Token::Decl | Token::PI | Token::DocType => {
                None
            },
        };
        match item {
            Some(e) => {
                let ghost ev = e@;
                es.push(e);
                proof {
                    assert(element_views(es@) =~= before.push(ev));
                    if let Some(r) = rest {
                        assert(before + (seq![ev] + r) =~= before.push(ev) + r);
                    }
                    if ev.kind == ElementKind::Close {
                        assert(ev.attrs =~= Seq::<AttrView>::empty());
                    }
                }
            },
            None => {},
        }
    }
}

/// Decodes a textual report: `Syntax` where the reader refuses the text,
/// otherwise what its elements decode to.
pub fn parse_report(text: &[u8]) -> (r: Result<Malloc, ParseError>)
    ensures
        match report_of(text@) {
            Ok(v) => r matches Ok(m) && m@ == v,
            Err(x) => r == Err::<Malloc, ParseError>(x),
        },
{
    match read_elements(text) {
        Err(x) => Err(x),
        Ok(es) => decode_elements(&es),
    }
}

} // verus!
