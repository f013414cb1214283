//! Decoding of the report from its elements.
//!
//! The report arrives as a flat sequence of elements: an opening tag, a
//! self-closing tag, or a closing tag, each with its name and attributes.
//! Decoding is a left fold of `step` over that sequence, followed by
//! `finish`, which checks that the root was closed and that every required
//! section was seen.
use vstd::prelude::*;
use vstd::string::*;
use vstd::utf8::encode_utf8;
use crate::info::{
    Aspace, AspaceType, Heap, HeapView, Malloc, MallocView, Size, Sizes, System, SystemType, Total,
    TotalType, heap_views,
};

verus! {

/// Whether an element opens a subtree, stands alone, or closes a subtree.
#[derive(Debug, Clone, Copy, PartialEq, Eq, Structural)]
pub enum ElementKind {
    Open,
    Leaf,
    Close,
}

/// One attribute, its value already unescaped.
#[derive(Debug, Clone)]
pub struct Attr {
    pub key: Vec<u8>,
    pub value: String,
}

/// One element of the report.
#[derive(Debug, Clone)]
pub struct Element {
    pub kind: ElementKind,
    pub name: Vec<u8>,
    pub attrs: Vec<Attr>,
}

/// Why a report could not be decoded.
#[derive(Debug, Clone, Copy, PartialEq, Eq, Structural)]
pub enum ParseError {
    /// The text is not well-formed markup.
    Syntax,
    /// There is no root element.
    NoRoot,
    /// The text ends before the root element is closed.
    Unclosed,
    /// A required attribute is missing.
    MissingAttribute,
    /// A numeric attribute is not a decimal number that fits in `usize`.
    BadNumber,
    /// The root lacks any heap, total, system or aspace element.
    MissingSection,
    /// A size-classes section holds an element that is no size class.
    UnknownSizeKind,
    /// An arena has two size-classes sections.
    DuplicateSizes,
}

pub struct AttrView {
    pub key: Seq<u8>,
    pub value: Seq<char>,
}

pub struct ElementView {
    pub kind: ElementKind,
    pub name: Seq<u8>,
    pub attrs: Seq<AttrView>,
}

impl View for Attr {
    type V = AttrView;

    open spec fn view(&self) -> AttrView {
        AttrView { key: self.key@, value: self.value@ }
    }
}

impl View for Element {
    type V = ElementView;

    open spec fn view(&self) -> ElementView {
        ElementView { kind: self.kind, name: self.name@, attrs: self.attrs@.map_values(|a: Attr| a@) }
    }
}

pub open spec fn element_views(es: Seq<Element>) -> Seq<ElementView> {
    es.map_values(|e: Element| e@)
}

/// The bytes of a literal name.
pub open spec fn lit(s: &str) -> Seq<u8> {
    s.spec_bytes()
}

/// The value of the first attribute at or after index `i` whose key is `key`.
pub open spec fn find_attr(attrs: Seq<AttrView>, key: Seq<u8>, i: int) -> Option<Seq<char>>
    decreases attrs.len() - i,
{
    if i < 0 || i >= attrs.len() {
        None
    } else if attrs[i].key == key {
        Some(attrs[i].value)
    } else {
        find_attr(attrs, key, i + 1)
    }
}

pub open spec fn is_digit(b: u8) -> bool {
    48 <= b <= 57
}

pub open spec fn all_digits(s: Seq<u8>) -> bool {
    forall|i: int| 0 <= i < s.len() ==> is_digit(#[trigger] s[i])
}

/// The number that a run of decimal digits spells.
pub open spec fn digits_value(s: Seq<u8>) -> nat
    decreases s.len(),
{
    if s.len() == 0 {
        0
    } else {
        digits_value(s.drop_last()) * 10 + (s.last() - 48) as nat
    }
}

/// The digits of an unsigned decimal: the text without an optional leading `+`.
pub open spec fn unsigned_digits(s: Seq<u8>) -> Seq<u8> {
    if s.len() > 0 && s[0] == 43 {
        s.drop_first()
    } else {
        s
    }
}

/// An unsigned decimal number: an optional `+`, then one or more digits,
/// with a value that fits in `usize`.
pub open spec fn parse_decimal(s: Seq<u8>) -> Option<usize> {
    let d = unsigned_digits(s);
    if d.len() > 0 && all_digits(d) && digits_value(d) <= usize::MAX {
        Some(digits_value(d) as usize)
    } else {
        None
    }
}

/// A required numeric attribute.
pub open spec fn number_attr(attrs: Seq<AttrView>, key: Seq<u8>) -> Result<usize, ParseError> {
    match find_attr(attrs, key, 0) {
        None => Err(ParseError::MissingAttribute),
        Some(v) => match parse_decimal(encode_utf8(v)) {
            Some(n) => Ok(n),
            None => Err(ParseError::BadNumber),
        },
    }
}

/// The bytes of the required `type` attribute.
pub open spec fn type_attr(attrs: Seq<AttrView>) -> Result<Seq<u8>, ParseError> {
    match find_attr(attrs, lit("type"), 0) {
        None => Err(ParseError::MissingAttribute),
        Some(v) => Ok(encode_utf8(v)),
    }
}

pub open spec fn total_type_of(t: Seq<u8>) -> TotalType {
    if t == lit("fast") {
        TotalType::Fast
    } else if t == lit("rest") {
        TotalType::Rest
    } else if t == lit("mmap") {
        TotalType::Mmap
    } else {
        TotalType::Other
    }
}

pub open spec fn system_type_of(t: Seq<u8>) -> SystemType {
    if t == lit("current") {
        SystemType::Current
    } else if t == lit("max") {
        SystemType::Max
    } else {
        SystemType::Other
    }
}

pub open spec fn aspace_type_of(t: Seq<u8>) -> AspaceType {
    if t == lit("total") {
        AspaceType::Total
    } else if t == lit("mprotect") {
        AspaceType::Mprotect
    } else if t == lit("subheaps") {
        AspaceType::Subheaps
    } else {
        AspaceType::Other
    }
}

/// A total record: `type`, `count` and `size`, checked in that order.
pub open spec fn total_of(attrs: Seq<AttrView>) -> Result<Total, ParseError> {
    match type_attr(attrs) {
        Err(e) => Err(e),
        Ok(t) => match number_attr(attrs, lit("count")) {
            Err(e) => Err(e),
            Ok(c) => match number_attr(attrs, lit("size")) {
                Err(e) => Err(e),
                Ok(s) => Ok(Total { kind: total_type_of(t), count: c, size: s }),
            },
        },
    }
}

/// A system record: `type`, then `size`.
pub open spec fn system_of(attrs: Seq<AttrView>) -> Result<System, ParseError> {
    match type_attr(attrs) {
        Err(e) => Err(e),
        Ok(t) => match number_attr(attrs, lit("size")) {
            Err(e) => Err(e),
            Ok(s) => Ok(System { kind: system_type_of(t), size: s }),
        },
    }
}

/// An aspace record: `type`, then `size`.
pub open spec fn aspace_of(attrs: Seq<AttrView>) -> Result<Aspace, ParseError> {
    match type_attr(attrs) {
        Err(e) => Err(e),
        Ok(t) => match number_attr(attrs, lit("size")) {
            Err(e) => Err(e),
            Ok(s) => Ok(Aspace { kind: aspace_type_of(t), size: s }),
        },
    }
}

/// A size class: `from`, `to`, `total`, `count`, checked in that order.
pub open spec fn size_of(unsorted: bool, attrs: Seq<AttrView>) -> Result<Size, ParseError> {
    match number_attr(attrs, lit("from")) {
        Err(e) => Err(e),
        Ok(f) => match number_attr(attrs, lit("to")) {
            Err(e) => Err(e),
            Ok(t) => match number_attr(attrs, lit("total")) {
                Err(e) => Err(e),
                Ok(s) => match number_attr(attrs, lit("count")) {
                    Err(e) => Err(e),
                    Ok(c) => Ok(
                        if unsorted {
                            Size::Unsorted { from: f, to: t, total: s, count: c }
                        } else {
                            Size::Size { from: f, to: t, total: s, count: c }
                        },
                    ),
                },
            },
        },
    }
}


/// Where the decoder stands in the element tree.
#[derive(Debug, Clone, Copy, PartialEq, Eq, Structural)]
pub enum Scope {
    /// Before the root element.
    Prolog,
    /// Directly inside the root.
    Root,
    /// Directly inside an arena.
    Heap,
    /// Directly inside an arena's size-classes section.
    Sizes,
    /// After the root element.
    Done,
}

/// What the decoder has gathered so far. `skip` counts the open elements of a
/// subtree whose content is ignored.
pub struct DecoderView {
    pub scope: Scope,
    pub skip: nat,
    pub version: Seq<char>,
    pub heaps: Seq<HeapView>,
    pub total: Seq<Total>,
    pub system: Seq<System>,
    pub aspace: Seq<Aspace>,
    pub nr: usize,
    pub sizes: Option<Option<Seq<Size>>>,
    pub buckets: Seq<Size>,
}

pub open spec fn initial() -> DecoderView {
    DecoderView {
        scope: Scope::Prolog,
        skip: 0,
        version: Seq::empty(),
        heaps: Seq::empty(),
        total: Seq::empty(),
        system: Seq::empty(),
        aspace: Seq::empty(),
        nr: 0,
        sizes: None,
        buckets: Seq::empty(),
    }
}

/// Enters an ignored subtree when `e` opens one.
pub open spec fn skip_if_open(d: DecoderView, e: ElementView) -> DecoderView {
    if e.kind == ElementKind::Open {
        DecoderView { skip: 1, ..d }
    } else {
        d
    }
}

/// An element directly inside the root. Heaps and the three aggregate kinds
/// are collected in document order; anything else is ignored with its subtree.
pub open spec fn step_root(d: DecoderView, e: ElementView) -> Result<DecoderView, ParseError> {
    if e.name == lit("heap") {
        match number_attr(e.attrs, lit("nr")) {
            Err(x) => Err(x),
            Ok(nr) => if e.kind == ElementKind::Open {
                Ok(DecoderView { scope: Scope::Heap, nr: nr, sizes: None, ..d })
            } else {
                Ok(DecoderView { heaps: d.heaps.push(HeapView { nr: nr, sizes: None }), ..d })
            },
        }
    } else if e.name == lit("total") {
        match total_of(e.attrs) {
            Err(x) => Err(x),
            Ok(t) => Ok(skip_if_open(DecoderView { total: d.total.push(t), ..d }, e)),
        }
    } else if e.name == lit("system") {
        match system_of(e.attrs) {
            Err(x) => Err(x),
            Ok(t) => Ok(skip_if_open(DecoderView { system: d.system.push(t), ..d }, e)),
        }
    } else if e.name == lit("aspace") {
        match aspace_of(e.attrs) {
            Err(x) => Err(x),
            Ok(t) => Ok(skip_if_open(DecoderView { aspace: d.aspace.push(t), ..d }, e)),
        }
    } else {
        Ok(skip_if_open(d, e))
    }
}

/// An element directly inside an arena: only its size-classes section is read.
pub open spec fn step_heap(d: DecoderView, e: ElementView) -> Result<DecoderView, ParseError> {
    if e.name == lit("sizes") {
        if d.sizes is Some {
            Err(ParseError::DuplicateSizes)
        } else if e.kind == ElementKind::Open {
            Ok(DecoderView { scope: Scope::Sizes, buckets: Seq::empty(), ..d })
        } else {
            Ok(DecoderView { sizes: Some(Some(Seq::empty())), ..d })
        }
    } else {
        Ok(skip_if_open(d, e))
    }
}

/// An element directly inside a size-classes section: a size class of either kind.
pub open spec fn step_sizes(d: DecoderView, e: ElementView) -> Result<DecoderView, ParseError> {
    if e.name == lit("size") || e.name == lit("unsorted") {
        match size_of(e.name == lit("unsorted"), e.attrs) {
            Err(x) => Err(x),
            Ok(b) => Ok(skip_if_open(DecoderView { buckets: d.buckets.push(b), ..d }, e)),
        }
    } else {
        Err(ParseError::UnknownSizeKind)
    }
}

/// One element.
#[verifier::opaque]
pub open spec fn step(d: DecoderView, e: ElementView) -> Result<DecoderView, ParseError> {
    if d.skip > 0 {
        match e.kind {
            ElementKind::Open => Ok(DecoderView { skip: d.skip + 1, ..d }),
            ElementKind::Leaf => Ok(d),
            ElementKind::Close => Ok(DecoderView { skip: (d.skip - 1) as nat, ..d }),
        }
    } else {
        match d.scope {
            Scope::Prolog => if e.kind == ElementKind::Close {
                Err(ParseError::NoRoot)
            } else {
                match find_attr(e.attrs, lit("version"), 0) {
                    None => Err(ParseError::MissingAttribute),
                    Some(v) => Ok(
                        DecoderView {
                            scope: if e.kind == ElementKind::Open {
                                Scope::Root
                            } else {
                                Scope::Done
                            },
                            version: v,
                            ..d
                        },
                    ),
                }
            },
            Scope::Root => if e.kind == ElementKind::Close {
                Ok(DecoderView { scope: Scope::Done, ..d })
            } else {
                step_root(d, e)
            },
            Scope::Heap => if e.kind == ElementKind::Close {
                Ok(
                    DecoderView {
                        scope: Scope::Root,
                        heaps: d.heaps.push(HeapView { nr: d.nr, sizes: d.sizes }),
                        sizes: None,
                        ..d
                    },
                )
            } else {
                step_heap(d, e)
            },
            Scope::Sizes => if e.kind == ElementKind::Close {
                Ok(
                    DecoderView {
                        scope: Scope::Heap,
                        sizes: Some(Some(d.buckets)),
                        buckets: Seq::empty(),
                        ..d
                    },
                )
            } else {
                step_sizes(d, e)
            },
            Scope::Done => Ok(d),
        }
    }
}

/// The decoder after the first `n` elements.
pub open spec fn run(es: Seq<ElementView>, n: nat) -> Result<DecoderView, ParseError>
    decreases n,
{
    if n == 0 {
        Ok(initial())
    } else {
        match run(es, (n - 1) as nat) {
            Err(x) => Err(x),
            Ok(d) => step(d, es[n - 1]),
        }
    }
}

/// The report, once every element has been read.
pub open spec fn finish(d: DecoderView) -> Result<MallocView, ParseError> {
    if d.scope == Scope::Prolog {
        Err(ParseError::NoRoot)
    } else if d.scope != Scope::Done {
        Err(ParseError::Unclosed)
    } else if d.heaps.len() == 0 || d.total.len() == 0 || d.system.len() == 0 || d.aspace.len()
        == 0 {
        Err(ParseError::MissingSection)
    } else {
        Ok(
            MallocView {
                version: d.version,
                heaps: d.heaps,
                total: d.total,
                system: d.system,
                aspace: d.aspace,
            },
        )
    }
}

/// The report that a sequence of elements decodes to.
pub open spec fn decode(es: Seq<ElementView>) -> Result<MallocView, ParseError> {
    match run(es, es.len()) {
        Err(x) => Err(x),
        Ok(d) => finish(d),
    }
}

proof fn lemma_run_error_stays(es: Seq<ElementView>, i: nat, n: nat)
    requires
        i <= n,
        run(es, i) is Err,
    ensures
        run(es, n) == run(es, i),
    decreases n - i,
{
    if i < n {
        lemma_run_error_stays(es, i, (n - 1) as nat);
    }
}

proof fn lemma_digits_prefix(s: Seq<u8>, k: int)
    requires
        all_digits(s),
        0 <= k <= s.len(),
    ensures
        digits_value(s.take(k)) <= digits_value(s),
    decreases s.len(),
{
    if k < s.len() {
        let t = s.drop_last();
        assert(t.take(k) =~= s.take(k));
        lemma_digits_prefix(t, k);
    } else {
        assert(s.take(k) =~= s);
    }
}

/// Byte-wise equality of two slices.
fn bytes_equal(a: &[u8], b: &[u8]) -> (r: bool)
    ensures
        r == (a@ == b@),
{
    if a.len() != b.len() {
        return false;
    }
    let mut i: usize = 0;
    while i < a.len()
        invariant
            a@.len() == b@.len(),
            0 <= i <= a@.len(),
            forall|j: int| 0 <= j < i ==> a@[j] == b@[j],
        decreases a@.len() - i,
    {
        if a[i] != b[i] {
            return false;
        }
        i = i + 1;
    }
    assert(a@ =~= b@);
    true
}

/// The value of the first attribute whose key is `key`.
fn attr_value<'a>(attrs: &'a Vec<Attr>, key: &[u8]) -> (r: Option<&'a String>)
    ensures
        match r {
            Some(v) => find_attr(attrs@.map_values(|a: Attr| a@), key@, 0) == Some(v@),
            None => find_attr(attrs@.map_values(|a: Attr| a@), key@, 0) is None,
        },
{
    let ghost av = attrs@.map_values(|a: Attr| a@);
    let mut i: usize = 0;
    while i < attrs.len()
        invariant
            av == attrs@.map_values(|a: Attr| a@),
            0 <= i <= attrs@.len(),
            find_attr(av, key@, 0) == find_attr(av, key@, i as int),
        decreases attrs@.len() - i,
    {
        if bytes_equal(attrs[i].key.as_slice(), key) {
            return Some(&attrs[i].value);
        }
        i = i + 1;
    }
    None
}

/// Reads an unsigned decimal number.
pub fn decimal(s: &[u8]) -> (r: Option<usize>)
    ensures
        r == parse_decimal(s@),
{
    let n = s.len();
    let mut start: usize = 0;
    if n > 0 && s[0] == 43 {
        start = 1;
    }
    let ghost d = unsigned_digits(s@);
    assert(d =~= s@.subrange(start as int, n as int));
    if start == n {
        return None;
    }
    let mut acc: usize = 0;
    let mut i: usize = start;
    while i < n
        invariant
            n == s@.len(),
            start <= i <= n,
            d == s@.subrange(start as int, n as int),
            d == unsigned_digits(s@),
            d.len() > 0,
            acc == digits_value(d.take(i - start)),
            all_digits(d.take(i - start)),
        decreases n - i,
    {
        let c = s[i];
        let ghost pre = d.take(i - start);
        let ghost next = d.take(i - start + 1);
        assert(next.drop_last() =~= pre);
        if c < 48 || c > 57 {
            assert(!is_digit(d[i - start]));
            assert(!all_digits(d));
            return None;
        }
        let dig = (c - 48) as usize;
        if acc > (usize::MAX - dig) / 10 {
            proof {
                assert(acc * 10 + dig > usize::MAX) by (nonlinear_arith)
                    requires
                        acc > (usize::MAX - dig) / 10,
                        dig <= 9,
                ;
                assert(next.last() == c);
                assert(digits_value(next) == acc * 10 + dig);
                if all_digits(d) {
                    lemma_digits_prefix(d, i - start + 1);
                }
            }
            return None;
        }
        assert(acc * 10 + dig <= usize::MAX) by (nonlinear_arith)
            requires
                acc <= (usize::MAX - dig) / 10,
                dig <= 9,
        ;
        assert(next.last() == c);
        assert(digits_value(next) == acc * 10 + dig);
        acc = acc * 10 + dig;
        i = i + 1;
        assert(all_digits(d.take(i - start))) by {
            assert forall|j: int| 0 <= j < i - start implies is_digit(#[trigger] d.take(i - start)[j]) by {
                if j < i - start - 1 {
                    assert(d.take(i - start)[j] == pre[j]);
                }
            }
        }
    }
    assert(d.take(n - start) =~= d);
    Some(acc)
}


/// A required numeric attribute.
fn number(attrs: &Vec<Attr>, key: &str) -> (r: Result<usize, ParseError>)
    ensures
        r == number_attr(attrs@.map_values(|a: Attr| a@), lit(key)),
{
    match attr_value(attrs, key.as_bytes()) {
        None => Err(ParseError::MissingAttribute),
        Some(v) => match decimal(v.as_str().as_bytes()) {
            Some(n) => Ok(n),
            None => Err(ParseError::BadNumber),
        },
    }
}

/// The bytes of the required `type` attribute.
fn type_bytes<'a>(attrs: &'a Vec<Attr>) -> (r: Result<&'a [u8], ParseError>)
    ensures
        match r {
            Ok(b) => type_attr(attrs@.map_values(|a: Attr| a@)) == Ok::<Seq<u8>, ParseError>(b@),
            Err(x) => type_attr(attrs@.map_values(|a: Attr| a@)) == Err::<Seq<u8>, ParseError>(x),
        },
{
    match attr_value(attrs, "type".as_bytes()) {
        None => Err(ParseError::MissingAttribute),
        Some(v) => Ok(v.as_str().as_bytes()),
    }
}

pub fn total_type(t: &[u8]) -> (r: TotalType)
    ensures
        r == total_type_of(t@),
{
    if bytes_equal(t, "fast".as_bytes()) {
        TotalType::Fast
    } else if bytes_equal(t, "rest".as_bytes()) {
        TotalType::Rest
    } else if bytes_equal(t, "mmap".as_bytes()) {
        TotalType::Mmap
    } else {
        TotalType::Other
    }
}

pub fn system_type(t: &[u8]) -> (r: SystemType)
    ensures
        r == system_type_of(t@),
{
    if bytes_equal(t, "current".as_bytes()) {
        SystemType::Current
    } else if bytes_equal(t, "max".as_bytes()) {
        SystemType::Max
    } else {
        SystemType::Other
    }
}

pub fn aspace_type(t: &[u8]) -> (r: AspaceType)
    ensures
        r == aspace_type_of(t@),
{
    if bytes_equal(t, "total".as_bytes()) {
        AspaceType::Total
    } else if bytes_equal(t, "mprotect".as_bytes()) {
        AspaceType::Mprotect
    } else if bytes_equal(t, "subheaps".as_bytes()) {
        AspaceType::Subheaps
    } else {
        AspaceType::Other
    }
}

fn read_total(attrs: &Vec<Attr>) -> (r: Result<Total, ParseError>)
    ensures
        r == total_of(attrs@.map_values(|a: Attr| a@)),
{
    let t = match type_bytes(attrs) {
        Err(x) => return Err(x),
        Ok(t) => t,
    };
    let count = match number(attrs, "count") {
        Err(x) => return Err(x),
        Ok(c) => c,
    };
    let size = match number(attrs, "size") {
        Err(x) => return Err(x),
        Ok(c) => c,
    };
    Ok(Total { kind: total_type(t), count, size })
}

fn read_system(attrs: &Vec<Attr>) -> (r: Result<System, ParseError>)
    ensures
        r == system_of(attrs@.map_values(|a: Attr| a@)),
{
    let t = match type_bytes(attrs) {
        Err(x) => return Err(x),
        Ok(t) => t,
    };
    let size = match number(attrs, "size") {
        Err(x) => return Err(x),
        Ok(c) => c,
    };
    Ok(System { kind: system_type(t), size })
}

fn read_aspace(attrs: &Vec<Attr>) -> (r: Result<Aspace, ParseError>)
    ensures
        r == aspace_of(attrs@.map_values(|a: Attr| a@)),
{
    let t = match type_bytes(attrs) {
        Err(x) => return Err(x),
        Ok(t) => t,
    };
    let size = match number(attrs, "size") {
        Err(x) => return Err(x),
        Ok(c) => c,
    };
    Ok(Aspace { kind: aspace_type(t), size })
}

fn read_size(unsorted: bool, attrs: &Vec<Attr>) -> (r: Result<Size, ParseError>)
    ensures
        r == size_of(unsorted, attrs@.map_values(|a: Attr| a@)),
{
    let from = match number(attrs, "from") {
        Err(x) => return Err(x),
        Ok(c) => c,
    };
    let to = match number(attrs, "to") {
        Err(x) => return Err(x),
        Ok(c) => c,
    };
    let total = match number(attrs, "total") {
        Err(x) => return Err(x),
        Ok(c) => c,
    };
    let count = match number(attrs, "count") {
        Err(x) => return Err(x),
        Ok(c) => c,
    };
    if unsorted {
        Ok(Size::Unsorted { from, to, total, count })
    } else {
        Ok(Size::Size { from, to, total, count })
    }
}

/// The decoder's running state.
struct Decoder {
    scope: Scope,
    skip: usize,
    version: String,
    heaps: Vec<Heap>,
    total: Vec<Total>,
    system: Vec<System>,
    aspace: Vec<Aspace>,
    nr: usize,
    sizes: Option<Sizes>,
    buckets: Vec<Size>,
}

impl View for Decoder {
    type V = DecoderView;

    closed spec fn view(&self) -> DecoderView {
        DecoderView {
            scope: self.scope,
            skip: self.skip as nat,
            version: self.version@,
            heaps: heap_views(self.heaps@),
            total: self.total@,
            system: self.system@,
            aspace: self.aspace@,
            nr: self.nr,
            sizes: match self.sizes {
                Some(s) => Some(s@),
                None => None,
            },
            buckets: self.buckets@,
        }
    }
}

proof fn lemma_heap_views_push(hs: Seq<Heap>, h: Heap)
    ensures
        heap_views(hs.push(h)) == heap_views(hs).push(h@),
{
    assert(heap_views(hs.push(h)) =~= heap_views(hs).push(h@));
}

fn enter_if_open(d: &mut Decoder, e: &Element)
    requires
        old(d).skip == 0,
    ensures
        final(d)@ == skip_if_open(old(d)@, e@),
        final(d).skip <= 1,
{
    if e.kind == ElementKind::Open {
        d.skip = 1;
    }
}

fn step_root_exec(d: &mut Decoder, e: &Element) -> (r: Result<(), ParseError>)
    requires
        old(d).skip == 0,
    ensures
        match step_root(old(d)@, e@) {
            Ok(n) => r == Ok::<(), ParseError>(()) && final(d)@ == n,
            Err(x) => r == Err::<(), ParseError>(x),
        },
        final(d).skip <= 1,
{
    if bytes_equal(e.name.as_slice(), "heap".as_bytes()) {
        let nr = match number(&e.attrs, "nr") {
            Err(x) => return Err(x),
            Ok(n) => n,
        };
        if e.kind == ElementKind::Open {
            d.scope = Scope::Heap;
            d.nr = nr;
            d.sizes = None;
        } else {
            proof {
                lemma_heap_views_push(d.heaps@, Heap { nr, sizes: None });
            }
            d.heaps.push(Heap { nr, sizes: None });
        }
    } else if bytes_equal(e.name.as_slice(), "total".as_bytes()) {
        match read_total(&e.attrs) {
            Err(x) => return Err(x),
            Ok(t) => d.total.push(t),
        }
        enter_if_open(d, e);
    } else if bytes_equal(e.name.as_slice(), "system".as_bytes()) {
        match read_system(&e.attrs) {
            Err(x) => return Err(x),
            Ok(t) => d.system.push(t),
        }
        enter_if_open(d, e);
    } else if bytes_equal(e.name.as_slice(), "aspace".as_bytes()) {
        match read_aspace(&e.attrs) {
            Err(x) => return Err(x),
            Ok(t) => d.aspace.push(t),
        }
        enter_if_open(d, e);
    } else {
        enter_if_open(d, e);
    }
    Ok(())
}

fn step_heap_exec(d: &mut Decoder, e: &Element) -> (r: Result<(), ParseError>)
    requires
        old(d).skip == 0,
    ensures
        match step_heap(old(d)@, e@) {
            Ok(n) => r == Ok::<(), ParseError>(()) && final(d)@ == n,
            Err(x) => r == Err::<(), ParseError>(x),
        },
        final(d).skip <= 1,
{
    if bytes_equal(e.name.as_slice(), "sizes".as_bytes()) {
        if d.sizes.is_some() {
            return Err(ParseError::DuplicateSizes);
        } else if e.kind == ElementKind::Open {
            d.scope = Scope::Sizes;
            d.buckets = Vec::new();
        } else {
            d.sizes = Some(Sizes { sizes: Some(Vec::new()) });
        }
    } else {
        enter_if_open(d, e);
    }
    Ok(())
}

fn step_sizes_exec(d: &mut Decoder, e: &Element) -> (r: Result<(), ParseError>)
    requires
        old(d).skip == 0,
    ensures
        match step_sizes(old(d)@, e@) {
            Ok(n) => r == Ok::<(), ParseError>(()) && final(d)@ == n,
            Err(x) => r == Err::<(), ParseError>(x),
        },
        final(d).skip <= 1,
{
    let unsorted = bytes_equal(e.name.as_slice(), "unsorted".as_bytes());
    if bytes_equal(e.name.as_slice(), "size".as_bytes()) || unsorted {
        match read_size(unsorted, &e.attrs) {
            Err(x) => return Err(x),
            Ok(b) => d.buckets.push(b),
        }
        enter_if_open(d, e);
        Ok(())
    } else {
        Err(ParseError::UnknownSizeKind)
    }
}

#[verifier::rlimit(30)]
fn step_exec(d: &mut Decoder, e: &Element) -> (r: Result<(), ParseError>)
    requires
        old(d).skip < usize::MAX,
    ensures
        match step(old(d)@, e@) {
            Ok(n) => r == Ok::<(), ParseError>(()) && final(d)@ == n,
            Err(x) => r == Err::<(), ParseError>(x),
        },
        final(d).skip <= old(d).skip + 1,
{
    reveal(step);
    if d.skip > 0 {
        match e.kind {
            ElementKind::Open => d.skip = d.skip + 1,
            ElementKind::Leaf => {},
            ElementKind::Close => d.skip = d.skip - 1,
        }
        return Ok(());
    }
    match d.scope {
        Scope::Prolog => {
            if e.kind == ElementKind::Close {
                return Err(ParseError::NoRoot);
            }
            match attr_value(&e.attrs, "version".as_bytes()) {
                None => Err(ParseError::MissingAttribute),
                Some(v) => {
                    d.version = v.clone();
                    d.scope = if e.kind == ElementKind::Open {
                        Scope::Root
                    } else {
                        Scope::Done
                    };
                    Ok(())
                },
            }
        },
        Scope::Root => {
            if e.kind == ElementKind::Close {
                d.scope = Scope::Done;
                Ok(())
            } else {
                step_root_exec(d, e)
            }
        },
        Scope::Heap => {
            if e.kind == ElementKind::Close {
                let mut sizes: Option<Sizes> = None;
                core::mem::swap(&mut sizes, &mut d.sizes);
                let h = Heap { nr: d.nr, sizes };
                proof {
                    lemma_heap_views_push(d.heaps@, h);
                }
                d.heaps.push(h);
                d.scope = Scope::Root;
                Ok(())
            } else {
                step_heap_exec(d, e)
            }
        },
        Scope::Sizes => {
            if e.kind == ElementKind::Close {
                let mut buckets: Vec<Size> = Vec::new();
                core::mem::swap(&mut buckets, &mut d.buckets);
                d.sizes = Some(Sizes { sizes: Some(buckets) });
                d.scope = Scope::Heap;
                Ok(())
            } else {
                step_sizes_exec(d, e)
            }
        },
        Scope::Done => Ok(()),
    }
}

/// Decodes the report from its elements, in document order.
pub fn decode_elements(es: &Vec<Element>) -> (r: Result<Malloc, ParseError>)
    ensures
        match r {
            Ok(m) => decode(element_views(es@)) == Ok::<MallocView, ParseError>(m@),
            Err(x) => decode(element_views(es@)) == Err::<MallocView, ParseError>(x),
        },
{
    let ghost ev = element_views(es@);
    let mut d = Decoder {
        scope: Scope::Prolog,
        skip: 0,
        version: String::new(),
        heaps: Vec::new(),
        total: Vec::new(),
        system: Vec::new(),
        aspace: Vec::new(),
        nr: 0,
        sizes: None,
        buckets: Vec::new(),
    };
    assert(d@ == initial()) by {
        assert(heap_views(d.heaps@) =~= Seq::<HeapView>::empty());
        assert(d.version@ =~= Seq::<char>::empty());
    }
    let mut i: usize = 0;
    while i < es.len()
        invariant
            ev == element_views(es@),
            0 <= i <= es@.len(),
            d.skip <= i,
            run(ev, i as nat) == Ok::<DecoderView, ParseError>(d@),
        decreases es@.len() - i,
    {
        let r = step_exec(&mut d, &es[i]);
        assert(ev[i as int] == es@[i as int]@);
        match r {
            Err(x) => {
                proof {
                    lemma_run_error_stays(ev, (i + 1) as nat, ev.len());
                }
                return Err(x);
            },
            Ok(()) => {},
        }
        i = i + 1;
    }
    assert(ev.len() == es@.len());
    if d.scope == Scope::Prolog {
        return Err(ParseError::NoRoot);
    }
    if d.scope != Scope::Done {
        return Err(ParseError::Unclosed);
    }
    if d.heaps.len() == 0 || d.total.len() == 0 || d.system.len() == 0 || d.aspace.len() == 0 {
        return Err(ParseError::MissingSection);
    }
    Ok(
        Malloc {
            version: d.version,
            heaps: d.heaps,
            total: d.total,
            system: d.system,
            aspace: d.aspace,
        },
    )
}

} // verus!
