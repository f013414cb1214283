//! Properties of decoding that hold of every report.
use vstd::prelude::*;
use crate::decode::{
    aspace_of, decode, find_attr, finish, initial, lit, number_attr, run, skip_if_open, step, step_root,
    system_of, total_of, type_attr, AttrView, DecoderView, ElementKind, ElementView, ParseError,
    Scope,
};
use crate::info::{Aspace, AspaceType, HeapView, MallocView, System, SystemType, Total, TotalType};

verus! {

/// The decoder after reading `es`, starting from `d`.
pub open spec fn run_from(d: DecoderView, es: Seq<ElementView>) -> Result<DecoderView, ParseError>
    decreases es.len(),
{
    if es.len() == 0 {
        Ok(d)
    } else {
        match step(d, es[0]) {
            Err(x) => Err(x),
            Ok(d1) => run_from(d1, es.drop_first()),
        }
    }
}

pub open spec fn is_tag(e: ElementView, kind: ElementKind, name: &str) -> bool {
    e.kind == kind && e.name == lit(name)
}

proof fn lemma_run_rest(es: Seq<ElementView>, n: nat)
    requires
        n <= es.len(),
    ensures
        run(es, es.len()) == match run(es, n) {
            Err(x) => Err(x),
            Ok(d) => run_from(d, es.subrange(n as int, es.len() as int)),
        },
    decreases es.len() - n,
{
    let rest = es.subrange(n as int, es.len() as int);
    if n < es.len() {
        lemma_run_rest(es, n + 1);
        assert(rest.drop_first() =~= es.subrange((n + 1) as int, es.len() as int));
        assert(rest[0] == es[n as int]);
    } else {
        assert(rest =~= Seq::<ElementView>::empty());
    }
}

/// Decoding a document is reading its elements one after another from the
/// initial state, then finishing: the laws below, stated over `run_from`,
/// are laws of `decode`.
pub proof fn decode_reads_in_order(es: Seq<ElementView>)
    ensures
        decode(es) == match run_from(initial(), es) {
            Err(x) => Err(x),
            Ok(d) => finish(d),
        },
{
    lemma_run_rest(es, 0);
    assert(es.subrange(0, es.len() as int) =~= es);
}

/// Reading two runs of elements one after the other is reading their
/// concatenation.
pub proof fn run_from_concat(d: DecoderView, a: Seq<ElementView>, b: Seq<ElementView>)
    ensures
        run_from(d, a + b) == match run_from(d, a) {
            Err(x) => Err(x),
            Ok(d2) => run_from(d2, b),
        },
    decreases a.len(),
{
    if a.len() == 0 {
        assert(a + b =~= b);
    } else {
        assert((a + b).drop_first() =~= a.drop_first() + b);
        assert((a + b)[0] == a[0]);
        match step(d, a[0]) {
            Err(x) => {},
            Ok(d1) => run_from_concat(d1, a.drop_first(), b),
        }
    }
}

proof fn lemma_run_from_two(d: DecoderView, a: ElementView, b: ElementView)
    ensures
        run_from(d, seq![a, b]) == match step(d, a) {
            Err(x) => Err(x),
            Ok(d1) => step(d1, b),
        },
{
    let s = seq![a, b];
    assert(s.drop_first() =~= seq![b]);
    assert(seq![b].drop_first() =~= Seq::<ElementView>::empty());
    reveal_with_fuel(run_from, 3);
}

proof fn lemma_run_from_cons(d: DecoderView, s: Seq<ElementView>, d1: DecoderView)
    requires
        s.len() > 0,
        step(d, s[0]) == Ok::<DecoderView, ParseError>(d1),
    ensures
        run_from(d, s) == run_from(d1, s.drop_first()),
{
}

/// An arena without a size-classes element is appended, in document order,
/// with its section absent.
pub proof fn absent_sizes_section(d: DecoderView, open: ElementView, close: ElementView, nr: usize)
    requires
        d.skip == 0,
        d.scope == Scope::Root,
        is_tag(open, ElementKind::Open, "heap"),
        number_attr(open.attrs, lit("nr")) == Ok::<usize, ParseError>(nr),
        close.kind == ElementKind::Close,
    ensures
        run_from(d, seq![open, close]) matches Ok(d2) && d2.scope == Scope::Root && d2.heaps
            == d.heaps.push(HeapView { nr: nr, sizes: None }),
{
    lemma_run_from_two(d, open, close);
    reveal(step);
}

/// An arena whose size-classes section holds no size class is appended, in
/// document order, with an empty sequence of size classes rather than an
/// absent section.
pub proof fn empty_sizes_section(
    d: DecoderView,
    open: ElementView,
    sizes_open: ElementView,
    sizes_close: ElementView,
    close: ElementView,
    nr: usize,
)
    requires
        d.skip == 0,
        d.scope == Scope::Root,
        is_tag(open, ElementKind::Open, "heap"),
        number_attr(open.attrs, lit("nr")) == Ok::<usize, ParseError>(nr),
        is_tag(sizes_open, ElementKind::Open, "sizes"),
        sizes_close.kind == ElementKind::Close,
        close.kind == ElementKind::Close,
    ensures
        run_from(d, seq![open, sizes_open, sizes_close, close]) matches Ok(d2) && d2.scope
            == Scope::Root && d2.heaps == d.heaps.push(
            HeapView { nr: nr, sizes: Some(Some(Seq::empty())) },
        ),
{
    let s = seq![open, sizes_open, sizes_close, close];
    let d1 = DecoderView { scope: Scope::Heap, nr: nr, sizes: None, ..d };
    assert(step(d, open) == Ok::<DecoderView, ParseError>(d1)) by {
        reveal(step);
    }
    let d2 = DecoderView { scope: Scope::Sizes, buckets: Seq::empty(), ..d1 };
    assert(step(d1, sizes_open) == Ok::<DecoderView, ParseError>(d2)) by {
        reveal(step);
    }
    let d3 = DecoderView {
        scope: Scope::Heap,
        sizes: Some(Some(Seq::<crate::info::Size>::empty())),
        buckets: Seq::empty(),
        ..d2
    };
    assert(step(d2, sizes_close) == Ok::<DecoderView, ParseError>(d3)) by {
        reveal(step);
    }
    let s1 = s.drop_first();
    let s2 = s1.drop_first();
    assert(s1 =~= seq![sizes_open, sizes_close, close]);
    assert(s2 =~= seq![sizes_close, close]);
    lemma_run_from_cons(d, s, d1);
    lemma_run_from_cons(d1, s1, d2);
    lemma_run_from_two(d3, close, close);
    lemma_run_from_cons(d2, s2, d3);
    assert(s2.drop_first() =~= seq![close]);
    assert(seq![close].drop_first() =~= Seq::<ElementView>::empty());
    assert(run_from(d3, seq![close]) == step(d3, close)) by {
        reveal_with_fuel(run_from, 2);
    }
    assert(step(d3, close) matches Ok(d4) && d4.scope == Scope::Root && d4.heaps == d.heaps.push(
        HeapView { nr: nr, sizes: Some(Some(Seq::empty())) },
    )) by {
        reveal(step);
    }
}

/// Inside an arena, elements other than its size-classes section (the
/// arena's own total, system and aspace figures among them) add nothing to
/// the report's root-level sequences or to its arenas.
pub proof fn arena_figures_stay_out_of_root(d: DecoderView, e: ElementView)
    requires
        d.skip == 0,
        d.scope == Scope::Heap,
        e.kind != ElementKind::Close,
        e.name != lit("sizes"),
    ensures
        step(d, e) == Ok::<DecoderView, ParseError>(skip_if_open(d, e)),
        skip_if_open(d, e).heaps == d.heaps,
        skip_if_open(d, e).total == d.total,
        skip_if_open(d, e).system == d.system,
        skip_if_open(d, e).aspace == d.aspace,
{
    reveal(step);
}

/// A total figure whose `type` is none of the known kinds decodes to
/// `Other` whenever its numbers are well-formed.
pub proof fn unknown_total_type(attrs: Seq<AttrView>, t: Seq<u8>, count: usize, size: usize)
    requires
        type_attr(attrs) == Ok::<Seq<u8>, ParseError>(t),
        t != lit("fast") && t != lit("rest") && t != lit("mmap"),
        number_attr(attrs, lit("count")) == Ok::<usize, ParseError>(count),
        number_attr(attrs, lit("size")) == Ok::<usize, ParseError>(size),
    ensures
        total_of(attrs) == Ok::<Total, ParseError>(
            Total { kind: TotalType::Other, count: count, size: size },
        ),
{
}

/// A system figure whose `type` is none of the known kinds decodes to
/// `Other` whenever its size is well-formed.
pub proof fn unknown_system_type(attrs: Seq<AttrView>, t: Seq<u8>, size: usize)
    requires
        type_attr(attrs) == Ok::<Seq<u8>, ParseError>(t),
        t != lit("current") && t != lit("max"),
        number_attr(attrs, lit("size")) == Ok::<usize, ParseError>(size),
    ensures
        system_of(attrs) == Ok::<System, ParseError>(System { kind: SystemType::Other, size: size }),
{
}

/// An aspace figure whose `type` is none of the known kinds decodes to
/// `Other` whenever its size is well-formed.
pub proof fn unknown_aspace_type(attrs: Seq<AttrView>, t: Seq<u8>, size: usize)
    requires
        type_attr(attrs) == Ok::<Seq<u8>, ParseError>(t),
        t != lit("total") && t != lit("mprotect") && t != lit("subheaps"),
        number_attr(attrs, lit("size")) == Ok::<usize, ParseError>(size),
    ensures
        aspace_of(attrs) == Ok::<Aspace, ParseError>(Aspace { kind: AspaceType::Other, size: size }),
{
}

/// A document that is an empty root element without a version fails.
pub proof fn root_without_version_fails(open: ElementView, close: ElementView)
    requires
        open.kind == ElementKind::Open,
        find_attr(open.attrs, lit("version"), 0) is None,
        close.kind == ElementKind::Close,
    ensures
        decode(seq![open, close]) == Err::<MallocView, ParseError>(ParseError::MissingAttribute),
{
    let s = seq![open, close];
    assert(s[0] == open);
    reveal(step);
    reveal_with_fuel(crate::decode::run, 3);
}

/// A document that is an empty root element fails, version or not: a
/// report has at least one arena and one figure of each kind.
pub proof fn empty_root_fails(open: ElementView, close: ElementView)
    requires
        open.kind == ElementKind::Open,
        close.kind == ElementKind::Close,
    ensures
        decode(seq![open, close]) is Err,
{
    let s = seq![open, close];
    assert(s[0] == open && s[1] == close);
    reveal(step);
    reveal_with_fuel(crate::decode::run, 3);
}


/// A self-closing direct child of the root whose figures are well-formed.
pub open spec fn leaf_child_ok(c: ElementView) -> bool {
    &&& c.kind == ElementKind::Leaf
    &&& c.name == lit("heap") ==> number_attr(c.attrs, lit("nr")) is Ok
    &&& c.name == lit("total") ==> total_of(c.attrs) is Ok
    &&& c.name == lit("system") ==> system_of(c.attrs) is Ok
    &&& c.name == lit("aspace") ==> aspace_of(c.attrs) is Ok
}

/// The arenas among the children, in document order.
pub open spec fn heaps_of(cs: Seq<ElementView>) -> Seq<HeapView>
    decreases cs.len(),
{
    if cs.len() == 0 {
        Seq::empty()
    } else if cs.last().name == lit("heap") {
        heaps_of(cs.drop_last()).push(
            HeapView { nr: number_attr(cs.last().attrs, lit("nr"))->Ok_0, sizes: None },
        )
    } else {
        heaps_of(cs.drop_last())
    }
}

/// The total figures among the children, in document order.
pub open spec fn totals_of(cs: Seq<ElementView>) -> Seq<Total>
    decreases cs.len(),
{
    if cs.len() == 0 {
        Seq::empty()
    } else if cs.last().name == lit("heap") {
        totals_of(cs.drop_last())
    } else if cs.last().name == lit("total") {
        totals_of(cs.drop_last()).push(total_of(cs.last().attrs)->Ok_0)
    } else {
        totals_of(cs.drop_last())
    }
}

/// The system figures among the children, in document order.
pub open spec fn systems_of(cs: Seq<ElementView>) -> Seq<System>
    decreases cs.len(),
{
    if cs.len() == 0 {
        Seq::empty()
    } else if cs.last().name == lit("heap") || cs.last().name == lit("total") {
        systems_of(cs.drop_last())
    } else if cs.last().name == lit("system") {
        systems_of(cs.drop_last()).push(system_of(cs.last().attrs)->Ok_0)
    } else {
        systems_of(cs.drop_last())
    }
}

/// The aspace figures among the children, in document order.
pub open spec fn aspaces_of(cs: Seq<ElementView>) -> Seq<Aspace>
    decreases cs.len(),
{
    if cs.len() == 0 {
        Seq::empty()
    } else if cs.last().name == lit("heap") || cs.last().name == lit("total") || cs.last().name
        == lit("system") {
        aspaces_of(cs.drop_last())
    } else if cs.last().name == lit("aspace") {
        aspaces_of(cs.drop_last()).push(aspace_of(cs.last().attrs)->Ok_0)
    } else {
        aspaces_of(cs.drop_last())
    }
}

/// The decoder inside a root with version `v`, after the children `cs`.
pub open spec fn gathered(v: Seq<char>, cs: Seq<ElementView>) -> DecoderView {
    DecoderView {
        scope: Scope::Root,
        version: v,
        heaps: heaps_of(cs),
        total: totals_of(cs),
        system: systems_of(cs),
        aspace: aspaces_of(cs),
        ..initial()
    }
}

proof fn lemma_run_from_one(d: DecoderView, a: ElementView)
    ensures
        run_from(d, seq![a]) == step(d, a),
{
    assert(seq![a].drop_first() =~= Seq::<ElementView>::empty());
    reveal_with_fuel(run_from, 2);
}

proof fn lemma_gather(v: Seq<char>, cs: Seq<ElementView>)
    requires
        forall|i: int| 0 <= i < cs.len() ==> leaf_child_ok(#[trigger] cs[i]),
    ensures
        run_from(gathered(v, Seq::empty()), cs) == Ok::<DecoderView, ParseError>(gathered(v, cs)),
    decreases cs.len(),
{
    if cs.len() == 0 {
    } else {
        let init = cs.drop_last();
        let last = cs.last();
        assert(cs =~= init + seq![last]);
        assert forall|i: int| 0 <= i < init.len() implies leaf_child_ok(#[trigger] init[i]) by {
            assert(init[i] == cs[i]);
        }
        lemma_gather(v, init);
        run_from_concat(gathered(v, Seq::empty()), init, seq![last]);
        lemma_run_from_one(gathered(v, init), last);
        assert(leaf_child_ok(cs[cs.len() - 1]));
        lemma_gather_step(v, cs);
    }
}

proof fn lemma_gather_step(v: Seq<char>, cs: Seq<ElementView>)
    requires
        cs.len() > 0,
        leaf_child_ok(cs.last()),
    ensures
        step(gathered(v, cs.drop_last()), cs.last()) == Ok::<DecoderView, ParseError>(
            gathered(v, cs),
        ),
{
    let d = gathered(v, cs.drop_last());
    let c = cs.last();
    assert(step(d, c) == step_root(d, c)) by {
        reveal(step);
    }
    if c.name == lit("heap") {
    } else if c.name == lit("total") {
    } else if c.name == lit("system") {
    } else if c.name == lit("aspace") {
    } else {
    }
}

/// A root with version `v` whose direct children are self-closing, with
/// well-formed figures, decodes to exactly those children: its arenas are
/// the `heap` children and its total, system and aspace sequences are the
/// children of those kinds, each in document order. It fails only when one
/// of the four is missing.
pub proof fn flat_report(open: ElementView, cs: Seq<ElementView>, close: ElementView, v: Seq<char>)
    requires
        open.kind == ElementKind::Open,
        find_attr(open.attrs, lit("version"), 0) == Some(v),
        forall|i: int| 0 <= i < cs.len() ==> leaf_child_ok(#[trigger] cs[i]),
        close.kind == ElementKind::Close,
    ensures
        decode(seq![open] + cs + seq![close]) == if heaps_of(cs).len() == 0 || totals_of(cs).len()
            == 0 || systems_of(cs).len() == 0 || aspaces_of(cs).len() == 0 {
            Err::<MallocView, ParseError>(ParseError::MissingSection)
        } else {
            Ok(
                MallocView {
                    version: v,
                    heaps: heaps_of(cs),
                    total: totals_of(cs),
                    system: systems_of(cs),
                    aspace: aspaces_of(cs),
                },
            )
        },
{
    let es = seq![open] + cs + seq![close];
    decode_reads_in_order(es);
    assert(es =~= seq![open] + (cs + seq![close]));
    run_from_concat(initial(), seq![open], cs + seq![close]);
    lemma_run_from_one(initial(), open);
    assert(step(initial(), open) == Ok::<DecoderView, ParseError>(gathered(v, Seq::empty()))) by {
        reveal(step);
        assert(heaps_of(Seq::empty()) =~= Seq::<HeapView>::empty());
    }
    lemma_gather(v, cs);
    run_from_concat(gathered(v, Seq::empty()), cs, seq![close]);
    lemma_run_from_one(gathered(v, cs), close);
    assert(step(gathered(v, cs), close) == Ok::<DecoderView, ParseError>(
        DecoderView { scope: Scope::Done, ..gathered(v, cs) },
    )) by {
        reveal(step);
    }
}

} // verus!
