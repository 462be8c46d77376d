//! The laws of the formatter, stated and proved against the layout model:
//! determinism, forced breaks, width respect, trailing-comma discipline,
//! import separation, and the final newline.

use vstd::prelude::*;

use crate::ast::Expr;
use crate::ast::Module;
use crate::doc::Doc;
use crate::layout::Mode;
use crate::layout::StackItem;
use crate::layout::fits;
use crate::layout::fmt;
use crate::layout::newlines;
use crate::layout::spaces;
use crate::layout::stack_measure;
use crate::layout::lemma_measure_push;
use crate::layout::render_spec;
use crate::render::expr_doc_spec;
use crate::render::wrap_args_spec;
use crate::render::wrap_args_inner;
use crate::render::pretty_module_spec;

verus! {

/// Formatting is deterministic: the formatted text is a pure function of the
/// module alone, so equal modules yield byte-identical output — in the same
/// process or in different ones. Together with the postcondition of
/// `pretty_module` (its result equals `pretty_module_spec` of its input),
/// any two calls on the same module return the same string.
pub proof fn lemma_format_deterministic(m1: Module, m2: Module)
    requires
        m1 == m2,
    ensures
        pretty_module_spec(m1) == pretty_module_spec(m2),
{
}

/// The number of newline characters in a text.
pub open spec fn nl_count(s: Seq<char>) -> nat
    decreases s.len(),
{
    if s.len() == 0 {
        0
    } else {
        nl_count(s.drop_last()) + if s.last() == '\n' {
            1nat
        } else {
            0nat
        }
    }
}

pub proof fn lemma_nl_count_add(a: Seq<char>, b: Seq<char>)
    ensures
        nl_count(a + b) == nl_count(a) + nl_count(b),
    decreases b.len(),
{
    if b.len() == 0 {
        assert(a + b =~= a);
    } else {
        assert((a + b).drop_last() =~= a + b.drop_last());
        assert((a + b).last() == b.last());
        lemma_nl_count_add(a, b.drop_last());
    }
}

pub proof fn lemma_nl_count_newlines(n: nat)
    ensures
        nl_count(newlines(n)) == n,
    decreases n,
{
    if n == 0 {
        assert(newlines(0).len() == 0);
    } else {
        assert(newlines(n).drop_last() =~= newlines((n - 1) as nat));
        assert(newlines(n).last() == '\n');
        lemma_nl_count_newlines((n - 1) as nat);
    }
}

pub proof fn lemma_nl_count_spaces(n: nat)
    ensures
        nl_count(spaces(n)) == 0,
    decreases n,
{
    if n > 0 {
        assert(spaces(n).drop_last() =~= spaces((n - 1) as nat));
        assert(spaces(n).last() == ' ');
        lemma_nl_count_spaces((n - 1) as nat);
    }
}

/// The number of mandatory line breaks in a document: those that every
/// rendering emits, whatever the width and the breaking decisions.
pub open spec fn line_breaks(d: Doc) -> nat
    decreases d,
{
    match d {
        Doc::Nil => 0,
        Doc::Text(_) => 0,
        Doc::Line(n) => n,
        Doc::Break { .. } => 0,
        Doc::ForceBreak => 0,
        Doc::Nest(_, inner) => line_breaks(*inner),
        Doc::NestCurrent(inner) => line_breaks(*inner),
        Doc::Group(inner) => line_breaks(*inner),
        Doc::Cons(l, r) => line_breaks(*l) + line_breaks(*r),
    }
}

/// Total mandatory line breaks held by a work stack.
pub open spec fn stack_line_breaks(s: Seq<StackItem>) -> nat
    decreases s.len(),
{
    if s.len() == 0 {
        0
    } else {
        line_breaks(s.last().doc) + stack_line_breaks(s.drop_last())
    }
}

pub proof fn lemma_slb_push(s: Seq<StackItem>, it: StackItem)
    ensures
        stack_line_breaks(s.push(it)) == line_breaks(it.doc) + stack_line_breaks(s),
{
    assert(s.push(it).last() == it);
    assert(s.push(it).drop_last() =~= s);
}

/// Every rendering emits at least the mandatory line breaks of its stack:
/// a `Line` becomes a newline in both modes, so no breaking decision can
/// remove one.
pub proof fn lemma_fmt_line_breaks(limit: nat, width: nat, s: Seq<StackItem>)
    ensures
        nl_count(fmt(limit, width, s)) >= stack_line_breaks(s),
    decreases stack_measure(s),
{
    if s.len() != 0 {
        let it = s.last();
        let rest = s.drop_last();
        match it.doc {
            Doc::Nil => {
                lemma_fmt_line_breaks(limit, width, rest);
            },
            Doc::Text(t) => {
                lemma_nl_count_add(t, fmt(limit, crate::layout::wadd(width, t.len()), rest));
                lemma_fmt_line_breaks(limit, crate::layout::wadd(width, t.len()), rest);
            },
            Doc::Line(n) => {
                let tail = fmt(limit, it.indent, rest);
                lemma_nl_count_add(newlines(n) + spaces(it.indent), tail);
                lemma_nl_count_add(newlines(n), spaces(it.indent));
                lemma_nl_count_newlines(n);
                lemma_nl_count_spaces(it.indent);
                lemma_fmt_line_breaks(limit, it.indent, rest);
            },
            Doc::Break { broken, unbroken } => match it.mode {
                Mode::Flat => {
                    lemma_nl_count_add(
                        unbroken,
                        fmt(limit, crate::layout::wadd(width, unbroken.len()), rest),
                    );
                    lemma_fmt_line_breaks(
                        limit,
                        crate::layout::wadd(width, unbroken.len()),
                        rest,
                    );
                },
                Mode::Broken => {
                    let tail = fmt(limit, it.indent, rest);
                    lemma_nl_count_add(broken + newlines(1) + spaces(it.indent), tail);
                    lemma_nl_count_add(broken + newlines(1), spaces(it.indent));
                    lemma_nl_count_add(broken, newlines(1));
                    lemma_nl_count_newlines(1);
                    lemma_nl_count_spaces(it.indent);
                    lemma_fmt_line_breaks(limit, it.indent, rest);
                },
            },
            Doc::ForceBreak => {
                lemma_fmt_line_breaks(limit, width, rest);
            },
            Doc::Nest(delta, inner) => {
                let ni = StackItem {
                    indent: crate::layout::wadd(it.indent, delta),
                    mode: it.mode,
                    doc: *inner,
                };
                lemma_measure_push(rest, ni);
                lemma_slb_push(rest, ni);
                lemma_fmt_line_breaks(limit, width, rest.push(ni));
            },
            Doc::NestCurrent(inner) => {
                let ni = StackItem { indent: width, mode: it.mode, doc: *inner };
                lemma_measure_push(rest, ni);
                lemma_slb_push(rest, ni);
                lemma_fmt_line_breaks(limit, width, rest.push(ni));
            },
            Doc::Group(inner) => {
                let flat = fits(
                    limit,
                    width,
                    rest.push(StackItem { indent: it.indent, mode: Mode::Flat, doc: *inner }),
                );
                let mode = if flat {
                    Mode::Flat
                } else {
                    Mode::Broken
                };
                let ni = StackItem { indent: it.indent, mode, doc: *inner };
                lemma_measure_push(rest, ni);
                lemma_slb_push(rest, ni);
                lemma_fmt_line_breaks(limit, width, rest.push(ni));
            },
            Doc::Cons(l, r) => {
                let ri = StackItem { indent: it.indent, mode: it.mode, doc: *r };
                let li = StackItem { indent: it.indent, mode: it.mode, doc: *l };
                lemma_measure_push(rest, ri);
                lemma_measure_push(rest.push(ri), li);
                lemma_slb_push(rest, ri);
                lemma_slb_push(rest.push(ri), li);
                lemma_fmt_line_breaks(limit, width, rest.push(ri).push(li));
            },
        }
    }
}

/// A pipeline never renders on a single line: whatever the width, the
/// rendering of a pipe expression contains at least one newline — one per
/// pipe stage, since each stage adds a mandatory break.
pub proof fn lemma_pipe_always_breaks(width: nat, e: Expr)
    requires
        e is Pipe,
    ensures
        nl_count(render_spec(width, expr_doc_spec(e))) >= 1,
{
    let d = expr_doc_spec(e);
    let lft = expr_doc_spec(*e->Pipe_left);
    let rgt = expr_doc_spec(*e->Pipe_right);
    let d1 = crate::doc::dcons(lft, Doc::ForceBreak);
    let d2 = crate::doc::dcons(d1, Doc::Line(1));
    let d3 = crate::doc::dcons(d2, crate::doc::dtext("|> "@));
    assert(d == crate::doc::dcons(d3, rgt));
    assert(line_breaks(Doc::ForceBreak) == 0);
    assert(line_breaks(Doc::Line(1)) == 1);
    assert(line_breaks(crate::doc::dtext("|> "@)) == 0);
    assert(line_breaks(d1) == line_breaks(lft));
    assert(line_breaks(d2) == line_breaks(d1) + 1);
    assert(line_breaks(d3) == line_breaks(d2));
    assert(line_breaks(d) == line_breaks(d3) + line_breaks(rgt));
    let it = StackItem { indent: 0, mode: Mode::Broken, doc: d };
    assert(seq![it].drop_last() =~= Seq::<StackItem>::empty());
    assert(stack_line_breaks(Seq::<StackItem>::empty()) == 0);
    assert(stack_line_breaks(seq![it]) == line_breaks(d));
    lemma_fmt_line_breaks(width, 0, seq![it]);
}

/// A statement sequence never renders on a single line: its rendering
/// contains at least one newline, whatever the width.
pub proof fn lemma_sequence_always_breaks(width: nat, e: Expr)
    requires
        e is Sequence,
    ensures
        nl_count(render_spec(width, expr_doc_spec(e))) >= 1,
{
    let d = expr_doc_spec(e);
    let fst = expr_doc_spec(*e->Sequence_first);
    let rst = expr_doc_spec(*e->Sequence_rest);
    let d1 = crate::doc::dcons(fst, Doc::ForceBreak);
    let d2 = crate::doc::dcons(d1, Doc::Line(1));
    assert(d == crate::doc::dcons(d2, rst));
    assert(line_breaks(Doc::ForceBreak) == 0);
    assert(line_breaks(Doc::Line(1)) == 1);
    assert(line_breaks(d1) == line_breaks(fst));
    assert(line_breaks(d2) == line_breaks(d1) + 1);
    assert(line_breaks(d) == line_breaks(d2) + line_breaks(rst));
    let it = StackItem { indent: 0, mode: Mode::Broken, doc: d };
    assert(seq![it].drop_last() =~= Seq::<StackItem>::empty());
    assert(stack_line_breaks(Seq::<StackItem>::empty()) == 0);
    assert(stack_line_breaks(seq![it]) == line_breaks(d));
    lemma_fmt_line_breaks(width, 0, seq![it]);
}

/// The furthest column a flat rendering of the stack reaches before its
/// first mandatory stop: a `Line`, a `Break` of an already broken entry, a
/// force-break, or the end of the document.
pub open spec fn flat_extent(cur: nat, s: Seq<StackItem>) -> nat
    decreases stack_measure(s),
    via flat_extent_decreases
{
    if s.len() == 0 {
        cur
    } else {
        let it = s.last();
        let rest = s.drop_last();
        match it.doc {
            Doc::Nil => flat_extent(cur, rest),
            Doc::Text(t) => flat_extent(cur + t.len(), rest),
            Doc::Line(_) => cur,
            Doc::Break { broken, unbroken } => match it.mode {
                Mode::Broken => cur,
                Mode::Flat => flat_extent(cur + unbroken.len(), rest),
            },
            Doc::ForceBreak => cur,
            Doc::Nest(_, inner) => flat_extent(
                cur,
                rest.push(StackItem { indent: it.indent, mode: it.mode, doc: *inner }),
            ),
            Doc::NestCurrent(inner) => flat_extent(
                cur,
                rest.push(StackItem { indent: it.indent, mode: it.mode, doc: *inner }),
            ),
            Doc::Group(inner) => flat_extent(
                cur,
                rest.push(StackItem { indent: it.indent, mode: Mode::Flat, doc: *inner }),
            ),
            Doc::Cons(l, r) => flat_extent(
                cur,
                rest.push(StackItem { indent: it.indent, mode: it.mode, doc: *r })
                    .push(StackItem { indent: it.indent, mode: it.mode, doc: *l }),
            ),
        }
    }
}

#[via_fn]
proof fn flat_extent_decreases(cur: nat, s: Seq<StackItem>) {
    if s.len() != 0 {
        let it = s.last();
        let rest = s.drop_last();
        match it.doc {
            Doc::Nest(_, inner) => {
                lemma_measure_push(
                    rest,
                    StackItem { indent: it.indent, mode: it.mode, doc: *inner },
                );
            },
            Doc::NestCurrent(inner) => {
                lemma_measure_push(
                    rest,
                    StackItem { indent: it.indent, mode: it.mode, doc: *inner },
                );
            },
            Doc::Group(inner) => {
                lemma_measure_push(
                    rest,
                    StackItem { indent: it.indent, mode: Mode::Flat, doc: *inner },
                );
            },
            Doc::Cons(l, r) => {
                let ri = StackItem { indent: it.indent, mode: it.mode, doc: *r };
                let li = StackItem { indent: it.indent, mode: it.mode, doc: *l };
                lemma_measure_push(rest, ri);
                lemma_measure_push(rest.push(ri), li);
            },
            _ => {},
        }
    }
}

/// Width respect: when the fits-check passes, the flat rendering it
/// approved stays within the width budget up to its first mandatory stop.
pub proof fn lemma_fits_width(limit: nat, cur: nat, s: Seq<StackItem>)
    requires
        fits(limit, cur, s),
    ensures
        flat_extent(cur, s) <= limit,
    decreases stack_measure(s),
{
    if s.len() != 0 {
        let it = s.last();
        let rest = s.drop_last();
        match it.doc {
            Doc::Nil => {
                lemma_fits_width(limit, cur, rest);
            },
            Doc::Text(t) => {
                lemma_fits_width(limit, cur + t.len(), rest);
            },
            Doc::Line(_) => {},
            Doc::Break { broken, unbroken } => match it.mode {
                Mode::Broken => {},
                Mode::Flat => {
                    lemma_fits_width(limit, cur + unbroken.len(), rest);
                },
            },
            Doc::ForceBreak => {},
            Doc::Nest(_, inner) => {
                let ni = StackItem { indent: it.indent, mode: it.mode, doc: *inner };
                lemma_measure_push(rest, ni);
                lemma_fits_width(limit, cur, rest.push(ni));
            },
            Doc::NestCurrent(inner) => {
                let ni = StackItem { indent: it.indent, mode: it.mode, doc: *inner };
                lemma_measure_push(rest, ni);
                lemma_fits_width(limit, cur, rest.push(ni));
            },
            Doc::Group(inner) => {
                let ni = StackItem { indent: it.indent, mode: Mode::Flat, doc: *inner };
                lemma_measure_push(rest, ni);
                lemma_fits_width(limit, cur, rest.push(ni));
            },
            Doc::Cons(l, r) => {
                let ri = StackItem { indent: it.indent, mode: it.mode, doc: *r };
                let li = StackItem { indent: it.indent, mode: it.mode, doc: *l };
                lemma_measure_push(rest, ri);
                lemma_measure_push(rest.push(ri), li);
                lemma_fits_width(limit, cur, rest.push(ri).push(li));
            },
        }
    }
}

/// Width respect for groups: a group is rendered flat exactly when the
/// fits-check on its content plus the remainder of the stack passes, and in
/// that case the flattened text starting at the current column never runs
/// past the width budget before the first mandatory line break.
pub proof fn lemma_group_flat_width(
    limit: nat,
    width: nat,
    rest: Seq<StackItem>,
    indent: nat,
    inner: Doc,
)
    ensures
        fits(limit, width, rest.push(StackItem { indent, mode: Mode::Flat, doc: inner }))
            ==> flat_extent(
            width,
            rest.push(StackItem { indent, mode: Mode::Flat, doc: inner }),
        ) <= limit,
{
    let s = rest.push(StackItem { indent, mode: Mode::Flat, doc: inner });
    if fits(limit, width, s) {
        lemma_fits_width(limit, width, s);
    }
}

/// Decomposition of a rendering: the output of a stack `s2 + s1` is the
/// output of the `s1` part (rendered first) followed by the rendering of
/// `s2` from the column the `s1` part reached. The deeper entries are
/// untouched while the top part is processed.
pub proof fn lemma_fmt_split(limit: nat, width: nat, s2: Seq<StackItem>, s1: Seq<StackItem>)
    ensures
        exists|out1: Seq<char>, w2: nat|
            fmt(limit, width, s2 + s1) == out1 + fmt(limit, w2, s2),
    decreases stack_measure(s1),
{
    if s1.len() == 0 {
        assert(s2 + s1 =~= s2);
        assert(Seq::<char>::empty() + fmt(limit, width, s2) =~= fmt(limit, width, s2));
        assert(fmt(limit, width, s2 + s1) == Seq::<char>::empty() + fmt(limit, width, s2));
    } else {
        let it = s1.last();
        let rest1 = s1.drop_last();
        assert((s2 + s1).last() == it);
        assert((s2 + s1).drop_last() =~= s2 + rest1);
        match it.doc {
            Doc::Nil => {
                lemma_fmt_split(limit, width, s2, rest1);
                let (o, w2) = choose|o: Seq<char>, w2: nat|
                    fmt(limit, width, s2 + rest1) == o + fmt(limit, w2, s2);
                assert(fmt(limit, width, s2 + s1) == o + fmt(limit, w2, s2));
            },
            Doc::ForceBreak => {
                lemma_fmt_split(limit, width, s2, rest1);
                let (o, w2) = choose|o: Seq<char>, w2: nat|
                    fmt(limit, width, s2 + rest1) == o + fmt(limit, w2, s2);
                assert(fmt(limit, width, s2 + s1) == o + fmt(limit, w2, s2));
            },
            Doc::Text(t) => {
                let w1 = crate::layout::wadd(width, t.len());
                lemma_fmt_split(limit, w1, s2, rest1);
                let (o, w2) = choose|o: Seq<char>, w2: nat|
                    fmt(limit, w1, s2 + rest1) == o + fmt(limit, w2, s2);
                assert(t + (o + fmt(limit, w2, s2)) =~= (t + o) + fmt(limit, w2, s2));
                assert(fmt(limit, width, s2 + s1) == (t + o) + fmt(limit, w2, s2));
            },
            Doc::Line(n) => {
                lemma_fmt_split(limit, it.indent, s2, rest1);
                let (o, w2) = choose|o: Seq<char>, w2: nat|
                    fmt(limit, it.indent, s2 + rest1) == o + fmt(limit, w2, s2);
                let pre = newlines(n) + spaces(it.indent);
                assert(pre + (o + fmt(limit, w2, s2)) =~= (pre + o) + fmt(limit, w2, s2));
                assert(fmt(limit, width, s2 + s1) == (pre + o) + fmt(limit, w2, s2));
            },
            Doc::Break { broken, unbroken } => match it.mode {
                Mode::Flat => {
                    let w1 = crate::layout::wadd(width, unbroken.len());
                    lemma_fmt_split(limit, w1, s2, rest1);
                    let (o, w2) = choose|o: Seq<char>, w2: nat|
                        fmt(limit, w1, s2 + rest1) == o + fmt(limit, w2, s2);
                    assert(unbroken + (o + fmt(limit, w2, s2)) =~= (unbroken + o) + fmt(
                        limit,
                        w2,
                        s2,
                    ));
                    assert(fmt(limit, width, s2 + s1) == (unbroken + o) + fmt(limit, w2, s2));
                },
                Mode::Broken => {
                    lemma_fmt_split(limit, it.indent, s2, rest1);
                    let (o, w2) = choose|o: Seq<char>, w2: nat|
                        fmt(limit, it.indent, s2 + rest1) == o + fmt(limit, w2, s2);
                    let pre = broken + newlines(1) + spaces(it.indent);
                    assert(pre + (o + fmt(limit, w2, s2)) =~= (pre + o) + fmt(limit, w2, s2));
                    assert(fmt(limit, width, s2 + s1) == (pre + o) + fmt(limit, w2, s2));
                },
            },
            Doc::Nest(delta, inner) => {
                let ni = StackItem {
                    indent: crate::layout::wadd(it.indent, delta),
                    mode: it.mode,
                    doc: *inner,
                };
                assert((s2 + rest1).push(ni) =~= s2 + rest1.push(ni));
                lemma_measure_push(rest1, ni);
                lemma_fmt_split(limit, width, s2, rest1.push(ni));
                let (o, w2) = choose|o: Seq<char>, w2: nat|
                    fmt(limit, width, s2 + rest1.push(ni)) == o + fmt(limit, w2, s2);
                assert(fmt(limit, width, s2 + s1) == o + fmt(limit, w2, s2));
            },
            Doc::NestCurrent(inner) => {
                let ni = StackItem { indent: width, mode: it.mode, doc: *inner };
                assert((s2 + rest1).push(ni) =~= s2 + rest1.push(ni));
                lemma_measure_push(rest1, ni);
                lemma_fmt_split(limit, width, s2, rest1.push(ni));
                let (o, w2) = choose|o: Seq<char>, w2: nat|
                    fmt(limit, width, s2 + rest1.push(ni)) == o + fmt(limit, w2, s2);
                assert(fmt(limit, width, s2 + s1) == o + fmt(limit, w2, s2));
            },
            Doc::Group(inner) => {
                let flat = fits(
                    limit,
                    width,
                    (s2 + rest1).push(
                        StackItem { indent: it.indent, mode: Mode::Flat, doc: *inner },
                    ),
                );
                let m = if flat {
                    Mode::Flat
                } else {
                    Mode::Broken
                };
                let ni = StackItem { indent: it.indent, mode: m, doc: *inner };
                assert((s2 + rest1).push(ni) =~= s2 + rest1.push(ni));
                lemma_measure_push(rest1, ni);
                lemma_fmt_split(limit, width, s2, rest1.push(ni));
                let (o, w2) = choose|o: Seq<char>, w2: nat|
                    fmt(limit, width, s2 + rest1.push(ni)) == o + fmt(limit, w2, s2);
                assert(fmt(limit, width, s2 + s1) == o + fmt(limit, w2, s2));
            },
            Doc::Cons(l, r) => {
                let ri = StackItem { indent: it.indent, mode: it.mode, doc: *r };
                let li = StackItem { indent: it.indent, mode: it.mode, doc: *l };
                assert((s2 + rest1).push(ri).push(li) =~= s2 + rest1.push(ri).push(li));
                lemma_measure_push(rest1, ri);
                lemma_measure_push(rest1.push(ri), li);
                lemma_fmt_split(limit, width, s2, rest1.push(ri).push(li));
                let (o, w2) = choose|o: Seq<char>, w2: nat|
                    fmt(limit, width, s2 + rest1.push(ri).push(li)) == o + fmt(limit, w2, s2);
                assert(fmt(limit, width, s2 + s1) == o + fmt(limit, w2, s2));
            },
        }
    }
}

/// The whole formatted module ends with a newline: the assembler closes
/// every module with one final line break.
pub proof fn lemma_module_trailing_newline(m: Module)
    ensures
        exists|p: Seq<char>| pretty_module_spec(m) == p + newlines(1),
{
    let md = crate::render::module_doc_spec(m);
    let top = StackItem { indent: 0, mode: Mode::Broken, doc: md };
    let body = crate::doc::dcons(
        crate::doc::dcons(
            crate::render::imports_doc_upto(m.statements@, m.statements@.len() as int),
            crate::render::module_sep(m.statements@),
        ),
        crate::render::others_doc_upto(m.statements@, m.statements@.len() as int),
    );
    assert(md == crate::doc::dcons(body, Doc::Line(1)));
    let ri = StackItem { indent: 0, mode: Mode::Broken, doc: Doc::Line(1) };
    let li = StackItem { indent: 0, mode: Mode::Broken, doc: body };
    assert(seq![top].last() == top);
    assert(seq![top].drop_last() =~= Seq::<StackItem>::empty());
    assert(render_spec(80, md) == fmt(
        80,
        0,
        Seq::<StackItem>::empty().push(ri).push(li),
    ));
    assert(Seq::<StackItem>::empty().push(ri).push(li) =~= seq![ri] + seq![li]);
    lemma_fmt_split(80, 0, seq![ri], seq![li]);
    let (o, w2) = choose|o: Seq<char>, w2: nat|
        fmt(80, 0, seq![ri] + seq![li]) == o + fmt(80, w2, seq![ri]);
    assert(seq![ri].last() == ri);
    assert(seq![ri].drop_last() =~= Seq::<StackItem>::empty());
    assert(fmt(80, w2, seq![ri]) == newlines(1) + spaces(0) + fmt(
        80,
        0,
        Seq::<StackItem>::empty(),
    ));
    assert(newlines(1) + spaces(0) + fmt(80, 0, Seq::<StackItem>::empty()) =~= newlines(1));
    assert(pretty_module_spec(m) == o + newlines(1));
}

/// An empty argument list renders as exactly `()`, flat or broken, at any
/// column: it holds no breakable content.
pub proof fn lemma_wrap_args_empty(
    limit: nat,
    width: nat,
    s: Seq<StackItem>,
    ind: nat,
    mode: Mode,
)
    ensures
        fmt(
            limit,
            width,
            s.push(StackItem { indent: ind, mode, doc: wrap_args_spec(Seq::empty()) }),
        ) == "()"@ + fmt(limit, crate::layout::wadd(width, "()"@.len()), s),
{
    let it = StackItem { indent: ind, mode, doc: wrap_args_spec(Seq::empty()) };
    assert(s.push(it).last() == it);
    assert(s.push(it).drop_last() =~= s);
}

/// Trailing-comma discipline, breaking case: when the fits-check fails, a
/// non-empty argument list is rendered broken, and its rendering ends with
/// a comma, a line break onto the closing indentation, and the closing
/// parenthesis, before whatever follows the list.
pub proof fn lemma_wrap_args_must_break(
    limit: nat,
    width: nat,
    s: Seq<StackItem>,
    ind: nat,
    mode: Mode,
    ds: Seq<Doc>,
)
    requires
        ds.len() > 0,
        !fits(
            limit,
            width,
            s.push(StackItem { indent: ind, mode: Mode::Flat, doc: wrap_args_inner(ds) }),
        ),
    ensures
        exists|o: Seq<char>|
            fmt(
                limit,
                width,
                s.push(StackItem { indent: ind, mode, doc: wrap_args_spec(ds) }),
            ) == o + (","@ + newlines(1) + spaces(ind) + (")"@ + fmt(
                limit,
                crate::layout::wadd(ind, ")"@.len()),
                s,
            ))),
{
    let inner = wrap_args_inner(ds);
    let git = StackItem { indent: ind, mode, doc: wrap_args_spec(ds) };
    assert(s.push(git).last() == git);
    assert(s.push(git).drop_last() =~= s);
    let bi = StackItem { indent: ind, mode: Mode::Broken, doc: inner };
    assert(fmt(limit, width, s.push(git)) == fmt(limit, width, s.push(bi)));
    let pr = StackItem { indent: ind, mode: Mode::Broken, doc: crate::doc::dtext(")"@) };
    let cl = StackItem {
        indent: ind,
        mode: Mode::Broken,
        doc: crate::doc::dcons(
            crate::doc::dnest(
                crate::render::INDENT as nat,
                crate::doc::dcons(
                    Doc::Break { broken: "("@, unbroken: "("@ },
                    crate::render::join_spec(ds, crate::render::sep_break(","@)),
                ),
            ),
            Doc::Break { broken: ","@, unbroken: ""@ },
        ),
    };
    assert(s.push(bi).last() == bi);
    assert(s.push(bi).drop_last() =~= s);
    assert(fmt(limit, width, s.push(bi)) == fmt(limit, width, s.push(pr).push(cl)));
    let bk = StackItem {
        indent: ind,
        mode: Mode::Broken,
        doc: (Doc::Break { broken: ","@, unbroken: ""@ }),
    };
    let np = StackItem {
        indent: ind,
        mode: Mode::Broken,
        doc: crate::doc::dnest(
            crate::render::INDENT as nat,
            crate::doc::dcons(
                Doc::Break { broken: "("@, unbroken: "("@ },
                crate::render::join_spec(ds, crate::render::sep_break(","@)),
            ),
        ),
    };
    assert(s.push(pr).push(cl).last() == cl);
    assert(s.push(pr).push(cl).drop_last() =~= s.push(pr));
    assert(fmt(limit, width, s.push(pr).push(cl)) == fmt(
        limit,
        width,
        s.push(pr).push(bk).push(np),
    ));
    assert(s.push(pr).push(bk).push(np) =~= (s.push(pr).push(bk)) + seq![np]);
    lemma_fmt_split(limit, width, s.push(pr).push(bk), seq![np]);
    let (o, w2) = choose|o: Seq<char>, w2: nat|
        fmt(limit, width, (s.push(pr).push(bk)) + seq![np]) == o + fmt(
            limit,
            w2,
            s.push(pr).push(bk),
        );
    assert(s.push(pr).push(bk).last() == bk);
    assert(s.push(pr).push(bk).drop_last() =~= s.push(pr));
    assert(fmt(limit, w2, s.push(pr).push(bk)) == ","@ + newlines(1) + spaces(ind) + fmt(
        limit,
        ind,
        s.push(pr),
    ));
    assert(s.push(pr).last() == pr);
    assert(s.push(pr).drop_last() =~= s);
    assert(fmt(limit, ind, s.push(pr)) == ")"@ + fmt(
        limit,
        crate::layout::wadd(ind, ")"@.len()),
        s,
    ));
    assert(fmt(limit, width, s.push(git)) == o + (","@ + newlines(1) + spaces(ind) + (")"@
        + fmt(limit, crate::layout::wadd(ind, ")"@.len()), s))));
}

/// Trailing-comma discipline, flat case: when the fits-check passes, the
/// list renders flat and the delimiter before the closing parenthesis
/// contributes its flat text, which is empty — no trailing comma appears.
pub proof fn lemma_wrap_args_flat(
    limit: nat,
    width: nat,
    s: Seq<StackItem>,
    ind: nat,
    mode: Mode,
    ds: Seq<Doc>,
)
    requires
        ds.len() > 0,
        fits(
            limit,
            width,
            s.push(StackItem { indent: ind, mode: Mode::Flat, doc: wrap_args_inner(ds) }),
        ),
    ensures
        exists|o: Seq<char>, w2: nat|
            fmt(
                limit,
                width,
                s.push(StackItem { indent: ind, mode, doc: wrap_args_spec(ds) }),
            ) == o + (""@ + (")"@ + fmt(
                limit,
                crate::layout::wadd(crate::layout::wadd(w2, ""@.len()), ")"@.len()),
                s,
            ))),
{
    let inner = wrap_args_inner(ds);
    let git = StackItem { indent: ind, mode, doc: wrap_args_spec(ds) };
    assert(s.push(git).last() == git);
    assert(s.push(git).drop_last() =~= s);
    let fi = StackItem { indent: ind, mode: Mode::Flat, doc: inner };
    assert(fmt(limit, width, s.push(git)) == fmt(limit, width, s.push(fi)));
    let pr = StackItem { indent: ind, mode: Mode::Flat, doc: crate::doc::dtext(")"@) };
    let bk = StackItem {
        indent: ind,
        mode: Mode::Flat,
        doc: (Doc::Break { broken: ","@, unbroken: ""@ }),
    };
    let np = StackItem {
        indent: ind,
        mode: Mode::Flat,
        doc: crate::doc::dnest(
            crate::render::INDENT as nat,
            crate::doc::dcons(
                Doc::Break { broken: "("@, unbroken: "("@ },
                crate::render::join_spec(ds, crate::render::sep_break(","@)),
            ),
        ),
    };
    let cl = StackItem {
        indent: ind,
        mode: Mode::Flat,
        doc: crate::doc::dcons(np.doc, bk.doc),
    };
    assert(s.push(fi).last() == fi);
    assert(s.push(fi).drop_last() =~= s);
    assert(fmt(limit, width, s.push(fi)) == fmt(limit, width, s.push(pr).push(cl)));
    assert(s.push(pr).push(cl).last() == cl);
    assert(s.push(pr).push(cl).drop_last() =~= s.push(pr));
    assert(fmt(limit, width, s.push(pr).push(cl)) == fmt(
        limit,
        width,
        s.push(pr).push(bk).push(np),
    ));
    assert(s.push(pr).push(bk).push(np) =~= (s.push(pr).push(bk)) + seq![np]);
    lemma_fmt_split(limit, width, s.push(pr).push(bk), seq![np]);
    let (o, w2) = choose|o: Seq<char>, w2: nat|
        fmt(limit, width, (s.push(pr).push(bk)) + seq![np]) == o + fmt(
            limit,
            w2,
            s.push(pr).push(bk),
        );
    assert(s.push(pr).push(bk).last() == bk);
    assert(s.push(pr).push(bk).drop_last() =~= s.push(pr));
    assert(fmt(limit, w2, s.push(pr).push(bk)) == ""@ + fmt(
        limit,
        crate::layout::wadd(w2, ""@.len()),
        s.push(pr),
    ));
    assert(s.push(pr).last() == pr);
    assert(s.push(pr).drop_last() =~= s);
    assert(fmt(limit, crate::layout::wadd(w2, ""@.len()), s.push(pr)) == ")"@ + fmt(
        limit,
        crate::layout::wadd(crate::layout::wadd(w2, ""@.len()), ")"@.len()),
        s,
    ));
    assert(fmt(limit, width, s.push(git)) == o + (""@ + (")"@ + fmt(
        limit,
        crate::layout::wadd(crate::layout::wadd(w2, ""@.len()), ")"@.len()),
        s,
    ))));
}

/// Import separation, document level: the separator between the import
/// block and the declarations is one blank line exactly when the module has
/// both imports and declarations, and nothing otherwise.
pub proof fn lemma_module_separator(m: Module)
    ensures
        crate::render::module_sep(m.statements@) == if crate::render::has_import_upto(
            m.statements@,
            m.statements@.len() as int,
        ) && crate::render::has_other_upto(m.statements@, m.statements@.len() as int) {
            Doc::Line(2)
        } else {
            Doc::Nil
        },
{
}

/// Import separation, output level: a module with both imports and
/// declarations renders as the import block, then exactly one blank line
/// (two newlines at column zero), then the declarations followed by the
/// final newline.
pub proof fn lemma_import_separation(m: Module)
    requires
        crate::render::has_import_upto(m.statements@, m.statements@.len() as int),
        crate::render::has_other_upto(m.statements@, m.statements@.len() as int),
    ensures
        exists|io: Seq<char>|
            pretty_module_spec(m) == io + (newlines(2) + spaces(0) + fmt(
                80,
                0,
                seq![
                    StackItem { indent: 0, mode: Mode::Broken, doc: Doc::Line(1) },
                    StackItem {
                        indent: 0,
                        mode: Mode::Broken,
                        doc: crate::render::others_doc_upto(
                            m.statements@,
                            m.statements@.len() as int,
                        ),
                    },
                ],
            )),
{
    let ss = m.statements@;
    let imp = crate::render::imports_doc_upto(ss, ss.len() as int);
    let oth = crate::render::others_doc_upto(ss, ss.len() as int);
    let md = crate::render::module_doc_spec(m);
    assert(crate::render::module_sep(ss) == Doc::Line(2));
    let body = crate::doc::dcons(crate::doc::dcons(imp, Doc::Line(2)), oth);
    assert(md == crate::doc::dcons(body, Doc::Line(1)));
    let top = StackItem { indent: 0, mode: Mode::Broken, doc: md };
    let ri = StackItem { indent: 0, mode: Mode::Broken, doc: Doc::Line(1) };
    let li = StackItem { indent: 0, mode: Mode::Broken, doc: body };
    assert(seq![top].last() == top);
    assert(seq![top].drop_last() =~= Seq::<StackItem>::empty());
    assert(render_spec(80, md) == fmt(
        80,
        0,
        Seq::<StackItem>::empty().push(ri).push(li),
    ));
    let oi = StackItem { indent: 0, mode: Mode::Broken, doc: oth };
    let ci = StackItem {
        indent: 0,
        mode: Mode::Broken,
        doc: crate::doc::dcons(imp, Doc::Line(2)),
    };
    let st1 = Seq::<StackItem>::empty().push(ri).push(li);
    assert(st1.last() == li);
    assert(st1.drop_last() =~= seq![ri]);
    assert(fmt(80, 0, st1) == fmt(80, 0, seq![ri].push(oi).push(ci)));
    let st2 = seq![ri].push(oi).push(ci);
    assert(st2.last() == ci);
    assert(st2.drop_last() =~= seq![ri, oi]);
    let si = StackItem { indent: 0, mode: Mode::Broken, doc: Doc::Line(2) };
    let ii = StackItem { indent: 0, mode: Mode::Broken, doc: imp };
    assert(fmt(80, 0, st2) == fmt(80, 0, seq![ri, oi].push(si).push(ii)));
    assert(seq![ri, oi].push(si).push(ii) =~= (seq![ri, oi].push(si)) + seq![ii]);
    lemma_fmt_split(80, 0, seq![ri, oi].push(si), seq![ii]);
    let (o, w2) = choose|o: Seq<char>, w2: nat|
        fmt(80, 0, (seq![ri, oi].push(si)) + seq![ii]) == o + fmt(
            80,
            w2,
            seq![ri, oi].push(si),
        );
    assert(seq![ri, oi].push(si).last() == si);
    assert(seq![ri, oi].push(si).drop_last() =~= seq![ri, oi]);
    assert(fmt(80, w2, seq![ri, oi].push(si)) == newlines(2) + spaces(0) + fmt(
        80,
        0,
        seq![ri, oi],
    ));
    assert(pretty_module_spec(m) == o + (newlines(2) + spaces(0) + fmt(80, 0, seq![ri, oi])));
}

/// Without imports, the import block renders as nothing.
pub proof fn lemma_no_imports_doc(ss: Seq<crate::ast::Statement>, n: int)
    requires
        !crate::render::has_import_upto(ss, n),
    ensures
        crate::render::imports_doc_upto(ss, n) == Doc::Nil,
    decreases n,
{
    if n > 0 {
        assert(!crate::render::is_import(ss[n - 1]));
        assert(!crate::render::has_import_upto(ss, n - 1)) by {
            if crate::render::has_import_upto(ss, n - 1) {
                let i = choose|i: int|
                    0 <= i < n - 1 && crate::render::is_import(ss[i]);
                assert(crate::render::has_import_upto(ss, n));
            }
        }
        lemma_no_imports_doc(ss, n - 1);
    }
}

/// Without declarations, the declaration block renders as nothing.
pub proof fn lemma_no_others_doc(ss: Seq<crate::ast::Statement>, n: int)
    requires
        !crate::render::has_other_upto(ss, n),
    ensures
        crate::render::others_doc_upto(ss, n) == Doc::Nil,
    decreases n,
{
    if n > 0 {
        assert(crate::render::is_import(ss[n - 1]));
        assert(!crate::render::has_other_upto(ss, n - 1)) by {
            if crate::render::has_other_upto(ss, n - 1) {
                let i = choose|i: int|
                    0 <= i < n - 1 && !crate::render::is_import(ss[i]);
                assert(crate::render::has_other_upto(ss, n));
            }
        }
        lemma_no_others_doc(ss, n - 1);
    }
}

/// Import separation, negative direction: a module without imports renders
/// as its declarations followed by the final newline alone — no separator
/// blank line appears before them.
pub proof fn lemma_no_imports_no_separator(m: Module)
    requires
        !crate::render::has_import_upto(m.statements@, m.statements@.len() as int),
    ensures
        pretty_module_spec(m) == fmt(
            80,
            0,
            seq![
                StackItem { indent: 0, mode: Mode::Broken, doc: Doc::Line(1) },
                StackItem {
                    indent: 0,
                    mode: Mode::Broken,
                    doc: crate::render::others_doc_upto(
                        m.statements@,
                        m.statements@.len() as int,
                    ),
                },
            ],
        ),
{
    let ss = m.statements@;
    let oth = crate::render::others_doc_upto(ss, ss.len() as int);
    let md = crate::render::module_doc_spec(m);
    lemma_no_imports_doc(ss, ss.len() as int);
    assert(crate::render::module_sep(ss) == Doc::Nil);
    let body = crate::doc::dcons(crate::doc::dcons(Doc::Nil, Doc::Nil), oth);
    assert(md == crate::doc::dcons(body, Doc::Line(1)));
    let top = StackItem { indent: 0, mode: Mode::Broken, doc: md };
    let ri = StackItem { indent: 0, mode: Mode::Broken, doc: Doc::Line(1) };
    let li = StackItem { indent: 0, mode: Mode::Broken, doc: body };
    assert(seq![top].last() == top);
    assert(seq![top].drop_last() =~= Seq::<StackItem>::empty());
    assert(render_spec(80, md) == fmt(80, 0, Seq::<StackItem>::empty().push(ri).push(li)));
    let oi = StackItem { indent: 0, mode: Mode::Broken, doc: oth };
    let ci = StackItem {
        indent: 0,
        mode: Mode::Broken,
        doc: crate::doc::dcons(Doc::Nil, Doc::Nil),
    };
    let st1 = Seq::<StackItem>::empty().push(ri).push(li);
    assert(st1.last() == li);
    assert(st1.drop_last() =~= seq![ri]);
    assert(fmt(80, 0, st1) == fmt(80, 0, seq![ri].push(oi).push(ci)));
    let st2 = seq![ri].push(oi).push(ci);
    let n1 = StackItem { indent: 0, mode: Mode::Broken, doc: Doc::Nil };
    assert(st2.last() == ci);
    assert(st2.drop_last() =~= seq![ri, oi]);
    assert(fmt(80, 0, st2) == fmt(80, 0, seq![ri, oi].push(n1).push(n1)));
    let st3 = seq![ri, oi].push(n1).push(n1);
    assert(st3.last() == n1);
    assert(st3.drop_last() =~= seq![ri, oi].push(n1));
    assert(fmt(80, 0, st3) == fmt(80, 0, seq![ri, oi].push(n1)));
    let st4 = seq![ri, oi].push(n1);
    assert(st4.last() == n1);
    assert(st4.drop_last() =~= seq![ri, oi]);
    assert(fmt(80, 0, st4) == fmt(80, 0, seq![ri, oi]));
}

/// Import separation, negative direction: a module with imports only
/// renders as the import block followed by the final newline alone — no
/// blank line follows the imports.
pub proof fn lemma_no_declarations_no_separator(m: Module)
    requires
        !crate::render::has_other_upto(m.statements@, m.statements@.len() as int),
    ensures
        pretty_module_spec(m) == fmt(
            80,
            0,
            seq![
                StackItem { indent: 0, mode: Mode::Broken, doc: Doc::Line(1) },
                StackItem { indent: 0, mode: Mode::Broken, doc: Doc::Nil },
                StackItem { indent: 0, mode: Mode::Broken, doc: Doc::Nil },
                StackItem {
                    indent: 0,
                    mode: Mode::Broken,
                    doc: crate::render::imports_doc_upto(
                        m.statements@,
                        m.statements@.len() as int,
                    ),
                },
            ],
        ),
{
    let ss = m.statements@;
    let imp = crate::render::imports_doc_upto(ss, ss.len() as int);
    let md = crate::render::module_doc_spec(m);
    lemma_no_others_doc(ss, ss.len() as int);
    assert(crate::render::module_sep(ss) == Doc::Nil);
    let body = crate::doc::dcons(crate::doc::dcons(imp, Doc::Nil), Doc::Nil);
    assert(md == crate::doc::dcons(body, Doc::Line(1)));
    let top = StackItem { indent: 0, mode: Mode::Broken, doc: md };
    let ri = StackItem { indent: 0, mode: Mode::Broken, doc: Doc::Line(1) };
    let li = StackItem { indent: 0, mode: Mode::Broken, doc: body };
    assert(seq![top].last() == top);
    assert(seq![top].drop_last() =~= Seq::<StackItem>::empty());
    assert(render_spec(80, md) == fmt(80, 0, Seq::<StackItem>::empty().push(ri).push(li)));
    let n1 = StackItem { indent: 0, mode: Mode::Broken, doc: Doc::Nil };
    let ci = StackItem {
        indent: 0,
        mode: Mode::Broken,
        doc: crate::doc::dcons(imp, Doc::Nil),
    };
    let st1 = Seq::<StackItem>::empty().push(ri).push(li);
    assert(st1.last() == li);
    assert(st1.drop_last() =~= seq![ri]);
    assert(fmt(80, 0, st1) == fmt(80, 0, seq![ri].push(n1).push(ci)));
    let st2 = seq![ri].push(n1).push(ci);
    let ii = StackItem { indent: 0, mode: Mode::Broken, doc: imp };
    assert(st2.last() == ci);
    assert(st2.drop_last() =~= seq![ri, n1]);
    assert(fmt(80, 0, st2) == fmt(80, 0, seq![ri, n1].push(n1).push(ii)));
    assert(seq![ri, n1].push(n1).push(ii) =~= seq![ri, n1, n1, ii]);
}

} // verus!
