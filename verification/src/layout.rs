//! The layout engine: decides, for a fixed line-width budget, where a
//! document breaks and how it is indented, and produces the final text.
//!
//! The algorithm is a single pass over an explicit work stack of
//! `(indent, mode, document)` triples, processed in document order. A group
//! is rendered flat when a fits-check succeeds: the check simulates a flat
//! rendering of the group's content followed by the remainder of the stack,
//! and succeeds when no force-break is met and the column stays within the
//! width budget up to the first mandatory line break.

use vstd::prelude::*;
use vstd::string::StrSliceExecFns;
use vstd::string::StringExecFns;

use crate::doc::Doc;
use crate::doc::Document;
use crate::doc::doc_size;
use crate::doc::document_view;

verus! {

/// Rendering mode of a stack entry: line breaks inside a `Flat` entry render
/// as their flat text, those inside a `Broken` entry as newlines.
#[derive(Clone, Copy, PartialEq, Eq, Structural)]
pub enum Mode {
    Flat,
    Broken,
}

/// One entry of the model work stack.
pub struct StackItem {
    pub indent: nat,
    pub mode: Mode,
    pub doc: Doc,
}

/// Total document size held by a work stack; the termination measure of the
/// layout recursion. The stack is processed from its last element down.
pub open spec fn stack_measure(s: Seq<StackItem>) -> nat
    decreases s.len(),
{
    if s.len() == 0 {
        0
    } else {
        doc_size(s.last().doc) + stack_measure(s.drop_last())
    }
}

pub proof fn lemma_measure_push(s: Seq<StackItem>, it: StackItem)
    ensures
        stack_measure(s.push(it)) == doc_size(it.doc) + stack_measure(s),
{
    assert(s.push(it).last() == it);
    assert(s.push(it).drop_last() =~= s);
}

/// Addition of column counts, saturating at the machine word limit; column
/// positions beyond that are all treated alike.
pub open spec fn wadd(a: nat, b: nat) -> nat {
    if a + b > usize::MAX {
        usize::MAX as nat
    } else {
        (a + b) as nat
    }
}

/// `n` newline characters.
pub open spec fn newlines(n: nat) -> Seq<char> {
    Seq::new(n, |i: int| '\n')
}

/// `n` space characters.
pub open spec fn spaces(n: nat) -> Seq<char> {
    Seq::new(n, |i: int| ' ')
}

/// The fits-check: whether a flat rendering of the stack, starting at column
/// `cur`, stays within `limit` columns and meets no force-break before the
/// first mandatory newline — either a `Line`, or a `Break` of an entry
/// already in `Broken` mode, or the end of the document.
pub open spec fn fits(limit: nat, cur: nat, s: Seq<StackItem>) -> bool
    decreases stack_measure(s),
    via fits_decreases
{
    if cur > limit {
        false
    } else if s.len() == 0 {
        true
    } else {
        let it = s.last();
        let rest = s.drop_last();
        match it.doc {
            Doc::Nil => fits(limit, cur, rest),
            Doc::Text(t) => fits(limit, cur + t.len(), rest),
            Doc::Line(_) => true,
            Doc::Break { broken, unbroken } => match it.mode {
                Mode::Broken => true,
                Mode::Flat => fits(limit, cur + unbroken.len(), rest),
            },
            Doc::ForceBreak => false,
            Doc::Nest(_, inner) => fits(
                limit,
                cur,
                rest.push(StackItem { indent: it.indent, mode: it.mode, doc: *inner }),
            ),
            Doc::NestCurrent(inner) => fits(
                limit,
                cur,
                rest.push(StackItem { indent: it.indent, mode: it.mode, doc: *inner }),
            ),
            Doc::Group(inner) => fits(
                limit,
                cur,
                rest.push(StackItem { indent: it.indent, mode: Mode::Flat, doc: *inner }),
            ),
            Doc::Cons(l, r) => fits(
                limit,
                cur,
                rest.push(StackItem { indent: it.indent, mode: it.mode, doc: *r })
                    .push(StackItem { indent: it.indent, mode: it.mode, doc: *l }),
            ),
        }
    }
}

#[via_fn]
proof fn fits_decreases(limit: nat, cur: nat, s: Seq<StackItem>) {
    if cur <= limit && s.len() != 0 {
        let it = s.last();
        let rest = s.drop_last();
        match it.doc {
            Doc::Nest(_, inner) => {
                lemma_measure_push(
                    rest,
                    StackItem { indent: it.indent, mode: it.mode, doc: *inner },
                );
            },
            Doc::NestCurrent(inner) => {
                lemma_measure_push(
                    rest,
                    StackItem { indent: it.indent, mode: it.mode, doc: *inner },
                );
            },
            Doc::Group(inner) => {
                lemma_measure_push(
                    rest,
                    StackItem { indent: it.indent, mode: Mode::Flat, doc: *inner },
                );
            },
            Doc::Cons(l, r) => {
                let ri = StackItem { indent: it.indent, mode: it.mode, doc: *r };
                let li = StackItem { indent: it.indent, mode: it.mode, doc: *l };
                lemma_measure_push(rest, ri);
                lemma_measure_push(rest.push(ri), li);
            },
            _ => {},
        }
    }
}

/// The rendering of a work stack, starting at column `width` with width
/// budget `limit`: the meaning of the layout algorithm, processed from the
/// last stack entry down.
pub open spec fn fmt(limit: nat, width: nat, s: Seq<StackItem>) -> Seq<char>
    decreases stack_measure(s),
    via fmt_decreases
{
    if s.len() == 0 {
        Seq::empty()
    } else {
        let it = s.last();
        let rest = s.drop_last();
        match it.doc {
            Doc::Nil => fmt(limit, width, rest),
            Doc::Text(t) => t + fmt(limit, wadd(width, t.len()), rest),
            Doc::Line(n) => newlines(n) + spaces(it.indent) + fmt(limit, it.indent, rest),
            Doc::Break { broken, unbroken } => match it.mode {
                Mode::Flat => unbroken + fmt(limit, wadd(width, unbroken.len()), rest),
                Mode::Broken => broken + newlines(1) + spaces(it.indent) + fmt(
                    limit,
                    it.indent,
                    rest,
                ),
            },
            Doc::ForceBreak => fmt(limit, width, rest),
            Doc::Nest(delta, inner) => fmt(
                limit,
                width,
                rest.push(
                    StackItem { indent: wadd(it.indent, delta), mode: it.mode, doc: *inner },
                ),
            ),
            Doc::NestCurrent(inner) => fmt(
                limit,
                width,
                rest.push(StackItem { indent: width, mode: it.mode, doc: *inner }),
            ),
            Doc::Group(inner) => {
                let flat = fits(
                    limit,
                    width,
                    rest.push(StackItem { indent: it.indent, mode: Mode::Flat, doc: *inner }),
                );
                let mode = if flat {
                    Mode::Flat
                } else {
                    Mode::Broken
                };
                fmt(
                    limit,
                    width,
                    rest.push(StackItem { indent: it.indent, mode, doc: *inner }),
                )
            },
            Doc::Cons(l, r) => fmt(
                limit,
                width,
                rest.push(StackItem { indent: it.indent, mode: it.mode, doc: *r })
                    .push(StackItem { indent: it.indent, mode: it.mode, doc: *l }),
            ),
        }
    }
}

#[via_fn]
proof fn fmt_decreases(limit: nat, width: nat, s: Seq<StackItem>) {
    if s.len() != 0 {
        let it = s.last();
        let rest = s.drop_last();
        match it.doc {
            Doc::Nest(delta, inner) => {
                lemma_measure_push(
                    rest,
                    StackItem { indent: wadd(it.indent, delta), mode: it.mode, doc: *inner },
                );
            },
            Doc::NestCurrent(inner) => {
                lemma_measure_push(
                    rest,
                    StackItem { indent: width, mode: it.mode, doc: *inner },
                );
            },
            Doc::Group(inner) => {
                lemma_measure_push(
                    rest,
                    StackItem { indent: it.indent, mode: Mode::Flat, doc: *inner },
                );
                lemma_measure_push(
                    rest,
                    StackItem { indent: it.indent, mode: Mode::Broken, doc: *inner },
                );
            },
            Doc::Cons(l, r) => {
                let ri = StackItem { indent: it.indent, mode: it.mode, doc: *r };
                let li = StackItem { indent: it.indent, mode: it.mode, doc: *l };
                lemma_measure_push(rest, ri);
                lemma_measure_push(rest.push(ri), li);
            },
            _ => {},
        }
    }
}

/// The complete rendering of one document within `limit` columns.
pub open spec fn render_spec(limit: nat, d: Doc) -> Seq<char> {
    fmt(limit, 0, seq![StackItem { indent: 0, mode: Mode::Broken, doc: d }])
}

/// View of the executable work stack.
pub open spec fn stack_view(s: Seq<(usize, Mode, Document)>) -> Seq<StackItem> {
    Seq::new(
        s.len(),
        |i: int| StackItem {
            indent: s[i].0 as nat,
            mode: s[i].1,
            doc: document_view(s[i].2),
        },
    )
}

/// View of the borrowed work stack used by the fits-check.
pub open spec fn ref_stack_view(s: Seq<(usize, Mode, &Document)>) -> Seq<StackItem> {
    Seq::new(
        s.len(),
        |i: int| StackItem {
            indent: s[i].0 as nat,
            mode: s[i].1,
            doc: document_view(*s[i].2),
        },
    )
}

/// Column addition, saturating at the machine word limit; mirrors `wadd`.
fn sat_add(a: usize, b: usize) -> (r: usize)
    ensures
        r as nat == wadd(a as nat, b as nat),
{
    if a > usize::MAX - b {
        usize::MAX
    } else {
        a + b
    }
}

/// Appends `n` newline characters to `out`.
fn emit_newlines(out: &mut String, n: usize)
    ensures
        final(out)@ == old(out)@ + newlines(n as nat),
{
    let mut k: usize = 0;
    while k < n
        invariant
            k <= n,
            out@ =~= old(out)@ + newlines(k as nat),
        decreases n - k,
    {
        out.append("\n");
        k = k + 1;
        proof {
            reveal_strlit("\n");
            assert(newlines(k as nat) =~= newlines((k - 1) as nat) + "\n"@);
        }
    }
}

/// Appends `n` space characters to `out`.
fn emit_spaces(out: &mut String, n: usize)
    ensures
        final(out)@ == old(out)@ + spaces(n as nat),
{
    let mut k: usize = 0;
    while k < n
        invariant
            k <= n,
            out@ =~= old(out)@ + spaces(k as nat),
        decreases n - k,
    {
        out.append(" ");
        k = k + 1;
        proof {
            reveal_strlit(" ");
            assert(spaces(k as nat) =~= spaces((k - 1) as nat) + " "@);
        }
    }
}

/// Executable fits-check: consumes a borrowed work stack and decides whether
/// its flat rendering, starting at column `start`, stays within `limit`.
fn fits_exec(
    limit: usize,
    start: usize,
    work: Vec<(usize, Mode, &Document)>,
    Ghost(orig): Ghost<Seq<StackItem>>,
) -> (r: bool)
    requires
        orig == ref_stack_view(work@),
    ensures
        r == fits(limit as nat, start as nat, orig),
{
    let mut wk = work;
    let mut cur = start;
    if cur > limit {
        return false;
    }
    loop
        invariant
            cur <= limit,
            fits(limit as nat, start as nat, orig) == fits(
                limit as nat,
                cur as nat,
                ref_stack_view(wk@),
            ),
        decreases stack_measure(ref_stack_view(wk@)),
    {
        let ghost s0 = ref_stack_view(wk@);
        let ghost c0 = cur as nat;
        if wk.len() == 0 {
            proof {
                assert(fits(limit as nat, c0, s0) == true);
            }
            return true;
        }
        let (ind, mode, d) = wk.pop().unwrap();
        let ghost item = StackItem { indent: ind as nat, mode: mode, doc: document_view(*d) };
        proof {
            assert(s0.last() == item);
            assert(ref_stack_view(wk@) =~= s0.drop_last());
        }
        match d {
            Document::Nil => {
                proof {
                    assert(fits(limit as nat, c0, s0) == fits(
                        limit as nat,
                        c0,
                        s0.drop_last(),
                    ));
                }
            },
            Document::Text(t) => {
                let l = t.as_str().unicode_len();
                proof {
                    assert(fits(limit as nat, c0, s0) == fits(
                        limit as nat,
                        c0 + t@.len(),
                        s0.drop_last(),
                    ));
                }
                if l > limit - cur {
                    proof {
                        assert(fits(limit as nat, c0 + t@.len(), s0.drop_last()) == false);
                    }
                    return false;
                }
                cur = cur + l;
            },
            Document::Line(_) => {
                proof {
                    assert(fits(limit as nat, c0, s0) == true);
                }
                return true;
            },
            Document::Break { broken: _, unbroken } => {
                match mode {
                    Mode::Broken => {
                        proof {
                            assert(fits(limit as nat, c0, s0) == true);
                        }
                        return true;
                    },
                    Mode::Flat => {
                        let l = unbroken.as_str().unicode_len();
                        proof {
                            assert(fits(limit as nat, c0, s0) == fits(
                                limit as nat,
                                c0 + unbroken@.len(),
                                s0.drop_last(),
                            ));
                        }
                        if l > limit - cur {
                            proof {
                                assert(fits(
                                    limit as nat,
                                    c0 + unbroken@.len(),
                                    s0.drop_last(),
                                ) == false);
                            }
                            return false;
                        }
                        cur = cur + l;
                    },
                }
            },
            Document::ForceBreak => {
                proof {
                    assert(fits(limit as nat, c0, s0) == false);
                }
                return false;
            },
            Document::Nest(_, inner) => {
                wk.push((ind, mode, &**inner));
                proof {
                    let ni = StackItem {
                        indent: ind as nat,
                        mode: mode,
                        doc: document_view(**inner),
                    };
                    assert(ref_stack_view(wk@) =~= s0.drop_last().push(ni));
                    lemma_measure_push(s0.drop_last(), ni);
                    assert(fits(limit as nat, c0, s0) == fits(
                        limit as nat,
                        c0,
                        s0.drop_last().push(ni),
                    ));
                }
            },
            Document::NestCurrent(inner) => {
                wk.push((ind, mode, &**inner));
                proof {
                    let ni = StackItem {
                        indent: ind as nat,
                        mode: mode,
                        doc: document_view(**inner),
                    };
                    assert(ref_stack_view(wk@) =~= s0.drop_last().push(ni));
                    lemma_measure_push(s0.drop_last(), ni);
                    assert(fits(limit as nat, c0, s0) == fits(
                        limit as nat,
                        c0,
                        s0.drop_last().push(ni),
                    ));
                }
            },
            Document::Group(inner) => {
                wk.push((ind, Mode::Flat, &**inner));
                proof {
                    let ni = StackItem {
                        indent: ind as nat,
                        mode: Mode::Flat,
                        doc: document_view(**inner),
                    };
                    assert(ref_stack_view(wk@) =~= s0.drop_last().push(ni));
                    lemma_measure_push(s0.drop_last(), ni);
                    assert(fits(limit as nat, c0, s0) == fits(
                        limit as nat,
                        c0,
                        s0.drop_last().push(ni),
                    ));
                }
            },
            Document::Cons(l, r) => {
                wk.push((ind, mode, &**r));
                wk.push((ind, mode, &**l));
                proof {
                    let ri = StackItem {
                        indent: ind as nat,
                        mode: mode,
                        doc: document_view(**r),
                    };
                    let li = StackItem {
                        indent: ind as nat,
                        mode: mode,
                        doc: document_view(**l),
                    };
                    assert(ref_stack_view(wk@) =~= s0.drop_last().push(ri).push(li));
                    lemma_measure_push(s0.drop_last(), ri);
                    lemma_measure_push(s0.drop_last().push(ri), li);
                    assert(fits(limit as nat, c0, s0) == fits(
                        limit as nat,
                        c0,
                        s0.drop_last().push(ri).push(li),
                    ));
                }
            },
        }
    }
}

/// Renders a document within `width` columns: the only place where layout
/// intent becomes concrete text.
pub fn render(doc: Document, width: usize) -> (out: String)
    ensures
        out@ == render_spec(width as nat, document_view(doc)),
{
    let ghost d0 = document_view(doc);
    let mut out = String::new();
    let mut stack: Vec<(usize, Mode, Document)> = Vec::new();
    stack.push((0, Mode::Broken, doc));
    let mut w: usize = 0;
    proof {
        assert(stack_view(stack@) =~= seq![
            StackItem { indent: 0, mode: Mode::Broken, doc: d0 },
        ]);
        assert(out@ + fmt(width as nat, 0, stack_view(stack@)) =~= render_spec(
            width as nat,
            d0,
        ));
    }
    while stack.len() > 0
        invariant
            render_spec(width as nat, d0) == out@ + fmt(
                width as nat,
                w as nat,
                stack_view(stack@),
            ),
        decreases stack_measure(stack_view(stack@)),
    {
        let ghost s0 = stack_view(stack@);
        let ghost w0 = w as nat;
        let ghost o0 = out@;
        let (ind, mode, d) = stack.pop().unwrap();
        let ghost item = StackItem { indent: ind as nat, mode: mode, doc: document_view(d) };
        proof {
            assert(s0.last() == item);
            assert(stack_view(stack@) =~= s0.drop_last());
        }
        match d {
            Document::Nil => {
                proof {
                    assert(fmt(width as nat, w0, s0) == fmt(width as nat, w0, s0.drop_last()));
                }
            },
            Document::Text(t) => {
                let l = t.as_str().unicode_len();
                out.append(t.as_str());
                w = sat_add(w, l);
                proof {
                    assert(fmt(width as nat, w0, s0) == t@ + fmt(
                        width as nat,
                        wadd(w0, t@.len()),
                        s0.drop_last(),
                    ));
                    assert(o0 + (t@ + fmt(width as nat, w as nat, stack_view(stack@))) =~= (o0
                        + t@) + fmt(width as nat, w as nat, stack_view(stack@)));
                }
            },
            Document::Line(n) => {
                emit_newlines(&mut out, n);
                emit_spaces(&mut out, ind);
                w = ind;
                proof {
                    assert(fmt(width as nat, w0, s0) == newlines(n as nat) + spaces(ind as nat)
                        + fmt(width as nat, ind as nat, s0.drop_last()));
                    assert(o0 + (newlines(n as nat) + spaces(ind as nat) + fmt(
                        width as nat,
                        w as nat,
                        stack_view(stack@),
                    )) =~= ((o0 + newlines(n as nat)) + spaces(ind as nat)) + fmt(
                        width as nat,
                        w as nat,
                        stack_view(stack@),
                    ));
                }
            },
            Document::Break { broken, unbroken } => {
                match mode {
                    Mode::Flat => {
                        let l = unbroken.as_str().unicode_len();
                        out.append(unbroken.as_str());
                        w = sat_add(w, l);
                        proof {
                            assert(fmt(width as nat, w0, s0) == unbroken@ + fmt(
                                width as nat,
                                wadd(w0, unbroken@.len()),
                                s0.drop_last(),
                            ));
                            assert(o0 + (unbroken@ + fmt(
                                width as nat,
                                w as nat,
                                stack_view(stack@),
                            )) =~= (o0 + unbroken@) + fmt(
                                width as nat,
                                w as nat,
                                stack_view(stack@),
                            ));
                        }
                    },
                    Mode::Broken => {
                        out.append(broken.as_str());
                        emit_newlines(&mut out, 1);
                        emit_spaces(&mut out, ind);
                        w = ind;
                        proof {
                            assert(fmt(width as nat, w0, s0) == broken@ + newlines(1) + spaces(
                                ind as nat,
                            ) + fmt(width as nat, ind as nat, s0.drop_last()));
                            assert(o0 + (broken@ + newlines(1) + spaces(ind as nat) + fmt(
                                width as nat,
                                w as nat,
                                stack_view(stack@),
                            )) =~= (((o0 + broken@) + newlines(1)) + spaces(ind as nat)) + fmt(
                                width as nat,
                                w as nat,
                                stack_view(stack@),
                            ));
                        }
                    },
                }
            },
            Document::ForceBreak => {
                proof {
                    assert(fmt(width as nat, w0, s0) == fmt(width as nat, w0, s0.drop_last()));
                }
            },
            Document::Nest(delta, inner) => {
                let nid = sat_add(ind, delta);
                stack.push((nid, mode, *inner));
                proof {
                    let ni = StackItem {
                        indent: wadd(ind as nat, delta as nat),
                        mode: mode,
                        doc: document_view(*inner),
                    };
                    assert(stack_view(stack@) =~= s0.drop_last().push(ni));
                    lemma_measure_push(s0.drop_last(), ni);
                    assert(fmt(width as nat, w0, s0) == fmt(
                        width as nat,
                        w0,
                        s0.drop_last().push(ni),
                    ));
                }
            },
            Document::NestCurrent(inner) => {
                stack.push((w, mode, *inner));
                proof {
                    let ni = StackItem {
                        indent: w0,
                        mode: mode,
                        doc: document_view(*inner),
                    };
                    assert(stack_view(stack@) =~= s0.drop_last().push(ni));
                    lemma_measure_push(s0.drop_last(), ni);
                    assert(fmt(width as nat, w0, s0) == fmt(
                        width as nat,
                        w0,
                        s0.drop_last().push(ni),
                    ));
                }
            },
            Document::Group(inner) => {
                let mut wl: Vec<(usize, Mode, &Document)> = Vec::new();
                let mut j: usize = 0;
                while j < stack.len()
                    invariant
                        j <= stack.len(),
                        wl@.len() == j as nat,
                        forall|k: int| 0 <= k < j ==> ref_stack_view(wl@)[k]
                            == stack_view(stack@)[k],
                    decreases stack.len() - j,
                {
                    let entry = &stack[j];
                    wl.push((entry.0, entry.1, &entry.2));
                    j = j + 1;
                }
                wl.push((ind, Mode::Flat, &*inner));
                proof {
                    assert(ref_stack_view(wl@) =~= stack_view(stack@).push(StackItem {
                        indent: ind as nat,
                        mode: Mode::Flat,
                        doc: document_view(*inner),
                    }));
                }
                let flat_ok = fits_exec(width, w, wl, Ghost(ref_stack_view(wl@)));
                let m = if flat_ok {
                    Mode::Flat
                } else {
                    Mode::Broken
                };
                stack.push((ind, m, *inner));
                proof {
                    let fi = StackItem {
                        indent: ind as nat,
                        mode: Mode::Flat,
                        doc: document_view(*inner),
                    };
                    let ni = StackItem {
                        indent: ind as nat,
                        mode: m,
                        doc: document_view(*inner),
                    };
                    assert(stack_view(stack@) =~= s0.drop_last().push(ni));
                    lemma_measure_push(s0.drop_last(), ni);
                    assert(flat_ok == fits(width as nat, w0, s0.drop_last().push(fi)));
                    assert(fmt(width as nat, w0, s0) == fmt(
                        width as nat,
                        w0,
                        s0.drop_last().push(ni),
                    ));
                }
            },
            Document::Cons(l, r) => {
                stack.push((ind, mode, *r));
                let ghost sv_r = stack_view(stack@);
                stack.push((ind, mode, *l));
                proof {
                    let ri = StackItem {
                        indent: ind as nat,
                        mode: mode,
                        doc: document_view(*r),
                    };
                    let li = StackItem {
                        indent: ind as nat,
                        mode: mode,
                        doc: document_view(*l),
                    };
                    assert(sv_r =~= s0.drop_last().push(ri));
                    assert(stack_view(stack@) =~= sv_r.push(li));
                    lemma_measure_push(s0.drop_last(), ri);
                    lemma_measure_push(s0.drop_last().push(ri), li);
                    assert(fmt(width as nat, w0, s0) == fmt(
                        width as nat,
                        w0,
                        s0.drop_last().push(ri).push(li),
                    ));
                }
            },
        }
    }
    proof {
        assert(out@ + fmt(width as nat, w as nat, stack_view(stack@)) =~= out@);
    }
    out
}

} // verus!
