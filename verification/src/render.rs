//! The renderer: one pure rule per syntax-tree node, composing documents,
//! plus the module assembler that stitches statements together and drives
//! the layout engine.

use vstd::prelude::*;

use crate::ast::Arg;
use crate::ast::ArgNames;
use crate::ast::BinOp;
use crate::ast::Pattern;
use crate::ast::PatternCallArg;
use crate::ast::RecordConstructor;
use crate::ast::TypeAst;
use crate::ast::UnqualifiedImport;
use crate::ast::ExternalFnArg;
use crate::ast::CallArg;
use crate::ast::Clause;
use crate::ast::ClauseGuard;
use crate::ast::Expr;
use crate::ast::Module;
use crate::ast::Statement;
use vstd::string::StringExecFns;
use crate::doc::Doc;
use crate::doc::Document;
use crate::doc::dcons;
use crate::doc::dgroup;
use crate::doc::dnest;
use crate::doc::dnest_current;
use crate::doc::force_break;
use crate::doc::line;
use crate::doc::lines;
use crate::doc::dtext;
use crate::doc::document_view;
use crate::doc::break_;
use crate::doc::delim;
use crate::doc::nil;
use crate::doc::text;
use crate::doc::text_string;

verus! {

/// Columns added per nesting level.
pub const INDENT: usize = 2;

/// View of a sequence of executable documents.
pub open spec fn docs_view(s: Seq<Document>) -> Seq<Doc> {
    Seq::new(s.len(), |i: int| document_view(s[i]))
}

/// The delimiter document for separator text `sep`: `sep` alone when the
/// list breaks, `sep` plus one space when flat.
pub open spec fn sep_break(sep: Seq<char>) -> Doc {
    Doc::Break { broken: sep, unbroken: sep + " "@ }
}

/// The documents of `ds` joined left to right with `sep` between
/// consecutive items.
pub open spec fn join_spec(ds: Seq<Doc>, sep: Doc) -> Doc
    decreases ds.len(),
{
    if ds.len() == 0 {
        Doc::Nil
    } else if ds.len() == 1 {
        ds[0]
    } else {
        dcons(dcons(join_spec(ds.drop_last(), sep), sep), ds.last())
    }
}

/// The content of a non-empty argument-list group: an opening parenthesis
/// that opens a new line when broken, the items joined by comma delimiters,
/// a trailing comma that appears only when broken, and the closing
/// parenthesis.
pub open spec fn wrap_args_inner(ds: Seq<Doc>) -> Doc {
    dcons(
        dcons(
            dnest(
                INDENT as nat,
                dcons(
                    Doc::Break { broken: "("@, unbroken: "("@ },
                    join_spec(ds, sep_break(","@)),
                ),
            ),
            Doc::Break { broken: ","@, unbroken: ""@ },
        ),
        dtext(")"@),
    )
}

/// The canonical parenthesized, comma-separated list: flat when it fits,
/// otherwise one item per line with a trailing comma.
pub open spec fn wrap_args_spec(ds: Seq<Doc>) -> Doc {
    if ds.len() == 0 {
        dtext("()"@)
    } else {
        dgroup(wrap_args_inner(ds))
    }
}

/// Joins already-rendered documents with the given separator text, flat or
/// broken with the list (`delim` semantics).
fn join_docs(ds: Vec<Document>, sep: &str) -> (r: Document)
    ensures
        r@ == join_spec(docs_view(ds@), sep_break(sep@)),
{
    let ghost orig = docs_view(ds@);
    let mut ds = ds;
    if ds.len() == 0 {
        return nil();
    }
    let mut acc = ds.remove(0);
    let ghost k: int = 1;
    proof {
        assert(orig.subrange(0, 1).len() == 1);
        assert(orig.subrange(0, 1)[0] == acc@);
        assert(acc@ == join_spec(orig.subrange(0, k), sep_break(sep@)));
    }
    while ds.len() > 0
        invariant
            1 <= k <= orig.len(),
            k + ds@.len() == orig.len(),
            forall|j: int| 0 <= j < ds@.len() ==> document_view(ds@[j]) == orig[k + j],
            acc@ == join_spec(orig.subrange(0, k), sep_break(sep@)),
        decreases ds@.len(),
    {
        let d = ds.remove(0);
        let ghost acc0 = acc@;
        let ghost dv = d@;
        let sd = delim(sep);
        proof {
            reveal_strlit(" ");
            assert(sd@ =~= sep_break(sep@));
        }
        let t1 = acc.append(sd);
        proof {
            assert(t1@ == dcons(acc0, sep_break(sep@)));
        }
        acc = t1.append(d);
        proof {
            let k2 = k + 1;
            assert(acc@ == dcons(dcons(acc0, sep_break(sep@)), dv));
            assert(dv == orig[k]);
            assert(orig.subrange(0, k2).drop_last() =~= orig.subrange(0, k));
            assert(orig.subrange(0, k2).last() == orig[k]);
            assert(join_spec(orig.subrange(0, k2), sep_break(sep@)) == dcons(
                dcons(join_spec(orig.subrange(0, k), sep_break(sep@)), sep_break(sep@)),
                orig[k],
            ));
            assert(acc@ == join_spec(orig.subrange(0, k2), sep_break(sep@)));
        }
        proof {
            k = k + 1;
        }
    }
    proof {
        assert(orig.subrange(0, k) =~= orig);
    }
    acc
}

/// Renders a parenthesized argument list: `()` for no items, otherwise a
/// group that is flat when it fits and otherwise breaks one item per line
/// with a trailing comma.
pub fn wrap_args(args: Vec<Document>) -> (r: Document)
    ensures
        r@ == wrap_args_spec(docs_view(args@)),
{
    if args.len() == 0 {
        return text("()");
    }
    break_("(", "(")
        .append(join_docs(args, ","))
        .nest(INDENT)
        .append(break_(",", ""))
        .append_str(")")
        .group()
}

/// The documents of `ds` in order, with nothing between them.
pub open spec fn concat_spec(ds: Seq<Doc>) -> Doc
    decreases ds.len(),
{
    if ds.len() == 0 {
        Doc::Nil
    } else if ds.len() == 1 {
        ds[0]
    } else {
        dcons(concat_spec(ds.drop_last()), ds.last())
    }
}

/// Joins already-rendered documents with the literal text `sep` between
/// consecutive items.
fn join_docs_text(ds: Vec<Document>, sep: &str) -> (r: Document)
    ensures
        r@ == join_spec(docs_view(ds@), dtext(sep@)),
{
    let ghost orig = docs_view(ds@);
    let mut ds = ds;
    if ds.len() == 0 {
        return nil();
    }
    let mut acc = ds.remove(0);
    let ghost k: int = 1;
    proof {
        assert(orig.subrange(0, 1)[0] == acc@);
        assert(acc@ == join_spec(orig.subrange(0, k), dtext(sep@)));
    }
    while ds.len() > 0
        invariant
            1 <= k <= orig.len(),
            k + ds@.len() == orig.len(),
            forall|j: int| 0 <= j < ds@.len() ==> document_view(ds@[j]) == orig[k + j],
            acc@ == join_spec(orig.subrange(0, k), dtext(sep@)),
        decreases ds@.len(),
    {
        let d = ds.remove(0);
        let ghost acc0 = acc@;
        let ghost dv = d@;
        acc = acc.append(text(sep)).append(d);
        proof {
            let k2 = k + 1;
            assert(acc@ == dcons(dcons(acc0, dtext(sep@)), dv));
            assert(dv == orig[k]);
            assert(orig.subrange(0, k2).drop_last() =~= orig.subrange(0, k));
            assert(orig.subrange(0, k2).last() == orig[k]);
            assert(acc@ == join_spec(orig.subrange(0, k2), dtext(sep@)));
        }
        proof {
            k = k + 1;
        }
    }
    proof {
        assert(orig.subrange(0, k) =~= orig);
    }
    acc
}

/// Concatenates already-rendered documents in order.
fn concat_docs(ds: Vec<Document>) -> (r: Document)
    ensures
        r@ == concat_spec(docs_view(ds@)),
{
    let ghost orig = docs_view(ds@);
    let mut ds = ds;
    if ds.len() == 0 {
        return nil();
    }
    let mut acc = ds.remove(0);
    let ghost k: int = 1;
    proof {
        assert(orig.subrange(0, 1)[0] == acc@);
        assert(acc@ == concat_spec(orig.subrange(0, k)));
    }
    while ds.len() > 0
        invariant
            1 <= k <= orig.len(),
            k + ds@.len() == orig.len(),
            forall|j: int| 0 <= j < ds@.len() ==> document_view(ds@[j]) == orig[k + j],
            acc@ == concat_spec(orig.subrange(0, k)),
        decreases ds@.len(),
    {
        let d = ds.remove(0);
        let ghost acc0 = acc@;
        let ghost dv = d@;
        acc = acc.append(d);
        proof {
            let k2 = k + 1;
            assert(acc@ == dcons(acc0, dv));
            assert(dv == orig[k]);
            assert(orig.subrange(0, k2).drop_last() =~= orig.subrange(0, k));
            assert(orig.subrange(0, k2).last() == orig[k]);
            assert(acc@ == concat_spec(orig.subrange(0, k2)));
        }
        proof {
            k = k + 1;
        }
    }
    proof {
        assert(orig.subrange(0, k) =~= orig);
    }
    acc
}

/// The decimal digit character for `n` (`n < 10`).
pub open spec fn dec_digit(n: nat) -> char {
    if n == 0 {
        '0'
    } else if n == 1 {
        '1'
    } else if n == 2 {
        '2'
    } else if n == 3 {
        '3'
    } else if n == 4 {
        '4'
    } else if n == 5 {
        '5'
    } else if n == 6 {
        '6'
    } else if n == 7 {
        '7'
    } else if n == 8 {
        '8'
    } else {
        '9'
    }
}

/// The decimal rendering of `n`, most significant digit first.
pub open spec fn dec_str(n: nat) -> Seq<char>
    decreases n,
{
    if n < 10 {
        seq![dec_digit(n)]
    } else {
        dec_str(n / 10).push(dec_digit(n % 10))
    }
}

/// Appends the digit character for `d` to `s`.
fn append_digit(s: &mut String, d: u64)
    requires
        d < 10,
    ensures
        final(s)@ == old(s)@ + seq![dec_digit(d as nat)],
{
    if d == 0 {
        s.append("0");
        proof {
            reveal_strlit("0");
            assert(s@ =~= old(s)@ + seq![dec_digit(d as nat)]);
        }
    } else if d == 1 {
        s.append("1");
        proof {
            reveal_strlit("1");
            assert(s@ =~= old(s)@ + seq![dec_digit(d as nat)]);
        }
    } else if d == 2 {
        s.append("2");
        proof {
            reveal_strlit("2");
            assert(s@ =~= old(s)@ + seq![dec_digit(d as nat)]);
        }
    } else if d == 3 {
        s.append("3");
        proof {
            reveal_strlit("3");
            assert(s@ =~= old(s)@ + seq![dec_digit(d as nat)]);
        }
    } else if d == 4 {
        s.append("4");
        proof {
            reveal_strlit("4");
            assert(s@ =~= old(s)@ + seq![dec_digit(d as nat)]);
        }
    } else if d == 5 {
        s.append("5");
        proof {
            reveal_strlit("5");
            assert(s@ =~= old(s)@ + seq![dec_digit(d as nat)]);
        }
    } else if d == 6 {
        s.append("6");
        proof {
            reveal_strlit("6");
            assert(s@ =~= old(s)@ + seq![dec_digit(d as nat)]);
        }
    } else if d == 7 {
        s.append("7");
        proof {
            reveal_strlit("7");
            assert(s@ =~= old(s)@ + seq![dec_digit(d as nat)]);
        }
    } else if d == 8 {
        s.append("8");
        proof {
            reveal_strlit("8");
            assert(s@ =~= old(s)@ + seq![dec_digit(d as nat)]);
        }
    } else {
        s.append("9");
        proof {
            reveal_strlit("9");
            assert(s@ =~= old(s)@ + seq![dec_digit(d as nat)]);
        }
    }
}

/// The decimal text of `n`.
fn number_text(n: u64) -> (s: String)
    ensures
        s@ == dec_str(n as nat),
    decreases n,
{
    if n < 10 {
        let mut s = String::new();
        append_digit(&mut s, n);
        proof {
            assert(s@ =~= seq![dec_digit(n as nat)]);
        }
        s
    } else {
        let mut s = number_text(n / 10);
        append_digit(&mut s, n % 10);
        proof {
            assert(s@ =~= dec_str((n / 10) as nat).push(dec_digit((n % 10) as nat)));
        }
        s
    }
}

/// Rendering rule for a type annotation.
pub open spec fn type_doc_spec(t: TypeAst) -> Doc
    decreases t,
{
    match t {
        TypeAst::Constructor { name, args } => if args.len() == 0 {
            dtext(name@)
        } else {
            dcons(dtext(name@), wrap_args_spec(types_docs(args@)))
        },
        TypeAst::Fn { args, retrn } => dcons(
            dcons(
                dcons(dtext("fn"@), wrap_args_spec(types_docs(args@))),
                sep_break(" ->"@),
            ),
            type_doc_spec(*retrn),
        ),
        TypeAst::Var { name } => dtext(name@),
        TypeAst::Tuple { elems } => dcons(dtext("tuple"@), wrap_args_spec(types_docs(elems@))),
    }
}

/// The rendered documents of a list of type annotations.
pub open spec fn types_docs(ts: Seq<TypeAst>) -> Seq<Doc>
    decreases ts,
{
    if ts.len() == 0 {
        Seq::empty()
    } else {
        types_docs(ts.drop_last()).push(type_doc_spec(ts.last()))
    }
}

pub proof fn lemma_types_docs(ts: Seq<TypeAst>)
    ensures
        types_docs(ts).len() == ts.len(),
        forall|j: int| 0 <= j < ts.len() ==> types_docs(ts)[j] == type_doc_spec(ts[j]),
    decreases ts.len(),
{
    if ts.len() > 0 {
        lemma_types_docs(ts.drop_last());
    }
}

/// Renders a type annotation.
pub fn type_doc(t: &TypeAst) -> (d: Document)
    ensures
        d@ == type_doc_spec(*t),
    decreases *t,
{
    match t {
        TypeAst::Constructor { name, args } => {
            if args.len() == 0 {
                text_string(name.clone())
            } else {
                text_string(name.clone()).append(wrap_args(types_to_docs(args)))
            }
        },
        TypeAst::Fn { args, retrn } => {
            text("fn")
                .append(wrap_args(types_to_docs(args)))
                .append(delim(" ->"))
                .append(type_doc(&**retrn))
        },
        TypeAst::Var { name } => text_string(name.clone()),
        TypeAst::Tuple { elems } => text("tuple").append(wrap_args(types_to_docs(elems))),
    }
}

/// Renders each type of a list.
fn types_to_docs(ts: &Vec<TypeAst>) -> (ds: Vec<Document>)
    ensures
        docs_view(ds@) == types_docs(ts@),
    decreases *ts,
{
    let mut ds: Vec<Document> = Vec::new();
    let mut i: usize = 0;
    while i < ts.len()
        invariant
            i <= ts@.len(),
            ds@.len() == i as nat,
            forall|j: int| 0 <= j < i ==> document_view(ds@[j]) == type_doc_spec(ts@[j]),
        decreases ts@.len() - i,
    {
        let d = type_doc(&ts[i]);
        ds.push(d);
        i = i + 1;
    }
    proof {
        lemma_types_docs(ts@);
        assert(docs_view(ds@) =~= types_docs(ts@));
    }
    ds
}

/// Rendering rule for an optional label: `label: ` or nothing.
pub open spec fn label_spec(l: Option<String>) -> Doc {
    match l {
        Some(s) => dcons(dtext(s@), dtext(": "@)),
        None => Doc::Nil,
    }
}

/// Renders an optional label.
pub fn label(l: &Option<String>) -> (d: Document)
    ensures
        d@ == label_spec(*l),
{
    match l {
        Some(s) => text_string(s.clone()).append_str(": "),
        None => nil(),
    }
}

/// Rendering rule for the `pub ` marker.
pub open spec fn pub_spec(public: bool) -> Doc {
    if public {
        dtext("pub "@)
    } else {
        Doc::Nil
    }
}

/// Renders the `pub ` marker of a public declaration.
pub fn pub_(public: &bool) -> (d: Document)
    ensures
        d@ == pub_spec(*public),
{
    if *public {
        text("pub ")
    } else {
        nil()
    }
}

/// Rendering rule for one argument name.
pub open spec fn arg_names_doc_spec(n: ArgNames) -> Doc {
    match n {
        ArgNames::Discard => dtext("_"@),
        ArgNames::LabelledDiscard { label } => dcons(dcons(dtext(label@), dtext(" "@)), dtext("_"@)),
        ArgNames::Named { name } => dtext(name@),
        ArgNames::NamedLabelled { name, label } => dcons(
            dcons(dtext(label@), dtext(" "@)),
            dtext(name@),
        ),
    }
}

/// Renders one argument name.
pub fn arg_names_doc(n: &ArgNames) -> (d: Document)
    ensures
        d@ == arg_names_doc_spec(*n),
{
    match n {
        ArgNames::Discard => text("_"),
        ArgNames::LabelledDiscard { label } => text_string(label.clone()).append_str(" ").append_str("_"),
        ArgNames::Named { name } => text_string(name.clone()),
        ArgNames::NamedLabelled { name, label } => text_string(label.clone()).append_str(" ").append(
            text_string(name.clone()),
        ),
    }
}

/// Rendering rule for a function-definition argument: its names, then its
/// annotation if any, as one group.
pub open spec fn arg_doc_spec(a: Arg) -> Doc {
    dgroup(
        dcons(
            arg_names_doc_spec(a.names),
            match a.annotation {
                Some(t) => dcons(dtext(": "@), type_doc_spec(t)),
                None => Doc::Nil,
            },
        ),
    )
}

/// Renders a function-definition argument.
pub fn arg_doc(a: &Arg) -> (d: Document)
    ensures
        d@ == arg_doc_spec(*a),
{
    let anno = match &a.annotation {
        Some(t) => text(": ").append(type_doc(t)),
        None => nil(),
    };
    arg_names_doc(&a.names).append(anno).group()
}

/// The rendered documents of a list of function-definition arguments.
pub open spec fn args_docs(args: Seq<Arg>) -> Seq<Doc>
    decreases args,
{
    if args.len() == 0 {
        Seq::empty()
    } else {
        args_docs(args.drop_last()).push(arg_doc_spec(args.last()))
    }
}

pub proof fn lemma_args_docs(args: Seq<Arg>)
    ensures
        args_docs(args).len() == args.len(),
        forall|j: int| 0 <= j < args.len() ==> args_docs(args)[j] == arg_doc_spec(args[j]),
    decreases args.len(),
{
    if args.len() > 0 {
        lemma_args_docs(args.drop_last());
    }
}

/// Renders each function-definition argument of a list.
fn args_to_docs(args: &Vec<Arg>) -> (ds: Vec<Document>)
    ensures
        docs_view(ds@) == args_docs(args@),
{
    let mut ds: Vec<Document> = Vec::new();
    let mut i: usize = 0;
    while i < args.len()
        invariant
            i <= args@.len(),
            ds@.len() == i as nat,
            forall|j: int| 0 <= j < i ==> document_view(ds@[j]) == arg_doc_spec(args@[j]),
        decreases args@.len() - i,
    {
        let d = arg_doc(&args[i]);
        ds.push(d);
        i = i + 1;
    }
    proof {
        lemma_args_docs(args@);
        assert(docs_view(ds@) =~= args_docs(args@));
    }
    ds
}

/// Rendering rule for one constructor argument of a custom type.
pub open spec fn rc_arg_doc_spec(a: (Option<String>, TypeAst)) -> Doc {
    match a.0 {
        Some(l) => dcons(dcons(dtext(l@), dtext(": "@)), type_doc_spec(a.1)),
        None => type_doc_spec(a.1),
    }
}

/// The rendered documents of a custom-type constructor's arguments.
pub open spec fn rc_args_docs(args: Seq<(Option<String>, TypeAst)>) -> Seq<Doc>
    decreases args,
{
    if args.len() == 0 {
        Seq::empty()
    } else {
        rc_args_docs(args.drop_last()).push(rc_arg_doc_spec(args.last()))
    }
}

pub proof fn lemma_rc_args_docs(args: Seq<(Option<String>, TypeAst)>)
    ensures
        rc_args_docs(args).len() == args.len(),
        forall|j: int| 0 <= j < args.len() ==> rc_args_docs(args)[j] == rc_arg_doc_spec(args[j]),
    decreases args.len(),
{
    if args.len() > 0 {
        lemma_rc_args_docs(args.drop_last());
    }
}

/// Rendering rule for one constructor of a custom type.
pub open spec fn record_constructor_doc_spec(c: RecordConstructor) -> Doc {
    if c.args.len() == 0 {
        dtext(c.name@)
    } else {
        dcons(dtext(c.name@), wrap_args_spec(rc_args_docs(c.args@)))
    }
}

/// Renders one constructor of a custom type.
pub fn record_constructor_doc(c: &RecordConstructor) -> (d: Document)
    ensures
        d@ == record_constructor_doc_spec(*c),
{
    if c.args.len() == 0 {
        return text_string(c.name.clone());
    }
    let mut ds: Vec<Document> = Vec::new();
    let mut i: usize = 0;
    while i < c.args.len()
        invariant
            i <= c.args@.len(),
            ds@.len() == i as nat,
            forall|j: int| 0 <= j < i ==> document_view(ds@[j]) == rc_arg_doc_spec(c.args@[j]),
        decreases c.args@.len() - i,
    {
        let entry = &c.args[i];
        let d = match &entry.0 {
            Some(l) => text_string(l.clone()).append_str(": ").append(type_doc(&entry.1)),
            None => type_doc(&entry.1),
        };
        ds.push(d);
        i = i + 1;
    }
    proof {
        lemma_rc_args_docs(c.args@);
        assert(docs_view(ds@) =~= rc_args_docs(c.args@));
    }
    text_string(c.name.clone()).append(wrap_args(ds))
}

/// Rendering rule for one selectively imported name.
pub open spec fn unqualified_import_doc_spec(u: UnqualifiedImport) -> Doc {
    dcons(
        dtext(u.name@),
        match u.as_name {
            Some(s) => dcons(dtext(" as "@), dtext(s@)),
            None => Doc::Nil,
        },
    )
}

/// Renders one selectively imported name.
pub fn unqualified_import_doc(u: &UnqualifiedImport) -> (d: Document)
    ensures
        d@ == unqualified_import_doc_spec(*u),
{
    let rename = match &u.as_name {
        Some(s) => text(" as ").append(text_string(s.clone())),
        None => nil(),
    };
    text_string(u.name.clone()).append(rename)
}

/// Rendering rule for an external-function argument.
pub open spec fn external_fn_arg_doc_spec(a: ExternalFnArg) -> Doc {
    dcons(label_spec(a.label), type_doc_spec(a.typ))
}

/// Renders an external-function argument.
pub fn external_fn_arg_doc(a: &ExternalFnArg) -> (d: Document)
    ensures
        d@ == external_fn_arg_doc_spec(*a),
{
    label(&a.label).append(type_doc(&a.typ))
}

/// The fixed rendering of each binary operator, spaces included.
pub open spec fn binop_text(op: BinOp) -> Seq<char> {
    match op {
        BinOp::And => " && "@,
        BinOp::Or => " || "@,
        BinOp::LtInt => " < "@,
        BinOp::LtEqInt => " <= "@,
        BinOp::LtFloat => " <. "@,
        BinOp::LtEqFloat => " <=. "@,
        BinOp::Eq => " == "@,
        BinOp::NotEq => " != "@,
        BinOp::GtEqInt => " >= "@,
        BinOp::GtInt => " > "@,
        BinOp::GtEqFloat => " >=. "@,
        BinOp::GtFloat => " >. "@,
        BinOp::AddInt => " + "@,
        BinOp::AddFloat => " +. "@,
        BinOp::SubInt => " - "@,
        BinOp::SubFloat => " -. "@,
        BinOp::MultInt => " * "@,
        BinOp::MultFloat => " *. "@,
        BinOp::DivInt => " / "@,
        BinOp::DivFloat => " /. "@,
        BinOp::ModuloInt => " % "@,
    }
}

/// Renders a binary operator.
pub fn binop_doc(op: &BinOp) -> (d: Document)
    ensures
        d@ == dtext(binop_text(*op)),
{
    match op {
        BinOp::And => text(" && "),
        BinOp::Or => text(" || "),
        BinOp::LtInt => text(" < "),
        BinOp::LtEqInt => text(" <= "),
        BinOp::LtFloat => text(" <. "),
        BinOp::LtEqFloat => text(" <=. "),
        BinOp::Eq => text(" == "),
        BinOp::NotEq => text(" != "),
        BinOp::GtEqInt => text(" >= "),
        BinOp::GtInt => text(" > "),
        BinOp::GtEqFloat => text(" >=. "),
        BinOp::GtFloat => text(" >. "),
        BinOp::AddInt => text(" + "),
        BinOp::AddFloat => text(" +. "),
        BinOp::SubInt => text(" - "),
        BinOp::SubFloat => text(" -. "),
        BinOp::MultInt => text(" * "),
        BinOp::MultFloat => text(" *. "),
        BinOp::DivInt => text(" / "),
        BinOp::DivFloat => text(" /. "),
        BinOp::ModuloInt => text(" % "),
    }
}

/// Rendering rule for a pattern.
pub open spec fn pattern_doc_spec(p: Pattern) -> Doc
    decreases p,
{
    match p {
        Pattern::Int { value } => dtext(value@),
        Pattern::Float { value } => dtext(value@),
        Pattern::Str { value } => dcons(dcons(dtext("\""@), dtext(value@)), dtext("\""@)),
        Pattern::Var { name } => dtext(name@),
        Pattern::Let { name, pattern } => dcons(
            dcons(pattern_doc_spec(*pattern), dtext(" as "@)),
            dtext(name@),
        ),
        Pattern::Discard => dtext("_"@),
        Pattern::Nil => dtext("[]"@),
        Pattern::Cons { head, tail } => dcons(
            dcons(
                dtext("["@),
                dcons(dcons(pattern_doc_spec(*head), dtext("|"@)), pattern_doc_spec(*tail)),
            ),
            dtext("]"@),
        ),
        Pattern::Constructor { module, name, args } => {
            let qualified = match module {
                Some(m) => dcons(dcons(dtext(m@), dtext("."@)), dtext(name@)),
                None => dtext(name@),
            };
            if args.len() == 0 {
                qualified
            } else {
                dcons(qualified, wrap_args_spec(pattern_args_docs(args@)))
            }
        },
        Pattern::Tuple { elems } => dcons(dtext("tuple"@), wrap_args_spec(patterns_docs(elems@))),
    }
}

/// Rendering rule for a labelled argument in a constructor pattern.
pub open spec fn pattern_call_arg_doc_spec(a: PatternCallArg) -> Doc
    decreases a,
{
    dcons(label_spec(a.label), pattern_doc_spec(a.value))
}

/// The rendered documents of a constructor pattern's arguments.
pub open spec fn pattern_args_docs(args: Seq<PatternCallArg>) -> Seq<Doc>
    decreases args,
{
    if args.len() == 0 {
        Seq::empty()
    } else {
        pattern_args_docs(args.drop_last()).push(pattern_call_arg_doc_spec(args.last()))
    }
}

/// The rendered documents of a list of patterns.
pub open spec fn patterns_docs(ps: Seq<Pattern>) -> Seq<Doc>
    decreases ps,
{
    if ps.len() == 0 {
        Seq::empty()
    } else {
        patterns_docs(ps.drop_last()).push(pattern_doc_spec(ps.last()))
    }
}

pub proof fn lemma_pattern_args_docs(args: Seq<PatternCallArg>)
    ensures
        pattern_args_docs(args).len() == args.len(),
        forall|j: int| 0 <= j < args.len() ==> pattern_args_docs(args)[j]
            == pattern_call_arg_doc_spec(args[j]),
    decreases args.len(),
{
    if args.len() > 0 {
        lemma_pattern_args_docs(args.drop_last());
    }
}

pub proof fn lemma_patterns_docs(ps: Seq<Pattern>)
    ensures
        patterns_docs(ps).len() == ps.len(),
        forall|j: int| 0 <= j < ps.len() ==> patterns_docs(ps)[j] == pattern_doc_spec(ps[j]),
    decreases ps.len(),
{
    if ps.len() > 0 {
        lemma_patterns_docs(ps.drop_last());
    }
}

/// Renders a pattern.
pub fn pattern_doc(p: &Pattern) -> (d: Document)
    ensures
        d@ == pattern_doc_spec(*p),
    decreases *p,
{
    match p {
        Pattern::Int { value } => text_string(value.clone()),
        Pattern::Float { value } => text_string(value.clone()),
        Pattern::Str { value } => text_string(value.clone()).surround("\"", "\""),
        Pattern::Var { name } => text_string(name.clone()),
        Pattern::Let { name, pattern } => pattern_doc(&**pattern).append_str(" as ").append(
            text_string(name.clone()),
        ),
        Pattern::Discard => text("_"),
        Pattern::Nil => text("[]"),
        Pattern::Cons { head, tail } => pattern_doc(&**head).append_str("|").append(
            pattern_doc(&**tail),
        ).surround("[", "]"),
        Pattern::Constructor { module, name, args } => {
            let qualified = match module {
                Some(m) => text_string(m.clone()).append_str(".").append(
                    text_string(name.clone()),
                ),
                None => text_string(name.clone()),
            };
            if args.len() == 0 {
                qualified
            } else {
                let mut ds: Vec<Document> = Vec::new();
                let mut i: usize = 0;
                while i < args.len()
                    invariant
                        i <= args@.len(),
                        ds@.len() == i as nat,
                        *p is Constructor,
                        p->Constructor_args@ == args@,
                        forall|j: int| 0 <= j < i ==> document_view(ds@[j])
                            == pattern_call_arg_doc_spec(args@[j]),
                    decreases args@.len() - i,
                {
                    let a = &args[i];
                    proof {
                        assert(decreases_to!(*p => p->Constructor_args));
                        assert(decreases_to!(p->Constructor_args => p->Constructor_args@));
                        assert(decreases_to!(p->Constructor_args@ => p->Constructor_args@[i as int]));
                        assert(decreases_to!(p->Constructor_args@[i as int] => p->Constructor_args@[i as int].value));
                        assert(decreases_to!(*p => p->Constructor_args@[i as int].value));
                    }
                    let d = label(&a.label).append(pattern_doc(&a.value));
                    ds.push(d);
                    i = i + 1;
                }
                proof {
                    lemma_pattern_args_docs(args@);
                    assert(docs_view(ds@) =~= pattern_args_docs(args@));
                }
                qualified.append(wrap_args(ds))
            }
        },
        Pattern::Tuple { elems } => {
            let mut ds: Vec<Document> = Vec::new();
            let mut i: usize = 0;
            while i < elems.len()
                invariant
                    i <= elems@.len(),
                    ds@.len() == i as nat,
                    *p is Tuple,
                    p->Tuple_elems@ == elems@,
                    forall|j: int| 0 <= j < i ==> document_view(ds@[j]) == pattern_doc_spec(
                        elems@[j],
                    ),
                decreases elems@.len() - i,
            {
                proof {
                    assert(decreases_to!(*p => p->Tuple_elems));
                    assert(decreases_to!(p->Tuple_elems => p->Tuple_elems@));
                    assert(decreases_to!(p->Tuple_elems@ => p->Tuple_elems@[i as int]));
                    assert(decreases_to!(*p => p->Tuple_elems@[i as int]));
                }
                let d = pattern_doc(&elems[i]);
                ds.push(d);
                i = i + 1;
            }
            proof {
                lemma_patterns_docs(elems@);
                assert(docs_view(ds@) =~= patterns_docs(elems@));
            }
            text("tuple").append(wrap_args(ds))
        },
    }
}

/// Rendering rule for a guard expression.
pub open spec fn guard_doc_spec(g: ClauseGuard) -> Doc
    decreases g,
{
    match g {
        ClauseGuard::Var { name } => dtext(name@),
        ClauseGuard::Int { value } => dtext(value@),
        ClauseGuard::Float { value } => dtext(value@),
        ClauseGuard::Str { value } => dcons(dcons(dtext("\""@), dtext(value@)), dtext("\""@)),
        ClauseGuard::And { left, right } => dcons(
            dcons(guard_doc_spec(*left), dtext(" && "@)),
            guard_doc_spec(*right),
        ),
        ClauseGuard::Or { left, right } => dcons(
            dcons(guard_doc_spec(*left), dtext(" || "@)),
            guard_doc_spec(*right),
        ),
        ClauseGuard::Eq { left, right } => dcons(
            dcons(guard_doc_spec(*left), dtext(" == "@)),
            guard_doc_spec(*right),
        ),
        ClauseGuard::NotEq { left, right } => dcons(
            dcons(guard_doc_spec(*left), dtext(" != "@)),
            guard_doc_spec(*right),
        ),
    }
}

/// Renders a guard expression.
pub fn guard_doc(g: &ClauseGuard) -> (d: Document)
    ensures
        d@ == guard_doc_spec(*g),
    decreases *g,
{
    match g {
        ClauseGuard::Var { name } => text_string(name.clone()),
        ClauseGuard::Int { value } => text_string(value.clone()),
        ClauseGuard::Float { value } => text_string(value.clone()),
        ClauseGuard::Str { value } => text_string(value.clone()).surround("\"", "\""),
        ClauseGuard::And { left, right } => guard_doc(&**left).append_str(" && ").append(
            guard_doc(&**right),
        ),
        ClauseGuard::Or { left, right } => guard_doc(&**left).append_str(" || ").append(
            guard_doc(&**right),
        ),
        ClauseGuard::Eq { left, right } => guard_doc(&**left).append_str(" == ").append(
            guard_doc(&**right),
        ),
        ClauseGuard::NotEq { left, right } => guard_doc(&**left).append_str(" != ").append(
            guard_doc(&**right),
        ),
    }
}

/// Rendering rule for an optional clause guard: `" if "` plus the guard, or
/// nothing.
pub open spec fn clause_guard_spec(g: Option<ClauseGuard>) -> Doc {
    match g {
        Some(g) => dcons(dtext(" if "@), guard_doc_spec(g)),
        None => Doc::Nil,
    }
}

/// Renders an optional clause guard.
pub fn clause_guard(guard: &Option<ClauseGuard>) -> (d: Document)
    ensures
        d@ == clause_guard_spec(*guard),
{
    match guard {
        Some(g) => text(" if ").append(guard_doc(g)),
        None => nil(),
    }
}

/// Rendering rule for one case clause: its patterns comma-joined, the
/// optional guard, an arrow, and the clause body.
pub open spec fn clause_doc_spec(c: Clause) -> Doc
    decreases c,
{
    dcons(
        dcons(
            dcons(join_spec(patterns_docs(c.patterns@), dtext(", "@)), clause_guard_spec(c.guard)),
            dtext(" -> "@),
        ),
        expr_doc_spec(c.body),
    )
}

/// Rendering rule for one labelled call argument.
pub open spec fn call_arg_doc_spec(a: CallArg) -> Doc
    decreases a,
{
    dcons(label_spec(a.label), expr_doc_spec(a.value))
}

/// The rendered documents of a call's arguments.
pub open spec fn call_args_docs(args: Seq<CallArg>) -> Seq<Doc>
    decreases args,
{
    if args.len() == 0 {
        Seq::empty()
    } else {
        call_args_docs(args.drop_last()).push(call_arg_doc_spec(args.last()))
    }
}

/// The rendered documents of a list of expressions.
pub open spec fn exprs_docs(es: Seq<Expr>) -> Seq<Doc>
    decreases es,
{
    if es.len() == 0 {
        Seq::empty()
    } else {
        exprs_docs(es.drop_last()).push(expr_doc_spec(es.last()))
    }
}

/// The per-clause documents of a case expression: each clause on its own
/// indented, grouped line.
pub open spec fn clause_items(cs: Seq<Clause>) -> Seq<Doc>
    decreases cs,
{
    if cs.len() == 0 {
        Seq::empty()
    } else {
        clause_items(cs.drop_last()).push(
            dgroup(dnest(INDENT as nat, dcons(Doc::Line(1), clause_doc_spec(cs.last())))),
        )
    }
}

/// Rendering rule for an expression.
pub open spec fn expr_doc_spec(e: Expr) -> Doc
    decreases e,
{
    match e {
        Expr::Int { value } => dtext(value@),
        Expr::Float { value } => dtext(value@),
        Expr::Str { value } => dcons(dcons(dtext("\""@), dtext(value@)), dtext("\""@)),
        Expr::Var { name } => dtext(name@),
        Expr::Todo => dtext("todo"@),
        Expr::Pipe { left, right } => dcons(
            dcons(
                dcons(dcons(expr_doc_spec(*left), Doc::ForceBreak), Doc::Line(1)),
                dtext("|> "@),
            ),
            expr_doc_spec(*right),
        ),
        Expr::Sequence { first, rest } => dcons(
            dcons(dcons(expr_doc_spec(*first), Doc::ForceBreak), Doc::Line(1)),
            expr_doc_spec(*rest),
        ),
        Expr::TupleIndex { tuple, index } => dcons(
            dcons(expr_doc_spec(*tuple), dtext("."@)),
            dtext(dec_str(index as nat)),
        ),
        Expr::Fn { args, body } => dcons(
            dcons(
                dcons(
                    dcons(
                        dcons(dtext("fn("@), dnest_current(wrap_args_spec(args_docs(args@)))),
                        dtext(")"@),
                    ),
                    dtext(" {\n"@),
                ),
                expr_doc_spec(*body),
            ),
            dtext("\n}"@),
        ),
        Expr::Nil => dtext("[]"@),
        Expr::Cons { head, tail } => dcons(
            dcons(
                dtext("["@),
                dcons(dcons(expr_doc_spec(*head), dtext("|"@)), expr_doc_spec(*tail)),
            ),
            dtext("]"@),
        ),
        Expr::Call { fun, args } => dcons(
            expr_doc_spec(*fun),
            wrap_args_spec(call_args_docs(args@)),
        ),
        Expr::BinOp { name, left, right } => dcons(
            dcons(expr_doc_spec(*left), dtext(binop_text(name))),
            expr_doc_spec(*right),
        ),
        Expr::Let { pattern, value, rest } => dcons(
            dcons(
                dcons(
                    dcons(dcons(dtext("let "@), pattern_doc_spec(pattern)), dtext(" = "@)),
                    expr_doc_spec(*value),
                ),
                Doc::Line(1),
            ),
            expr_doc_spec(*rest),
        ),
        Expr::Case { subjects, clauses } => dcons(
            dcons(
                dcons(
                    dcons(
                        dcons(dtext("case "@), join_spec(exprs_docs(subjects@), dtext(", "@))),
                        dtext(" {"@),
                    ),
                    concat_spec(clause_items(clauses@)),
                ),
                Doc::Line(1),
            ),
            dtext("}"@),
        ),
        Expr::FieldAccess { container, label } => dcons(
            dcons(expr_doc_spec(*container), dtext("."@)),
            dtext(label@),
        ),
        Expr::Tuple { elems } => dcons(dtext("tuple"@), wrap_args_spec(exprs_docs(elems@))),
    }
}

pub proof fn lemma_call_args_docs(args: Seq<CallArg>)
    ensures
        call_args_docs(args).len() == args.len(),
        forall|j: int| 0 <= j < args.len() ==> call_args_docs(args)[j] == call_arg_doc_spec(
            args[j],
        ),
    decreases args.len(),
{
    if args.len() > 0 {
        lemma_call_args_docs(args.drop_last());
    }
}

pub proof fn lemma_exprs_docs(es: Seq<Expr>)
    ensures
        exprs_docs(es).len() == es.len(),
        forall|j: int| 0 <= j < es.len() ==> exprs_docs(es)[j] == expr_doc_spec(es[j]),
    decreases es.len(),
{
    if es.len() > 0 {
        lemma_exprs_docs(es.drop_last());
    }
}

pub proof fn lemma_clause_items(cs: Seq<Clause>)
    ensures
        clause_items(cs).len() == cs.len(),
        forall|j: int| 0 <= j < cs.len() ==> clause_items(cs)[j] == dgroup(
            dnest(INDENT as nat, dcons(Doc::Line(1), clause_doc_spec(cs[j]))),
        ),
    decreases cs.len(),
{
    if cs.len() > 0 {
        lemma_clause_items(cs.drop_last());
    }
}

/// Renders one case clause.
pub fn clause_doc(c: &Clause) -> (d: Document)
    ensures
        d@ == clause_doc_spec(*c),
    decreases *c,
{
    let mut ds: Vec<Document> = Vec::new();
    let mut i: usize = 0;
    while i < c.patterns.len()
        invariant
            i <= c.patterns@.len(),
            ds@.len() == i as nat,
            forall|j: int| 0 <= j < i ==> document_view(ds@[j]) == pattern_doc_spec(
                c.patterns@[j],
            ),
        decreases c.patterns@.len() - i,
    {
        let d = pattern_doc(&c.patterns[i]);
        ds.push(d);
        i = i + 1;
    }
    proof {
        lemma_patterns_docs(c.patterns@);
        assert(docs_view(ds@) =~= patterns_docs(c.patterns@));
        assert(decreases_to!(*c => c.body));
    }
    join_docs_text(ds, ", ").append(clause_guard(&c.guard)).append_str(" -> ").append(
        expr_doc(&c.body),
    )
}

/// Renders an expression.
pub fn expr_doc(e: &Expr) -> (d: Document)
    ensures
        d@ == expr_doc_spec(*e),
    decreases *e,
{
    match e {
        Expr::Int { value } => text_string(value.clone()),
        Expr::Float { value } => text_string(value.clone()),
        Expr::Str { value } => text_string(value.clone()).surround("\"", "\""),
        Expr::Var { name } => text_string(name.clone()),
        Expr::Todo => text("todo"),
        Expr::Pipe { left, right } => expr_doc(&**left)
            .append(force_break())
            .append(line())
            .append_str("|> ")
            .append(expr_doc(&**right)),
        Expr::Sequence { first, rest } => expr_doc(&**first)
            .append(force_break())
            .append(line())
            .append(expr_doc(&**rest)),
        Expr::TupleIndex { tuple, index } => expr_doc(&**tuple).append_str(".").append(
            text_string(number_text(*index)),
        ),
        Expr::Fn { args, body } => text("fn(")
            .append(wrap_args(args_to_docs(args)).nest_current())
            .append_str(")")
            .append_str(" {\n")
            .append(expr_doc(&**body))
            .append_str("\n}"),
        Expr::Nil => text("[]"),
        Expr::Cons { head, tail } => expr_doc(&**head).append_str("|").append(
            expr_doc(&**tail),
        ).surround("[", "]"),
        Expr::Call { fun, args } => {
            let mut ds: Vec<Document> = Vec::new();
            let mut i: usize = 0;
            while i < args.len()
                invariant
                    i <= args@.len(),
                    ds@.len() == i as nat,
                    *e is Call,
                    e->Call_args@ == args@,
                    forall|j: int| 0 <= j < i ==> document_view(ds@[j]) == call_arg_doc_spec(
                        args@[j],
                    ),
                decreases args@.len() - i,
            {
                let a = &args[i];
                proof {
                    assert(decreases_to!(*e => e->Call_args));
                    assert(decreases_to!(e->Call_args => e->Call_args@));
                    assert(decreases_to!(e->Call_args@ => e->Call_args@[i as int]));
                    assert(decreases_to!(e->Call_args@[i as int] => e->Call_args@[
                        i as int
                    ].value));
                }
                let d = label(&a.label).append(expr_doc(&a.value));
                ds.push(d);
                i = i + 1;
            }
            proof {
                lemma_call_args_docs(args@);
                assert(docs_view(ds@) =~= call_args_docs(args@));
            }
            expr_doc(&**fun).append(wrap_args(ds))
        },
        Expr::BinOp { name, left, right } => expr_doc(&**left).append(binop_doc(name)).append(
            expr_doc(&**right),
        ),
        Expr::Let { pattern, value, rest } => text("let ")
            .append(pattern_doc(pattern))
            .append_str(" = ")
            .append(expr_doc(&**value))
            .append(line())
            .append(expr_doc(&**rest)),
        Expr::Case { subjects, clauses } => {
            let mut sds: Vec<Document> = Vec::new();
            let mut i: usize = 0;
            while i < subjects.len()
                invariant
                    i <= subjects@.len(),
                    sds@.len() == i as nat,
                    *e is Case,
                    e->Case_subjects@ == subjects@,
                    forall|j: int| 0 <= j < i ==> document_view(sds@[j]) == expr_doc_spec(
                        subjects@[j],
                    ),
                decreases subjects@.len() - i,
            {
                proof {
                    assert(decreases_to!(*e => e->Case_subjects));
                    assert(decreases_to!(e->Case_subjects => e->Case_subjects@));
                    assert(decreases_to!(e->Case_subjects@ => e->Case_subjects@[i as int]));
                }
                let d = expr_doc(&subjects[i]);
                sds.push(d);
                i = i + 1;
            }
            proof {
                lemma_exprs_docs(subjects@);
                assert(docs_view(sds@) =~= exprs_docs(subjects@));
            }
            let mut cds: Vec<Document> = Vec::new();
            let mut k: usize = 0;
            while k < clauses.len()
                invariant
                    k <= clauses@.len(),
                    cds@.len() == k as nat,
                    *e is Case,
                    e->Case_clauses@ == clauses@,
                    forall|j: int| 0 <= j < k ==> document_view(cds@[j]) == dgroup(
                        dnest(INDENT as nat, dcons(Doc::Line(1), clause_doc_spec(clauses@[j]))),
                    ),
                decreases clauses@.len() - k,
            {
                proof {
                    assert(decreases_to!(*e => e->Case_clauses));
                    assert(decreases_to!(e->Case_clauses => e->Case_clauses@));
                    assert(decreases_to!(e->Case_clauses@ => e->Case_clauses@[k as int]));
                }
                let d = line().append(clause_doc(&clauses[k])).nest(INDENT).group();
                cds.push(d);
                k = k + 1;
            }
            proof {
                lemma_clause_items(clauses@);
                assert(docs_view(cds@) =~= clause_items(clauses@));
            }
            text("case ")
                .append(join_docs_text(sds, ", "))
                .append_str(" {")
                .append(concat_docs(cds))
                .append(line())
                .append_str("}")
        },
        Expr::FieldAccess { container, label } => expr_doc(&**container).append_str(".").append(
            text_string(label.clone()),
        ),
        Expr::Tuple { elems } => {
            let mut ds: Vec<Document> = Vec::new();
            let mut i: usize = 0;
            while i < elems.len()
                invariant
                    i <= elems@.len(),
                    ds@.len() == i as nat,
                    *e is Tuple,
                    e->Tuple_elems@ == elems@,
                    forall|j: int| 0 <= j < i ==> document_view(ds@[j]) == expr_doc_spec(
                        elems@[j],
                    ),
                decreases elems@.len() - i,
            {
                proof {
                    assert(decreases_to!(*e => e->Tuple_elems));
                    assert(decreases_to!(e->Tuple_elems => e->Tuple_elems@));
                    assert(decreases_to!(e->Tuple_elems@ => e->Tuple_elems@[i as int]));
                }
                let d = expr_doc(&elems[i]);
                ds.push(d);
                i = i + 1;
            }
            proof {
                lemma_exprs_docs(elems@);
                assert(docs_view(ds@) =~= exprs_docs(elems@));
            }
            text("tuple").append(wrap_args(ds))
        },
    }
}

/// The rendered documents of a list of plain names (generic type arguments).
pub open spec fn strings_docs(ss: Seq<String>) -> Seq<Doc>
    decreases ss,
{
    if ss.len() == 0 {
        Seq::empty()
    } else {
        strings_docs(ss.drop_last()).push(dtext(ss.last()@))
    }
}

pub proof fn lemma_strings_docs(ss: Seq<String>)
    ensures
        strings_docs(ss).len() == ss.len(),
        forall|j: int| 0 <= j < ss.len() ==> strings_docs(ss)[j] == dtext(ss[j]@),
    decreases ss.len(),
{
    if ss.len() > 0 {
        lemma_strings_docs(ss.drop_last());
    }
}

/// Renders each name of a list as literal text.
fn strings_to_docs(ss: &Vec<String>) -> (ds: Vec<Document>)
    ensures
        docs_view(ds@) == strings_docs(ss@),
{
    let mut ds: Vec<Document> = Vec::new();
    let mut i: usize = 0;
    while i < ss.len()
        invariant
            i <= ss@.len(),
            ds@.len() == i as nat,
            forall|j: int| 0 <= j < i ==> document_view(ds@[j]) == dtext(ss@[j]@),
        decreases ss@.len() - i,
    {
        let d = text_string(ss[i].clone());
        ds.push(d);
        i = i + 1;
    }
    proof {
        lemma_strings_docs(ss@);
        assert(docs_view(ds@) =~= strings_docs(ss@));
    }
    ds
}

/// The per-constructor documents of a custom type: each constructor on its
/// own indented, grouped line.
pub open spec fn ctor_items(cs: Seq<RecordConstructor>) -> Seq<Doc>
    decreases cs,
{
    if cs.len() == 0 {
        Seq::empty()
    } else {
        ctor_items(cs.drop_last()).push(
            dgroup(
                dnest(INDENT as nat, dcons(Doc::Line(1), record_constructor_doc_spec(cs.last()))),
            ),
        )
    }
}

pub proof fn lemma_ctor_items(cs: Seq<RecordConstructor>)
    ensures
        ctor_items(cs).len() == cs.len(),
        forall|j: int| 0 <= j < cs.len() ==> ctor_items(cs)[j] == dgroup(
            dnest(INDENT as nat, dcons(Doc::Line(1), record_constructor_doc_spec(cs[j]))),
        ),
    decreases cs.len(),
{
    if cs.len() > 0 {
        lemma_ctor_items(cs.drop_last());
    }
}

/// The rendered documents of an external function's arguments.
pub open spec fn ext_args_docs(args: Seq<ExternalFnArg>) -> Seq<Doc>
    decreases args,
{
    if args.len() == 0 {
        Seq::empty()
    } else {
        ext_args_docs(args.drop_last()).push(external_fn_arg_doc_spec(args.last()))
    }
}

pub proof fn lemma_ext_args_docs(args: Seq<ExternalFnArg>)
    ensures
        ext_args_docs(args).len() == args.len(),
        forall|j: int| 0 <= j < args.len() ==> ext_args_docs(args)[j] == external_fn_arg_doc_spec(
            args[j],
        ),
    decreases args.len(),
{
    if args.len() > 0 {
        lemma_ext_args_docs(args.drop_last());
    }
}

/// The rendered documents of the selectively imported names of an import.
pub open spec fn unq_docs(us: Seq<UnqualifiedImport>) -> Seq<Doc>
    decreases us,
{
    if us.len() == 0 {
        Seq::empty()
    } else {
        unq_docs(us.drop_last()).push(unqualified_import_doc_spec(us.last()))
    }
}

pub proof fn lemma_unq_docs(us: Seq<UnqualifiedImport>)
    ensures
        unq_docs(us).len() == us.len(),
        forall|j: int| 0 <= j < us.len() ==> unq_docs(us)[j] == unqualified_import_doc_spec(us[j]),
    decreases us.len(),
{
    if us.len() > 0 {
        lemma_unq_docs(us.drop_last());
    }
}

/// Rendering rule for a top-level statement.
pub open spec fn statement_doc_spec(s: Statement) -> Doc {
    match s {
        Statement::Fn { public, name, args, body, return_annotation } => dcons(
            dcons(
                dcons(
                    dcons(
                        dcons(
                            dcons(
                                dcons(
                                    dcons(pub_spec(public), dtext("fn "@)),
                                    dtext(name@),
                                ),
                                wrap_args_spec(args_docs(args@)),
                            ),
                            match return_annotation {
                                Some(t) => dcons(dtext(" -> "@), type_doc_spec(t)),
                                None => Doc::Nil,
                            },
                        ),
                        dtext(" {"@),
                    ),
                    dgroup(dnest(INDENT as nat, dcons(Doc::Line(1), expr_doc_spec(body)))),
                ),
                Doc::Line(1),
            ),
            dtext("}"@),
        ),
        Statement::TypeAlias { public, alias, args, resolved_type } => dcons(
            dcons(
                dcons(
                    dcons(
                        dcons(pub_spec(public), dtext("type "@)),
                        dtext(alias@),
                    ),
                    if args.len() == 0 {
                        Doc::Nil
                    } else {
                        wrap_args_spec(strings_docs(args@))
                    },
                ),
                dtext(" ="@),
            ),
            dnest(INDENT as nat, dgroup(dcons(Doc::Line(1), type_doc_spec(resolved_type)))),
        ),
        Statement::CustomType { public, name, args, constructors } => dcons(
            dcons(
                dcons(
                    dcons(
                        dcons(
                            dcons(pub_spec(public), dtext("type "@)),
                            if args.len() == 0 {
                                dtext(name@)
                            } else {
                                dcons(dtext(name@), wrap_args_spec(strings_docs(args@)))
                            },
                        ),
                        dtext(" {"@),
                    ),
                    concat_spec(ctor_items(constructors@)),
                ),
                Doc::Line(1),
            ),
            dtext("}"@),
        ),
        Statement::ExternalFn { public, name, args, retrn, module, fun } => dcons(
            dcons(
                dcons(
                    dcons(
                        dcons(
                            dcons(
                                dcons(
                                    dcons(
                                        dcons(
                                            dgroup(
                                                dcons(pub_spec(public), dtext("external fn "@)),
                                            ),
                                            dtext(name@),
                                        ),
                                        wrap_args_spec(ext_args_docs(args@)),
                                    ),
                                    dtext(" -> "@),
                                ),
                                type_doc_spec(retrn),
                            ),
                            dtext(" ="@),
                        ),
                        Doc::Line(1),
                    ),
                    dcons(dcons(dtext("  \""@), dtext(module@)), dtext("\" "@)),
                ),
                dcons(dtext("\""@), dtext(fun@)),
            ),
            dtext("\""@),
        ),
        Statement::ExternalType { public, name, args } => dcons(
            dcons(
                dcons(pub_spec(public), dtext("external type "@)),
                dtext(name@),
            ),
            if args.len() == 0 {
                Doc::Nil
            } else {
                wrap_args_spec(strings_docs(args@))
            },
        ),
        Statement::Import { module, unqualified, as_name } => dcons(
            dcons(
                dcons(dtext("import "@), join_spec(strings_docs(module@), dtext("/"@))),
                if unqualified.len() == 0 {
                    Doc::Nil
                } else {
                    dcons(
                        dcons(dtext(".{"@), join_spec(unq_docs(unqualified@), dtext(", "@))),
                        dtext("}"@),
                    )
                },
            ),
            match as_name {
                Some(n) => dcons(dtext(" as "@), dtext(n@)),
                None => Doc::Nil,
            },
        ),
    }
}

/// Renders a top-level statement.
pub fn statement_doc(s: &Statement) -> (d: Document)
    ensures
        d@ == statement_doc_spec(*s),
{
    match s {
        Statement::Fn { public, name, args, body, return_annotation } => {
            let ret = match return_annotation {
                Some(t) => text(" -> ").append(type_doc(t)),
                None => nil(),
            };
            pub_(public)
                .append_str("fn ")
                .append(text_string(name.clone()))
                .append(wrap_args(args_to_docs(args)))
                .append(ret)
                .append_str(" {")
                .append(line().append(expr_doc(body)).nest(INDENT).group())
                .append(line())
                .append_str("}")
        },
        Statement::TypeAlias { public, alias, args, resolved_type } => {
            let generics = if args.len() == 0 {
                nil()
            } else {
                wrap_args(strings_to_docs(args))
            };
            pub_(public)
                .append_str("type ")
                .append(text_string(alias.clone()))
                .append(generics)
                .append_str(" =")
                .append(line().append(type_doc(resolved_type)).group().nest(INDENT))
        },
        Statement::CustomType { public, name, args, constructors } => {
            let head = if args.len() == 0 {
                text_string(name.clone())
            } else {
                text_string(name.clone()).append(wrap_args(strings_to_docs(args)))
            };
            let mut cds: Vec<Document> = Vec::new();
            let mut i: usize = 0;
            while i < constructors.len()
                invariant
                    i <= constructors@.len(),
                    cds@.len() == i as nat,
                    forall|j: int| 0 <= j < i ==> document_view(cds@[j]) == dgroup(
                        dnest(
                            INDENT as nat,
                            dcons(Doc::Line(1), record_constructor_doc_spec(constructors@[j])),
                        ),
                    ),
                decreases constructors@.len() - i,
            {
                let d = line().append(record_constructor_doc(&constructors[i])).nest(
                    INDENT,
                ).group();
                cds.push(d);
                i = i + 1;
            }
            proof {
                lemma_ctor_items(constructors@);
                assert(docs_view(cds@) =~= ctor_items(constructors@));
            }
            pub_(public)
                .append_str("type ")
                .append(head)
                .append_str(" {")
                .append(concat_docs(cds))
                .append(line())
                .append_str("}")
        },
        Statement::ExternalFn { public, name, args, retrn, module, fun } => {
            let mut ads: Vec<Document> = Vec::new();
            let mut i: usize = 0;
            while i < args.len()
                invariant
                    i <= args@.len(),
                    ads@.len() == i as nat,
                    forall|j: int| 0 <= j < i ==> document_view(ads@[j])
                        == external_fn_arg_doc_spec(args@[j]),
                decreases args@.len() - i,
            {
                let d = external_fn_arg_doc(&args[i]);
                ads.push(d);
                i = i + 1;
            }
            proof {
                lemma_ext_args_docs(args@);
                assert(docs_view(ads@) =~= ext_args_docs(args@));
            }
            pub_(public)
                .append_str("external fn ")
                .group()
                .append(text_string(name.clone()))
                .append(wrap_args(ads))
                .append_str(" -> ")
                .append(type_doc(retrn))
                .append_str(" =")
                .append(line())
                .append(text("  \"").append(text_string(module.clone())).append_str("\" "))
                .append(text("\"").append(text_string(fun.clone())))
                .append_str("\"")
        },
        Statement::ExternalType { public, name, args } => {
            let generics = if args.len() == 0 {
                nil()
            } else {
                wrap_args(strings_to_docs(args))
            };
            pub_(public)
                .append_str("external type ")
                .append(text_string(name.clone()))
                .append(generics)
        },
        Statement::Import { module, unqualified, as_name } => {
            let mut uds: Vec<Document> = Vec::new();
            let mut i: usize = 0;
            while i < unqualified.len()
                invariant
                    i <= unqualified@.len(),
                    uds@.len() == i as nat,
                    forall|j: int| 0 <= j < i ==> document_view(uds@[j])
                        == unqualified_import_doc_spec(unqualified@[j]),
                decreases unqualified@.len() - i,
            {
                let d = unqualified_import_doc(&unqualified[i]);
                uds.push(d);
                i = i + 1;
            }
            proof {
                lemma_unq_docs(unqualified@);
                assert(docs_view(uds@) =~= unq_docs(unqualified@));
            }
            let unq = if unqualified.len() == 0 {
                nil()
            } else {
                text(".{").append(join_docs_text(uds, ", ")).append_str("}")
            };
            let rename = match as_name {
                Some(n) => text(" as ").append(text_string(n.clone())),
                None => nil(),
            };
            text("import ")
                .append(join_docs_text(strings_to_docs(module), "/"))
                .append(unq)
                .append(rename)
        },
    }
}

/// Whether a statement is an import.
pub open spec fn is_import(s: Statement) -> bool {
    s is Import
}

/// Whether any of the first `n` statements is an import.
pub open spec fn has_import_upto(ss: Seq<Statement>, n: int) -> bool {
    exists|i: int| 0 <= i < n && is_import(ss[i])
}

/// Whether any of the first `n` statements is a declaration (not an import).
pub open spec fn has_other_upto(ss: Seq<Statement>, n: int) -> bool {
    exists|i: int| 0 <= i < n && !is_import(ss[i])
}

/// The imports among the first `n` statements, in order, joined by single
/// line breaks.
pub open spec fn imports_doc_upto(ss: Seq<Statement>, n: int) -> Doc
    decreases n,
{
    if n <= 0 {
        Doc::Nil
    } else {
        let prev = imports_doc_upto(ss, n - 1);
        if !is_import(ss[n - 1]) {
            prev
        } else if has_import_upto(ss, n - 1) {
            dcons(dcons(prev, Doc::Line(1)), statement_doc_spec(ss[n - 1]))
        } else {
            statement_doc_spec(ss[n - 1])
        }
    }
}

/// The declarations among the first `n` statements, in order, joined by
/// double line breaks (one blank line).
pub open spec fn others_doc_upto(ss: Seq<Statement>, n: int) -> Doc
    decreases n,
{
    if n <= 0 {
        Doc::Nil
    } else {
        let prev = others_doc_upto(ss, n - 1);
        if is_import(ss[n - 1]) {
            prev
        } else if has_other_upto(ss, n - 1) {
            dcons(dcons(prev, Doc::Line(2)), statement_doc_spec(ss[n - 1]))
        } else {
            statement_doc_spec(ss[n - 1])
        }
    }
}

/// The separator between the import block and the declarations: one blank
/// line exactly when both are present.
pub open spec fn module_sep(ss: Seq<Statement>) -> Doc {
    if has_import_upto(ss, ss.len() as int) && has_other_upto(ss, ss.len() as int) {
        Doc::Line(2)
    } else {
        Doc::Nil
    }
}

/// Rendering rule for a whole module: imports first, then declarations,
/// a blank line between the two blocks when both exist, and exactly one
/// final line break.
pub open spec fn module_doc_spec(m: Module) -> Doc {
    dcons(
        dcons(
            dcons(
                imports_doc_upto(m.statements@, m.statements@.len() as int),
                module_sep(m.statements@),
            ),
            others_doc_upto(m.statements@, m.statements@.len() as int),
        ),
        Doc::Line(1),
    )
}

/// Assembles the document of a whole module.
pub fn module(m: &Module) -> (d: Document)
    ensures
        d@ == module_doc_spec(*m),
{
    let ghost ss = m.statements@;
    let mut imports = nil();
    let mut has_imports = false;
    let mut others = nil();
    let mut has_others = false;
    let mut i: usize = 0;
    while i < m.statements.len()
        invariant
            i <= ss.len(),
            ss == m.statements@,
            has_imports == has_import_upto(ss, i as int),
            has_others == has_other_upto(ss, i as int),
            imports@ == imports_doc_upto(ss, i as int),
            others@ == others_doc_upto(ss, i as int),
        decreases ss.len() - i,
    {
        let st = &m.statements[i];
        let d = statement_doc(st);
        if matches!(st, Statement::Import { .. }) {
            if has_imports {
                imports = imports.append(line()).append(d);
            } else {
                imports = d;
            }
            has_imports = true;
            proof {
                assert(has_import_upto(ss, i + 1 as int));
                assert(others_doc_upto(ss, i + 1 as int) == others_doc_upto(ss, i as int));
                assert(has_other_upto(ss, i + 1 as int) == has_other_upto(ss, i as int));
            }
        } else {
            if has_others {
                others = others.append(lines(2)).append(d);
            } else {
                others = d;
            }
            has_others = true;
            proof {
                assert(has_other_upto(ss, i + 1 as int));
                assert(imports_doc_upto(ss, i + 1 as int) == imports_doc_upto(ss, i as int));
                assert(has_import_upto(ss, i + 1 as int) == has_import_upto(ss, i as int));
            }
        }
        i = i + 1;
    }
    let sep = if has_imports && has_others {
        lines(2)
    } else {
        nil()
    };
    imports.append(sep).append(others).append(line())
}

/// The complete formatted text of a module.
pub open spec fn pretty_module_spec(m: Module) -> Seq<char> {
    crate::layout::render_spec(80, module_doc_spec(m))
}

/// Formats a module: renders its assembled document within 80 columns.
/// The result is a pure function of the module alone, so formatting is
/// deterministic.
pub fn pretty_module(m: &Module) -> (out: String)
    ensures
        out@ == pretty_module_spec(*m),
{
    crate::layout::render(module(m), 80)
}

} // verus!
