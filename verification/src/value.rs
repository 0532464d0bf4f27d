//! The runtime value model and its tokenization.
//!
//! A `Value` is what a field of a derived record can hold at runtime:
//! integer scalars, strings, and the supported generic containers —
//! sequences, optional values, result values, key-value maps, and sets.
//! Tokenizing a value re-expresses it as a literal construction
//! expression; tokenizing a whole record value emits a group-wrapped call
//! of the record's generated constructor with every field's tokenized
//! value in declaration order.

use vstd::prelude::*;
use crate::emit::call_head_toks;
use crate::shape::StructStructure;
use crate::tokens::DelimKind;
use crate::tokens::IntTy;
use crate::tokens::Tok;
use crate::tokens::TokM;
use crate::tokens::push_id;
use crate::tokens::push_punct;
use crate::tokens::push_tok;
use crate::tokens::toks_view;
use vstd::string::StringExecFns;

verus! {

/// The shape of a field's declared type, as far as tokenization reads it.
pub enum TyShape {
    IntT(IntTy),
    StrT,
    ListT(Box<TyShape>),
    OptT(Box<TyShape>),
    ResT(Box<TyShape>, Box<TyShape>),
    MapT(Box<TyShape>, Box<TyShape>),
    SetT(Box<TyShape>),
}

/// A runtime value of a supported field type.
#[derive(PartialEq, Eq, Debug)]
pub enum Value {
    IntV(IntTy, i128),
    StrV(String),
    ListV(Vec<Value>),
    NoneV,
    SomeV(Box<Value>),
    OkV(Box<Value>),
    ErrV(Box<Value>),
    MapV(Vec<(Value, Value)>),
    SetV(Vec<Value>),
}

/// The mathematical model of a value.
pub enum ValM {
    IntM(IntTy, int),
    StrM(Seq<char>),
    ListM(Seq<ValM>),
    NoneM,
    SomeM(Box<ValM>),
    OkM(Box<ValM>),
    ErrM(Box<ValM>),
    MapM(Seq<(ValM, ValM)>),
    SetM(Seq<ValM>),
}

/// The model of a value: containers become sequences of models.
pub open spec fn val_view(v: Value) -> ValM
    decreases v, 1int,
{
    match v {
        Value::IntV(ty, n) => ValM::IntM(ty, n as int),
        Value::StrV(s) => ValM::StrM(s@),
        Value::ListV(xs) => ValM::ListM(vals_view(xs@)),
        Value::NoneV => ValM::NoneM,
        Value::SomeV(b) => ValM::SomeM(Box::new(val_view(*b))),
        Value::OkV(b) => ValM::OkM(Box::new(val_view(*b))),
        Value::ErrV(b) => ValM::ErrM(Box::new(val_view(*b))),
        Value::MapV(ps) => ValM::MapM(pairs_view(ps@)),
        Value::SetV(xs) => ValM::SetM(vals_view(xs@)),
    }
}

/// The models of a list of values.
pub open spec fn vals_view(vs: Seq<Value>) -> Seq<ValM>
    decreases vs, 0int,
{
    if vs.len() == 0 {
        Seq::empty()
    } else {
        vals_view(vs.drop_last()).push(val_view(vs.last()))
    }
}

/// The models of a list of key-value pairs.
pub open spec fn pairs_view(ps: Seq<(Value, Value)>) -> Seq<(ValM, ValM)>
    decreases ps, 0int,
{
    if ps.len() == 0 {
        Seq::empty()
    } else {
        pairs_view(ps.drop_last()).push((val_view(ps.last().0), val_view(ps.last().1)))
    }
}

/// A value list's models are the values' models, in order.
pub proof fn lemma_vals_view(vs: Seq<Value>)
    ensures
        vals_view(vs).len() == vs.len(),
        forall|i: int| 0 <= i < vs.len() ==> vals_view(vs)[i] == val_view(#[trigger] vs[i]),
    decreases vs,
{
    if vs.len() > 0 {
        lemma_vals_view(vs.drop_last());
        assert forall|i: int| 0 <= i < vs.len() implies vals_view(vs)[i] == val_view(
            #[trigger] vs[i],
        ) by {
            if i < vs.len() - 1 {
                assert(vs.drop_last()[i] == vs[i]);
                assert(vals_view(vs.drop_last())[i] == val_view(vs.drop_last()[i]));
            } else {
                assert(vs.last() == vs[i]);
            }
        }
    }
}

/// A pair list's models are the pairs' models, in order.
pub proof fn lemma_pairs_view(ps: Seq<(Value, Value)>)
    ensures
        pairs_view(ps).len() == ps.len(),
        forall|i: int|
            0 <= i < ps.len() ==> pairs_view(ps)[i] == (
                val_view((#[trigger] ps[i]).0),
                val_view(ps[i].1),
            ),
    decreases ps,
{
    if ps.len() > 0 {
        lemma_pairs_view(ps.drop_last());
        assert forall|i: int| 0 <= i < ps.len() implies pairs_view(ps)[i] == (
            val_view((#[trigger] ps[i]).0),
            val_view(ps[i].1),
        ) by {
            if i < ps.len() - 1 {
                assert(ps.drop_last()[i] == ps[i]);
                assert(pairs_view(ps.drop_last())[i] == (
                    val_view(ps.drop_last()[i].0),
                    val_view(ps.drop_last()[i].1),
                ));
            } else {
                assert(ps.last() == ps[i]);
            }
        }
    }
}

/// Whether an integer lies in a width's range.
pub open spec fn in_range(ty: IntTy, n: int) -> bool {
    match ty {
        IntTy::I8 => i8::MIN <= n <= i8::MAX,
        IntTy::I16 => i16::MIN <= n <= i16::MAX,
        IntTy::I32 => i32::MIN <= n <= i32::MAX,
        IntTy::I64 => i64::MIN <= n <= i64::MAX,
        IntTy::Isize => isize::MIN <= n <= isize::MAX,
        IntTy::U8 => 0 <= n <= u8::MAX,
        IntTy::U16 => 0 <= n <= u16::MAX,
        IntTy::U32 => 0 <= n <= u32::MAX,
        IntTy::U64 => 0 <= n <= u64::MAX,
        IntTy::Usize => 0 <= n <= usize::MAX,
    }
}

/// Whether a value fits a type shape: scalars lie in range, containers
/// hold fitting values throughout.
pub open spec fn wf(v: ValM, t: TyShape) -> bool
    decreases v,
{
    match v {
        ValM::IntM(ty, n) => t matches TyShape::IntT(ty2) && ty2 == ty && in_range(ty, n),
        ValM::StrM(s) => t is StrT,
        ValM::ListM(els) => t matches TyShape::ListT(e) && forall|i: int|
            0 <= i < els.len() ==> wf(#[trigger] els[i], *e),
        ValM::NoneM => t is OptT,
        ValM::SomeM(b) => t matches TyShape::OptT(e) && wf(*b, *e),
        ValM::OkM(b) => t matches TyShape::ResT(o, e) && wf(*b, *o),
        ValM::ErrM(b) => t matches TyShape::ResT(o, e) && wf(*b, *e),
        ValM::MapM(ps) => t matches TyShape::MapT(k, v2) && forall|i: int|
            0 <= i < ps.len() ==> wf((#[trigger] ps[i]).0, *k) && wf(ps[i].1, *v2),
        ValM::SetM(els) => t matches TyShape::SetT(e) && forall|i: int|
            0 <= i < els.len() ==> wf(#[trigger] els[i], *e),
    }
}

/// The tokens of one value: a literal construction expression.
pub open spec fn tok_of(v: ValM) -> Seq<TokM>
    decreases v, 1int,
{
    match v {
        ValM::IntM(ty, n) => seq![TokM::IntLit(ty, n)],
        ValM::StrM(s) => seq![TokM::StrLit(s)],
        ValM::ListM(els) => seq![
            TokM::Ident("vec"@),
            TokM::Punct('!'),
            TokM::Open(DelimKind::Bracket),
        ] + elems_toks(els) + seq![TokM::Close(DelimKind::Bracket)],
        ValM::NoneM => seq![TokM::Ident("None"@)],
        ValM::SomeM(b) => seq![TokM::Ident("Some"@), TokM::Open(DelimKind::Paren)] + tok_of(*b)
            + seq![TokM::Close(DelimKind::Paren)],
        ValM::OkM(b) => seq![TokM::Ident("Ok"@), TokM::Open(DelimKind::Paren)] + tok_of(*b)
            + seq![TokM::Close(DelimKind::Paren)],
        ValM::ErrM(b) => seq![TokM::Ident("Err"@), TokM::Open(DelimKind::Paren)] + tok_of(*b)
            + seq![TokM::Close(DelimKind::Paren)],
        ValM::MapM(ps) => seq![
            TokM::Ident("vec"@),
            TokM::Punct('!'),
            TokM::Open(DelimKind::Bracket),
        ] + pairs_toks(ps) + seq![TokM::Close(DelimKind::Bracket)] + collect_toks(),
        ValM::SetM(els) => seq![
            TokM::Ident("vec"@),
            TokM::Punct('!'),
            TokM::Open(DelimKind::Bracket),
        ] + elems_toks(els) + seq![TokM::Close(DelimKind::Bracket)] + collect_toks(),
    }
}

/// The tokens of a comma-separated element list.
pub open spec fn elems_toks(els: Seq<ValM>) -> Seq<TokM>
    decreases els, 0int,
{
    if els.len() == 0 {
        Seq::empty()
    } else if els.len() == 1 {
        tok_of(els[0])
    } else {
        tok_of(els[0]) + seq![TokM::Punct(',')] + elems_toks(els.skip(1))
    }
}

/// The tokens of a comma-separated list of parenthesized key-value pairs.
pub open spec fn pairs_toks(ps: Seq<(ValM, ValM)>) -> Seq<TokM>
    decreases ps, 0int,
{
    if ps.len() == 0 {
        Seq::empty()
    } else if ps.len() == 1 {
        pair_toks(ps[0])
    } else {
        pair_toks(ps[0]) + seq![TokM::Punct(',')] + pairs_toks(ps.skip(1))
    }
}

/// The tokens of one parenthesized key-value pair.
pub open spec fn pair_toks(p: (ValM, ValM)) -> Seq<TokM>
    decreases p, 1int,
{
    seq![TokM::Open(DelimKind::Paren)] + tok_of(p.0) + seq![TokM::Punct(',')] + tok_of(p.1) + seq![
        TokM::Close(DelimKind::Paren),
    ]
}

/// The collection conversion that rebuilds a map or set from its literal
/// element list.
pub open spec fn collect_toks() -> Seq<TokM> {
    seq![
        TokM::Punct('.'),
        TokM::Ident("into_iter"@),
        TokM::Open(DelimKind::Paren),
        TokM::Close(DelimKind::Paren),
        TokM::Punct('.'),
        TokM::Ident("collect"@),
        TokM::Open(DelimKind::Paren),
        TokM::Close(DelimKind::Paren),
    ]
}

/// One more element appends its tokens, after a comma when the list was
/// not empty: element order in the tokens is list order.
pub proof fn lemma_elems_snoc(els: Seq<ValM>, x: ValM)
    ensures
        elems_toks(els.push(x)) == if els.len() == 0 {
            tok_of(x)
        } else {
            elems_toks(els) + seq![TokM::Punct(',')] + tok_of(x)
        },
    decreases els.len(),
{
    let p = els.push(x);
    if els.len() == 0 {
        assert(p[0] == x);
        assert(elems_toks(p) == tok_of(x));
    } else if els.len() == 1 {
        assert(p.skip(1) =~= seq![x]);
        assert(elems_toks(p.skip(1)) == tok_of(x));
        assert(elems_toks(p) =~= elems_toks(els) + seq![TokM::Punct(',')] + tok_of(x));
    } else {
        lemma_elems_snoc(els.skip(1), x);
        assert(p.skip(1) =~= els.skip(1).push(x));
        assert(elems_toks(p) =~= elems_toks(els) + seq![TokM::Punct(',')] + tok_of(x));
    }
}

/// One more pair appends its tokens, after a comma when the list was not
/// empty: pair order in the tokens is list order.
pub proof fn lemma_pairs_snoc(ps: Seq<(ValM, ValM)>, x: (ValM, ValM))
    ensures
        pairs_toks(ps.push(x)) == if ps.len() == 0 {
            pair_toks(x)
        } else {
            pairs_toks(ps) + seq![TokM::Punct(',')] + pair_toks(x)
        },
    decreases ps.len(),
{
    let p = ps.push(x);
    if ps.len() == 0 {
        assert(p[0] == x);
        assert(pairs_toks(p) == pair_toks(x));
    } else if ps.len() == 1 {
        assert(p.skip(1) =~= seq![x]);
        assert(pairs_toks(p.skip(1)) == pair_toks(x));
        assert(pairs_toks(p) =~= pairs_toks(ps) + seq![TokM::Punct(',')] + pair_toks(x));
    } else {
        lemma_pairs_snoc(ps.skip(1), x);
        assert(p.skip(1) =~= ps.skip(1).push(x));
        assert(pairs_toks(p) =~= pairs_toks(ps) + seq![TokM::Punct(',')] + pair_toks(x));
    }
}

/// Appends the tokens of one value: the literal construction expression
/// that re-expresses it.
pub fn tokenize_into(v: &Value, out: &mut Vec<Tok>)
    ensures
        toks_view(final(out)@) == toks_view(old(out)@) + tok_of(val_view(*v)),
    decreases v,
{
    let ghost base = toks_view(out@);
    match v {
        Value::IntV(ty, n) => {
            push_tok(out, Tok::IntLit(*ty, *n));
            proof {
                assert(toks_view(out@) =~= base + tok_of(val_view(*v)));
            }
        },
        Value::StrV(s) => {
            push_tok(out, Tok::StrLit(s.clone()));
            proof {
                assert(toks_view(out@) =~= base + tok_of(val_view(*v)));
            }
        },
        Value::NoneV => {
            push_id(out, "None");
            proof {
                assert(toks_view(out@) =~= base + tok_of(val_view(*v)));
            }
        },
        Value::SomeV(b) => {
            push_id(out, "Some");
            push_tok(out, Tok::Open(DelimKind::Paren));
            tokenize_into(b, out);
            push_tok(out, Tok::Close(DelimKind::Paren));
            proof {
                assert(toks_view(out@) =~= base + tok_of(val_view(*v)));
            }
        },
        Value::OkV(b) => {
            push_id(out, "Ok");
            push_tok(out, Tok::Open(DelimKind::Paren));
            tokenize_into(b, out);
            push_tok(out, Tok::Close(DelimKind::Paren));
            proof {
                assert(toks_view(out@) =~= base + tok_of(val_view(*v)));
            }
        },
        Value::ErrV(b) => {
            push_id(out, "Err");
            push_tok(out, Tok::Open(DelimKind::Paren));
            tokenize_into(b, out);
            push_tok(out, Tok::Close(DelimKind::Paren));
            proof {
                assert(toks_view(out@) =~= base + tok_of(val_view(*v)));
            }
        },
        Value::ListV(xs) => {
            push_id(out, "vec");
            push_punct(out, '!');
            push_tok(out, Tok::Open(DelimKind::Bracket));
            let ghost head = toks_view(out@);
            tokenize_elems(xs, out);
            push_tok(out, Tok::Close(DelimKind::Bracket));
            proof {
                assert(head =~= base + seq![
                    TokM::Ident("vec"@),
                    TokM::Punct('!'),
                    TokM::Open(DelimKind::Bracket),
                ]);
                assert(toks_view(out@) =~= base + tok_of(val_view(*v)));
            }
        },
        Value::SetV(xs) => {
            push_id(out, "vec");
            push_punct(out, '!');
            push_tok(out, Tok::Open(DelimKind::Bracket));
            let ghost head = toks_view(out@);
            tokenize_elems(xs, out);
            push_tok(out, Tok::Close(DelimKind::Bracket));
            append_collect(out);
            proof {
                assert(head =~= base + seq![
                    TokM::Ident("vec"@),
                    TokM::Punct('!'),
                    TokM::Open(DelimKind::Bracket),
                ]);
                assert(toks_view(out@) =~= base + tok_of(val_view(*v)));
            }
        },
        Value::MapV(ps) => {
            push_id(out, "vec");
            push_punct(out, '!');
            push_tok(out, Tok::Open(DelimKind::Bracket));
            let ghost head = toks_view(out@);
            tokenize_pairs(ps, out);
            push_tok(out, Tok::Close(DelimKind::Bracket));
            append_collect(out);
            proof {
                assert(head =~= base + seq![
                    TokM::Ident("vec"@),
                    TokM::Punct('!'),
                    TokM::Open(DelimKind::Bracket),
                ]);
                assert(toks_view(out@) =~= base + tok_of(val_view(*v)));
            }
        },
    }
}

/// Appends a comma-separated element list.
fn tokenize_elems(xs: &Vec<Value>, out: &mut Vec<Tok>)
    ensures
        toks_view(final(out)@) == toks_view(old(out)@) + elems_toks(vals_view(xs@)),
    decreases xs,
{
    let ghost base = toks_view(out@);
    let mut i: usize = 0;
    while i < xs.len()
        invariant
            0 <= i <= xs.len(),
            toks_view(out@) == base + elems_toks(vals_view(xs@.take(i as int))),
        decreases xs.len() - i,
    {
        if i > 0 {
            push_punct(out, ',');
        }
        let ghost mid = toks_view(out@);
        tokenize_into(&xs[i], out);
        proof {
            let prev = vals_view(xs@.take(i as int));
            let next = vals_view(xs@.take(i as int + 1));
            assert(xs@.take(i as int + 1).drop_last() =~= xs@.take(i as int));
            assert(xs@.take(i as int + 1).last() == xs@[i as int]);
            assert(next == prev.push(val_view(xs@[i as int])));
            lemma_elems_snoc(prev, val_view(xs@[i as int]));
            lemma_vals_view(xs@.take(i as int));
            assert(prev.len() == i);
            if i > 0 {
                assert(toks_view(out@) =~= base + elems_toks(next));
            } else {
                assert(toks_view(out@) =~= base + elems_toks(next));
            }
        }
        i = i + 1;
    }
    proof {
        assert(xs@.take(xs.len() as int) =~= xs@);
    }
}

/// Appends a comma-separated list of parenthesized key-value pairs.
fn tokenize_pairs(ps: &Vec<(Value, Value)>, out: &mut Vec<Tok>)
    ensures
        toks_view(final(out)@) == toks_view(old(out)@) + pairs_toks(pairs_view(ps@)),
    decreases ps,
{
    let ghost base = toks_view(out@);
    let mut i: usize = 0;
    while i < ps.len()
        invariant
            0 <= i <= ps.len(),
            toks_view(out@) == base + pairs_toks(pairs_view(ps@.take(i as int))),
        decreases ps.len() - i,
    {
        if i > 0 {
            push_punct(out, ',');
        }
        push_tok(out, Tok::Open(DelimKind::Paren));
        tokenize_into(&ps[i].0, out);
        push_punct(out, ',');
        tokenize_into(&ps[i].1, out);
        push_tok(out, Tok::Close(DelimKind::Paren));
        proof {
            let prev = pairs_view(ps@.take(i as int));
            let next = pairs_view(ps@.take(i as int + 1));
            let x = (val_view(ps@[i as int].0), val_view(ps@[i as int].1));
            assert(ps@.take(i as int + 1).drop_last() =~= ps@.take(i as int));
            assert(ps@.take(i as int + 1).last() == ps@[i as int]);
            assert(next == prev.push(x));
            lemma_pairs_snoc(prev, x);
            lemma_pairs_view(ps@.take(i as int));
            assert(prev.len() == i);
            assert(toks_view(out@) =~= base + pairs_toks(next));
        }
        i = i + 1;
    }
    proof {
        assert(ps@.take(ps.len() as int) =~= ps@);
    }
}

/// Appends the collection conversion of a map or set literal.
fn append_collect(out: &mut Vec<Tok>)
    ensures
        toks_view(final(out)@) == toks_view(old(out)@) + collect_toks(),
{
    push_punct(out, '.');
    push_id(out, "into_iter");
    push_tok(out, Tok::Open(DelimKind::Paren));
    push_tok(out, Tok::Close(DelimKind::Paren));
    push_punct(out, '.');
    push_id(out, "collect");
    push_tok(out, Tok::Open(DelimKind::Paren));
    push_tok(out, Tok::Close(DelimKind::Paren));
    proof {
        assert(toks_view(final(out)@) =~= toks_view(old(out)@) + collect_toks());
    }
}

/// The tokens of one value, as a fresh stream.
pub fn tokenize(v: &Value) -> (r: Vec<Tok>)
    ensures
        toks_view(r@) == tok_of(val_view(*v)),
{
    let mut out: Vec<Tok> = Vec::new();
    tokenize_into(v, &mut out);
    proof {
        assert(toks_view(out@) =~= tok_of(val_view(*v)));
    }
    out
}

/// What tokenizing a whole record value emits at runtime: a single
/// delimited group holding a call of the record's generated constructor,
/// prefixed by the qualifying path when one is configured, with the field
/// values' tokens as arguments in declaration order.
pub open spec fn record_toks(s: StructStructure, vs: Seq<ValM>) -> Seq<TokM> {
    seq![TokM::Open(DelimKind::Invisible)] + call_head_toks(s.mod_path, s.name@) + elems_toks(vs)
        + seq![TokM::Close(DelimKind::Paren), TokM::Close(DelimKind::Invisible)]
}

/// Tokenizes a record value: the field values stand in declaration order.
/// The group's delimiter is invisible, so the rendered text is the bare
/// constructor call.
pub fn tokenize_record(s: &StructStructure, vals: &Vec<Value>) -> (r: Vec<Tok>)
    ensures
        toks_view(r@) == record_toks(*s, vals_view(vals@)),
{
    let mut out: Vec<Tok> = Vec::new();
    push_tok(&mut out, Tok::Open(DelimKind::Invisible));
    match &s.mod_path {
        Some(p) => {
            push_tok(&mut out, Tok::Verbatim(p.clone()));
            push_punct(&mut out, ':');
            push_punct(&mut out, ':');
        },
        None => {},
    }
    push_tok(&mut out, Tok::Ident(s.name.clone()));
    push_punct(&mut out, ':');
    push_punct(&mut out, ':');
    push_id(&mut out, "new");
    push_tok(&mut out, Tok::Open(DelimKind::Paren));
    proof {
        assert(toks_view(out@) =~= seq![TokM::Open(DelimKind::Invisible)] + call_head_toks(
            s.mod_path,
            s.name@,
        ));
    }
    tokenize_elems(vals, &mut out);
    push_tok(&mut out, Tok::Close(DelimKind::Paren));
    push_tok(&mut out, Tok::Close(DelimKind::Invisible));
    proof {
        assert(toks_view(out@) =~= record_toks(*s, vals_view(vals@)));
    }
    out
}

/// Field-order invariance: what a record value tokenizes to depends only
/// on the record's name, its qualifying path, and the field values in
/// declaration order — never on the layout kind or the field names.
pub proof fn lemma_field_order_invariance(s1: StructStructure, s2: StructStructure, vs: Seq<ValM>)
    requires
        s1.name@ == s2.name@,
        crate::shape::opt_text(s1.mod_path) == crate::shape::opt_text(s2.mod_path),
    ensures
        record_toks(s1, vs) == record_toks(s2, vs),
{
    match (s1.mod_path, s2.mod_path) {
        (Some(p1), Some(p2)) => {
            assert(p1@ == p2@);
            assert(crate::emit::mod_path_toks(s1.mod_path) =~= crate::emit::mod_path_toks(
                s2.mod_path,
            ));
        },
        _ => {},
    }
    assert(record_toks(s1, vs) =~= record_toks(s2, vs));
}

/// The no-field case: with no field values and no qualifying path, a
/// record tokenizes to exactly the bare constructor call `Name::new()`
/// inside the group, with no arguments and nothing in between.
pub proof fn lemma_no_field_case(s: StructStructure)
    requires
        s.mod_path is None,
    ensures
        record_toks(s, Seq::empty()) == seq![
            TokM::Open(DelimKind::Invisible),
            TokM::Ident(s.name@),
            TokM::Punct(':'),
            TokM::Punct(':'),
            TokM::Ident("new"@),
            TokM::Open(DelimKind::Paren),
            TokM::Close(DelimKind::Paren),
            TokM::Close(DelimKind::Invisible),
        ],
{
    assert(record_toks(s, Seq::empty()) =~= seq![
        TokM::Open(DelimKind::Invisible),
        TokM::Ident(s.name@),
        TokM::Punct(':'),
        TokM::Punct(':'),
        TokM::Ident("new"@),
        TokM::Open(DelimKind::Paren),
        TokM::Close(DelimKind::Paren),
        TokM::Close(DelimKind::Invisible),
    ]);
}

/// The qualifying-path option: with a path configured the constructor
/// call is prefixed by the path and a separator; without one the call
/// begins with the record's name directly.
pub proof fn lemma_qualifying_path(s: StructStructure, vs: Seq<ValM>)
    ensures
        s.mod_path matches Some(p) ==> record_toks(s, vs) == seq![
            TokM::Open(DelimKind::Invisible),
            TokM::Verbatim(p@),
            TokM::Punct(':'),
            TokM::Punct(':'),
            TokM::Ident(s.name@),
            TokM::Punct(':'),
            TokM::Punct(':'),
            TokM::Ident("new"@),
            TokM::Open(DelimKind::Paren),
        ] + elems_toks(vs) + seq![
            TokM::Close(DelimKind::Paren),
            TokM::Close(DelimKind::Invisible),
        ],
        s.mod_path is None ==> record_toks(s, vs) == seq![
            TokM::Open(DelimKind::Invisible),
            TokM::Ident(s.name@),
            TokM::Punct(':'),
            TokM::Punct(':'),
            TokM::Ident("new"@),
            TokM::Open(DelimKind::Paren),
        ] + elems_toks(vs) + seq![
            TokM::Close(DelimKind::Paren),
            TokM::Close(DelimKind::Invisible),
        ],
{
    match s.mod_path {
        Some(p) => {
            assert(record_toks(s, vs) =~= seq![
                TokM::Open(DelimKind::Invisible),
                TokM::Verbatim(p@),
                TokM::Punct(':'),
                TokM::Punct(':'),
                TokM::Ident(s.name@),
                TokM::Punct(':'),
                TokM::Punct(':'),
                TokM::Ident("new"@),
                TokM::Open(DelimKind::Paren),
            ] + elems_toks(vs) + seq![
                TokM::Close(DelimKind::Paren),
                TokM::Close(DelimKind::Invisible),
            ]);
        },
        None => {
            assert(record_toks(s, vs) =~= seq![
                TokM::Open(DelimKind::Invisible),
                TokM::Ident(s.name@),
                TokM::Punct(':'),
                TokM::Punct(':'),
                TokM::Ident("new"@),
                TokM::Open(DelimKind::Paren),
            ] + elems_toks(vs) + seq![
                TokM::Close(DelimKind::Paren),
                TokM::Close(DelimKind::Invisible),
            ]);
        },
    }
}

} // verus!
