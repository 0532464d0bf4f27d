//! Reconstruction: the inverse of tokenization.
//!
//! `reconstruct` parses a tokenized value back, directed by the type
//! shape the tokens were produced for — the same way the emitted literal
//! expression is later evaluated at a site whose expected type is known.
//! The round-trip law is the parser's contract: whenever the tokens at
//! the given position begin with the tokenization of a value fitting the
//! shape, exactly that value comes back.

use vstd::prelude::*;
use vstd::string::StringExecFns;
use crate::tokens::DelimKind;
use crate::tokens::IntTy;
use crate::tokens::Tok;
use crate::tokens::TokM;
use crate::tokens::toks_view;
use crate::value::TyShape;
use crate::value::ValM;
use crate::value::Value;
use crate::value::elems_toks;
use crate::value::in_range;
use crate::value::pair_toks;
use crate::value::pairs_toks;
use crate::value::pairs_view;
use crate::value::tok_of;
use crate::value::val_view;
use crate::value::vals_view;
use crate::value::wf;

verus! {

/// The tokens `pre` stand in `s` at position `pos`.
pub open spec fn prefix_at(s: Seq<TokM>, pos: int, pre: Seq<TokM>) -> bool {
    &&& 0 <= pos
    &&& pos + pre.len() <= s.len()
    &&& forall|j: int| 0 <= j < pre.len() ==> s[pos + j] == #[trigger] pre[j]
}

/// The parse result is the value `v`, ending right after `v`'s tokens.
pub open spec fn parses_to(r: Option<(Value, usize)>, pos: int, v: ValM) -> bool {
    &&& r matches Some(p)
    &&& val_view(r->Some_0.0) == v
    &&& r->Some_0.1 == pos + tok_of(v).len()
}

/// Every element fits the shape.
pub open spec fn wf_list(els: Seq<ValM>, e: TyShape) -> bool {
    forall|i: int| 0 <= i < els.len() ==> wf(#[trigger] els[i], e)
}

/// Every key and every value fit their shapes.
pub open spec fn wf_pairs(ps: Seq<(ValM, ValM)>, k: TyShape, w: TyShape) -> bool {
    forall|i: int| 0 <= i < ps.len() ==> wf((#[trigger] ps[i]).0, k) && wf(ps[i].1, w)
}

/// The tokens of the remainder of an element list: for each remaining
/// element, a comma and then the element's tokens.
pub open spec fn rest_toks(rest: Seq<ValM>) -> Seq<TokM>
    decreases rest,
{
    if rest.len() == 0 {
        Seq::empty()
    } else {
        seq![TokM::Punct(',')] + tok_of(rest[0]) + rest_toks(rest.skip(1))
    }
}

/// The tokens of the remainder of a pair list.
pub open spec fn prest_toks(rest: Seq<(ValM, ValM)>) -> Seq<TokM>
    decreases rest,
{
    if rest.len() == 0 {
        Seq::empty()
    } else {
        seq![TokM::Punct(',')] + pair_toks(rest[0]) + prest_toks(rest.skip(1))
    }
}

/// A nonempty remainder is a comma before the element list it holds.
pub proof fn lemma_rest_elems(x: Seq<ValM>)
    requires
        x.len() > 0,
    ensures
        rest_toks(x) == seq![TokM::Punct(',')] + elems_toks(x),
    decreases x.len(),
{
    if x.len() == 1 {
        assert(rest_toks(x.skip(1)) == Seq::<TokM>::empty());
        assert(rest_toks(x) =~= seq![TokM::Punct(',')] + elems_toks(x));
    } else {
        lemma_rest_elems(x.skip(1));
        assert(rest_toks(x) =~= seq![TokM::Punct(',')] + elems_toks(x));
    }
}

/// An element list is its first element's tokens before the remainder.
pub proof fn lemma_elems_split(els: Seq<ValM>)
    requires
        els.len() > 0,
    ensures
        elems_toks(els) == tok_of(els[0]) + rest_toks(els.skip(1)),
{
    if els.len() == 1 {
        assert(elems_toks(els) =~= tok_of(els[0]) + rest_toks(els.skip(1)));
    } else {
        lemma_rest_elems(els.skip(1));
        assert(elems_toks(els) =~= tok_of(els[0]) + rest_toks(els.skip(1)));
    }
}

/// A nonempty pair remainder is a comma before the pair list it holds.
pub proof fn lemma_prest_pairs(x: Seq<(ValM, ValM)>)
    requires
        x.len() > 0,
    ensures
        prest_toks(x) == seq![TokM::Punct(',')] + pairs_toks(x),
    decreases x.len(),
{
    if x.len() == 1 {
        assert(prest_toks(x.skip(1)) == Seq::<TokM>::empty());
        assert(prest_toks(x) =~= seq![TokM::Punct(',')] + pairs_toks(x));
    } else {
        lemma_prest_pairs(x.skip(1));
        assert(prest_toks(x) =~= seq![TokM::Punct(',')] + pairs_toks(x));
    }
}

/// A pair list is its first pair's tokens before the remainder.
pub proof fn lemma_pairs_split(ps: Seq<(ValM, ValM)>)
    requires
        ps.len() > 0,
    ensures
        pairs_toks(ps) == pair_toks(ps[0]) + prest_toks(ps.skip(1)),
{
    if ps.len() == 1 {
        assert(pairs_toks(ps) =~= pair_toks(ps[0]) + prest_toks(ps.skip(1)));
    } else {
        lemma_prest_pairs(ps.skip(1));
        assert(pairs_toks(ps) =~= pair_toks(ps[0]) + prest_toks(ps.skip(1)));
    }
}

/// A measure on type shapes for the parser's recursion.
pub open spec fn ty_height(t: TyShape) -> nat
    decreases t,
{
    match t {
        TyShape::IntT(_) => 1,
        TyShape::StrT => 1,
        TyShape::ListT(e) => ty_height(*e) + 1,
        TyShape::OptT(e) => ty_height(*e) + 1,
        TyShape::ResT(o, e) => ty_height(*o) + ty_height(*e) + 1,
        TyShape::MapT(k, w) => ty_height(*k) + ty_height(*w) + 1,
        TyShape::SetT(e) => ty_height(*e) + 1,
    }
}

/// A value's tokens begin with an identifier or a literal — never with a
/// closing delimiter and never with punctuation.
pub proof fn lemma_tok_of_first(v: ValM)
    ensures
        tok_of(v).len() >= 1,
        !(tok_of(v)[0] is Close),
        !(tok_of(v)[0] is Punct),
{
    match v {
        ValM::ListM(els) => {
            assert(tok_of(v)[0] == TokM::Ident("vec"@));
        },
        ValM::SomeM(b) => {
            assert(tok_of(v)[0] == TokM::Ident("Some"@));
        },
        ValM::OkM(b) => {
            assert(tok_of(v)[0] == TokM::Ident("Ok"@));
        },
        ValM::ErrM(b) => {
            assert(tok_of(v)[0] == TokM::Ident("Err"@));
        },
        ValM::MapM(ps) => {
            assert(tok_of(v)[0] == TokM::Ident("vec"@));
        },
        ValM::SetM(els) => {
            assert(tok_of(v)[0] == TokM::Ident("vec"@));
        },
        _ => {},
    }
}

/// At a prefix of a value's tokens, the first token stands at `pos`.
pub proof fn lemma_at0(s: Seq<TokM>, pos: int, v: ValM)
    requires
        prefix_at(s, pos, tok_of(v)),
    ensures
        pos < s.len(),
        s[pos] == tok_of(v)[0],
        tok_of(v).len() >= 1,
{
    lemma_tok_of_first(v);
    assert(s[pos + 0] == tok_of(v)[0]);
}

/// Whether a string and a string slice hold the same text.
fn str_is(a: &String, b: &str) -> (r: bool)
    ensures
        r == (a@ == b@),
{
    let bs = String::from_str(b);
    *a == bs
}

/// Whether an integer lies in a width's range, as an executable test.
fn int_fits(ty: IntTy, n: i128) -> (r: bool)
    ensures
        r == in_range(ty, n as int),
{
    match ty {
        IntTy::I8 => i8::MIN as i128 <= n && n <= i8::MAX as i128,
        IntTy::I16 => i16::MIN as i128 <= n && n <= i16::MAX as i128,
        IntTy::I32 => i32::MIN as i128 <= n && n <= i32::MAX as i128,
        IntTy::I64 => i64::MIN as i128 <= n && n <= i64::MAX as i128,
        IntTy::Isize => isize::MIN as i128 <= n && n <= isize::MAX as i128,
        IntTy::U8 => 0 <= n && n <= u8::MAX as i128,
        IntTy::U16 => 0 <= n && n <= u16::MAX as i128,
        IntTy::U32 => 0 <= n && n <= u32::MAX as i128,
        IntTy::U64 => 0 <= n && n <= u64::MAX as i128,
        IntTy::Usize => 0 <= n && n <= usize::MAX as i128,
    }
}

/// Parses the wrapped inside of `Some(...)`, `Ok(...)` or `Err(...)`:
/// the opening parenthesis stands at `pos`.
fn parse_wrapped(e: &TyShape, toks: &Vec<Tok>, pos: usize) -> (r: Option<(Value, usize)>)
    requires
        pos <= toks@.len(),
    ensures
        r matches Some(p) ==> pos < p.1 <= toks@.len(),
        forall|b: ValM|
            wf(b, *e) && prefix_at(
                toks_view(toks@),
                pos as int,
                seq![TokM::Open(DelimKind::Paren)] + tok_of(b) + seq![
                    TokM::Close(DelimKind::Paren),
                ],
            ) ==> (r matches Some(p) && val_view(p.0) == b && p.1 == pos + tok_of(b).len() + 2),
    decreases ty_height(*e), toks@.len() - pos, 2int,
{
    let ghost s = toks_view(toks@);
    if pos < toks.len() && matches!(&toks[pos], Tok::Open(d) if matches!(d, DelimKind::Paren)) {
        match reconstruct_at(e, toks, pos + 1) {
            Some((inner, p1)) => {
                if p1 < toks.len() && matches!(&toks[p1], Tok::Close(d) if matches!(d, DelimKind::Paren)) {
                    proof {
                        assert forall|b: ValM|
                            wf(b, *e) && prefix_at(
                                s,
                                pos as int,
                                seq![TokM::Open(DelimKind::Paren)] + tok_of(b) + seq![
                                    TokM::Close(DelimKind::Paren),
                                ],
                            ) implies val_view(inner) == b && p1 + 1 == pos + tok_of(b).len()
                            + 2 by {
                            let whole = seq![TokM::Open(DelimKind::Paren)] + tok_of(b) + seq![
                                TokM::Close(DelimKind::Paren),
                            ];
                            assert forall|j: int| 0 <= j < tok_of(b).len() implies s[pos + 1 + j]
                                == #[trigger] tok_of(b)[j] by {
                                assert(whole[1 + j] == tok_of(b)[j]);
                            }
                            assert(prefix_at(s, pos as int + 1, tok_of(b)));
                        }
                    }
                    return Some((inner, p1 + 1));
                }
                proof {
                    assert forall|b: ValM|
                        !(wf(b, *e) && prefix_at(
                            s,
                            pos as int,
                            seq![TokM::Open(DelimKind::Paren)] + tok_of(b) + seq![
                                TokM::Close(DelimKind::Paren),
                            ],
                        )) by {
                        let whole = seq![TokM::Open(DelimKind::Paren)] + tok_of(b) + seq![
                            TokM::Close(DelimKind::Paren),
                        ];
                        if wf(b, *e) && prefix_at(s, pos as int, whole) {
                            assert forall|j: int| 0 <= j < tok_of(b).len() implies s[pos + 1 + j]
                                == #[trigger] tok_of(b)[j] by {
                                assert(whole[1 + j] == tok_of(b)[j]);
                            }
                            assert(prefix_at(s, pos as int + 1, tok_of(b)));
                            assert(val_view(inner) == b);
                            assert(p1 == pos + 1 + tok_of(b).len());
                            assert(whole[whole.len() - 1] == TokM::Close(DelimKind::Paren));
                            assert(s[p1 as int] == TokM::Close(DelimKind::Paren));
                        }
                    }
                }
                None
            },
            None => {
                proof {
                    assert forall|b: ValM|
                        !(wf(b, *e) && prefix_at(
                            s,
                            pos as int,
                            seq![TokM::Open(DelimKind::Paren)] + tok_of(b) + seq![
                                TokM::Close(DelimKind::Paren),
                            ],
                        )) by {
                        let whole = seq![TokM::Open(DelimKind::Paren)] + tok_of(b) + seq![
                            TokM::Close(DelimKind::Paren),
                        ];
                        if wf(b, *e) && prefix_at(s, pos as int, whole) {
                            assert forall|j: int| 0 <= j < tok_of(b).len() implies s[pos + 1 + j]
                                == #[trigger] tok_of(b)[j] by {
                                assert(whole[1 + j] == tok_of(b)[j]);
                            }
                            assert(prefix_at(s, pos as int + 1, tok_of(b)));
                        }
                    }
                }
                None
            },
        }
    } else {
        proof {
            assert forall|b: ValM|
                !(wf(b, *e) && prefix_at(
                    s,
                    pos as int,
                    seq![TokM::Open(DelimKind::Paren)] + tok_of(b) + seq![
                        TokM::Close(DelimKind::Paren),
                    ],
                )) by {
                let whole = seq![TokM::Open(DelimKind::Paren)] + tok_of(b) + seq![
                    TokM::Close(DelimKind::Paren),
                ];
                if prefix_at(s, pos as int, whole) {
                    assert(s[pos as int] == whole[0]);
                }
            }
        }
        None
    }
}

/// Sub-streams of a prefix stand at their offsets.
pub proof fn lemma_prefix_split(s: Seq<TokM>, pos: int, a: Seq<TokM>, b: Seq<TokM>)
    requires
        prefix_at(s, pos, a + b),
    ensures
        prefix_at(s, pos, a),
        prefix_at(s, pos + a.len(), b),
{
    assert forall|j: int| 0 <= j < a.len() implies s[pos + j] == #[trigger] a[j] by {
        assert((a + b)[j] == a[j]);
    }
    assert forall|j: int| 0 <= j < b.len() implies s[pos + a.len() + j] == #[trigger] b[j] by {
        assert((a + b)[a.len() + j] == b[j]);
    }
}

/// Every type shape has positive height.
pub proof fn lemma_ty_height_pos(t: TyShape)
    ensures
        ty_height(t) >= 1,
{
}

/// Parses an optional value.
fn parse_opt_v(t: &TyShape, e: &TyShape, toks: &Vec<Tok>, pos: usize) -> (r: Option<
    (Value, usize),
>)
    requires
        pos <= toks@.len(),
        *t matches TyShape::OptT(b) && *b == *e,
    ensures
        r matches Some(p) ==> pos < p.1 <= toks@.len(),
        forall|v: ValM|
            wf(v, *t) && prefix_at(toks_view(toks@), pos as int, tok_of(v)) ==> parses_to(
                r,
                pos as int,
                v,
            ),
    decreases ty_height(*t), toks@.len() - pos, 0int,
{
    let ghost s = toks_view(toks@);
    proof {
        assert forall|i: int| 0 <= i < toks@.len() implies s[i] == #[trigger] toks@[i]@ by {}
    }
        proof {
            reveal_strlit("None");
            reveal_strlit("Some");
            assert("None"@ != "Some"@) by {
                assert("None"@[0] == 'N' && "Some"@[0] == 'S');
            }
        }
        if pos < toks.len() {
            match &toks[pos] {
                Tok::Ident(id) => {
                    proof {
                        assert(toks@[pos as int]@ == TokM::Ident(id@));
                    }
                    if str_is(id, "None") {
                        proof {
                            assert forall|v: ValM|
                                wf(v, *t) && prefix_at(s, pos as int, tok_of(v))
                                implies parses_to(
                                Some((Value::NoneV, (pos + 1) as usize)),
                                pos as int,
                                v,
                            ) by {
                                lemma_at0(s, pos as int, v);
                                assert(s.len() == toks@.len());
                                assert(s[pos as int] == toks@[pos as int]@);
                                if v is SomeM {
                                    assert(tok_of(v)[0] == TokM::Ident("Some"@));
                                    assert(false);
                                } else {
                                    assert(tok_of(v) == seq![TokM::Ident("None"@)]);
                                    assert(tok_of(v)[0] == TokM::Ident("None"@));
                                }
                            }
                        }
                        return Some((Value::NoneV, pos + 1));
                    }
                    if str_is(id, "Some") {
                        let r0 = parse_wrapped(e, toks, pos + 1);
                        proof {
                            assert forall|v: ValM|
                                wf(v, *t) && prefix_at(s, pos as int, tok_of(v))
                                implies parses_to(
                                opt_wrap_some(r0),
                                pos as int,
                                v,
                            ) by {
                                if v is SomeM {
                                    let b = v->SomeM_0;
                                    let inner = seq![TokM::Open(DelimKind::Paren)] + tok_of(
                                        *b,
                                    ) + seq![TokM::Close(DelimKind::Paren)];
                                    assert(tok_of(v) =~= seq![TokM::Ident("Some"@)] + inner);
                                    lemma_prefix_split(
                                        s,
                                        pos as int,
                                        seq![TokM::Ident("Some"@)],
                                        inner,
                                    );
                                    assert(prefix_at(s, pos as int + 1, inner));
                                    assert(wf(*b, *e));
                                } else {
                                    assert(tok_of(v) == seq![TokM::Ident("None"@)]);
                                    assert(tok_of(v)[0] == TokM::Ident("None"@));
                                    lemma_at0(s, pos as int, v);
                                    assert(s.len() == toks@.len());
                                    assert(s[pos as int] == toks@[pos as int]@);
                                    assert(toks@[pos as int]@ == TokM::Ident(id@));
                                    assert(s[pos as int] == TokM::Ident("None"@));
                                    assert(false);
                                }
                            }
                        }
                        match r0 {
                            Some((inner, p1)) => {
                                return Some((Value::SomeV(Box::new(inner)), p1));
                            },
                            None => {
                                return None;
                            },
                        }
                    }
                },
                _ => {},
            }
        }
        proof {
        assert forall|v: ValM| !(wf(v, *t) && prefix_at(s, pos as int, tok_of(v))) by {
            if wf(v, *t) && prefix_at(s, pos as int, tok_of(v)) {
                lemma_at0(s, pos as int, v);
                assert(s.len() == toks@.len());
                if v is SomeM {
                    assert(tok_of(v)[0] == TokM::Ident("Some"@));
                } else {
                    assert(tok_of(v)[0] == TokM::Ident("None"@));
                }
                assert(s[pos as int] == toks@[pos as int]@);
            }
        }
    }
    None
}

/// Parses a result value.
#[verifier::rlimit(50)]
fn parse_res_v(t: &TyShape, o: &TyShape, e: &TyShape, toks: &Vec<Tok>, pos: usize) -> (r: Option<
    (Value, usize),
>)
    requires
        pos <= toks@.len(),
        *t matches TyShape::ResT(b0, b1) && *b0 == *o && *b1 == *e,
    ensures
        r matches Some(p) ==> pos < p.1 <= toks@.len(),
        forall|v: ValM|
            wf(v, *t) && prefix_at(toks_view(toks@), pos as int, tok_of(v)) ==> parses_to(
                r,
                pos as int,
                v,
            ),
    decreases ty_height(*t), toks@.len() - pos, 0int,
{
    let ghost s = toks_view(toks@);
    proof {
        assert forall|i: int| 0 <= i < toks@.len() implies s[i] == #[trigger] toks@[i]@ by {}
    }
        proof {
            reveal_strlit("Ok");
            reveal_strlit("Err");
            assert("Ok"@ != "Err"@) by {
                assert("Ok"@.len() == 2 && "Err"@.len() == 3);
            }
        }
        if pos < toks.len() {
            match &toks[pos] {
                Tok::Ident(id) => {
                    proof {
                        assert(toks@[pos as int]@ == TokM::Ident(id@));
                    }
                    if str_is(id, "Ok") {
                        let r0 = parse_wrapped(o, toks, pos + 1);
                        proof {
                            assert forall|v: ValM|
                                wf(v, *t) && prefix_at(s, pos as int, tok_of(v))
                                implies parses_to(
                                res_wrap_ok(r0),
                                pos as int,
                                v,
                            ) by {
                                if v is OkM {
                                    let b = v->OkM_0;
                                    let inner = seq![TokM::Open(DelimKind::Paren)] + tok_of(
                                        *b,
                                    ) + seq![TokM::Close(DelimKind::Paren)];
                                    assert(tok_of(v) =~= seq![TokM::Ident("Ok"@)] + inner);
                                    lemma_prefix_split(
                                        s,
                                        pos as int,
                                        seq![TokM::Ident("Ok"@)],
                                        inner,
                                    );
                                    assert(prefix_at(s, pos as int + 1, inner));
                                    assert(wf(*b, *o));
                                } else {
                                    assert(tok_of(v)[0] == TokM::Ident("Err"@));
                                    lemma_at0(s, pos as int, v);
                                    assert(s.len() == toks@.len());
                                    assert(s[pos as int] == toks@[pos as int]@);
                                    assert(toks@[pos as int]@ == TokM::Ident(id@));
                                    assert(s[pos as int] == TokM::Ident("Err"@));
                                    assert(false);
                                }
                            }
                        }
                        match r0 {
                            Some((inner, p1)) => {
                                return Some((Value::OkV(Box::new(inner)), p1));
                            },
                            None => {
                                return None;
                            },
                        }
                    }
                    if str_is(id, "Err") {
                        let r0 = parse_wrapped(e, toks, pos + 1);
                        proof {
                            assert forall|v: ValM|
                                wf(v, *t) && prefix_at(s, pos as int, tok_of(v))
                                implies parses_to(
                                res_wrap_err(r0),
                                pos as int,
                                v,
                            ) by {
                                if v is ErrM {
                                    let b = v->ErrM_0;
                                    let inner = seq![TokM::Open(DelimKind::Paren)] + tok_of(
                                        *b,
                                    ) + seq![TokM::Close(DelimKind::Paren)];
                                    assert(tok_of(v) =~= seq![TokM::Ident("Err"@)] + inner);
                                    lemma_prefix_split(
                                        s,
                                        pos as int,
                                        seq![TokM::Ident("Err"@)],
                                        inner,
                                    );
                                    assert(prefix_at(s, pos as int + 1, inner));
                                    assert(wf(*b, *e));
                                } else {
                                    assert(tok_of(v)[0] == TokM::Ident("Ok"@));
                                    lemma_at0(s, pos as int, v);
                                    assert(s.len() == toks@.len());
                                    assert(s[pos as int] == toks@[pos as int]@);
                                    assert(toks@[pos as int]@ == TokM::Ident(id@));
                                    assert(s[pos as int] == TokM::Ident("Ok"@));
                                    assert(false);
                                }
                            }
                        }
                        match r0 {
                            Some((inner, p1)) => {
                                return Some((Value::ErrV(Box::new(inner)), p1));
                            },
                            None => {
                                return None;
                            },
                        }
                    }
                },
                _ => {},
            }
        }
        proof {
        assert forall|v: ValM| !(wf(v, *t) && prefix_at(s, pos as int, tok_of(v))) by {
            if wf(v, *t) && prefix_at(s, pos as int, tok_of(v)) {
                lemma_at0(s, pos as int, v);
                assert(s.len() == toks@.len());
                if v is OkM {
                    assert(tok_of(v)[0] == TokM::Ident("Ok"@));
                } else {
                    assert(tok_of(v)[0] == TokM::Ident("Err"@));
                }
                assert(s[pos as int] == toks@[pos as int]@);
            }
        }
    }
    None
}

/// Parses a sequence value.
#[verifier::rlimit(50)]
fn parse_list_v(t: &TyShape, e: &TyShape, toks: &Vec<Tok>, pos: usize) -> (r: Option<
    (Value, usize),
>)
    requires
        pos <= toks@.len(),
        *t matches TyShape::ListT(b) && *b == *e,
    ensures
        r matches Some(p) ==> pos < p.1 <= toks@.len(),
        forall|v: ValM|
            wf(v, *t) && prefix_at(toks_view(toks@), pos as int, tok_of(v)) ==> parses_to(
                r,
                pos as int,
                v,
            ),
    decreases ty_height(*t), toks@.len() - pos, 0int,
{
    let ghost s = toks_view(toks@);
    proof {
        assert forall|i: int| 0 <= i < toks@.len() implies s[i] == #[trigger] toks@[i]@ by {}
    }
        proof {
            reveal_strlit("vec");
        }
        match parse_list_head(toks, pos) {
            Some(p0) => {
                match parse_elems(e, toks, p0) {
                    Some((els, p1)) => {
                        proof {
                            assert forall|v: ValM|
                                wf(v, *t) && prefix_at(s, pos as int, tok_of(v)) implies (
                            val_view(Value::ListV(els)) == v && p1 + 1 == pos + tok_of(
                                v,
                            ).len() && p1 < toks@.len() && s[p1 as int] == TokM::Close(
                                DelimKind::Bracket,
                            )) by {
                                let elsm = v->ListM_0;
                                assert(v == ValM::ListM(elsm));
                                lemma_list_decompose(s, pos as int, elsm);
                                assert(prefix_at(
                                    s,
                                    p0 as int,
                                    elems_toks(elsm).push(TokM::Close(DelimKind::Bracket)),
                                ));
                                assert(wf_list(elsm, *e));
                                assert(vals_view(els@) == elsm);
                                assert(p1 == p0 + elems_toks(elsm).len());
                                assert(elems_toks(elsm).push(
                                    TokM::Close(DelimKind::Bracket),
                                )[elems_toks(elsm).len() as int] == TokM::Close(
                                    DelimKind::Bracket,
                                ));
                                assert(s[p1 as int] == TokM::Close(DelimKind::Bracket));
                            }
                        }
                        if p1 < toks.len() && matches!(&toks[p1], Tok::Close(d) if matches!(d, DelimKind::Bracket)) {
                            return Some((Value::ListV(els), p1 + 1));
                        }
                        None
                    },
                    None => {
                        proof {
                            assert forall|v: ValM|
                                !(wf(v, *t) && prefix_at(s, pos as int, tok_of(v))) by {
                                if wf(v, *t) && prefix_at(s, pos as int, tok_of(v)) {
                                    let m = v->ListM_0;
                                    assert(v == ValM::ListM(m));
                                    lemma_list_decompose(s, pos as int, m);
                                    assert(prefix_at(s, pos as int + 3, elems_toks(m).push(TokM::Close(DelimKind::Bracket))));
                                    assert(wf_list(m, *e));
                                }
                            }
                        }
                        None
                    },
                }
            },
            None => {
                proof {
                    assert forall|v: ValM|
                        !(wf(v, *t) && prefix_at(s, pos as int, tok_of(v))) by {
                        if wf(v, *t) && prefix_at(s, pos as int, tok_of(v)) {
                            let m = v->ListM_0;
                            assert(v == ValM::ListM(m));
                            lemma_list_decompose(s, pos as int, m);
                            assert(prefix_at(s, pos as int + 3, elems_toks(m).push(TokM::Close(DelimKind::Bracket))));
                            assert(wf_list(m, *e));
                        }
                    }
                }
                None
            },
        }
}

/// Parses a set value.
#[verifier::rlimit(50)]
fn parse_set_v(t: &TyShape, e: &TyShape, toks: &Vec<Tok>, pos: usize) -> (r: Option<
    (Value, usize),
>)
    requires
        pos <= toks@.len(),
        *t matches TyShape::SetT(b) && *b == *e,
    ensures
        r matches Some(p) ==> pos < p.1 <= toks@.len(),
        forall|v: ValM|
            wf(v, *t) && prefix_at(toks_view(toks@), pos as int, tok_of(v)) ==> parses_to(
                r,
                pos as int,
                v,
            ),
    decreases ty_height(*t), toks@.len() - pos, 0int,
{
    let ghost s = toks_view(toks@);
    proof {
        assert forall|i: int| 0 <= i < toks@.len() implies s[i] == #[trigger] toks@[i]@ by {}
    }
        proof {
            reveal_strlit("vec");
        }
        match parse_list_head(toks, pos) {
            Some(p0) => {
                match parse_elems(e, toks, p0) {
                    Some((els, p1)) => {
                        proof {
                            assert forall|v: ValM|
                                wf(v, *t) && prefix_at(s, pos as int, tok_of(v)) implies (
                            val_view(Value::SetV(els)) == v && p1 + 9 == pos + tok_of(
                                v,
                            ).len() && p1 + 9 <= toks@.len() && s[p1 as int] == TokM::Close(
                                DelimKind::Bracket,
                            ) && prefix_at(
                                s,
                                p1 as int + 1,
                                crate::value::collect_toks(),
                            )) by {
                                let elsm = v->SetM_0;
                                assert(v == ValM::SetM(elsm));
                                lemma_set_decompose(s, pos as int, elsm);
                                assert(prefix_at(
                                    s,
                                    p0 as int,
                                    elems_toks(elsm).push(TokM::Close(DelimKind::Bracket)),
                                ));
                                assert(wf_list(elsm, *e));
                                assert(vals_view(els@) == elsm);
                                assert(p1 == p0 + elems_toks(elsm).len());
                                assert(elems_toks(elsm).push(
                                    TokM::Close(DelimKind::Bracket),
                                )[elems_toks(elsm).len() as int] == TokM::Close(
                                    DelimKind::Bracket,
                                ));
                                assert(s[p1 as int] == TokM::Close(DelimKind::Bracket));
                            }
                        }
                        if p1 < toks.len() && matches!(&toks[p1], Tok::Close(d) if matches!(d, DelimKind::Bracket)) {
                            match parse_collect(toks, p1 + 1) {
                                Some(p2) => Some((Value::SetV(els), p2)),
                                None => None,
                            }
                        } else {
                            None
                        }
                    },
                    None => {
                        proof {
                            assert forall|v: ValM|
                                !(wf(v, *t) && prefix_at(s, pos as int, tok_of(v))) by {
                                if wf(v, *t) && prefix_at(s, pos as int, tok_of(v)) {
                                    let m = v->SetM_0;
                                    assert(v == ValM::SetM(m));
                                    lemma_set_decompose(s, pos as int, m);
                                    assert(prefix_at(s, pos as int + 3, elems_toks(m).push(TokM::Close(DelimKind::Bracket))));
                                    assert(wf_list(m, *e));
                                }
                            }
                        }
                        None
                    },
                }
            },
            None => {
                proof {
                    assert forall|v: ValM|
                        !(wf(v, *t) && prefix_at(s, pos as int, tok_of(v))) by {
                        if wf(v, *t) && prefix_at(s, pos as int, tok_of(v)) {
                            let m = v->SetM_0;
                            assert(v == ValM::SetM(m));
                            lemma_set_decompose(s, pos as int, m);
                            assert(prefix_at(s, pos as int + 3, elems_toks(m).push(TokM::Close(DelimKind::Bracket))));
                            assert(wf_list(m, *e));
                        }
                    }
                }
                None
            },
        }
}

/// Parses a map value.
#[verifier::rlimit(50)]
fn parse_map_v(t: &TyShape, k: &TyShape, w: &TyShape, toks: &Vec<Tok>, pos: usize) -> (r: Option<
    (Value, usize),
>)
    requires
        pos <= toks@.len(),
        *t matches TyShape::MapT(b0, b1) && *b0 == *k && *b1 == *w,
    ensures
        r matches Some(p) ==> pos < p.1 <= toks@.len(),
        forall|v: ValM|
            wf(v, *t) && prefix_at(toks_view(toks@), pos as int, tok_of(v)) ==> parses_to(
                r,
                pos as int,
                v,
            ),
    decreases ty_height(*t), toks@.len() - pos, 0int,
{
    let ghost s = toks_view(toks@);
    proof {
        assert forall|i: int| 0 <= i < toks@.len() implies s[i] == #[trigger] toks@[i]@ by {}
    }
        proof {
            reveal_strlit("vec");
        }
        match parse_list_head(toks, pos) {
            Some(p0) => {
                match parse_pairs(k, w, toks, p0) {
                    Some((ps, p1)) => {
                        proof {
                            assert forall|v: ValM|
                                wf(v, *t) && prefix_at(s, pos as int, tok_of(v)) implies (
                            val_view(Value::MapV(ps)) == v && p1 + 9 == pos + tok_of(
                                v,
                            ).len() && p1 + 9 <= toks@.len() && s[p1 as int] == TokM::Close(
                                DelimKind::Bracket,
                            ) && prefix_at(
                                s,
                                p1 as int + 1,
                                crate::value::collect_toks(),
                            )) by {
                                let psm = v->MapM_0;
                                assert(v == ValM::MapM(psm));
                                lemma_map_decompose(s, pos as int, psm);
                                assert(prefix_at(
                                    s,
                                    p0 as int,
                                    pairs_toks(psm).push(TokM::Close(DelimKind::Bracket)),
                                ));
                                assert(wf_pairs(psm, *k, *w));
                                assert(pairs_view(ps@) == psm);
                                assert(p1 == p0 + pairs_toks(psm).len());
                                assert(pairs_toks(psm).push(
                                    TokM::Close(DelimKind::Bracket),
                                )[pairs_toks(psm).len() as int] == TokM::Close(
                                    DelimKind::Bracket,
                                ));
                                assert(s[p1 as int] == TokM::Close(DelimKind::Bracket));
                            }
                        }
                        if p1 < toks.len() && matches!(&toks[p1], Tok::Close(d) if matches!(d, DelimKind::Bracket)) {
                            match parse_collect(toks, p1 + 1) {
                                Some(p2) => Some((Value::MapV(ps), p2)),
                                None => None,
                            }
                        } else {
                            None
                        }
                    },
                    None => {
                        proof {
                            assert forall|v: ValM|
                                !(wf(v, *t) && prefix_at(s, pos as int, tok_of(v))) by {
                                if wf(v, *t) && prefix_at(s, pos as int, tok_of(v)) {
                                    let m = v->MapM_0;
                                    assert(v == ValM::MapM(m));
                                    lemma_map_decompose(s, pos as int, m);
                                    assert(prefix_at(s, pos as int + 3, pairs_toks(m).push(TokM::Close(DelimKind::Bracket))));
                                    assert(wf_pairs(m, *k, *w));
                                }
                            }
                        }
                        None
                    },
                }
            },
            None => {
                proof {
                    assert forall|v: ValM|
                        !(wf(v, *t) && prefix_at(s, pos as int, tok_of(v))) by {
                        if wf(v, *t) && prefix_at(s, pos as int, tok_of(v)) {
                            let m = v->MapM_0;
                            assert(v == ValM::MapM(m));
                            lemma_map_decompose(s, pos as int, m);
                            assert(prefix_at(s, pos as int + 3, pairs_toks(m).push(TokM::Close(DelimKind::Bracket))));
                            assert(wf_pairs(m, *k, *w));
                        }
                    }
                }
                None
            },
        }
}

/// Parses one value of the given shape at `pos`.  The round-trip law is
/// the second `ensures` clause: when the tokens at `pos` begin with the
/// tokenization of any value fitting the shape, exactly that value comes
/// back, with the position moved past its tokens.
#[verifier::rlimit(100)]
pub fn reconstruct_at(t: &TyShape, toks: &Vec<Tok>, pos: usize) -> (r: Option<(Value, usize)>)
    requires
        pos <= toks@.len(),
    ensures
        r matches Some(p) ==> pos < p.1 <= toks@.len(),
        forall|v: ValM|
            wf(v, *t) && prefix_at(toks_view(toks@), pos as int, tok_of(v)) ==> parses_to(
                r,
                pos as int,
                v,
            ),
    decreases ty_height(*t), toks@.len() - pos, 1int,
{
    let ghost s = toks_view(toks@);
    proof {
        assert forall|i: int| 0 <= i < toks@.len() implies s[i] == #[trigger] toks@[i]@ by {}
    }
    match t {
        TyShape::IntT(ty) => {
            let mut r: Option<(Value, usize)> = None;
            if pos < toks.len() {
                match &toks[pos] {
                    Tok::IntLit(ty2, n) => {
                        if *ty2 == *ty && int_fits(*ty, *n) {
                            r = Some((Value::IntV(*ty, *n), pos + 1));
                        }
                    },
                    _ => {},
                }
            }
            proof {
                assert forall|v: ValM|
                    wf(v, *t) && prefix_at(s, pos as int, tok_of(v)) implies parses_to(
                    r,
                    pos as int,
                    v,
                ) by {
                    lemma_at0(s, pos as int, v);
                    assert(tok_of(v) =~= seq![TokM::IntLit(v->IntM_0, v->IntM_1)]);
                    assert(s.len() == toks@.len());
                    assert(s[pos as int] == toks@[pos as int]@);
                }
            }
            r
        },
        TyShape::StrT => {
            let mut r: Option<(Value, usize)> = None;
            if pos < toks.len() {
                match &toks[pos] {
                    Tok::StrLit(st) => {
                        r = Some((Value::StrV(st.clone()), pos + 1));
                    },
                    _ => {},
                }
            }
            proof {
                assert forall|v: ValM|
                    wf(v, *t) && prefix_at(s, pos as int, tok_of(v)) implies parses_to(
                    r,
                    pos as int,
                    v,
                ) by {
                    lemma_at0(s, pos as int, v);
                    assert(tok_of(v) =~= seq![TokM::StrLit(v->StrM_0)]);
                    assert(s.len() == toks@.len());
                    assert(s[pos as int] == toks@[pos as int]@);
                }
            }
            r
        },
        TyShape::OptT(e) => parse_opt_v(t, e, toks, pos),
        TyShape::ResT(o, e) => parse_res_v(t, o, e, toks, pos),
        TyShape::ListT(e) => parse_list_v(t, e, toks, pos),
        TyShape::SetT(e) => parse_set_v(t, e, toks, pos),
        TyShape::MapT(k, w) => parse_map_v(t, k, w, toks, pos),
    }
}

/// The parse result an accepted `Some(...)` yields.
pub open spec fn opt_wrap_some(r0: Option<(Value, usize)>) -> Option<(Value, usize)> {
    match r0 {
        Some(p) => Some((Value::SomeV(Box::new(p.0)), p.1)),
        None => None,
    }
}

/// The parse result an accepted `Ok(...)` yields.
pub open spec fn res_wrap_ok(r0: Option<(Value, usize)>) -> Option<(Value, usize)> {
    match r0 {
        Some(p) => Some((Value::OkV(Box::new(p.0)), p.1)),
        None => None,
    }
}

/// The parse result an accepted `Err(...)` yields.
pub open spec fn res_wrap_err(r0: Option<(Value, usize)>) -> Option<(Value, usize)> {
    match r0 {
        Some(p) => Some((Value::ErrV(Box::new(p.0)), p.1)),
        None => None,
    }
}

/// Parses the head of a container literal: `vec ! [`.
fn parse_list_head(toks: &Vec<Tok>, pos: usize) -> (r: Option<usize>)
    requires
        pos <= toks@.len(),
    ensures
        r matches Some(p) ==> p == pos + 3 && pos + 3 <= toks@.len(),
        prefix_at(
            toks_view(toks@),
            pos as int,
            seq![TokM::Ident("vec"@), TokM::Punct('!'), TokM::Open(DelimKind::Bracket)],
        ) ==> r matches Some(p),
{
    let ghost pre = seq![TokM::Ident("vec"@), TokM::Punct('!'), TokM::Open(DelimKind::Bracket)];
    proof {
        if prefix_at(toks_view(toks@), pos as int, pre) {
            assert(toks_view(toks@)[pos as int] == pre[0]);
            assert(toks_view(toks@)[pos as int + 1] == pre[1]);
            assert(toks_view(toks@)[pos as int + 2] == pre[2]);
        }
    }
    if toks.len() > 2 && pos < toks.len() - 2 {
        let ok0 = match &toks[pos] {
            Tok::Ident(id) => str_is(id, "vec"),
            _ => false,
        };
        let ok1 = matches!(&toks[pos + 1], Tok::Punct(c) if *c == '!');
        let ok2 = matches!(&toks[pos + 2], Tok::Open(d) if matches!(d, DelimKind::Bracket));
        if ok0 && ok1 && ok2 {
            return Some(pos + 3);
        }
    }
    None
}

/// Parses the collection conversion `. into_iter ( ) . collect ( )`.
fn parse_collect(toks: &Vec<Tok>, pos: usize) -> (r: Option<usize>)
    requires
        pos <= toks@.len(),
    ensures
        r matches Some(p) ==> p == pos + 8 && pos + 8 <= toks@.len(),
        prefix_at(toks_view(toks@), pos as int, crate::value::collect_toks()) ==> r matches Some(
            p,
        ),
{
    let ghost pre = crate::value::collect_toks();
    proof {
        if prefix_at(toks_view(toks@), pos as int, pre) {
            assert(toks_view(toks@)[pos as int] == pre[0]);
            assert(toks_view(toks@)[pos as int + 1] == pre[1]);
            assert(toks_view(toks@)[pos as int + 2] == pre[2]);
            assert(toks_view(toks@)[pos as int + 3] == pre[3]);
            assert(toks_view(toks@)[pos as int + 4] == pre[4]);
            assert(toks_view(toks@)[pos as int + 5] == pre[5]);
            assert(toks_view(toks@)[pos as int + 6] == pre[6]);
            assert(toks_view(toks@)[pos as int + 7] == pre[7]);
        }
    }
    if toks.len() > 7 && pos < toks.len() - 7 {
        let ok0 = matches!(&toks[pos], Tok::Punct(c) if *c == '.');
        let ok1 = match &toks[pos + 1] {
            Tok::Ident(id) => str_is(id, "into_iter"),
            _ => false,
        };
        let ok2 = matches!(&toks[pos + 2], Tok::Open(d) if matches!(d, DelimKind::Paren));
        let ok3 = matches!(&toks[pos + 3], Tok::Close(d) if matches!(d, DelimKind::Paren));
        let ok4 = matches!(&toks[pos + 4], Tok::Punct(c) if *c == '.');
        let ok5 = match &toks[pos + 5] {
            Tok::Ident(id) => str_is(id, "collect"),
            _ => false,
        };
        let ok6 = matches!(&toks[pos + 6], Tok::Open(d) if matches!(d, DelimKind::Paren));
        let ok7 = matches!(&toks[pos + 7], Tok::Close(d) if matches!(d, DelimKind::Paren));
        if ok0 && ok1 && ok2 && ok3 && ok4 && ok5 && ok6 && ok7 {
            return Some(pos + 8);
        }
    }
    None
}

/// Parses a comma-separated element list, stopping at — not consuming —
/// the closing bracket.
fn parse_elems(e: &TyShape, toks: &Vec<Tok>, pos: usize) -> (r: Option<(Vec<Value>, usize)>)
    requires
        pos <= toks@.len(),
    ensures
        r matches Some(p) ==> pos <= p.1 <= toks@.len(),
        forall|els: Seq<ValM>|
            wf_list(els, *e) && prefix_at(
                toks_view(toks@),
                pos as int,
                elems_toks(els).push(TokM::Close(DelimKind::Bracket)),
            ) ==> (r matches Some(p) && vals_view(p.0@) == els && p.1 == pos + elems_toks(
                els,
            ).len()),
    decreases ty_height(*e), toks@.len() - pos, 2int,
{
    let ghost s = toks_view(toks@);
    if pos < toks.len() && matches!(&toks[pos], Tok::Close(d) if matches!(d, DelimKind::Bracket)) {
        proof {
            assert forall|els: Seq<ValM>|
                wf_list(els, *e) && prefix_at(
                    s,
                    pos as int,
                    elems_toks(els).push(TokM::Close(DelimKind::Bracket)),
                ) implies els.len() == 0 by {
                if els.len() > 0 {
                    lemma_elems_split(els);
                    lemma_tok_of_first(els[0]);
                    let whole = elems_toks(els).push(TokM::Close(DelimKind::Bracket));
                    assert(whole[0] == tok_of(els[0])[0]);
                    assert(s[pos as int] == whole[0]);
                }
            }
        }
        let out: Vec<Value> = Vec::new();
        return Some((out, pos));
    }
    match reconstruct_at(e, toks, pos) {
        Some((first, p1)) => {
            let ghost firstm = val_view(first);
            let mut out: Vec<Value> = Vec::new();
            out.push(first);
            proof {
                assert(out@ =~= seq![first]);
                assert(out@.drop_last() =~= Seq::<Value>::empty());
                assert(out@.last() == first);
                assert(vals_view(Seq::<Value>::empty()) =~= Seq::<ValM>::empty());
                assert(vals_view(out@) =~= seq![firstm]);
            }
            let r = parse_elems_tail(e, toks, p1, out);
            proof {
                assert forall|els: Seq<ValM>|
                    wf_list(els, *e) && prefix_at(
                        s,
                        pos as int,
                        elems_toks(els).push(TokM::Close(DelimKind::Bracket)),
                    ) implies (r matches Some(p) && vals_view(p.0@) == els && p.1 == pos
                    + elems_toks(els).len()) by {
                    let whole = elems_toks(els).push(TokM::Close(DelimKind::Bracket));
                    if els.len() == 0 {
                        assert(s[pos as int] == whole[0]);
                        assert(false);
                    } else {
                        lemma_elems_split(els);
                        let first_t = tok_of(els[0]);
                        let rt = rest_toks(els.skip(1));
                        assert forall|j: int| 0 <= j < first_t.len() implies s[pos + j]
                            == #[trigger] first_t[j] by {
                            assert(whole[j] == first_t[j]);
                        }
                        assert(prefix_at(s, pos as int, first_t));
                        assert(wf(els[0], *e));
                        assert(val_view(first) == els[0] && p1 == pos + first_t.len());
                        assert forall|j: int| 0 <= j < rt.push(
                            TokM::Close(DelimKind::Bracket),
                        ).len() implies s[p1 + j] == #[trigger] rt.push(
                            TokM::Close(DelimKind::Bracket),
                        )[j] by {
                            if j < rt.len() {
                                assert(whole[first_t.len() + j] == rt[j]);
                            } else {
                                assert(whole[whole.len() - 1] == TokM::Close(DelimKind::Bracket));
                            }
                        }
                        assert(prefix_at(s, p1 as int, rt.push(TokM::Close(DelimKind::Bracket))));
                        assert forall|i: int| 0 <= i < els.skip(1).len() implies wf(
                            #[trigger] els.skip(1)[i],
                            *e,
                        ) by {
                            assert(els.skip(1)[i] == els[i + 1]);
                        }
                        assert(wf_list(els.skip(1), *e));
                        assert(r matches Some(p) && vals_view(p.0@) == vals_view(out@) + els.skip(
                            1,
                        ) && p.1 == p1 + rt.len());
                        assert(seq![els[0]] + els.skip(1) =~= els);
                    }
                }
            }
            r
        },
        None => {
            proof {
                assert forall|els: Seq<ValM>|
                    !(wf_list(els, *e) && prefix_at(
                        s,
                        pos as int,
                        elems_toks(els).push(TokM::Close(DelimKind::Bracket)),
                    )) by {
                    if wf_list(els, *e) && prefix_at(
                        s,
                        pos as int,
                        elems_toks(els).push(TokM::Close(DelimKind::Bracket)),
                    ) {
                        let whole = elems_toks(els).push(TokM::Close(DelimKind::Bracket));
                        if els.len() == 0 {
                            assert(s[pos as int] == whole[0]);
                        } else {
                            lemma_elems_split(els);
                            let first_t = tok_of(els[0]);
                            assert forall|j: int| 0 <= j < first_t.len() implies s[pos + j]
                                == #[trigger] first_t[j] by {
                                assert(whole[j] == first_t[j]);
                            }
                            assert(prefix_at(s, pos as int, first_t));
                        }
                    }
                }
            }
            None
        },
    }
}

/// Parses `, element` groups until the closing bracket, extending the
/// accumulated values.
fn parse_elems_tail(e: &TyShape, toks: &Vec<Tok>, pos: usize, acc: Vec<Value>) -> (r: Option<
    (Vec<Value>, usize),
>)
    requires
        pos <= toks@.len(),
    ensures
        r matches Some(p) ==> pos <= p.1 <= toks@.len(),
        forall|rest: Seq<ValM>|
            wf_list(rest, *e) && prefix_at(
                toks_view(toks@),
                pos as int,
                rest_toks(rest).push(TokM::Close(DelimKind::Bracket)),
            ) ==> (r matches Some(p) && vals_view(p.0@) == vals_view(acc@) + rest && p.1 == pos
                + rest_toks(rest).len()),
    decreases ty_height(*e), toks@.len() - pos, 2int,
{
    let ghost s = toks_view(toks@);
    let ghost accv = vals_view(acc@);
    if pos < toks.len() && matches!(&toks[pos], Tok::Close(d) if matches!(d, DelimKind::Bracket)) {
        proof {
            assert forall|rest: Seq<ValM>|
                wf_list(rest, *e) && prefix_at(
                    s,
                    pos as int,
                    rest_toks(rest).push(TokM::Close(DelimKind::Bracket)),
                ) implies rest.len() == 0 by {
                if rest.len() > 0 {
                    let whole = rest_toks(rest).push(TokM::Close(DelimKind::Bracket));
                    assert(whole[0] == TokM::Punct(','));
                    assert(s[pos as int] == whole[0]);
                }
            }
            assert(accv + Seq::<ValM>::empty() =~= accv);
        }
        return Some((acc, pos));
    }
    if pos < toks.len() && matches!(&toks[pos], Tok::Punct(c) if *c == ',') {
        match reconstruct_at(e, toks, pos + 1) {
            Some((val, p1)) => {
                let ghost valm = val_view(val);
                let ghost accs = acc@;
                let mut acc2 = acc;
                acc2.push(val);
                proof {
                    assert(acc2@.drop_last() =~= accs);
                    assert(acc2@.last() == val);
                    assert(vals_view(acc2@) == accv.push(valm));
                }
                let r = parse_elems_tail(e, toks, p1, acc2);
                proof {
                    assert forall|rest: Seq<ValM>|
                        wf_list(rest, *e) && prefix_at(
                            s,
                            pos as int,
                            rest_toks(rest).push(TokM::Close(DelimKind::Bracket)),
                        ) implies (r matches Some(p) && vals_view(p.0@) == accv + rest && p.1 == pos
                        + rest_toks(rest).len()) by {
                        let whole = rest_toks(rest).push(TokM::Close(DelimKind::Bracket));
                        if rest.len() == 0 {
                            assert(s[pos as int] == whole[0]);
                            assert(false);
                        } else {
                            let first_t = tok_of(rest[0]);
                            let rt = rest_toks(rest.skip(1));
                            assert(rest_toks(rest) == seq![TokM::Punct(',')] + first_t + rt);
                            assert forall|j: int| 0 <= j < first_t.len() implies s[pos + 1 + j]
                                == #[trigger] first_t[j] by {
                                assert(whole[1 + j] == first_t[j]);
                            }
                            assert(prefix_at(s, pos as int + 1, first_t));
                            assert(wf(rest[0], *e));
                            assert(val_view(val) == rest[0] && p1 == pos + 1 + first_t.len());
                            assert forall|j: int| 0 <= j < rt.push(
                                TokM::Close(DelimKind::Bracket),
                            ).len() implies s[p1 + j] == #[trigger] rt.push(
                                TokM::Close(DelimKind::Bracket),
                            )[j] by {
                                if j < rt.len() {
                                    assert(whole[1 + first_t.len() + j] == rt[j]);
                                } else {
                                    assert(whole[whole.len() - 1] == TokM::Close(
                                        DelimKind::Bracket,
                                    ));
                                }
                            }
                            assert(prefix_at(
                                s,
                                p1 as int,
                                rt.push(TokM::Close(DelimKind::Bracket)),
                            ));
                            assert forall|i: int| 0 <= i < rest.skip(1).len() implies wf(
                                #[trigger] rest.skip(1)[i],
                                *e,
                            ) by {
                                assert(rest.skip(1)[i] == rest[i + 1]);
                            }
                            assert(wf_list(rest.skip(1), *e));
                            assert(r matches Some(p) && vals_view(p.0@) == vals_view(acc2@)
                                + rest.skip(1) && p.1 == p1 + rt.len());
                            assert(accv.push(rest[0]) + rest.skip(1) =~= accv + rest);
                        }
                    }
                }
                r
            },
            None => {
                proof {
                    assert forall|rest: Seq<ValM>|
                        !(wf_list(rest, *e) && prefix_at(
                            s,
                            pos as int,
                            rest_toks(rest).push(TokM::Close(DelimKind::Bracket)),
                        )) by {
                        if wf_list(rest, *e) && prefix_at(
                            s,
                            pos as int,
                            rest_toks(rest).push(TokM::Close(DelimKind::Bracket)),
                        ) {
                            let whole = rest_toks(rest).push(TokM::Close(DelimKind::Bracket));
                            if rest.len() == 0 {
                                assert(s[pos as int] == whole[0]);
                            } else {
                                let first_t = tok_of(rest[0]);
                                assert forall|j: int| 0 <= j < first_t.len() implies s[pos + 1 + j]
                                    == #[trigger] first_t[j] by {
                                    assert(whole[1 + j] == first_t[j]);
                                }
                                assert(prefix_at(s, pos as int + 1, first_t));
                            }
                        }
                    }
                }
                None
            },
        }
    } else {
        proof {
            assert forall|rest: Seq<ValM>|
                !(wf_list(rest, *e) && prefix_at(
                    s,
                    pos as int,
                    rest_toks(rest).push(TokM::Close(DelimKind::Bracket)),
                )) by {
                if wf_list(rest, *e) && prefix_at(
                    s,
                    pos as int,
                    rest_toks(rest).push(TokM::Close(DelimKind::Bracket)),
                ) {
                    let whole = rest_toks(rest).push(TokM::Close(DelimKind::Bracket));
                    if rest.len() == 0 {
                        assert(s[pos as int] == whole[0]);
                    } else {
                        assert(whole[0] == TokM::Punct(','));
                        assert(s[pos as int] == whole[0]);
                    }
                }
            }
        }
        None
    }
}

/// The head tokens of every container literal.
pub open spec fn vec_head_toks() -> Seq<TokM> {
    seq![TokM::Ident("vec"@), TokM::Punct('!'), TokM::Open(DelimKind::Bracket)]
}

/// Splits a sequence literal's tokens at `pos` into the head, the element
/// list, and the closing bracket.
proof fn lemma_list_decompose(s: Seq<TokM>, pos: int, els: Seq<ValM>)
    requires
        prefix_at(s, pos, tok_of(ValM::ListM(els))),
    ensures
        prefix_at(s, pos, vec_head_toks()),
        prefix_at(s, pos + 3, elems_toks(els).push(TokM::Close(DelimKind::Bracket))),
        tok_of(ValM::ListM(els)).len() == 4 + elems_toks(els).len(),
{
    let whole = tok_of(ValM::ListM(els));
    assert(whole =~= vec_head_toks() + elems_toks(els).push(TokM::Close(DelimKind::Bracket)));
    assert forall|j: int| 0 <= j < 3 implies s[pos + j] == #[trigger] vec_head_toks()[j] by {
        assert(whole[j] == vec_head_toks()[j]);
    }
    let mid = elems_toks(els).push(TokM::Close(DelimKind::Bracket));
    assert forall|j: int| 0 <= j < mid.len() implies s[pos + 3 + j] == #[trigger] mid[j] by {
        assert(whole[3 + j] == mid[j]);
    }
}

/// Splits a set literal's tokens at `pos` into the head, the element
/// list, the closing bracket, and the collection conversion.
proof fn lemma_set_decompose(s: Seq<TokM>, pos: int, els: Seq<ValM>)
    requires
        prefix_at(s, pos, tok_of(ValM::SetM(els))),
    ensures
        prefix_at(s, pos, vec_head_toks()),
        prefix_at(s, pos + 3, elems_toks(els).push(TokM::Close(DelimKind::Bracket))),
        prefix_at(s, pos + 4 + elems_toks(els).len(), crate::value::collect_toks()),
        tok_of(ValM::SetM(els)).len() == 12 + elems_toks(els).len(),
{
    let whole = tok_of(ValM::SetM(els));
    let mid = elems_toks(els).push(TokM::Close(DelimKind::Bracket));
    assert(whole =~= vec_head_toks() + mid + crate::value::collect_toks());
    assert forall|j: int| 0 <= j < 3 implies s[pos + j] == #[trigger] vec_head_toks()[j] by {
        assert(whole[j] == vec_head_toks()[j]);
    }
    assert forall|j: int| 0 <= j < mid.len() implies s[pos + 3 + j] == #[trigger] mid[j] by {
        assert(whole[3 + j] == mid[j]);
    }
    let tail = crate::value::collect_toks();
    assert forall|j: int| 0 <= j < tail.len() implies s[pos + 4 + elems_toks(els).len() + j]
        == #[trigger] tail[j] by {
        assert(whole[4 + elems_toks(els).len() + j] == tail[j]);
    }
}

/// Splits a map literal's tokens at `pos` into the head, the pair list,
/// the closing bracket, and the collection conversion.
proof fn lemma_map_decompose(s: Seq<TokM>, pos: int, ps: Seq<(ValM, ValM)>)
    requires
        prefix_at(s, pos, tok_of(ValM::MapM(ps))),
    ensures
        prefix_at(s, pos, vec_head_toks()),
        prefix_at(s, pos + 3, pairs_toks(ps).push(TokM::Close(DelimKind::Bracket))),
        prefix_at(s, pos + 4 + pairs_toks(ps).len(), crate::value::collect_toks()),
        tok_of(ValM::MapM(ps)).len() == 12 + pairs_toks(ps).len(),
{
    let whole = tok_of(ValM::MapM(ps));
    let mid = pairs_toks(ps).push(TokM::Close(DelimKind::Bracket));
    assert(whole =~= vec_head_toks() + mid + crate::value::collect_toks());
    assert forall|j: int| 0 <= j < 3 implies s[pos + j] == #[trigger] vec_head_toks()[j] by {
        assert(whole[j] == vec_head_toks()[j]);
    }
    assert forall|j: int| 0 <= j < mid.len() implies s[pos + 3 + j] == #[trigger] mid[j] by {
        assert(whole[3 + j] == mid[j]);
    }
    let tail = crate::value::collect_toks();
    assert forall|j: int| 0 <= j < tail.len() implies s[pos + 4 + pairs_toks(ps).len() + j]
        == #[trigger] tail[j] by {
        assert(whole[4 + pairs_toks(ps).len() + j] == tail[j]);
    }
}

/// Splits a pair's tokens at `pos` around its two values.
proof fn lemma_pair_decompose(s: Seq<TokM>, pos: int, pr: (ValM, ValM))
    requires
        prefix_at(s, pos, pair_toks(pr)),
    ensures
        s[pos] == TokM::Open(DelimKind::Paren),
        prefix_at(s, pos + 1, tok_of(pr.0)),
        s[pos + 1 + tok_of(pr.0).len()] == TokM::Punct(','),
        prefix_at(s, pos + 2 + tok_of(pr.0).len(), tok_of(pr.1)),
        s[pos + 2 + tok_of(pr.0).len() + tok_of(pr.1).len()] == TokM::Close(DelimKind::Paren),
        pair_toks(pr).len() == 3 + tok_of(pr.0).len() + tok_of(pr.1).len(),
{
    let whole = pair_toks(pr);
    let a = tok_of(pr.0);
    let b = tok_of(pr.1);
    assert(whole[0] == TokM::Open(DelimKind::Paren));
    assert forall|j: int| 0 <= j < a.len() implies s[pos + 1 + j] == #[trigger] a[j] by {
        assert(whole[1 + j] == a[j]);
    }
    assert(whole[1 + a.len() as int] == TokM::Punct(','));
    assert forall|j: int| 0 <= j < b.len() implies s[pos + 2 + a.len() + j] == #[trigger] b[j] by {
        assert(whole[2 + a.len() as int + j] == b[j]);
    }
    assert(whole[2 + a.len() as int + b.len() as int] == TokM::Close(DelimKind::Paren));
}

/// Parses one parenthesized key-value pair.
fn parse_pair(k: &TyShape, w: &TyShape, toks: &Vec<Tok>, pos: usize) -> (r: Option<
    ((Value, Value), usize),
>)
    requires
        pos <= toks@.len(),
    ensures
        r matches Some(p) ==> pos < p.1 <= toks@.len(),
        forall|pr: (ValM, ValM)|
            wf(pr.0, *k) && wf(pr.1, *w) && prefix_at(
                toks_view(toks@),
                pos as int,
                pair_toks(pr),
            ) ==> (r matches Some(p) && (val_view(p.0.0), val_view(p.0.1)) == pr && p.1 == pos
                + pair_toks(pr).len()),
    decreases ty_height(*k) + ty_height(*w), toks@.len() - pos, 2int,
{
    let ghost s = toks_view(toks@);
    if !(pos < toks.len() && matches!(&toks[pos], Tok::Open(d) if matches!(d, DelimKind::Paren))) {
        proof {
            assert forall|pr: (ValM, ValM)|
                !(wf(pr.0, *k) && wf(pr.1, *w) && prefix_at(s, pos as int, pair_toks(pr))) by {
                if prefix_at(s, pos as int, pair_toks(pr)) {
                    lemma_pair_decompose(s, pos as int, pr);
                }
            }
        }
        return None;
    }
    proof {
        lemma_ty_height_pos(*k);
        lemma_ty_height_pos(*w);
    }
    let r0 = reconstruct_at(k, toks, pos + 1);
    match r0 {
        Some((kv, p1)) => {
            if p1 < toks.len() && matches!(&toks[p1], Tok::Punct(c) if *c == ',') {
                let r1 = reconstruct_at(w, toks, p1 + 1);
                match r1 {
                    Some((wv, p2)) => {
                        if p2 < toks.len() && matches!(&toks[p2], Tok::Close(d) if matches!(d, DelimKind::Paren)) {
                            proof {
                                assert forall|pr: (ValM, ValM)|
                                    wf(pr.0, *k) && wf(pr.1, *w) && prefix_at(
                                        s,
                                        pos as int,
                                        pair_toks(pr),
                                    ) implies (val_view(kv) == pr.0 && val_view(wv) == pr.1 && p2
                                    + 1 == pos + pair_toks(pr).len()) by {
                                    lemma_pair_decompose(s, pos as int, pr);
                                }
                            }
                            return Some(((kv, wv), p2 + 1));
                        }
                        proof {
                            assert forall|pr: (ValM, ValM)|
                                !(wf(pr.0, *k) && wf(pr.1, *w) && prefix_at(
                                    s,
                                    pos as int,
                                    pair_toks(pr),
                                )) by {
                                if wf(pr.0, *k) && wf(pr.1, *w) && prefix_at(
                                    s,
                                    pos as int,
                                    pair_toks(pr),
                                ) {
                                    lemma_pair_decompose(s, pos as int, pr);
                                }
                            }
                        }
                        None
                    },
                    None => {
                        proof {
                            assert forall|pr: (ValM, ValM)|
                                !(wf(pr.0, *k) && wf(pr.1, *w) && prefix_at(
                                    s,
                                    pos as int,
                                    pair_toks(pr),
                                )) by {
                                if wf(pr.0, *k) && wf(pr.1, *w) && prefix_at(
                                    s,
                                    pos as int,
                                    pair_toks(pr),
                                ) {
                                    lemma_pair_decompose(s, pos as int, pr);
                                }
                            }
                        }
                        None
                    },
                }
            } else {
                proof {
                    assert forall|pr: (ValM, ValM)|
                        !(wf(pr.0, *k) && wf(pr.1, *w) && prefix_at(s, pos as int, pair_toks(pr)))
                        by {
                        if wf(pr.0, *k) && wf(pr.1, *w) && prefix_at(s, pos as int, pair_toks(pr)) {
                            lemma_pair_decompose(s, pos as int, pr);
                        }
                    }
                }
                None
            }
        },
        None => {
            proof {
                assert forall|pr: (ValM, ValM)|
                    !(wf(pr.0, *k) && wf(pr.1, *w) && prefix_at(s, pos as int, pair_toks(pr))) by {
                    if wf(pr.0, *k) && wf(pr.1, *w) && prefix_at(s, pos as int, pair_toks(pr)) {
                        lemma_pair_decompose(s, pos as int, pr);
                    }
                }
            }
            None
        },
    }
}

/// The first token of a pair is its opening parenthesis.
proof fn lemma_pair_first(pr: (ValM, ValM))
    ensures
        pair_toks(pr).len() >= 1,
        pair_toks(pr)[0] == TokM::Open(DelimKind::Paren),
{
}

/// Parses a comma-separated pair list, stopping at — not consuming — the
/// closing bracket.
fn parse_pairs(k: &TyShape, w: &TyShape, toks: &Vec<Tok>, pos: usize) -> (r: Option<
    (Vec<(Value, Value)>, usize),
>)
    requires
        pos <= toks@.len(),
    ensures
        r matches Some(p) ==> pos <= p.1 <= toks@.len(),
        forall|ps: Seq<(ValM, ValM)>|
            wf_pairs(ps, *k, *w) && prefix_at(
                toks_view(toks@),
                pos as int,
                pairs_toks(ps).push(TokM::Close(DelimKind::Bracket)),
            ) ==> (r matches Some(p) && pairs_view(p.0@) == ps && p.1 == pos + pairs_toks(
                ps,
            ).len()),
    decreases ty_height(*k) + ty_height(*w), toks@.len() - pos, 3int,
{
    let ghost s = toks_view(toks@);
    if pos < toks.len() && matches!(&toks[pos], Tok::Close(d) if matches!(d, DelimKind::Bracket)) {
        proof {
            assert forall|ps: Seq<(ValM, ValM)>|
                wf_pairs(ps, *k, *w) && prefix_at(
                    s,
                    pos as int,
                    pairs_toks(ps).push(TokM::Close(DelimKind::Bracket)),
                ) implies ps.len() == 0 by {
                if ps.len() > 0 {
                    lemma_pairs_split(ps);
                    lemma_pair_first(ps[0]);
                    let whole = pairs_toks(ps).push(TokM::Close(DelimKind::Bracket));
                    assert(whole[0] == pair_toks(ps[0])[0]);
                    assert(s[pos as int] == whole[0]);
                }
            }
        }
        let out: Vec<(Value, Value)> = Vec::new();
        return Some((out, pos));
    }
    match parse_pair(k, w, toks, pos) {
        Some((first, p1)) => {
            let ghost firstm = (val_view(first.0), val_view(first.1));
            let mut out: Vec<(Value, Value)> = Vec::new();
            out.push(first);
            proof {
                assert(out@ =~= seq![first]);
                assert(out@.drop_last() =~= Seq::<(Value, Value)>::empty());
                assert(out@.last() == first);
                assert(pairs_view(Seq::<(Value, Value)>::empty()) =~= Seq::<(ValM, ValM)>::empty());
                assert(pairs_view(out@) =~= seq![firstm]);
            }
            let r = parse_pairs_tail(k, w, toks, p1, out);
            proof {
                assert forall|ps: Seq<(ValM, ValM)>|
                    wf_pairs(ps, *k, *w) && prefix_at(
                        s,
                        pos as int,
                        pairs_toks(ps).push(TokM::Close(DelimKind::Bracket)),
                    ) implies (r matches Some(p) && pairs_view(p.0@) == ps && p.1 == pos
                    + pairs_toks(ps).len()) by {
                    let whole = pairs_toks(ps).push(TokM::Close(DelimKind::Bracket));
                    if ps.len() == 0 {
                        assert(s[pos as int] == whole[0]);
                        assert(false);
                    } else {
                        lemma_pairs_split(ps);
                        let first_t = pair_toks(ps[0]);
                        let rt = prest_toks(ps.skip(1));
                        assert forall|j: int| 0 <= j < first_t.len() implies s[pos + j]
                            == #[trigger] first_t[j] by {
                            assert(whole[j] == first_t[j]);
                        }
                        assert(prefix_at(s, pos as int, first_t));
                        assert(wf(ps[0].0, *k) && wf(ps[0].1, *w));
                        assert((val_view(first.0), val_view(first.1)) == ps[0] && p1 == pos
                            + first_t.len());
                        assert forall|j: int| 0 <= j < rt.push(
                            TokM::Close(DelimKind::Bracket),
                        ).len() implies s[p1 + j] == #[trigger] rt.push(
                            TokM::Close(DelimKind::Bracket),
                        )[j] by {
                            if j < rt.len() {
                                assert(whole[first_t.len() + j] == rt[j]);
                            } else {
                                assert(whole[whole.len() - 1] == TokM::Close(DelimKind::Bracket));
                            }
                        }
                        assert(prefix_at(s, p1 as int, rt.push(TokM::Close(DelimKind::Bracket))));
                        assert forall|i: int| 0 <= i < ps.skip(1).len() implies wf(
                            (#[trigger] ps.skip(1)[i]).0,
                            *k,
                        ) && wf(ps.skip(1)[i].1, *w) by {
                            assert(ps.skip(1)[i] == ps[i + 1]);
                        }
                        assert(wf_pairs(ps.skip(1), *k, *w));
                        assert(r matches Some(p) && pairs_view(p.0@) == pairs_view(out@) + ps.skip(
                            1,
                        ) && p.1 == p1 + rt.len());
                        assert(seq![ps[0]] + ps.skip(1) =~= ps);
                    }
                }
            }
            r
        },
        None => {
            proof {
                assert forall|ps: Seq<(ValM, ValM)>|
                    !(wf_pairs(ps, *k, *w) && prefix_at(
                        s,
                        pos as int,
                        pairs_toks(ps).push(TokM::Close(DelimKind::Bracket)),
                    )) by {
                    if wf_pairs(ps, *k, *w) && prefix_at(
                        s,
                        pos as int,
                        pairs_toks(ps).push(TokM::Close(DelimKind::Bracket)),
                    ) {
                        let whole = pairs_toks(ps).push(TokM::Close(DelimKind::Bracket));
                        if ps.len() == 0 {
                            assert(s[pos as int] == whole[0]);
                        } else {
                            lemma_pairs_split(ps);
                            let first_t = pair_toks(ps[0]);
                            assert forall|j: int| 0 <= j < first_t.len() implies s[pos + j]
                                == #[trigger] first_t[j] by {
                                assert(whole[j] == first_t[j]);
                            }
                            assert(prefix_at(s, pos as int, first_t));
                        }
                    }
                }
            }
            None
        },
    }
}

/// Parses `, pair` groups until the closing bracket, extending the
/// accumulated pairs.
fn parse_pairs_tail(
    k: &TyShape,
    w: &TyShape,
    toks: &Vec<Tok>,
    pos: usize,
    acc: Vec<(Value, Value)>,
) -> (r: Option<(Vec<(Value, Value)>, usize)>)
    requires
        pos <= toks@.len(),
    ensures
        r matches Some(p) ==> pos <= p.1 <= toks@.len(),
        forall|rest: Seq<(ValM, ValM)>|
            wf_pairs(rest, *k, *w) && prefix_at(
                toks_view(toks@),
                pos as int,
                prest_toks(rest).push(TokM::Close(DelimKind::Bracket)),
            ) ==> (r matches Some(p) && pairs_view(p.0@) == pairs_view(acc@) + rest && p.1 == pos
                + prest_toks(rest).len()),
    decreases ty_height(*k) + ty_height(*w), toks@.len() - pos, 2int,
{
    let ghost s = toks_view(toks@);
    let ghost accv = pairs_view(acc@);
    if pos < toks.len() && matches!(&toks[pos], Tok::Close(d) if matches!(d, DelimKind::Bracket)) {
        proof {
            assert forall|rest: Seq<(ValM, ValM)>|
                wf_pairs(rest, *k, *w) && prefix_at(
                    s,
                    pos as int,
                    prest_toks(rest).push(TokM::Close(DelimKind::Bracket)),
                ) implies rest.len() == 0 by {
                if rest.len() > 0 {
                    let whole = prest_toks(rest).push(TokM::Close(DelimKind::Bracket));
                    assert(whole[0] == TokM::Punct(','));
                    assert(s[pos as int] == whole[0]);
                }
            }
            assert(accv + Seq::<(ValM, ValM)>::empty() =~= accv);
        }
        return Some((acc, pos));
    }
    if pos < toks.len() && matches!(&toks[pos], Tok::Punct(c) if *c == ',') {
        match parse_pair(k, w, toks, pos + 1) {
            Some((val, p1)) => {
                let ghost valm = (val_view(val.0), val_view(val.1));
                let ghost accs = acc@;
                let mut acc2 = acc;
                acc2.push(val);
                proof {
                    assert(acc2@.drop_last() =~= accs);
                    assert(acc2@.last() == val);
                    assert(pairs_view(acc2@) == accv.push(valm));
                }
                let r = parse_pairs_tail(k, w, toks, p1, acc2);
                proof {
                    assert forall|rest: Seq<(ValM, ValM)>|
                        wf_pairs(rest, *k, *w) && prefix_at(
                            s,
                            pos as int,
                            prest_toks(rest).push(TokM::Close(DelimKind::Bracket)),
                        ) implies (r matches Some(p) && pairs_view(p.0@) == accv + rest && p.1
                        == pos + prest_toks(rest).len()) by {
                        let whole = prest_toks(rest).push(TokM::Close(DelimKind::Bracket));
                        if rest.len() == 0 {
                            assert(s[pos as int] == whole[0]);
                            assert(false);
                        } else {
                            let first_t = pair_toks(rest[0]);
                            let rt = prest_toks(rest.skip(1));
                            assert(prest_toks(rest) == seq![TokM::Punct(',')] + first_t + rt);
                            assert forall|j: int| 0 <= j < first_t.len() implies s[pos + 1 + j]
                                == #[trigger] first_t[j] by {
                                assert(whole[1 + j] == first_t[j]);
                            }
                            assert(prefix_at(s, pos as int + 1, first_t));
                            assert(wf(rest[0].0, *k) && wf(rest[0].1, *w));
                            assert(valm == rest[0] && p1 == pos + 1 + first_t.len());
                            assert forall|j: int| 0 <= j < rt.push(
                                TokM::Close(DelimKind::Bracket),
                            ).len() implies s[p1 + j] == #[trigger] rt.push(
                                TokM::Close(DelimKind::Bracket),
                            )[j] by {
                                if j < rt.len() {
                                    assert(whole[1 + first_t.len() + j] == rt[j]);
                                } else {
                                    assert(whole[whole.len() - 1] == TokM::Close(
                                        DelimKind::Bracket,
                                    ));
                                }
                            }
                            assert(prefix_at(
                                s,
                                p1 as int,
                                rt.push(TokM::Close(DelimKind::Bracket)),
                            ));
                            assert forall|i: int| 0 <= i < rest.skip(1).len() implies wf(
                                (#[trigger] rest.skip(1)[i]).0,
                                *k,
                            ) && wf(rest.skip(1)[i].1, *w) by {
                                assert(rest.skip(1)[i] == rest[i + 1]);
                            }
                            assert(wf_pairs(rest.skip(1), *k, *w));
                            assert(r matches Some(p) && pairs_view(p.0@) == pairs_view(acc2@)
                                + rest.skip(1) && p.1 == p1 + rt.len());
                            assert(accv.push(rest[0]) + rest.skip(1) =~= accv + rest);
                        }
                    }
                }
                r
            },
            None => {
                proof {
                    assert forall|rest: Seq<(ValM, ValM)>|
                        !(wf_pairs(rest, *k, *w) && prefix_at(
                            s,
                            pos as int,
                            prest_toks(rest).push(TokM::Close(DelimKind::Bracket)),
                        )) by {
                        if wf_pairs(rest, *k, *w) && prefix_at(
                            s,
                            pos as int,
                            prest_toks(rest).push(TokM::Close(DelimKind::Bracket)),
                        ) {
                            let whole = prest_toks(rest).push(TokM::Close(DelimKind::Bracket));
                            if rest.len() == 0 {
                                assert(s[pos as int] == whole[0]);
                            } else {
                                let first_t = pair_toks(rest[0]);
                                assert forall|j: int| 0 <= j < first_t.len() implies s[pos + 1 + j]
                                    == #[trigger] first_t[j] by {
                                    assert(whole[1 + j] == first_t[j]);
                                }
                                assert(prefix_at(s, pos as int + 1, first_t));
                            }
                        }
                    }
                }
                None
            },
        }
    } else {
        proof {
            assert forall|rest: Seq<(ValM, ValM)>|
                !(wf_pairs(rest, *k, *w) && prefix_at(
                    s,
                    pos as int,
                    prest_toks(rest).push(TokM::Close(DelimKind::Bracket)),
                )) by {
                if wf_pairs(rest, *k, *w) && prefix_at(
                    s,
                    pos as int,
                    prest_toks(rest).push(TokM::Close(DelimKind::Bracket)),
                ) {
                    let whole = prest_toks(rest).push(TokM::Close(DelimKind::Bracket));
                    if rest.len() == 0 {
                        assert(s[pos as int] == whole[0]);
                    } else {
                        assert(whole[0] == TokM::Punct(','));
                        assert(s[pos as int] == whole[0]);
                    }
                }
            }
        }
        None
    }
}

/// Reconstruction at the whole-stream level: when the tokens are exactly
/// the tokenization of a value fitting the shape, that value comes back.
pub fn reconstruct(t: &TyShape, toks: &Vec<Tok>) -> (r: Option<Value>)
    ensures
        forall|v: ValM|
            wf(v, *t) && toks_view(toks@) == tok_of(v) ==> (r matches Some(out) && val_view(out)
                == v),
{
    let ghost s = toks_view(toks@);
    proof {
        assert forall|v: ValM| wf(v, *t) && s == tok_of(v) implies prefix_at(s, 0, tok_of(v)) by {
            assert forall|j: int| 0 <= j < tok_of(v).len() implies s[0 + j] == #[trigger] tok_of(
                v,
            )[j] by {}
        }
    }
    match reconstruct_at(t, toks, 0) {
        Some((val, p)) => {
            if p == toks.len() {
                Some(val)
            } else {
                None
            }
        },
        None => None,
    }
}

} // verus!
