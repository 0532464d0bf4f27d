//! The code emitter.
//!
//! From a record shape the emitter assembles the two generated artifacts:
//! a constructor `new` taking one parameter per field in declaration
//! order, and a tokenization method that binds every field's wrapped
//! value in declaration order and then emits a single group-wrapped call
//! to the generated constructor, prefixed by the qualifying path when one
//! is configured.

use vstd::prelude::*;
use crate::shape::Field;
use crate::shape::StructStructure;
use crate::shape::binding_toks;
use crate::shape::construct_param_toks;
use crate::shape::params_toks;
use crate::shape::shape_fields;
use crate::shape::temp_ident_text;
use crate::tokens::DelimKind;
use crate::tokens::Tok;
use crate::tokens::TokM;
use crate::tokens::append_stream;
use crate::tokens::push_id;
use crate::tokens::push_punct;
use crate::tokens::push_tok;
use crate::tokens::toks_view;

verus! {

/// A `#`-interpolation mark before an identifier, as spliced into a
/// quotation.
pub struct Interpolated(pub String);

/// The two tokens an interpolation appends: the mark and the identifier.
pub open spec fn interp_toks(name: Seq<char>) -> Seq<TokM> {
    seq![TokM::Punct('#'), TokM::Ident(name)]
}

impl Interpolated {
    /// Appends the interpolation mark and the identifier to a stream.
    pub fn to_tokens(&self, tokens: &mut Vec<Tok>)
        ensures
            toks_view(final(tokens)@) == toks_view(old(tokens)@) + interp_toks(self.0@),
    {
        tokens.push(Tok::Punct('#'));
        tokens.push(Tok::Ident(self.0.clone()));
        proof {
            assert(toks_view(final(tokens)@) =~= toks_view(old(tokens)@) + interp_toks(
                self.0@,
            ));
        }
    }
}

/// The models of a list of streams.
pub open spec fn streams_view(w: Seq<Vec<Tok>>) -> Seq<Seq<TokM>> {
    w.map_values(|v: Vec<Tok>| toks_view(v@))
}

/// The first `n` parts joined by commas, as in a parameter list.
pub open spec fn joined_upto(parts: Seq<Seq<TokM>>, n: int) -> Seq<TokM>
    decreases n,
{
    if n <= 0 {
        Seq::empty()
    } else if n == 1 {
        parts[0]
    } else {
        joined_upto(parts, n - 1) + seq![TokM::Punct(',')] + parts[n - 1]
    }
}

/// All parts joined by commas.
pub open spec fn joined_comma(parts: Seq<Seq<TokM>>) -> Seq<TokM> {
    joined_upto(parts, parts.len() as int)
}

/// The first `n` parts, each followed by the separator.
pub open spec fn trailing_upto(parts: Seq<Seq<TokM>>, sep: TokM, n: int) -> Seq<TokM>
    decreases n,
{
    if n <= 0 {
        Seq::empty()
    } else {
        trailing_upto(parts, sep, n - 1) + parts[n - 1] + seq![sep]
    }
}

/// All parts, each followed by the separator.
pub open spec fn trailing_all(parts: Seq<Seq<TokM>>, sep: TokM) -> Seq<TokM> {
    trailing_upto(parts, sep, parts.len() as int)
}

/// Each field's constructor parameter.
pub open spec fn construct_params_of(fs: Seq<Field>) -> Seq<Seq<TokM>> {
    fs.map_values(|f: Field| construct_param_toks(f))
}

/// Each field's binding identifier, as a one-token part.
pub open spec fn idents_of(fs: Seq<Field>) -> Seq<Seq<TokM>> {
    fs.map_values(|f: Field| seq![TokM::Ident(temp_ident_text(f))])
}

/// Each field's interpolated binding identifier.
pub open spec fn interp_of(fs: Seq<Field>) -> Seq<Seq<TokM>> {
    fs.map_values(|f: Field| interp_toks(temp_ident_text(f)))
}

/// Each field's wrapped-value binding statement.
pub open spec fn bindings_of(fs: Seq<Field>, ws: Seq<Seq<TokM>>) -> Seq<Seq<TokM>> {
    Seq::new(fs.len(), |i: int| binding_toks(fs[i], ws[i]))
}

/// The qualifying-path prefix of the emitted constructor call: the path
/// and a path separator when configured, nothing otherwise.
pub open spec fn mod_path_toks(mp: Option<String>) -> Seq<TokM> {
    match mp {
        Some(p) => seq![TokM::Verbatim(p@), TokM::Punct(':'), TokM::Punct(':')],
        None => Seq::empty(),
    }
}

/// The generated constructor: `new` takes the fields' parameters in
/// declaration order and constructs the record with the layout kind's
/// bracketing.
pub open spec fn new_impl_parts(
    name: Seq<char>,
    st: crate::shape::StructType,
    params: Seq<TokM>,
    values: Seq<TokM>,
) -> Seq<TokM> {
    seq![
        TokM::Ident("impl"@),
        TokM::Ident(name),
        TokM::Open(DelimKind::Brace),
        TokM::Ident("pub"@),
        TokM::Ident("fn"@),
        TokM::Ident("new"@),
        TokM::Open(DelimKind::Paren),
    ] + params + seq![
        TokM::Close(DelimKind::Paren),
        TokM::Punct('-'),
        TokM::Punct('>'),
        TokM::Ident("Self"@),
        TokM::Open(DelimKind::Brace),
        TokM::Ident(name),
    ] + params_toks(st, values) + seq![
        TokM::Close(DelimKind::Brace),
        TokM::Close(DelimKind::Brace),
    ]
}

/// The generated constructor of a shape.
pub open spec fn new_impl_toks(s: StructStructure) -> Seq<TokM> {
    new_impl_parts(
        s.name@,
        s.struct_type,
        joined_comma(construct_params_of(shape_fields(s))),
        trailing_all(idents_of(shape_fields(s)), TokM::Punct(',')),
    )
}

/// The head of the generated tokenization method, up to and including the
/// capability import that the wrapped expressions rely on.
pub open spec fn tokens_impl_head(name: Seq<char>) -> Seq<TokM> {
    seq![
        TokM::Ident("impl"@),
        TokM::Ident("quote"@),
        TokM::Punct(':'),
        TokM::Punct(':'),
        TokM::Ident("ToTokens"@),
        TokM::Ident("for"@),
        TokM::Ident(name),
        TokM::Open(DelimKind::Brace),
        TokM::Ident("fn"@),
        TokM::Ident("to_tokens"@),
        TokM::Open(DelimKind::Paren),
        TokM::Punct('&'),
        TokM::Ident("self"@),
        TokM::Punct(','),
        TokM::Ident("tokens"@),
        TokM::Punct(':'),
        TokM::Punct('&'),
        TokM::Ident("mut"@),
        TokM::Ident("proc_macro2"@),
        TokM::Punct(':'),
        TokM::Punct(':'),
        TokM::Ident("TokenStream"@),
        TokM::Close(DelimKind::Paren),
        TokM::Open(DelimKind::Brace),
        TokM::Ident("use"@),
        TokM::Ident("iroha"@),
        TokM::Punct(':'),
        TokM::Punct(':'),
        TokM::Ident("Tokenizable"@),
        TokM::Punct(';'),
    ]
}

/// The middle of the generated tokenization method: after the bindings,
/// the appended group is opened up to the quotation's own brace.
pub open spec fn tokens_impl_mid() -> Seq<TokM> {
    seq![
        TokM::Ident("use"@),
        TokM::Ident("quote"@),
        TokM::Punct(':'),
        TokM::Punct(':'),
        TokM::Ident("TokenStreamExt"@),
        TokM::Punct(';'),
        TokM::Ident("tokens"@),
        TokM::Punct('.'),
        TokM::Ident("append"@),
        TokM::Open(DelimKind::Paren),
        TokM::Ident("proc_macro2"@),
        TokM::Punct(':'),
        TokM::Punct(':'),
        TokM::Ident("Group"@),
        TokM::Punct(':'),
        TokM::Punct(':'),
        TokM::Ident("new"@),
        TokM::Open(DelimKind::Paren),
        TokM::Ident("proc_macro2"@),
        TokM::Punct(':'),
        TokM::Punct(':'),
        TokM::Ident("Delimiter"@),
        TokM::Punct(':'),
        TokM::Punct(':'),
        TokM::Ident("Brace"@),
        TokM::Punct(','),
        TokM::Ident("quote"@),
        TokM::Punct(':'),
        TokM::Punct(':'),
        TokM::Ident("quote"@),
        TokM::Punct('!'),
        TokM::Open(DelimKind::Brace),
    ]
}

/// The quoted constructor call's own head: the qualifying path, the
/// record's name, and the call of `new`.
pub open spec fn call_head_toks(mp: Option<String>, name: Seq<char>) -> Seq<TokM> {
    mod_path_toks(mp) + seq![
        TokM::Ident(name),
        TokM::Punct(':'),
        TokM::Punct(':'),
        TokM::Ident("new"@),
        TokM::Open(DelimKind::Paren),
    ]
}

/// The tail of the generated tokenization method: every group opened
/// after the bindings is closed again.
pub open spec fn tokens_impl_tail() -> Seq<TokM> {
    seq![
        TokM::Close(DelimKind::Paren),
        TokM::Close(DelimKind::Brace),
        TokM::Close(DelimKind::Paren),
        TokM::Close(DelimKind::Paren),
        TokM::Close(DelimKind::Brace),
        TokM::Close(DelimKind::Brace),
    ]
}

/// The generated tokenization method: one binding statement per field in
/// declaration order, then a single group-wrapped constructor call whose
/// arguments interpolate the bindings, again in declaration order.
pub open spec fn tokens_impl_parts(
    name: Seq<char>,
    mp: Option<String>,
    bindings: Seq<TokM>,
    args: Seq<TokM>,
) -> Seq<TokM> {
    tokens_impl_head(name) + bindings + tokens_impl_mid() + call_head_toks(mp, name) + args
        + tokens_impl_tail()
}

/// The generated tokenization method of a shape.
pub open spec fn tokens_impl_toks(s: StructStructure, ws: Seq<Seq<TokM>>) -> Seq<TokM> {
    tokens_impl_parts(
        s.name@,
        s.mod_path,
        trailing_all(bindings_of(shape_fields(s), ws), TokM::Punct(';')),
        joined_comma(interp_of(shape_fields(s))),
    )
}

/// Both generated artifacts, in emission order.
pub open spec fn implement_toks(s: StructStructure, ws: Seq<Seq<TokM>>) -> Seq<TokM> {
    new_impl_toks(s) + tokens_impl_toks(s, ws)
}

#[verifier::rlimit(60)]
fn emit_new_part(
    name: &String,
    st: crate::shape::StructType,
    params_list: &Vec<Tok>,
    values: Vec<Tok>,
) -> (r: Vec<Tok>)
    ensures
        toks_view(r@) == new_impl_parts(name@, st, toks_view(params_list@), toks_view(values@)),
{
    let ghost valsv = toks_view(values@);
    let mut out: Vec<Tok> = Vec::new();
    let ghost mut acc: Seq<TokM> = Seq::empty();
    push_id(&mut out, "impl");
    push_tok(&mut out, Tok::Ident(name.clone()));
    push_tok(&mut out, Tok::Open(DelimKind::Brace));
    push_id(&mut out, "pub");
    push_id(&mut out, "fn");
    push_id(&mut out, "new");
    push_tok(&mut out, Tok::Open(DelimKind::Paren));
    proof {
        acc = seq![
            TokM::Ident("impl"@),
            TokM::Ident(name@),
            TokM::Open(DelimKind::Brace),
            TokM::Ident("pub"@),
            TokM::Ident("fn"@),
            TokM::Ident("new"@),
            TokM::Open(DelimKind::Paren),
        ];
        assert(toks_view(out@) =~= acc);
    }
    append_stream(&mut out, params_list);
    push_tok(&mut out, Tok::Close(DelimKind::Paren));
    push_punct(&mut out, '-');
    push_punct(&mut out, '>');
    push_id(&mut out, "Self");
    push_tok(&mut out, Tok::Open(DelimKind::Brace));
    push_tok(&mut out, Tok::Ident(name.clone()));
    proof {
        acc = acc + toks_view(params_list@) + seq![
            TokM::Close(DelimKind::Paren),
            TokM::Punct('-'),
            TokM::Punct('>'),
            TokM::Ident("Self"@),
            TokM::Open(DelimKind::Brace),
            TokM::Ident(name@),
        ];
        assert(toks_view(out@) =~= acc);
    }
    let mut params = st.get_params(values);
    out.append(&mut params);
    push_tok(&mut out, Tok::Close(DelimKind::Brace));
    push_tok(&mut out, Tok::Close(DelimKind::Brace));
    proof {
        acc = acc + params_toks(st, valsv) + seq![
            TokM::Close(DelimKind::Brace),
            TokM::Close(DelimKind::Brace),
        ];
        assert(toks_view(out@) =~= acc);
        assert(acc =~= new_impl_parts(name@, st, toks_view(params_list@), valsv));
    }
    out
}

#[verifier::rlimit(100)]
fn emit_tokens_part(
    name: &String,
    mod_path: &Option<String>,
    bindings: &Vec<Tok>,
    args: &Vec<Tok>,
) -> (r: Vec<Tok>)
    ensures
        toks_view(r@) == tokens_impl_parts(name@, *mod_path, toks_view(bindings@), toks_view(args@)),
{
    let mut out: Vec<Tok> = Vec::new();
    let ghost mut acc: Seq<TokM> = Seq::empty();
    push_id(&mut out, "impl");
    push_id(&mut out, "quote");
    push_punct(&mut out, ':');
    push_punct(&mut out, ':');
    push_id(&mut out, "ToTokens");
    push_id(&mut out, "for");
    push_tok(&mut out, Tok::Ident(name.clone()));
    push_tok(&mut out, Tok::Open(DelimKind::Brace));
    push_id(&mut out, "fn");
    push_id(&mut out, "to_tokens");
    push_tok(&mut out, Tok::Open(DelimKind::Paren));
    push_punct(&mut out, '&');
    push_id(&mut out, "self");
    push_punct(&mut out, ',');
    push_id(&mut out, "tokens");
    push_punct(&mut out, ':');
    push_punct(&mut out, '&');
    push_id(&mut out, "mut");
    push_id(&mut out, "proc_macro2");
    push_punct(&mut out, ':');
    push_punct(&mut out, ':');
    push_id(&mut out, "TokenStream");
    push_tok(&mut out, Tok::Close(DelimKind::Paren));
    push_tok(&mut out, Tok::Open(DelimKind::Brace));
    push_id(&mut out, "use");
    push_id(&mut out, "iroha");
    push_punct(&mut out, ':');
    push_punct(&mut out, ':');
    push_id(&mut out, "Tokenizable");
    push_punct(&mut out, ';');
    proof {
        acc = tokens_impl_head(name@);
        assert(toks_view(out@) =~= acc);
    }
    append_stream(&mut out, bindings);
    push_id(&mut out, "use");
    push_id(&mut out, "quote");
    push_punct(&mut out, ':');
    push_punct(&mut out, ':');
    push_id(&mut out, "TokenStreamExt");
    push_punct(&mut out, ';');
    push_id(&mut out, "tokens");
    push_punct(&mut out, '.');
    push_id(&mut out, "append");
    push_tok(&mut out, Tok::Open(DelimKind::Paren));
    push_id(&mut out, "proc_macro2");
    push_punct(&mut out, ':');
    push_punct(&mut out, ':');
    push_id(&mut out, "Group");
    push_punct(&mut out, ':');
    push_punct(&mut out, ':');
    push_id(&mut out, "new");
    push_tok(&mut out, Tok::Open(DelimKind::Paren));
    push_id(&mut out, "proc_macro2");
    push_punct(&mut out, ':');
    push_punct(&mut out, ':');
    push_id(&mut out, "Delimiter");
    push_punct(&mut out, ':');
    push_punct(&mut out, ':');
    push_id(&mut out, "Brace");
    push_punct(&mut out, ',');
    push_id(&mut out, "quote");
    push_punct(&mut out, ':');
    push_punct(&mut out, ':');
    push_id(&mut out, "quote");
    push_punct(&mut out, '!');
    push_tok(&mut out, Tok::Open(DelimKind::Brace));
    proof {
        acc = acc + toks_view(bindings@) + tokens_impl_mid();
        assert(toks_view(out@) =~= acc);
    }
    match mod_path {
        Some(p) => {
            push_tok(&mut out, Tok::Verbatim(p.clone()));
            push_punct(&mut out, ':');
            push_punct(&mut out, ':');
        },
        None => {},
    }
    push_tok(&mut out, Tok::Ident(name.clone()));
    push_punct(&mut out, ':');
    push_punct(&mut out, ':');
    push_id(&mut out, "new");
    push_tok(&mut out, Tok::Open(DelimKind::Paren));
    proof {
        acc = acc + call_head_toks(*mod_path, name@);
        assert(toks_view(out@) =~= acc);
    }
    append_stream(&mut out, args);
    push_tok(&mut out, Tok::Close(DelimKind::Paren));
    push_tok(&mut out, Tok::Close(DelimKind::Brace));
    push_tok(&mut out, Tok::Close(DelimKind::Paren));
    push_tok(&mut out, Tok::Close(DelimKind::Paren));
    push_tok(&mut out, Tok::Close(DelimKind::Brace));
    push_tok(&mut out, Tok::Close(DelimKind::Brace));
    proof {
        acc = acc + toks_view(args@) + tokens_impl_tail();
        assert(toks_view(out@) =~= acc);
        assert(acc =~= tokens_impl_parts(
            name@,
            *mod_path,
            toks_view(bindings@),
            toks_view(args@),
        ));
    }
    out
}

impl StructStructure {
    /// Emits the generated code for this shape.  `wrapped` holds, per
    /// field in declaration order, the wrapping collaborator's expression
    /// for that field's declared type and access path; each is spliced
    /// into that field's binding statement unchanged.
    pub fn get_implement(self, wrapped: &Vec<Vec<Tok>>) -> (r: Vec<Tok>)
        requires
            wrapped@.len() == shape_fields(self).len(),
        ensures
            toks_view(r@) == implement_toks(self, streams_view(wrapped@)),
    {
        let ghost fs = shape_fields(self);
        let ghost ws = streams_view(wrapped@);

        let mut values: Vec<Tok> = Vec::new();
        let mut params_list: Vec<Tok> = Vec::new();
        let mut args: Vec<Tok> = Vec::new();
        let mut bindings: Vec<Tok> = Vec::new();

        match &self.fields {
            Some(v) => {
                let mut i: usize = 0;
                while i < v.len()
                    invariant
                        0 <= i <= v.len(),
                        v@ == fs,
                        ws.len() == fs.len(),
                        wrapped@.len() == fs.len(),
                        ws == streams_view(wrapped@),
                        toks_view(values@) == trailing_upto(idents_of(fs), TokM::Punct(','), i as int),
                        toks_view(params_list@) == joined_upto(construct_params_of(fs), i as int),
                        toks_view(args@) == joined_upto(interp_of(fs), i as int),
                        toks_view(bindings@) == trailing_upto(bindings_of(fs, ws), TokM::Punct(';'), i as int),
                    decreases v.len() - i,
                {
                    let f = &v[i];

                    values.push(Tok::Ident(f.get_temp_value_ident()));
                    values.push(Tok::Punct(','));

                    if i > 0 {
                        params_list.push(Tok::Punct(','));
                    }
                    let mut cp = f.get_construct_param();
                    let ghost cpv = toks_view(cp@);
                    params_list.append(&mut cp);

                    if i > 0 {
                        args.push(Tok::Punct(','));
                    }
                    let interp = Interpolated(f.get_temp_value_ident());
                    interp.to_tokens(&mut args);

                    let mut b = f.temp_value_token_stream(&wrapped[i]);
                    let ghost bv = toks_view(b@);
                    bindings.append(&mut b);
                    bindings.push(Tok::Punct(';'));

                    proof {
                        assert(idents_of(fs)[i as int] == seq![
                            TokM::Ident(temp_ident_text(fs[i as int])),
                        ]);
                        assert(construct_params_of(fs)[i as int] == construct_param_toks(
                            fs[i as int],
                        ));
                        assert(interp_of(fs)[i as int] == interp_toks(
                            temp_ident_text(fs[i as int]),
                        ));
                        assert(ws[i as int] == toks_view(wrapped@[i as int]@));
                        assert(bindings_of(fs, ws)[i as int] == binding_toks(
                            fs[i as int],
                            ws[i as int],
                        ));
                        assert(toks_view(values@) =~= trailing_upto(
                            idents_of(fs),
                            TokM::Punct(','),
                            i as int + 1,
                        ));
                        assert(toks_view(params_list@) =~= joined_upto(
                            construct_params_of(fs),
                            i as int + 1,
                        ));
                        assert(toks_view(args@) =~= joined_upto(interp_of(fs), i as int + 1));
                        assert(toks_view(bindings@) =~= trailing_upto(
                            bindings_of(fs, ws),
                            TokM::Punct(';'),
                            i as int + 1,
                        ));
                    }
                    i = i + 1;
                }
            },
            None => {
                proof {
                    assert(fs =~= Seq::<Field>::empty());
                }
            },
        }

        proof {
            assert(toks_view(values@) == trailing_all(idents_of(fs), TokM::Punct(',')));
            assert(toks_view(params_list@) == joined_comma(construct_params_of(fs)));
            assert(toks_view(args@) == joined_comma(interp_of(fs)));
            assert(toks_view(bindings@) == trailing_all(bindings_of(fs, ws), TokM::Punct(';')));
        }

        let mut out = emit_new_part(&self.name, self.struct_type, &params_list, values);
        let mut second = emit_tokens_part(&self.name, &self.mod_path, &bindings, &args);
        let ghost out0 = out@;
        let ghost sec0 = second@;
        let ghost first = toks_view(out@);
        let ghost secondv = toks_view(second@);
        out.append(&mut second);
        proof {
            crate::tokens::lemma_toks_view_append(out0, sec0);
            assert(toks_view(out@) == first + secondv);
            assert(first == new_impl_toks(self));
            assert(secondv == tokens_impl_toks(self, ws));
        }
        out
    }
}

} // verus!
