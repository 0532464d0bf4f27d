//! The shape extractor and the field model.
//!
//! A type declaration is classified into a `StructStructure`: the record's
//! name, its layout kind, its fields in declaration order, and an optional
//! qualifying path for the generated constructor call.  Each field carries
//! an optional name, its zero-based position, and its declared type,
//! forwarded verbatim and never interpreted.

use vstd::prelude::*;
use vstd::string::StringExecFns;
use crate::tokens::DelimKind;
use crate::tokens::Tok;
use crate::tokens::TokM;
use crate::tokens::dec_nat;
use crate::tokens::toks_view;

verus! {

/// One field of a declaration: an optional name and the declared type's
/// text.
pub struct FieldDecl {
    pub name: Option<String>,
    pub ty: String,
}

/// The field list of a record declaration.
pub enum FieldsDecl {
    /// No fields at all.
    Unit,
    /// Positional fields, addressed by index.
    Unnamed(Vec<FieldDecl>),
    /// Named fields, addressed by identifier.
    Named(Vec<FieldDecl>),
}

/// The body of a type declaration.
pub enum DataDecl {
    StructData(FieldsDecl),
    EnumData,
    UnionData,
}

/// A type declaration handed to the derivation: a name and a body.
pub struct TypeDecl {
    pub ident: String,
    pub data: DataDecl,
}

/// The failure a derivation can originate: the declaration is not a
/// record.  The payload is the offending declaration's name.
#[derive(Debug)]
pub enum DeriveError {
    NotARecord(String),
}

/// The layout kind of a record: how constructor parameters are bracketed.
#[derive(Clone, Copy, PartialEq, Eq, Structural, Debug)]
pub enum StructType {
    NoField,
    Tuple,
    Struct,
}

/// The text of an optional name.
pub open spec fn opt_text(o: Option<String>) -> Option<Seq<char>> {
    match o {
        Some(s) => Some(s@),
        None => None,
    }
}

/// The constructor-parameter bracketing of a layout kind: no brackets, a
/// parenthesized list, or a braced list.
pub open spec fn params_toks(t: StructType, values: Seq<TokM>) -> Seq<TokM> {
    match t {
        StructType::NoField => Seq::empty(),
        StructType::Tuple => seq![TokM::Open(DelimKind::Paren)] + values + seq![
            TokM::Close(DelimKind::Paren),
        ],
        StructType::Struct => seq![TokM::Open(DelimKind::Brace)] + values + seq![
            TokM::Close(DelimKind::Brace),
        ],
    }
}

impl StructType {
    /// Brackets a value list according to the layout kind.
    pub fn get_params(&self, values: Vec<Tok>) -> (r: Vec<Tok>)
        ensures
            toks_view(r@) == params_toks(*self, toks_view(values@)),
    {
        let mut values = values;
        let ghost vals0 = toks_view(values@);
        match self {
            StructType::NoField => {
                let r: Vec<Tok> = Vec::new();
                proof {
                    assert(toks_view(r@) =~= params_toks(*self, vals0));
                }
                r
            },
            StructType::Tuple => {
                let mut r: Vec<Tok> = Vec::new();
                r.push(Tok::Open(DelimKind::Paren));
                r.append(&mut values);
                r.push(Tok::Close(DelimKind::Paren));
                proof {
                    assert(toks_view(r@) =~= params_toks(*self, vals0));
                }
                r
            },
            StructType::Struct => {
                let mut r: Vec<Tok> = Vec::new();
                r.push(Tok::Open(DelimKind::Brace));
                r.append(&mut values);
                r.push(Tok::Close(DelimKind::Brace));
                proof {
                    assert(toks_view(r@) =~= params_toks(*self, vals0));
                }
                r
            },
        }
    }
}

/// The field model: a stable identifier, an access path, and the declared
/// type, kept in declaration order by the zero-based position.
pub struct Field {
    pub name: Option<String>,
    pub index: usize,
    pub ty: String,
}

/// The stable identifier for a field's temporary binding: the field's own
/// name when it has one, a position-derived name otherwise.
pub open spec fn temp_ident_text(f: Field) -> Seq<char> {
    match f.name {
        Some(n) => n@,
        None => "field_"@ + dec_nat(f.index as nat),
    }
}

/// The expression reading a field off a borrowed instance: a named access
/// or a positional one.
pub open spec fn access_toks(f: Field) -> Seq<TokM> {
    match f.name {
        Some(n) => seq![TokM::Ident("self"@), TokM::Punct('.'), TokM::Ident(n@)],
        None => seq![TokM::Ident("self"@), TokM::Punct('.'), TokM::Index(f.index as int)],
    }
}

/// One constructor parameter: the binding name, typed with the field's
/// declared type, unmodified.
pub open spec fn construct_param_toks(f: Field) -> Seq<TokM> {
    seq![TokM::Ident(temp_ident_text(f)), TokM::Punct(':'), TokM::Verbatim(f.ty@)]
}

/// The binding statement holding a field's wrapped value: the wrapped
/// expression itself comes from the wrapping collaborator.
pub open spec fn binding_toks(f: Field, wrapped: Seq<TokM>) -> Seq<TokM> {
    seq![TokM::Ident("let"@), TokM::Ident(temp_ident_text(f)), TokM::Punct('=')] + wrapped
}

impl Field {
    /// Builds the field model from one declared field and its position.
    /// This layer originates no errors: the declared type is forwarded
    /// opaquely.
    pub fn from_ast(field: &FieldDecl, index: usize) -> (r: Result<Field, DeriveError>)
        ensures
            r matches Ok(f) && f.index == index && opt_text(f.name) == opt_text(field.name)
                && f.ty@ == field.ty@,
    {
        let name = match &field.name {
            Some(n) => Some(n.clone()),
            None => None,
        };
        Ok(Field { name, index, ty: field.ty.clone() })
    }

    /// The access path reading this field off `self`.
    pub fn get_ident(&self) -> (r: Vec<Tok>)
        ensures
            toks_view(r@) == access_toks(*self),
    {
        let mut r: Vec<Tok> = Vec::new();
        r.push(Tok::Ident(String::from_str("self")));
        r.push(Tok::Punct('.'));
        match &self.name {
            Some(n) => r.push(Tok::Ident(n.clone())),
            None => r.push(Tok::Index(self.index)),
        }
        proof {
            assert(toks_view(r@) =~= access_toks(*self));
        }
        r
    }

    /// One parameter of the generated constructor.
    pub fn get_construct_param(&self) -> (r: Vec<Tok>)
        ensures
            toks_view(r@) == construct_param_toks(*self),
    {
        let mut r: Vec<Tok> = Vec::new();
        r.push(Tok::Ident(self.get_temp_value_ident()));
        r.push(Tok::Punct(':'));
        r.push(Tok::Verbatim(self.ty.clone()));
        proof {
            assert(toks_view(r@) =~= construct_param_toks(*self));
        }
        r
    }

    /// The stable identifier for this field's temporary binding.
    pub fn get_temp_value_ident(&self) -> (r: String)
        ensures
            r@ == temp_ident_text(*self),
    {
        match &self.name {
            Some(n) => n.clone(),
            None => {
                let mut s = String::from_str("field_");
                let digits = crate::tokens::dec_u128(self.index as u128);
                s.append(digits.as_str());
                s
            },
        }
    }

    /// The binding statement for this field.  `wrapped` is the wrapping
    /// collaborator's expression for the field's declared type and access
    /// path; the caller supplies it, and it is forwarded unchanged.
    pub fn temp_value_token_stream(&self, wrapped: &Vec<Tok>) -> (r: Vec<Tok>)
        ensures
            toks_view(r@) == binding_toks(*self, toks_view(wrapped@)),
    {
        let mut r: Vec<Tok> = Vec::new();
        r.push(Tok::Ident(String::from_str("let")));
        r.push(Tok::Ident(self.get_temp_value_ident()));
        r.push(Tok::Punct('='));
        proof {
            assert(toks_view(r@) =~= seq![
                TokM::Ident("let"@),
                TokM::Ident(temp_ident_text(*self)),
                TokM::Punct('='),
            ]);
        }
        crate::tokens::append_stream(&mut r, wrapped);
        proof {
            assert(toks_view(r@) =~= binding_toks(*self, toks_view(wrapped@)));
        }
        r
    }
}

/// The normalized record shape: name, fields in declaration order, the
/// optional qualifying path, and the layout kind.
pub struct StructStructure {
    pub name: String,
    pub fields: Option<Vec<Field>>,
    pub mod_path: Option<String>,
    pub struct_type: StructType,
}

/// The declared fields of a record declaration, in declaration order.
pub open spec fn decl_fields(fd: FieldsDecl) -> Seq<FieldDecl> {
    match fd {
        FieldsDecl::Unit => Seq::empty(),
        FieldsDecl::Unnamed(v) => v@,
        FieldsDecl::Named(v) => v@,
    }
}

/// The layout kind a field list classifies into.
pub open spec fn decl_kind(fd: FieldsDecl) -> StructType {
    match fd {
        FieldsDecl::Unit => StructType::NoField,
        FieldsDecl::Unnamed(v) => StructType::Tuple,
        FieldsDecl::Named(v) => StructType::Struct,
    }
}

/// The field models of a shape, in declaration order; empty when the
/// record has no fields.
pub open spec fn shape_fields(s: StructStructure) -> Seq<Field> {
    match s.fields {
        Some(v) => v@,
        None => Seq::empty(),
    }
}

/// The shape a well-formed extraction gives: the declaration's name, one
/// field model per declared field with positions `0..n` in declaration
/// order, the layout kind of the field list, and the qualifying path as
/// given.
pub open spec fn extracted(s: StructStructure, input: TypeDecl, mod_path: Option<String>) -> bool {
    &&& input.data matches DataDecl::StructData(fd) ==> {
        &&& s.name@ == input.ident@
        &&& opt_text(s.mod_path) == opt_text(mod_path)
        &&& s.struct_type == decl_kind(fd)
        &&& (fd matches FieldsDecl::Unit <==> s.fields is None)
        &&& shape_fields(s).len() == decl_fields(fd).len()
        &&& forall|i: int|
            0 <= i < decl_fields(fd).len() ==> {
                &&& (#[trigger] shape_fields(s)[i]).index == i
                &&& opt_text(shape_fields(s)[i].name) == opt_text(decl_fields(fd)[i].name)
                &&& shape_fields(s)[i].ty@ == decl_fields(fd)[i].ty@
            }
    }
}

impl StructStructure {
    /// Classifies a declaration.  A record declaration yields its shape;
    /// any other declaration kind is rejected with a typed error naming
    /// the offending declaration.
    pub fn from_ast(input: &TypeDecl, mod_path: Option<String>) -> (r: Result<
        StructStructure,
        DeriveError,
    >)
        ensures
            input.data is StructData ==> (r matches Ok(s) && extracted(s, *input, mod_path)),
            !(input.data is StructData) ==> (r matches Err(e) && e matches
                DeriveError::NotARecord(id) && id@ == input.ident@),
    {
        let name = input.ident.clone();

        let field_decls: &FieldsDecl = match &input.data {
            DataDecl::StructData(fd) => fd,
            _ => {
                return Err(DeriveError::NotARecord(name));
            },
        };

        let decls: Option<&Vec<FieldDecl>> = match field_decls {
            FieldsDecl::Unit => None,
            FieldsDecl::Unnamed(v) => Some(v),
            FieldsDecl::Named(v) => Some(v),
        };

        let fields: Option<Vec<Field>> = match decls {
            None => None,
            Some(v) => {
                let mut out: Vec<Field> = Vec::new();
                let mut i: usize = 0;
                while i < v.len()
                    invariant
                        0 <= i <= v.len(),
                        out@.len() == i,
                        forall|j: int|
                            0 <= j < i ==> {
                                &&& (#[trigger] out@[j]).index == j
                                &&& opt_text(out@[j].name) == opt_text(v@[j].name)
                                &&& out@[j].ty@ == v@[j].ty@
                            },
                    decreases v.len() - i,
                {
                    match Field::from_ast(&v[i], i) {
                        Ok(f) => out.push(f),
                        Err(e) => {
                            return Err(e);
                        },
                    }
                    i = i + 1;
                }
                Some(out)
            },
        };

        let struct_type = match field_decls {
            FieldsDecl::Unit => StructType::NoField,
            FieldsDecl::Unnamed(_) => StructType::Tuple,
            FieldsDecl::Named(_) => StructType::Struct,
        };

        Ok(StructStructure { name, fields, mod_path, struct_type })
    }
}

} // verus!
