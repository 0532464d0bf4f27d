//! The lexical token model.
//!
//! Generated code and tokenized values are sequences of `Tok`.  A token
//! renders to text through `tok_text`, and a whole stream through `render`,
//! which concatenates the tokens' texts with no separators (comparisons of
//! generated output are made after whitespace normalization, so separators
//! carry no information).

use vstd::prelude::*;
use vstd::string::StringExecFns;

verus! {

/// The integer widths a scalar literal can carry as its suffix.
#[derive(Clone, Copy, PartialEq, Eq, Structural, Debug)]
pub enum IntTy {
    I8,
    I16,
    I32,
    I64,
    Isize,
    U8,
    U16,
    U32,
    U64,
    Usize,
}

/// The delimiter of a bracketed group.  `Invisible` delimits a group only
/// structurally: it renders to no text at all.
#[derive(Clone, Copy, PartialEq, Eq, Structural, Debug)]
pub enum DelimKind {
    Paren,
    Brace,
    Bracket,
    Invisible,
}

/// One lexical token of generated code.
#[derive(Clone, PartialEq, Eq, Debug)]
pub enum Tok {
    /// An identifier or keyword.
    Ident(String),
    /// An integer literal with its width suffix, e.g. `1i32`.
    IntLit(IntTy, i128),
    /// A string literal; the payload is the text between the quotes.
    StrLit(String),
    /// A single punctuation character.
    Punct(char),
    /// A bare, unsuffixed index literal, as in a positional field access.
    Index(usize),
    /// Text forwarded verbatim, such as a field's declared type.
    Verbatim(String),
    /// The opening of a delimited group.
    Open(DelimKind),
    /// The closing of a delimited group.
    Close(DelimKind),
}

/// The mathematical model of a token.
pub enum TokM {
    Ident(Seq<char>),
    IntLit(IntTy, int),
    StrLit(Seq<char>),
    Punct(char),
    Index(int),
    Verbatim(Seq<char>),
    Open(DelimKind),
    Close(DelimKind),
}

impl View for Tok {
    type V = TokM;

    open spec fn view(&self) -> TokM {
        match self {
            Tok::Ident(s) => TokM::Ident(s@),
            Tok::IntLit(ty, n) => TokM::IntLit(*ty, *n as int),
            Tok::StrLit(s) => TokM::StrLit(s@),
            Tok::Punct(c) => TokM::Punct(*c),
            Tok::Index(n) => TokM::Index(*n as int),
            Tok::Verbatim(s) => TokM::Verbatim(s@),
            Tok::Open(d) => TokM::Open(*d),
            Tok::Close(d) => TokM::Close(*d),
        }
    }
}

/// The model of a token stream: each token's model, in order.
pub open spec fn toks_view(s: Seq<Tok>) -> Seq<TokM> {
    s.map_values(|t: Tok| t@)
}

/// The decimal digits of a natural number, most significant first.
pub open spec fn dec_nat(n: nat) -> Seq<char>
    decreases n,
{
    if n < 10 {
        seq![digit_char(n % 10)]
    } else {
        dec_nat(n / 10) + seq![digit_char(n % 10)]
    }
}

/// The character for one decimal digit.
pub open spec fn digit_char(d: nat) -> char {
    if d == 0 { '0' }
    else if d == 1 { '1' }
    else if d == 2 { '2' }
    else if d == 3 { '3' }
    else if d == 4 { '4' }
    else if d == 5 { '5' }
    else if d == 6 { '6' }
    else if d == 7 { '7' }
    else if d == 8 { '8' }
    else { '9' }
}

/// The decimal text of an integer: a minus sign before the digits when
/// negative.
pub open spec fn dec_int(n: int) -> Seq<char> {
    if n < 0 {
        seq!['-'] + dec_nat((-n) as nat)
    } else {
        dec_nat(n as nat)
    }
}

/// The suffix text of an integer width.
pub open spec fn suffix_text(ty: IntTy) -> Seq<char> {
    match ty {
        IntTy::I8 => "i8"@,
        IntTy::I16 => "i16"@,
        IntTy::I32 => "i32"@,
        IntTy::I64 => "i64"@,
        IntTy::Isize => "isize"@,
        IntTy::U8 => "u8"@,
        IntTy::U16 => "u16"@,
        IntTy::U32 => "u32"@,
        IntTy::U64 => "u64"@,
        IntTy::Usize => "usize"@,
    }
}

/// The text of one delimiter end; an invisible delimiter has none.
pub open spec fn open_text(d: DelimKind) -> Seq<char> {
    match d {
        DelimKind::Paren => "("@,
        DelimKind::Brace => "{"@,
        DelimKind::Bracket => "["@,
        DelimKind::Invisible => ""@,
    }
}

/// The text of one closing delimiter; an invisible delimiter has none.
pub open spec fn close_text(d: DelimKind) -> Seq<char> {
    match d {
        DelimKind::Paren => ")"@,
        DelimKind::Brace => "}"@,
        DelimKind::Bracket => "]"@,
        DelimKind::Invisible => ""@,
    }
}

/// The text of one token.
pub open spec fn tok_text(t: TokM) -> Seq<char> {
    match t {
        TokM::Ident(s) => s,
        TokM::IntLit(ty, n) => dec_int(n) + suffix_text(ty),
        TokM::StrLit(s) => seq!['"'] + s + seq!['"'],
        TokM::Punct(c) => seq![c],
        TokM::Index(n) => dec_int(n),
        TokM::Verbatim(s) => s,
        TokM::Open(d) => open_text(d),
        TokM::Close(d) => close_text(d),
    }
}

/// The text of a token stream: the tokens' texts, concatenated.
pub open spec fn render_text(s: Seq<TokM>) -> Seq<char>
    decreases s.len(),
{
    if s.len() == 0 {
        Seq::empty()
    } else {
        tok_text(s[0]) + render_text(s.skip(1))
    }
}

/// Rendering distributes over concatenation of streams.
pub proof fn lemma_render_append(a: Seq<TokM>, b: Seq<TokM>)
    ensures
        render_text(a + b) == render_text(a) + render_text(b),
    decreases a.len(),
{
    if a.len() == 0 {
        assert(a + b =~= b);
        assert(render_text(a) + render_text(b) =~= render_text(b));
    } else {
        lemma_render_append(a.skip(1), b);
        assert((a + b).skip(1) =~= a.skip(1) + b);
        assert(render_text(a + b) =~= render_text(a) + render_text(b));
    }
}

/// A stream of one token renders to that token's text.
pub proof fn lemma_render_one(t: TokM)
    ensures
        render_text(seq![t]) == tok_text(t),
{
    assert(seq![t].skip(1) =~= Seq::<TokM>::empty());
    assert(render_text(seq![t].skip(1)) =~= Seq::<char>::empty());
    assert(render_text(seq![t]) =~= tok_text(t));
}

/// The punctuation characters the renderer can print.
pub open spec fn known_punct(c: char) -> bool {
    c == '#' || c == ':' || c == ',' || c == ';' || c == '!' || c == '.' || c == '='
        || c == '-' || c == '&' || c == '>' || c == '<' || c == '+' || c == '*' || c == '?'
}

/// A stream the renderer accepts: every punctuation token is printable.
pub open spec fn renderable(s: Seq<TokM>) -> bool {
    forall|i: int|
        0 <= i < s.len() ==> match #[trigger] s[i] {
            TokM::Punct(c) => known_punct(c),
            _ => true,
        }
}

fn punct_str(c: char) -> (r: &'static str)
    requires
        known_punct(c),
    ensures
        r@ == seq![c],
{
    proof {
        reveal_strlit("#");
        reveal_strlit(":");
        reveal_strlit(",");
        reveal_strlit(";");
        reveal_strlit("!");
        reveal_strlit(".");
        reveal_strlit("=");
        reveal_strlit("-");
        reveal_strlit("&");
        reveal_strlit(">");
        reveal_strlit("<");
        reveal_strlit("+");
        reveal_strlit("*");
        reveal_strlit("?");
    }
    match c {
        '#' => "#",
        ':' => ":",
        ',' => ",",
        ';' => ";",
        '!' => "!",
        '.' => ".",
        '=' => "=",
        '-' => "-",
        '&' => "&",
        '>' => ">",
        '<' => "<",
        '+' => "+",
        '*' => "*",
        _ => "?",
    }
}

fn digit_str(d: u128) -> (r: &'static str)
    requires
        d < 10,
    ensures
        r@ == seq![digit_char(d as nat)],
{
    proof {
        reveal_strlit("0");
        reveal_strlit("1");
        reveal_strlit("2");
        reveal_strlit("3");
        reveal_strlit("4");
        reveal_strlit("5");
        reveal_strlit("6");
        reveal_strlit("7");
        reveal_strlit("8");
        reveal_strlit("9");
    }
    match d {
        0 => "0",
        1 => "1",
        2 => "2",
        3 => "3",
        4 => "4",
        5 => "5",
        6 => "6",
        7 => "7",
        8 => "8",
        _ => "9",
    }
}

/// The decimal text of a natural number.
pub fn dec_u128(n: u128) -> (r: String)
    ensures
        r@ == dec_nat(n as nat),
    decreases n,
{
    if n < 10 {
        String::from_str(digit_str(n))
    } else {
        let mut s = dec_u128(n / 10);
        s.append(digit_str(n % 10));
        s
    }
}

/// The suffix text of an integer width, as an executable value.
pub fn suffix_str(ty: IntTy) -> (r: &'static str)
    ensures
        r@ == suffix_text(ty),
{
    match ty {
        IntTy::I8 => "i8",
        IntTy::I16 => "i16",
        IntTy::I32 => "i32",
        IntTy::I64 => "i64",
        IntTy::Isize => "isize",
        IntTy::U8 => "u8",
        IntTy::U16 => "u16",
        IntTy::U32 => "u32",
        IntTy::U64 => "u64",
        IntTy::Usize => "usize",
    }
}

fn append_int_lit(out: &mut String, ty: IntTy, n: i128)
    ensures
        final(out)@ == old(out)@ + dec_int(n as int) + suffix_text(ty),
{
    if n < 0 {
        proof {
            reveal_strlit("-");
        }
        out.append("-");
        let m: u128 = ((-(n + 1)) as u128) + 1;
        assert(m as nat == -(n as int));
        let digits = dec_u128(m);
        out.append(digits.as_str());
    } else {
        let digits = dec_u128(n as u128);
        out.append(digits.as_str());
    }
    out.append(suffix_str(ty));
    assert(final(out)@ =~= old(out)@ + dec_int(n as int) + suffix_text(ty));
}

/// The text of a token stream: each token printed in turn, with no
/// separating whitespace.
pub fn render(toks: &Vec<Tok>) -> (r: String)
    requires
        renderable(toks_view(toks@)),
    ensures
        r@ == render_text(toks_view(toks@)),
{
    proof {
        reveal_strlit("\"");
        reveal_strlit("(");
        reveal_strlit(")");
        reveal_strlit("{");
        reveal_strlit("}");
        reveal_strlit("[");
        reveal_strlit("]");
        reveal_strlit("");
    }
    let ghost model = toks_view(toks@);
    let mut out = String::new();
    let mut i: usize = 0;
    while i < toks.len()
        invariant
            0 <= i <= toks.len(),
            model == toks_view(toks@),
            renderable(model),
            out@ == render_text(model.take(i as int)),
        decreases toks.len() - i,
    {
        let ghost prev = out@;
        proof {
            assert(model[i as int] == toks@[i as int]@);
        }
        match &toks[i] {
            Tok::Ident(s) => {
                out.append(s.as_str());
                assert(out@ =~= prev + tok_text(model[i as int]));
            },
            Tok::IntLit(ty, n) => {
                append_int_lit(&mut out, *ty, *n);
                assert(out@ =~= prev + tok_text(model[i as int]));
            },
            Tok::StrLit(s) => {
                out.append("\"");
                out.append(s.as_str());
                out.append("\"");
                proof {
                    reveal_strlit("\"");
                    assert("\""@ =~= seq!['"']);
                    assert(out@ =~= prev + tok_text(model[i as int]));
                }
            },
            Tok::Punct(c) => {
                out.append(punct_str(*c));
                assert(out@ =~= prev + tok_text(model[i as int]));
            },
            Tok::Index(n) => {
                let digits = dec_u128(*n as u128);
                out.append(digits.as_str());
                assert(out@ =~= prev + tok_text(model[i as int]));
            },
            Tok::Verbatim(s) => {
                out.append(s.as_str());
                assert(out@ =~= prev + tok_text(model[i as int]));
            },
            Tok::Open(d) => {
                match d {
                    DelimKind::Paren => out.append("("),
                    DelimKind::Brace => out.append("{"),
                    DelimKind::Bracket => out.append("["),
                    DelimKind::Invisible => out.append(""),
                }
                assert(out@ =~= prev + tok_text(model[i as int]));
            },
            Tok::Close(d) => {
                match d {
                    DelimKind::Paren => out.append(")"),
                    DelimKind::Brace => out.append("}"),
                    DelimKind::Bracket => out.append("]"),
                    DelimKind::Invisible => out.append(""),
                }
                assert(out@ =~= prev + tok_text(model[i as int]));
            },
        }
        proof {
            assert(out@ =~= prev + tok_text(model[i as int]));
            assert(model.take(i + 1) =~= model.take(i as int) + seq![model[i as int]]);
            lemma_render_append(model.take(i as int), seq![model[i as int]]);
            lemma_render_one(model[i as int]);
        }
        i = i + 1;
    }
    proof {
        assert(model.take(toks.len() as int) =~= model);
    }
    out
}

/// The model of a stream grows by one token's model when the stream does.
pub proof fn lemma_toks_view_push(s: Seq<Tok>, t: Tok)
    ensures
        toks_view(s.push(t)) == toks_view(s).push(t@),
{
    assert(toks_view(s.push(t)) =~= toks_view(s).push(t@));
}

/// The model of a concatenation is the concatenation of the models.
pub proof fn lemma_toks_view_append(a: Seq<Tok>, b: Seq<Tok>)
    ensures
        toks_view(a + b) == toks_view(a) + toks_view(b),
{
    assert(toks_view(a + b) =~= toks_view(a) + toks_view(b));
}

/// A copy of one token, equal in model to the original.
pub fn tok_dup(t: &Tok) -> (r: Tok)
    ensures
        r@ == t@,
{
    match t {
        Tok::Ident(s) => Tok::Ident(s.clone()),
        Tok::IntLit(ty, n) => Tok::IntLit(*ty, *n),
        Tok::StrLit(s) => Tok::StrLit(s.clone()),
        Tok::Punct(c) => Tok::Punct(*c),
        Tok::Index(n) => Tok::Index(*n),
        Tok::Verbatim(s) => Tok::Verbatim(s.clone()),
        Tok::Open(d) => Tok::Open(*d),
        Tok::Close(d) => Tok::Close(*d),
    }
}

/// Appends an identifier token spelled by a string slice.
pub fn push_id(out: &mut Vec<Tok>, s: &str)
    ensures
        toks_view(final(out)@) == toks_view(old(out)@).push(TokM::Ident(s@)),
{
    let t = Tok::Ident(String::from_str(s));
    out.push(t);
    proof {
        assert(toks_view(final(out)@) =~= toks_view(old(out)@).push(TokM::Ident(s@)));
    }
}

/// Appends one token.
pub fn push_tok(out: &mut Vec<Tok>, t: Tok)
    ensures
        toks_view(final(out)@) == toks_view(old(out)@).push(t@),
{
    let ghost tm = t@;
    out.push(t);
    proof {
        assert(toks_view(final(out)@) =~= toks_view(old(out)@).push(tm));
    }
}

/// Appends one punctuation token.
pub fn push_punct(out: &mut Vec<Tok>, c: char)
    ensures
        toks_view(final(out)@) == toks_view(old(out)@).push(TokM::Punct(c)),
{
    out.push(Tok::Punct(c));
    proof {
        assert(toks_view(final(out)@) =~= toks_view(old(out)@).push(TokM::Punct(c)));
    }
}

/// Appends copies of a whole stream.
pub fn append_stream(out: &mut Vec<Tok>, other: &Vec<Tok>)
    ensures
        toks_view(final(out)@) == toks_view(old(out)@) + toks_view(other@),
{
    let mut i: usize = 0;
    while i < other.len()
        invariant
            0 <= i <= other.len(),
            toks_view(out@) == toks_view(old(out)@) + toks_view(other@.take(i as int)),
        decreases other.len() - i,
    {
        let ghost prev = out@;
        let t = tok_dup(&other[i]);
        let ghost tm = t@;
        out.push(t);
        proof {
            lemma_toks_view_push(prev, prev.push(out@[prev.len() as int])[prev.len() as int]);
            assert(toks_view(out@) == toks_view(prev).push(tm));
            assert(other@.take(i as int + 1) =~= other@.take(i as int).push(other@[i as int]));
            lemma_toks_view_push(other@.take(i as int), other@[i as int]);
            assert(toks_view(out@) =~= toks_view(old(out)@) + toks_view(
                other@.take(i as int + 1),
            ));
        }
        i = i + 1;
    }
    proof {
        assert(other@.take(other.len() as int) =~= other@);
    }
}

} // verus!
