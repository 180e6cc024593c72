use vstd::prelude::*;

use crate::cursor::{advanced, line_at, next_pos, skip_opt, sym_at, text_at, Input};
use crate::lexer::{chars_of, read_tokens, text_tokens, token_views, Symbol};
use crate::number::{float_text, is_float_text};

verus! {

/// A numeric expression of the scene language. Numbers keep their text;
/// names refer to earlier `#declare`d numbers.
#[derive(Debug, PartialEq)]
pub enum Expr {
    Number(String),
    Name(String),
    Neg(Box<Expr>),
    Add(Box<Expr>, Box<Expr>),
    Sub(Box<Expr>, Box<Expr>),
    Mul(Box<Expr>, Box<Expr>),
    Div(Box<Expr>, Box<Expr>),
}

/// `<x, y, z>`.
#[derive(Debug, PartialEq)]
pub struct VectorExpr {
    pub x: Expr,
    pub y: Expr,
    pub z: Expr,
}

#[derive(Debug, PartialEq)]
pub enum CameraItem {
    Location(VectorExpr),
    LookAt(VectorExpr),
    Angle(Expr),
}

#[derive(Debug, PartialEq)]
pub enum Pigment {
    Color(VectorExpr),
    Checker(VectorExpr, VectorExpr),
}

/// The surface model; number settings keep their text.
#[derive(Debug, PartialEq)]
pub enum Finish {
    Phong { reflection: Option<String>, phong: Option<String>, phong_size: Option<String> },
    Metal,
    DiffuseMetal(String),
    Lambertian,
}

/// `texture { pigment {..} finish {..} }`; no pigment means white.
#[derive(Debug, PartialEq)]
pub struct Texture {
    pub pigment: Option<Pigment>,
    pub finish: Finish,
}

/// Object modifiers, applied in order; rotations are in degrees.
#[derive(Debug, PartialEq)]
pub enum Modifier {
    Translate(VectorExpr),
    Rotate(VectorExpr),
    Scale(VectorExpr),
    ScaleAll(String),
}

/// One statement of a scene description.
#[derive(Debug, PartialEq)]
pub enum Statement {
    Camera(Vec<CameraItem>),
    Light(VectorExpr, VectorExpr),
    Sphere(VectorExpr, Expr, Option<Texture>, Vec<Modifier>),
    Box(VectorExpr, VectorExpr, Option<Texture>, Vec<Modifier>),
    Quadric(VectorExpr, VectorExpr, VectorExpr, Expr, Option<Texture>, Vec<Modifier>),
    Object(String, Vec<Modifier>),
    Difference(Box<Statement>, Box<Statement>, Option<Texture>, Vec<Modifier>),
    Intersection(Box<Statement>, Box<Statement>, Option<Texture>, Vec<Modifier>),
    DeclareNumber(String, Expr),
    DeclareVector(String, VectorExpr),
    /// The statement is `None` where it did not parse.
    DeclareStatement(String, Option<Box<Statement>>),
    /// `#while (left < right)`; `start` is the position of `#while`.
    While(usize, Expr, Expr),
    End,
}

/// Entry point for reading scene descriptions.
#[derive(Debug)]
pub struct SdlParser {}

impl SdlParser {
    /// A cursor on the first token of a scene text, ready for
    /// `parse_statement`; `None` for a text of `u32::MAX` characters or more,
    /// whose lines could not all be numbered.
    pub fn open(content: &str) -> (r: Option<Input>)
        ensures
            r is Some <==> content@.len() < u32::MAX,
            r matches Some(i) ==> {
                &&& i.wf()
                &&& i.toks() == text_tokens(content@)
                &&& i.spec_pos() == 1
                &&& i.spec_symbol() == sym_at(i.toks(), 1)
                &&& i.spec_loops().len() == 0
            },
    {
        let n = content.unicode_len();
        if n >= 0xFFFF_FFFF {
            return None;
        }
        let tokens = read_tokens(content);
        assert(token_views(tokens@).len() == tokens@.len());
        assert(text_tokens(content@).len() >= 1);
        let mut input = Input::new(tokens);
        input.nextsym();
        Some(input)
    }
}

/// Input that the grammar cannot read; `line` is where reading stopped.
#[derive(Debug, Clone, Copy, PartialEq, Eq, Structural)]
pub struct SyntaxError {
    pub line: u32,
}

/// Names declared so far, each with whether it was declared a number.
pub open spec fn decl_views(d: Seq<(String, bool)>) -> Seq<(Seq<char>, bool)> {
    d.map_values(|e: (String, bool)| (e.0@, e.1))
}

/// Whether the latest declaration of `name` in `d` is a number.
pub open spec fn is_number_name(d: Seq<(Seq<char>, bool)>, name: Seq<char>) -> bool
    decreases d.len(),
{
    if d.len() == 0 {
        false
    } else if d.last().0 == name {
        d.last().1
    } else {
        is_number_name(d.drop_last(), name)
    }
}

/// Whether the latest declaration of `name` is a number.
pub fn number_name(decls: &Vec<(String, bool)>, name: &String) -> (r: bool)
    ensures
        r == is_number_name(decl_views(decls@), name@),
{
    let ghost d = decl_views(decls@);
    let mut i = decls.len();
    assert(d.take(i as int) =~= d);
    while i > 0
        invariant
            i <= decls@.len(),
            d == decl_views(decls@),
            is_number_name(d, name@) == is_number_name(d.take(i as int), name@),
        decreases i,
    {
        let ghost t = d.take(i as int);
        assert(t.last() == d[i - 1]);
        if decls[i - 1].0 == *name {
            return decls[i - 1].1;
        }
        assert(t.drop_last() =~= d.take(i - 1));
        i = i - 1;
    }
    assert(d.take(0).len() == 0);
    false
}

fn error_here(input: &Input) -> (r: SyntaxError)
    ensures
        r.line == line_at(input.toks(), input.spec_pos()),
{
    SyntaxError { line: input.current_line() }
}

/// What an expression denotes in the grammar, with texts as character
/// sequences.
pub enum ExprModel {
    Number(Seq<char>),
    Name(Seq<char>),
    Neg(Box<ExprModel>),
    Add(Box<ExprModel>, Box<ExprModel>),
    Sub(Box<ExprModel>, Box<ExprModel>),
    Mul(Box<ExprModel>, Box<ExprModel>),
    Div(Box<ExprModel>, Box<ExprModel>),
}

pub open spec fn expr_model(e: Expr) -> ExprModel
    decreases e,
{
    match e {
        Expr::Number(s) => ExprModel::Number(s@),
        Expr::Name(s) => ExprModel::Name(s@),
        Expr::Neg(a) => ExprModel::Neg(Box::new(expr_model(*a))),
        Expr::Add(a, b) => ExprModel::Add(Box::new(expr_model(*a)), Box::new(expr_model(*b))),
        Expr::Sub(a, b) => ExprModel::Sub(Box::new(expr_model(*a)), Box::new(expr_model(*b))),
        Expr::Mul(a, b) => ExprModel::Mul(Box::new(expr_model(*a)), Box::new(expr_model(*b))),
        Expr::Div(a, b) => ExprModel::Div(Box::new(expr_model(*a)), Box::new(expr_model(*b))),
    }
}

pub open spec fn opt_model(r: Option<Expr>) -> Option<ExprModel> {
    match r {
        Some(e) => Some(expr_model(e)),
        None => None,
    }
}

/// Tokens `t`, declarations `d`: a factor read from position `p`, and the
/// position after it. `(` expression `)`; the name of a declared number; a
/// number literal.
pub open spec fn g_factor(t: Seq<(Seq<char>, u32)>, d: Seq<(Seq<char>, bool)>, p: int) -> (
    Option<ExprModel>,
    int,
)
    decreases t.len() - p, 0int,
{
    if sym_at(t, p) == Symbol::ParenOpen {
        let (e, q) = g_expr(t, d, p + 1);
        if sym_at(t, q) == Symbol::ParenClose {
            (e, next_pos(t, q))
        } else {
            (None, q)
        }
    } else if is_number_name(d, text_at(t, p)) {
        (Some(ExprModel::Name(text_at(t, p))), next_pos(t, p))
    } else if is_float_text(text_at(t, p)) {
        (Some(ExprModel::Number(text_at(t, p))), next_pos(t, p))
    } else {
        (None, p)
    }
}

/// More factors after `acc`, each after `*` or `/`, from position `p`.
pub open spec fn g_term_tail(
    t: Seq<(Seq<char>, u32)>,
    d: Seq<(Seq<char>, bool)>,
    p: int,
    acc: ExprModel,
) -> (Option<ExprModel>, int)
    decreases t.len() - p, 1int,
{
    if sym_at(t, p) == Symbol::Multiply || sym_at(t, p) == Symbol::Divide {
        let (f, q) = g_factor(t, d, p + 1);
        match f {
            None => (None, q),
            Some(f) => if p + 1 <= q <= t.len() {
                g_term_tail(
                    t,
                    d,
                    q,
                    if sym_at(t, p) == Symbol::Multiply {
                        ExprModel::Mul(Box::new(acc), Box::new(f))
                    } else {
                        ExprModel::Div(Box::new(acc), Box::new(f))
                    },
                )
            } else {
                (None, q)
            },
        }
    } else {
        (Some(acc), p)
    }
}

/// A term: factors joined by `*` and `/`, from the left.
pub open spec fn g_term(t: Seq<(Seq<char>, u32)>, d: Seq<(Seq<char>, bool)>, p: int) -> (
    Option<ExprModel>,
    int,
)
    decreases t.len() - p, 2int,
{
    let (f, q) = g_factor(t, d, p);
    match f {
        None => (None, q),
        Some(f) => if p <= q <= t.len() {
            g_term_tail(t, d, q, f)
        } else {
            (None, q)
        },
    }
}

/// More terms after `acc`, each after `+` or `-`, from position `p`.
pub open spec fn g_expr_tail(
    t: Seq<(Seq<char>, u32)>,
    d: Seq<(Seq<char>, bool)>,
    p: int,
    acc: ExprModel,
) -> (Option<ExprModel>, int)
    decreases t.len() - p, 3int,
{
    if sym_at(t, p) == Symbol::Minus || sym_at(t, p) == Symbol::Plus {
        let (v, q) = g_term(t, d, p + 1);
        match v {
            None => (None, q),
            Some(v) => if p + 1 <= q <= t.len() {
                g_expr_tail(
                    t,
                    d,
                    q,
                    if sym_at(t, p) == Symbol::Minus {
                        ExprModel::Sub(Box::new(acc), Box::new(v))
                    } else {
                        ExprModel::Add(Box::new(acc), Box::new(v))
                    },
                )
            } else {
                (None, q)
            },
        }
    } else {
        (Some(acc), p)
    }
}

/// An expression: an optional `-` that negates the first term, then terms
/// joined by `+` and `-`, from the left.
pub open spec fn g_expr(t: Seq<(Seq<char>, u32)>, d: Seq<(Seq<char>, bool)>, p: int) -> (
    Option<ExprModel>,
    int,
)
    decreases t.len() - p, 4int,
{
    if sym_at(t, p) == Symbol::Minus {
        let (v, q) = g_term(t, d, p + 1);
        match v {
            None => (None, q),
            Some(v) => if p + 1 <= q <= t.len() {
                g_expr_tail(t, d, q, ExprModel::Neg(Box::new(v)))
            } else {
                (None, q)
            },
        }
    } else {
        let (v, q) = g_term(t, d, p);
        match v {
            None => (None, q),
            Some(v) => if p <= q <= t.len() {
                g_expr_tail(t, d, q, v)
            } else {
                (None, q)
            },
        }
    }
}

/// A number literal at the cursor: its text, read past.
pub fn parse_float(input: &mut Input) -> (r: Option<String>)
    requires
        old(input).wf(),
    ensures
        advanced(*old(input), *final(input)),
        r is None ==> *final(input) == *old(input),
        r is Some <==> is_float_text(text_at(old(input).toks(), old(input).spec_pos())),
        r matches Some(s) ==> s@ == text_at(old(input).toks(), old(input).spec_pos())
            && final(input).spec_pos() == next_pos(old(input).toks(), old(input).spec_pos()),
{
    proof {
        input.lemma_in_range();
    }
    let text = input.current_text().clone();
    let chars = chars_of(text.as_str());
    if float_text(chars.as_slice()) {
        input.nextsym();
        Some(text)
    } else {
        None
    }
}

/// `-`? term ((`+` | `-`) term)*, as `g_expr` reads it.
pub fn parse_expression(input: &mut Input, decls: &Vec<(String, bool)>) -> (r: Option<Expr>)
    requires
        old(input).wf(),
        old(input).spec_pos() >= 1,
    ensures
        advanced(*old(input), *final(input)),
        opt_model(r) == g_expr(old(input).toks(), decl_views(decls@), old(input).spec_pos()).0,
        final(input).spec_pos() == g_expr(
            old(input).toks(),
            decl_views(decls@),
            old(input).spec_pos(),
        ).1,
    decreases old(input).toks().len() - old(input).spec_pos(), 4int,
{
    proof {
        input.lemma_symbol();
    }
    let ghost t = input.toks();
    let ghost d = decl_views(decls@);
    let ghost p0 = input.spec_pos();
    let mut e = if input.expect_quiet(Symbol::Minus) {
        match parse_term(input, decls) {
            Some(v) => Expr::Neg(Box::new(v)),
            None => {
                return None;
            },
        }
    } else {
        match parse_term(input, decls) {
            Some(v) => v,
            None => {
                return None;
            },
        }
    };
    assert(g_expr(t, d, p0) == g_expr_tail(t, d, input.spec_pos(), expr_model(e)));
    loop
        invariant
            advanced(*old(input), *input),
            input.spec_pos() >= 1,
            t == input.toks(),
            t == old(input).toks(),
            p0 == old(input).spec_pos(),
            d == decl_views(decls@),
            g_expr(t, d, p0) == g_expr_tail(t, d, input.spec_pos(), expr_model(e)),
        ensures
            advanced(*old(input), *input),
            g_expr(t, d, p0) == (Some(expr_model(e)), input.spec_pos()),
        decreases input.toks().len() - input.spec_pos(),
    {
        proof {
            input.lemma_symbol();
        }
        let ghost p = input.spec_pos();
        let ghost acc = expr_model(e);
        if input.expect_quiet(Symbol::Minus) {
            assert(sym_at(t, p) == Symbol::Minus);
            assert(input.spec_pos() == p + 1);
            match parse_term(input, decls) {
                Some(v) => {
                    e = Expr::Sub(Box::new(e), Box::new(v));
                },
                None => {
                    assert(g_term(t, d, p + 1).0 is None);
                    return None;
                },
            }
        } else if input.expect_quiet(Symbol::Plus) {
            assert(sym_at(t, p) == Symbol::Plus);
            assert(input.spec_pos() == p + 1);
            match parse_term(input, decls) {
                Some(v) => {
                    e = Expr::Add(Box::new(e), Box::new(v));
                },
                None => {
                    return None;
                },
            }
        } else {
            break ;
        }
    }
    Some(e)
}

/// factor ((`*` | `/`) factor)*, as `g_term` reads it.
pub fn parse_term(input: &mut Input, decls: &Vec<(String, bool)>) -> (r: Option<Expr>)
    requires
        old(input).wf(),
        old(input).spec_pos() >= 1,
    ensures
        advanced(*old(input), *final(input)),
        opt_model(r) == g_term(old(input).toks(), decl_views(decls@), old(input).spec_pos()).0,
        final(input).spec_pos() == g_term(
            old(input).toks(),
            decl_views(decls@),
            old(input).spec_pos(),
        ).1,
    decreases old(input).toks().len() - old(input).spec_pos(), 2int,
{
    proof {
        input.lemma_symbol();
    }
    let ghost t = input.toks();
    let ghost d = decl_views(decls@);
    let ghost p0 = input.spec_pos();
    let mut f = match parse_factor(input, decls) {
        Some(v) => v,
        None => {
            return None;
        },
    };
    loop
        invariant
            advanced(*old(input), *input),
            input.spec_pos() >= 1,
            t == input.toks(),
            t == old(input).toks(),
            p0 == old(input).spec_pos(),
            d == decl_views(decls@),
            g_term(t, d, p0) == g_term_tail(t, d, input.spec_pos(), expr_model(f)),
        ensures
            advanced(*old(input), *input),
            g_term(t, d, p0) == (Some(expr_model(f)), input.spec_pos()),
        decreases input.toks().len() - input.spec_pos(),
    {
        proof {
            input.lemma_symbol();
        }
        let ghost p = input.spec_pos();
        if input.expect_quiet(Symbol::Multiply) {
            assert(sym_at(t, p) == Symbol::Multiply);
            assert(input.spec_pos() == p + 1);
            let ghost acc = expr_model(f);
            match parse_factor(input, decls) {
                Some(v) => {
                    f = Expr::Mul(Box::new(f), Box::new(v));
                },
                None => {
                    assert(g_factor(t, d, p + 1).0 is None);
                    return None;
                },
            }
        } else if input.expect_quiet(Symbol::Divide) {
            assert(sym_at(t, p) == Symbol::Divide);
            assert(input.spec_pos() == p + 1);
            match parse_factor(input, decls) {
                Some(v) => {
                    f = Expr::Div(Box::new(f), Box::new(v));
                },
                None => {
                    return None;
                },
            }
        } else {
            break ;
        }
    }
    Some(f)
}

/// `(` expression `)`, a declared number's name, or a number literal, as
/// `g_factor` reads it.
pub fn parse_factor(input: &mut Input, decls: &Vec<(String, bool)>) -> (r: Option<Expr>)
    requires
        old(input).wf(),
        old(input).spec_pos() >= 1,
    ensures
        advanced(*old(input), *final(input)),
        opt_model(r) == g_factor(old(input).toks(), decl_views(decls@), old(input).spec_pos()).0,
        final(input).spec_pos() == g_factor(
            old(input).toks(),
            decl_views(decls@),
            old(input).spec_pos(),
        ).1,
    decreases old(input).toks().len() - old(input).spec_pos(), 0int,
{
    proof {
        input.lemma_symbol();
    }
    if input.expect_quiet(Symbol::ParenOpen) {
        let e = parse_expression(input, decls);
        proof {
            input.lemma_symbol();
        }
        if input.expect(Symbol::ParenClose) {
            return e;
        }
        None
    } else {
        let ident = input.current_text().clone();
        if number_name(decls, &ident) {
            input.nextsym();
            return Some(Expr::Name(ident));
        }
        match parse_float(input) {
            Some(t) => Some(Expr::Number(t)),
            None => None,
        }
    }
}

/// The three coordinates of a vector.
pub open spec fn vector_model(v: VectorExpr) -> (ExprModel, ExprModel, ExprModel) {
    (expr_model(v.x), expr_model(v.y), expr_model(v.z))
}

pub open spec fn opt_vector_model(v: Option<VectorExpr>) -> Option<(ExprModel, ExprModel, ExprModel)> {
    match v {
        Some(v) => Some(vector_model(v)),
        None => None,
    }
}

/// A vector read from position `p`: `Ok(None)` where none starts there,
/// `Err` where one starts but a coordinate does not read; and the position
/// reached. The commas and the closing `>` may be missing.
pub open spec fn g_vector(t: Seq<(Seq<char>, u32)>, d: Seq<(Seq<char>, bool)>, p: int) -> (
    Result<Option<(ExprModel, ExprModel, ExprModel)>, ()>,
    int,
) {
    if sym_at(t, p) != Symbol::VectorOpen {
        (Ok(None), p)
    } else {
        let (x, p1) = g_expr(t, d, p + 1);
        match x {
            None => (Err(()), p1),
            Some(x) => {
                let (y, p3) = g_expr(t, d, skip_opt(t, p1, Symbol::Comma));
                match y {
                    None => (Err(()), p3),
                    Some(y) => {
                        let (z, p5) = g_expr(t, d, skip_opt(t, p3, Symbol::Comma));
                        match z {
                            None => (Err(()), p5),
                            Some(z) => (Ok(Some((x, y, z))), skip_opt(t, p5, Symbol::VectorClose)),
                        }
                    },
                }
            },
        }
    }
}

/// `r`, with the cursor left at `end`, is what `g` describes.
pub open spec fn reads_vector(
    r: Result<Option<VectorExpr>, SyntaxError>,
    end: int,
    t: Seq<(Seq<char>, u32)>,
    g: (Result<Option<(ExprModel, ExprModel, ExprModel)>, ()>, int),
) -> bool {
    &&& end == g.1
    &&& r is Err <==> g.0 is Err
    &&& r matches Ok(v) ==> g.0 == Ok::<_, ()>(opt_vector_model(v))
    &&& r matches Err(e) ==> e.line == line_at(t, g.1)
}

/// `<` expression `,` expression `,` expression `>`, as `g_vector` reads it.
pub fn parse_vector(input: &mut Input, decls: &Vec<(String, bool)>) -> (r: Result<Option<VectorExpr>, SyntaxError>)
    requires
        old(input).wf(),
        old(input).spec_pos() >= 1,
    ensures
        advanced(*old(input), *final(input)),
        old(input).spec_symbol() != Symbol::VectorOpen ==> (r matches Ok(None)) && *final(input) == *old(input),
        (r matches Ok(Some(_))) ==> final(input).spec_pos() > old(input).spec_pos(),
        reads_vector(
            r,
            final(input).spec_pos(),
            old(input).toks(),
            g_vector(old(input).toks(), decl_views(decls@), old(input).spec_pos()),
        ),
{
    proof {
        input.lemma_symbol();
    }
    let ghost t = input.toks();
    let ghost d = decl_views(decls@);
    let ghost p = input.spec_pos();
    if input.expect(Symbol::VectorOpen) {
        let x = match parse_expression(input, decls) {
            Some(e) => e,
            None => {
                return Err(error_here(input));
            },
        };
        proof {
            input.lemma_symbol();
        }
        input.expect(Symbol::Comma);
        let y = match parse_expression(input, decls) {
            Some(e) => e,
            None => {
                return Err(error_here(input));
            },
        };
        proof {
            input.lemma_symbol();
        }
        input.expect(Symbol::Comma);
        let z = match parse_expression(input, decls) {
            Some(e) => e,
            None => {
                return Err(error_here(input));
            },
        };
        proof {
            input.lemma_symbol();
        }
        input.expect(Symbol::VectorClose);
        return Ok(Some(VectorExpr { x, y, z }));
    }
    Ok(None)
}

/// `color` `rgb`? vector.
pub fn parse_color(input: &mut Input, decls: &Vec<(String, bool)>) -> (r: Result<Option<VectorExpr>, SyntaxError>)
    requires
        old(input).wf(),
    ensures
        advanced(*old(input), *final(input)),
        old(input).spec_symbol() != Symbol::Color ==> (r matches Ok(None)) && *final(input) == *old(input),
        (r matches Ok(Some(_))) ==> final(input).spec_pos() > old(input).spec_pos(),
        old(input).spec_pos() >= 1 && old(input).spec_symbol() == Symbol::Color ==> reads_vector(
            r,
            final(input).spec_pos(),
            old(input).toks(),
            g_vector(
                old(input).toks(),
                decl_views(decls@),
                skip_opt(old(input).toks(), old(input).spec_pos() + 1, Symbol::Rgb),
            ),
        ),
{
    proof {
        input.lemma_in_range();
    }
    if input.expect_quiet(Symbol::Color) {
        proof {
            input.lemma_symbol();
        }
        input.expect_quiet(Symbol::Rgb);
        return parse_vector(input, decls);
    }
    Ok(None)
}

pub type V3 = (ExprModel, ExprModel, ExprModel);

pub enum PigmentModel {
    Color(V3),
    Checker(V3, V3),
}

pub enum FinishModel {
    Phong(Option<Seq<char>>, Option<Seq<char>>, Option<Seq<char>>),
    Metal,
    DiffuseMetal(Seq<char>),
    Lambertian,
}

pub struct TextureModel {
    pub pigment: Option<PigmentModel>,
    pub finish: FinishModel,
}

pub open spec fn text_model(s: Option<String>) -> Option<Seq<char>> {
    match s {
        Some(s) => Some(s@),
        None => None,
    }
}

pub open spec fn pigment_model(p: Pigment) -> PigmentModel {
    match p {
        Pigment::Color(c) => PigmentModel::Color(vector_model(c)),
        Pigment::Checker(a, b) => PigmentModel::Checker(vector_model(a), vector_model(b)),
    }
}

pub open spec fn opt_pigment_model(p: Option<Pigment>) -> Option<PigmentModel> {
    match p {
        Some(p) => Some(pigment_model(p)),
        None => None,
    }
}

pub open spec fn finish_model(f: Finish) -> FinishModel {
    match f {
        Finish::Phong { reflection, phong, phong_size } => FinishModel::Phong(
            text_model(reflection),
            text_model(phong),
            text_model(phong_size),
        ),
        Finish::Metal => FinishModel::Metal,
        Finish::DiffuseMetal(s) => FinishModel::DiffuseMetal(s@),
        Finish::Lambertian => FinishModel::Lambertian,
    }
}

pub open spec fn texture_model(x: Texture) -> TextureModel {
    TextureModel { pigment: opt_pigment_model(x.pigment), finish: finish_model(x.finish) }
}

/// `color` `rgb`? vector, from `p`.
pub open spec fn g_color(t: Seq<(Seq<char>, u32)>, d: Seq<(Seq<char>, bool)>, p: int) -> (
    Result<Option<V3>, ()>,
    int,
) {
    if sym_at(t, p) != Symbol::Color {
        (Ok(None), p)
    } else {
        g_vector(t, d, skip_opt(t, p + 1, Symbol::Rgb))
    }
}

/// `checker` color `,`? color, from `p`.
pub open spec fn g_checker(t: Seq<(Seq<char>, u32)>, d: Seq<(Seq<char>, bool)>, p: int) -> (
    Result<Option<(V3, V3)>, ()>,
    int,
) {
    if sym_at(t, p) != Symbol::Checker {
        (Ok(None), p)
    } else {
        let (a, q) = g_color(t, d, p + 1);
        match a {
            Err(_) => (Err(()), q),
            Ok(None) => (Ok(None), q),
            Ok(Some(c1)) => {
                let (b, q2) = g_color(t, d, skip_opt(t, q, Symbol::Comma));
                match b {
                    Err(_) => (Err(()), q2),
                    Ok(None) => (Ok(None), q2),
                    Ok(Some(c2)) => (Ok(Some((c1, c2))), q2),
                }
            },
        }
    }
}

/// `pigment` `{` (color `rgb`? | checker) `}`?, from `p`.
pub open spec fn g_pigment(t: Seq<(Seq<char>, u32)>, d: Seq<(Seq<char>, bool)>, p: int) -> (
    Result<Option<PigmentModel>, ()>,
    int,
) {
    if sym_at(t, p) != Symbol::Pigment {
        (Ok(None), p)
    } else if sym_at(t, p + 1) != Symbol::BlockOpen {
        (Ok(None), p + 1)
    } else {
        let (c, q) = g_color(t, d, p + 2);
        match c {
            Err(_) => (Err(()), q),
            Ok(Some(c)) => (
                Ok(Some(PigmentModel::Color(c))),
                skip_opt(t, skip_opt(t, q, Symbol::Rgb), Symbol::BlockClose),
            ),
            Ok(None) => {
                let (k, q2) = g_checker(t, d, q);
                match k {
                    Err(_) => (Err(()), q2),
                    Ok(Some((a, b))) => (
                        Ok(Some(PigmentModel::Checker(a, b))),
                        skip_opt(t, q2, Symbol::BlockClose),
                    ),
                    Ok(None) => (Ok(None), q2),
                }
            },
        }
    }
}

/// Finish settings from `p`, each a keyword and a number literal, the
/// later of two equal keywords winning; then `}`?.
pub open spec fn g_finish_items(
    t: Seq<(Seq<char>, u32)>,
    p: int,
    reflection: Option<Seq<char>>,
    phong: Option<Seq<char>>,
    size: Option<Seq<char>>,
) -> (Result<FinishModel, ()>, int)
    decreases t.len() - p,
{
    let s = sym_at(t, p);
    if (s == Symbol::Reflection || s == Symbol::Phong || s == Symbol::PhongSize) && 0 <= p
        < t.len() {
        let q = p + 1;
        if is_float_text(text_at(t, q)) {
            let v = Some(text_at(t, q));
            if s == Symbol::Reflection {
                g_finish_items(t, next_pos(t, q), v, phong, size)
            } else if s == Symbol::Phong {
                g_finish_items(t, next_pos(t, q), reflection, v, size)
            } else {
                g_finish_items(t, next_pos(t, q), reflection, phong, v)
            }
        } else {
            (Err(()), q)
        }
    } else {
        (Ok(FinishModel::Phong(reflection, phong, size)), skip_opt(t, p, Symbol::BlockClose))
    }
}

/// `finish` `{` settings `}`, or `surface` `{` (`metallic` (`diffuse`
/// number)?)? `}`, from `p`; Lambertian where neither stands there.
pub open spec fn g_finish(t: Seq<(Seq<char>, u32)>, p: int) -> (Result<FinishModel, ()>, int) {
    if sym_at(t, p) == Symbol::Finish {
        if sym_at(t, p + 1) == Symbol::BlockOpen {
            g_finish_items(t, p + 2, None, None, None)
        } else {
            (Ok(FinishModel::Lambertian), p + 1)
        }
    } else if sym_at(t, p) == Symbol::Surface {
        if sym_at(t, p + 1) == Symbol::BlockOpen {
            let p2 = p + 2;
            if sym_at(t, p2) == Symbol::Metallic {
                if sym_at(t, p2 + 1) == Symbol::Diffuse {
                    let q = p2 + 2;
                    if is_float_text(text_at(t, q)) {
                        (
                            Ok(FinishModel::DiffuseMetal(text_at(t, q))),
                            skip_opt(t, next_pos(t, q), Symbol::BlockClose),
                        )
                    } else {
                        (Err(()), q)
                    }
                } else {
                    (Ok(FinishModel::Metal), skip_opt(t, p2 + 1, Symbol::BlockClose))
                }
            } else {
                (Ok(FinishModel::Lambertian), skip_opt(t, p2, Symbol::BlockClose))
            }
        } else {
            (Ok(FinishModel::Lambertian), p + 1)
        }
    } else {
        (Ok(FinishModel::Lambertian), p)
    }
}

/// `texture` `{` pigment? finish `}`?, from `p`.
pub open spec fn g_texture(t: Seq<(Seq<char>, u32)>, d: Seq<(Seq<char>, bool)>, p: int) -> (
    Result<Option<TextureModel>, ()>,
    int,
) {
    if sym_at(t, p) != Symbol::Texture {
        (Ok(None), p)
    } else if sym_at(t, p + 1) != Symbol::BlockOpen {
        (Ok(None), p + 1)
    } else {
        let (pg, q) = g_pigment(t, d, p + 2);
        match pg {
            Err(_) => (Err(()), q),
            Ok(pg) => {
                let (f, q2) = g_finish(t, q);
                match f {
                    Err(_) => (Err(()), q2),
                    Ok(f) => (
                        Ok(Some(TextureModel { pigment: pg, finish: f })),
                        skip_opt(t, q2, Symbol::BlockClose),
                    ),
                }
            },
        }
    }
}

/// `checker` color `,` color, as `g_checker` reads it.
pub fn parse_checker(input: &mut Input, decls: &Vec<(String, bool)>) -> (r: Result<Option<(VectorExpr, VectorExpr)>, SyntaxError>)
    requires
        old(input).wf(),
        old(input).spec_pos() >= 1,
    ensures
        advanced(*old(input), *final(input)),
        old(input).spec_symbol() != Symbol::Checker ==> (r matches Ok(None)) && *final(input) == *old(input),
        ({
            let g = g_checker(old(input).toks(), decl_views(decls@), old(input).spec_pos());
            &&& final(input).spec_pos() == g.1
            &&& r is Err <==> g.0 is Err
            &&& r matches Ok(None) ==> g.0 == Ok::<Option<(V3, V3)>, ()>(None)
            &&& r matches Ok(Some(c)) ==> g.0 == Ok::<_, ()>(Some((vector_model(c.0), vector_model(c.1))))
            &&& r matches Err(e) ==> e.line == line_at(old(input).toks(), g.1)
        }),
{
    proof {
        input.lemma_symbol();
    }
    if input.expect_quiet(Symbol::Checker) {
        match parse_color(input, decls) {
            Err(e) => {
                return Err(e);
            },
            Ok(None) => {},
            Ok(Some(c1)) => {
                proof {
                    input.lemma_symbol();
                }
                input.expect(Symbol::Comma);
                proof {
                    input.lemma_symbol();
                }
                match parse_color(input, decls) {
                    Err(e) => {
                        return Err(e);
                    },
                    Ok(None) => {},
                    Ok(Some(c2)) => {
                        return Ok(Some((c1, c2)));
                    },
                }
            },
        }
    }
    Ok(None)
}

/// `pigment` `{` (color `rgb`? | checker) `}`, as `g_pigment` reads it.
#[verifier::rlimit(40)]
pub fn parse_pigment(input: &mut Input, decls: &Vec<(String, bool)>) -> (r: Result<Option<Pigment>, SyntaxError>)
    requires
        old(input).wf(),
        old(input).spec_pos() >= 1,
    ensures
        advanced(*old(input), *final(input)),
        old(input).spec_symbol() != Symbol::Pigment ==> (r matches Ok(None)) && *final(input) == *old(input),
        ({
            let g = g_pigment(old(input).toks(), decl_views(decls@), old(input).spec_pos());
            &&& final(input).spec_pos() == g.1
            &&& r is Err <==> g.0 is Err
            &&& r matches Ok(x) ==> g.0 == Ok::<_, ()>(opt_pigment_model(x))
            &&& r matches Err(e) ==> e.line == line_at(old(input).toks(), g.1)
        }),
{
    proof {
        input.lemma_symbol();
    }
    if input.expect(Symbol::Pigment) {
        proof {
            input.lemma_symbol();
        }
        if input.expect(Symbol::BlockOpen) {
            proof {
                input.lemma_symbol();
            }
            match parse_color(input, decls) {
                Err(e) => {
                    return Err(e);
                },
                Ok(Some(c)) => {
                    proof {
                        input.lemma_symbol();
                    }
                    input.expect_quiet(Symbol::Rgb);
                    proof {
                        input.lemma_symbol();
                    }
                    input.expect(Symbol::BlockClose);
                    return Ok(Some(Pigment::Color(c)));
                },
                Ok(None) => {
                    proof {
                        input.lemma_symbol();
                    }
                    match parse_checker(input, decls) {
                        Err(e) => {
                            return Err(e);
                        },
                        Ok(Some((c1, c2))) => {
                            proof {
                                input.lemma_symbol();
                            }
                            input.expect(Symbol::BlockClose);
                            return Ok(Some(Pigment::Checker(c1, c2)));
                        },
                        Ok(None) => {},
                    }
                },
            }
        }
    }
    Ok(None)
}

/// `finish` `{` (`reflection` | `phong` | `phong_size` number)* `}`, or
/// `surface` `{` (`metallic` (`diffuse` number)?)? `}`; Lambertian otherwise;
/// as `g_finish` reads it.
#[verifier::rlimit(40)]
pub fn parse_finish(input: &mut Input) -> (r: Result<Finish, SyntaxError>)
    requires
        old(input).wf(),
        old(input).spec_pos() >= 1,
    ensures
        advanced(*old(input), *final(input)),
        old(input).spec_symbol() != Symbol::Finish && old(input).spec_symbol() != Symbol::Surface
            ==> (r matches Ok(Finish::Lambertian)) && *final(input) == *old(input),
        ({
            let g = g_finish(old(input).toks(), old(input).spec_pos());
            &&& final(input).spec_pos() == g.1
            &&& r is Err <==> g.0 is Err
            &&& r matches Ok(f) ==> g.0 == Ok::<_, ()>(finish_model(f))
            &&& r matches Err(e) ==> e.line == line_at(old(input).toks(), g.1)
        }),
{
    proof {
        input.lemma_symbol();
    }
    let ghost t = input.toks();
    if input.expect(Symbol::Finish) {
        proof {
            input.lemma_symbol();
        }
        if input.expect(Symbol::BlockOpen) {
            let mut reflection: Option<String> = None;
            let mut phong: Option<String> = None;
            let mut phong_size: Option<String> = None;
            loop
                invariant_except_break
                    g_finish(t, old(input).spec_pos()) == g_finish_items(
                        t,
                        input.spec_pos(),
                        text_model(reflection),
                        text_model(phong),
                        text_model(phong_size),
                    ),
                invariant
                    advanced(*old(input), *input),
                    input.spec_pos() >= 1,
                    t == input.toks(),
                    t == old(input).toks(),
                    old(input).spec_symbol() == Symbol::Finish,
                    sym_at(t, old(input).spec_pos() + 1) == Symbol::BlockOpen,
                ensures
                    advanced(*old(input), *input),
                    input.spec_pos() >= 1,
                    t == input.toks(),
                    g_finish(t, old(input).spec_pos()).0 == Ok::<_, ()>(
                        FinishModel::Phong(text_model(reflection), text_model(phong), text_model(phong_size)),
                    ),
                    g_finish(t, old(input).spec_pos()).1 == skip_opt(t, input.spec_pos(), Symbol::BlockClose),
                decreases input.toks().len() - input.spec_pos(),
            {
                proof {
                    input.lemma_symbol();
                }
                let ghost p = input.spec_pos();
                let s = input.symbol();
                if s == Symbol::Reflection || s == Symbol::Phong || s == Symbol::PhongSize {
                    input.nextsym();
                    proof {
                        input.lemma_symbol();
                    }
                    match parse_float(input) {
                        Some(v) => {
                            if s == Symbol::Reflection {
                                reflection = Some(v);
                            } else if s == Symbol::Phong {
                                phong = Some(v);
                            } else {
                                phong_size = Some(v);
                            }
                        },
                        None => {
                            return Err(error_here(input));
                        },
                    }
                } else {
                    break ;
                }
            }
            proof {
                input.lemma_symbol();
            }
            input.expect(Symbol::BlockClose);
            return Ok(Finish::Phong { reflection, phong, phong_size });
        }
    } else if input.expect(Symbol::Surface) {
        proof {
            input.lemma_symbol();
        }
        if input.expect(Symbol::BlockOpen) {
            proof {
                input.lemma_symbol();
            }
            let finish = if input.expect_quiet(Symbol::Metallic) {
                proof {
                    input.lemma_symbol();
                }
                if input.expect_quiet(Symbol::Diffuse) {
                    proof {
                        input.lemma_symbol();
                    }
                    match parse_float(input) {
                        Some(v) => Finish::DiffuseMetal(v),
                        None => {
                            return Err(error_here(input));
                        },
                    }
                } else {
                    Finish::Metal
                }
            } else {
                Finish::Lambertian
            };
            proof {
                input.lemma_symbol();
            }
            input.expect(Symbol::BlockClose);
            return Ok(finish);
        }
    }
    Ok(Finish::Lambertian)
}

/// `texture` `{` pigment? finish `}`, as `g_texture` reads it.
pub fn parse_texture(input: &mut Input, decls: &Vec<(String, bool)>) -> (r: Result<Option<Texture>, SyntaxError>)
    requires
        old(input).wf(),
        old(input).spec_pos() >= 1,
    ensures
        advanced(*old(input), *final(input)),
        old(input).spec_symbol() != Symbol::Texture ==> (r matches Ok(None)) && *final(input) == *old(input),
        (r matches Ok(Some(_))) ==> final(input).spec_pos() > old(input).spec_pos(),
        old(input).spec_symbol() == Symbol::Texture && sym_at(old(input).toks(), old(input).spec_pos() + 1) == Symbol::BlockOpen ==> !(r matches Ok(None)),
        ({
            let g = g_texture(old(input).toks(), decl_views(decls@), old(input).spec_pos());
            &&& final(input).spec_pos() == g.1
            &&& r is Err <==> g.0 is Err
            &&& r matches Ok(None) ==> g.0 == Ok::<Option<TextureModel>, ()>(None)
            &&& r matches Ok(Some(x)) ==> g.0 == Ok::<_, ()>(Some(texture_model(x)))
            &&& r matches Err(e) ==> e.line == line_at(old(input).toks(), g.1)
        }),
{
    proof {
        input.lemma_symbol();
    }
    if input.expect_quiet(Symbol::Texture) {
        proof {
            input.lemma_symbol();
        }
        if input.expect(Symbol::BlockOpen) {
            proof {
                input.lemma_symbol();
            }
            let pigment = match parse_pigment(input, decls) {
                Err(e) => {
                    return Err(e);
                },
                Ok(p) => p,
            };
            proof {
                input.lemma_symbol();
            }
            let finish = match parse_finish(input) {
                Err(e) => {
                    return Err(e);
                },
                Ok(f) => f,
            };
            proof {
                input.lemma_symbol();
            }
            input.expect(Symbol::BlockClose);
            return Ok(Some(Texture { pigment, finish }));
        }
    }
    Ok(None)
}

/// `translate` vector.
pub fn parse_translate(input: &mut Input, decls: &Vec<(String, bool)>) -> (r: Result<Option<VectorExpr>, SyntaxError>)
    requires
        old(input).wf(),
    ensures
        advanced(*old(input), *final(input)),
        old(input).spec_symbol() != Symbol::Translate ==> (r matches Ok(None)) && *final(input) == *old(input),
        (r matches Ok(Some(_))) ==> final(input).spec_pos() > old(input).spec_pos(),
        old(input).spec_pos() >= 1 && old(input).spec_symbol() == Symbol::Translate ==> reads_vector(
            r,
            final(input).spec_pos(),
            old(input).toks(),
            g_vector(
                old(input).toks(),
                decl_views(decls@),
                old(input).spec_pos() + 1,
            ),
        ),
{
    proof {
        input.lemma_in_range();
    }
    if input.expect_quiet(Symbol::Translate) {
        return parse_vector(input, decls);
    }
    Ok(None)
}

/// `rotate` vector.
pub fn parse_rotate(input: &mut Input, decls: &Vec<(String, bool)>) -> (r: Result<Option<VectorExpr>, SyntaxError>)
    requires
        old(input).wf(),
    ensures
        advanced(*old(input), *final(input)),
        old(input).spec_symbol() != Symbol::Rotate ==> (r matches Ok(None)) && *final(input) == *old(input),
        (r matches Ok(Some(_))) ==> final(input).spec_pos() > old(input).spec_pos(),
        old(input).spec_pos() >= 1 && old(input).spec_symbol() == Symbol::Rotate ==> reads_vector(
            r,
            final(input).spec_pos(),
            old(input).toks(),
            g_vector(
                old(input).toks(),
                decl_views(decls@),
                old(input).spec_pos() + 1,
            ),
        ),
{
    proof {
        input.lemma_in_range();
    }
    if input.expect_quiet(Symbol::Rotate) {
        return parse_vector(input, decls);
    }
    Ok(None)
}

/// What a modifier denotes, coordinates as expression models.
pub enum ModifierModel {
    Translate((ExprModel, ExprModel, ExprModel)),
    Rotate((ExprModel, ExprModel, ExprModel)),
    Scale((ExprModel, ExprModel, ExprModel)),
    ScaleAll(Seq<char>),
}

pub open spec fn modifier_model(m: Modifier) -> ModifierModel {
    match m {
        Modifier::Translate(v) => ModifierModel::Translate(vector_model(v)),
        Modifier::Rotate(v) => ModifierModel::Rotate(vector_model(v)),
        Modifier::Scale(v) => ModifierModel::Scale(vector_model(v)),
        Modifier::ScaleAll(s) => ModifierModel::ScaleAll(s@),
    }
}

/// The keyword `kw` at `p`, then a vector.
pub open spec fn g_kw_vector(
    t: Seq<(Seq<char>, u32)>,
    d: Seq<(Seq<char>, bool)>,
    p: int,
    kw: Symbol,
) -> (Result<Option<(ExprModel, ExprModel, ExprModel)>, ()>, int) {
    if sym_at(t, p) != kw {
        (Ok(None), p)
    } else {
        g_vector(t, d, p + 1)
    }
}

/// `scale` at `p`, then a vector or a number literal.
pub open spec fn g_scale(t: Seq<(Seq<char>, u32)>, d: Seq<(Seq<char>, bool)>, p: int) -> (
    Result<Option<ModifierModel>, ()>,
    int,
) {
    let (v, q) = g_kw_vector(t, d, p, Symbol::Scale);
    match v {
        Err(_) => (Err(()), q),
        Ok(Some(v)) => (Ok(Some(ModifierModel::Scale(v))), q),
        Ok(None) => if sym_at(t, p) == Symbol::Scale && is_float_text(text_at(t, q)) {
            (Ok(Some(ModifierModel::ScaleAll(text_at(t, q)))), next_pos(t, q))
        } else {
            (Ok(None), q)
        },
    }
}

/// One modifier from `p`: a translation, else a rotation, else a scaling,
/// each tried where the one before stopped.
pub open spec fn g_modifier(t: Seq<(Seq<char>, u32)>, d: Seq<(Seq<char>, bool)>, p: int) -> (
    Result<Option<ModifierModel>, ()>,
    int,
) {
    let (a, p1) = g_kw_vector(t, d, p, Symbol::Translate);
    match a {
        Err(_) => (Err(()), p1),
        Ok(Some(v)) => (Ok(Some(ModifierModel::Translate(v))), p1),
        Ok(None) => {
            let (b, p2) = g_kw_vector(t, d, p1, Symbol::Rotate);
            match b {
                Err(_) => (Err(()), p2),
                Ok(Some(v)) => (Ok(Some(ModifierModel::Rotate(v))), p2),
                Ok(None) => g_scale(t, d, p2),
            }
        },
    }
}

/// Modifiers after `acc`, read from `p` until one does not read.
pub open spec fn g_modifiers(
    t: Seq<(Seq<char>, u32)>,
    d: Seq<(Seq<char>, bool)>,
    p: int,
    acc: Seq<ModifierModel>,
) -> (Result<Seq<ModifierModel>, ()>, int)
    decreases t.len() - p,
{
    let (m, q) = g_modifier(t, d, p);
    match m {
        Err(_) => (Err(()), q),
        Ok(None) => (Ok(acc), q),
        Ok(Some(m)) => if p < q <= t.len() {
            g_modifiers(t, d, q, acc.push(m))
        } else {
            (Err(()), q)
        },
    }
}

pub open spec fn modifier_models(v: Seq<Modifier>) -> Seq<ModifierModel> {
    v.map_values(|m: Modifier| modifier_model(m))
}

/// `scale` (vector | number), as `g_scale` reads it.
pub fn parse_scale(input: &mut Input, decls: &Vec<(String, bool)>) -> (r: Result<Option<Modifier>, SyntaxError>)
    requires
        old(input).wf(),
        old(input).spec_pos() >= 1,
    ensures
        advanced(*old(input), *final(input)),
        old(input).spec_symbol() != Symbol::Scale ==> (r matches Ok(None)) && *final(input) == *old(input),
        (r matches Ok(Some(_))) ==> final(input).spec_pos() > old(input).spec_pos(),
        ({
            let g = g_scale(old(input).toks(), decl_views(decls@), old(input).spec_pos());
            &&& final(input).spec_pos() == g.1
            &&& r is Err <==> g.0 is Err
            &&& r matches Ok(None) ==> g.0 == Ok::<Option<ModifierModel>, ()>(None)
            &&& r matches Ok(Some(m)) ==> g.0 == Ok::<_, ()>(Some(modifier_model(m)))
            &&& r matches Err(e) ==> e.line == line_at(old(input).toks(), g.1)
        }),
{
    proof {
        input.lemma_symbol();
    }
    if input.expect_quiet(Symbol::Scale) {
        match parse_vector(input, decls) {
            Err(e) => {
                return Err(e);
            },
            Ok(Some(v)) => {
                return Ok(Some(Modifier::Scale(v)));
            },
            Ok(None) => {
                if let Some(f) = parse_float(input) {
                    return Ok(Some(Modifier::ScaleAll(f)));
                }
            },
        }
    }
    Ok(None)
}

/// (translate | rotate | scale)*, as `g_modifiers` reads them.
pub fn parse_object_modifiers(input: &mut Input, decls: &Vec<(String, bool)>) -> (r: Result<Vec<Modifier>, SyntaxError>)
    requires
        old(input).wf(),
        old(input).spec_pos() >= 1,
    ensures
        advanced(*old(input), *final(input)),
        old(input).spec_symbol() != Symbol::Translate && old(input).spec_symbol() != Symbol::Rotate
            && old(input).spec_symbol() != Symbol::Scale ==> (r matches Ok(m) && m@.len() == 0)
            && *final(input) == *old(input),
        ({
            let g = g_modifiers(old(input).toks(), decl_views(decls@), old(input).spec_pos(), seq![]);
            &&& final(input).spec_pos() == g.1
            &&& r is Err <==> g.0 is Err
            &&& r matches Ok(m) ==> g.0 == Ok::<_, ()>(modifier_models(m@))
            &&& r matches Err(e) ==> e.line == line_at(old(input).toks(), g.1)
        }),
{
    proof {
        input.lemma_symbol();
    }
    let ghost t = input.toks();
    let ghost d = decl_views(decls@);
    let ghost p0 = input.spec_pos();
    let mut mods: Vec<Modifier> = Vec::new();
    let s = input.symbol();
    if s != Symbol::Translate && s != Symbol::Rotate && s != Symbol::Scale {
        assert(modifier_models(mods@) =~= seq![]);
        return Ok(mods);
    }
    assert(modifier_models(mods@) =~= seq![]);
    loop
        invariant_except_break
            g_modifiers(t, d, p0, seq![]) == g_modifiers(t, d, input.spec_pos(), modifier_models(mods@)),
        invariant
            advanced(*old(input), *input),
            input.spec_pos() >= 1,
            t == input.toks(),
            t == old(input).toks(),
            p0 == old(input).spec_pos(),
            d == decl_views(decls@),
            old(input).spec_symbol() == Symbol::Translate || old(input).spec_symbol()
                == Symbol::Rotate || old(input).spec_symbol() == Symbol::Scale,
        ensures
            advanced(*old(input), *input),
            g_modifiers(t, d, p0, seq![]) == (Ok::<_, ()>(modifier_models(mods@)), input.spec_pos()),
        decreases input.toks().len() - input.spec_pos(),
    {
        proof {
            input.lemma_symbol();
        }
        let ghost p = input.spec_pos();
        let ghost acc = modifier_models(mods@);
        let m = match parse_translate(input, decls) {
            Err(e) => {
                return Err(e);
            },
            Ok(Some(v)) => Some(Modifier::Translate(v)),
            Ok(None) => {
                proof {
                    input.lemma_symbol();
                }
                match parse_rotate(input, decls) {
                    Err(e) => {
                        return Err(e);
                    },
                    Ok(Some(v)) => Some(Modifier::Rotate(v)),
                    Ok(None) => {
                        proof {
                            input.lemma_symbol();
                        }
                        match parse_scale(input, decls) {
                            Err(e) => {
                                return Err(e);
                            },
                            Ok(m) => m,
                        }
                    },
                }
            },
        };
        match m {
            Some(m) => {
                mods.push(m);
                assert(modifier_models(mods@) =~= acc.push(modifier_model(m)));
            },
            None => {
                break ;
            },
        }
    }
    Ok(mods)
}

/// The text at the cursor, read past.
pub fn parse_identifier(input: &mut Input) -> (r: String)
    requires
        old(input).wf(),
    ensures
        advanced(*old(input), *final(input)),
        r@ == text_at(old(input).toks(), old(input).spec_pos()),
        final(input).spec_pos() == next_pos(old(input).toks(), old(input).spec_pos()),
{
    proof {
        input.lemma_in_range();
    }
    let ident = input.current_text().clone();
    input.nextsym();
    ident
}

pub enum CameraItemModel {
    Location(V3),
    LookAt(V3),
    Angle(ExprModel),
}

pub open spec fn camera_item_model(c: CameraItem) -> CameraItemModel {
    match c {
        CameraItem::Location(v) => CameraItemModel::Location(vector_model(v)),
        CameraItem::LookAt(v) => CameraItemModel::LookAt(vector_model(v)),
        CameraItem::Angle(e) => CameraItemModel::Angle(expr_model(e)),
    }
}

pub open spec fn camera_item_models(v: Seq<CameraItem>) -> Seq<CameraItemModel> {
    v.map_values(|c: CameraItem| camera_item_model(c))
}

/// What a statement denotes, texts as character sequences.
pub enum StatementModel {
    Camera(Seq<CameraItemModel>),
    Light(V3, V3),
    Sphere(V3, ExprModel, Option<TextureModel>, Seq<ModifierModel>),
    Box(V3, V3, Option<TextureModel>, Seq<ModifierModel>),
    Quadric(V3, V3, V3, ExprModel, Option<TextureModel>, Seq<ModifierModel>),
    Object(Seq<char>, Seq<ModifierModel>),
    While(int, ExprModel, ExprModel),
    End,
    DeclareNumber(Seq<char>, ExprModel),
    DeclareVector(Seq<char>, V3),
    DeclareStatement(Seq<char>, Option<Box<StatementModel>>),
    Difference(Box<StatementModel>, Box<StatementModel>, Option<TextureModel>, Seq<ModifierModel>),
    Intersection(Box<StatementModel>, Box<StatementModel>, Option<TextureModel>, Seq<ModifierModel>),
}

pub open spec fn opt_texture_model(x: Option<Texture>) -> Option<TextureModel> {
    match x {
        Some(x) => Some(texture_model(x)),
        None => None,
    }
}

pub open spec fn statement_model(st: Statement) -> StatementModel
    decreases st,
{
    match st {
        Statement::Camera(items) => StatementModel::Camera(camera_item_models(items@)),
        Statement::Light(l, c) => StatementModel::Light(vector_model(l), vector_model(c)),
        Statement::Sphere(c, r, x, m) => StatementModel::Sphere(
            vector_model(c),
            expr_model(r),
            opt_texture_model(x),
            modifier_models(m@),
        ),
        Statement::Box(a, b, x, m) => StatementModel::Box(
            vector_model(a),
            vector_model(b),
            opt_texture_model(x),
            modifier_models(m@),
        ),
        Statement::Quadric(a, b, c, j, x, m) => StatementModel::Quadric(
            vector_model(a),
            vector_model(b),
            vector_model(c),
            expr_model(j),
            opt_texture_model(x),
            modifier_models(m@),
        ),
        Statement::Object(name, m) => StatementModel::Object(name@, modifier_models(m@)),
        Statement::While(start, l, r) => StatementModel::While(start as int, expr_model(l), expr_model(r)),
        Statement::End => StatementModel::End,
        Statement::DeclareNumber(n, e) => StatementModel::DeclareNumber(n@, expr_model(e)),
        Statement::DeclareVector(n, v) => StatementModel::DeclareVector(n@, vector_model(v)),
        Statement::DeclareStatement(n, v) => StatementModel::DeclareStatement(
            n@,
            match v {
                Some(b) => Some(Box::new(statement_model(*b))),
                None => None,
            },
        ),
        Statement::Difference(a, b, x, m) => StatementModel::Difference(
            Box::new(statement_model(*a)),
            Box::new(statement_model(*b)),
            opt_texture_model(x),
            modifier_models(m@),
        ),
        Statement::Intersection(a, b, x, m) => StatementModel::Intersection(
            Box::new(statement_model(*a)),
            Box::new(statement_model(*b)),
            opt_texture_model(x),
            modifier_models(m@),
        ),
    }
}

/// `r`, with the cursor left at `end`, is what `g` describes.
pub open spec fn reads_statement(
    r: Result<Option<Statement>, SyntaxError>,
    end: int,
    t: Seq<(Seq<char>, u32)>,
    g: (Result<Option<StatementModel>, ()>, int),
) -> bool {
    &&& end == g.1
    &&& r is Err <==> g.0 is Err
    &&& r matches Ok(None) ==> g.0 == Ok::<Option<StatementModel>, ()>(None)
    &&& r matches Ok(Some(st)) ==> g.0 == Ok::<_, ()>(Some(statement_model(st)))
    &&& r matches Err(e) ==> e.line == line_at(t, g.1)
}

/// Camera items after `acc`, from `p`, up to the closing `}`; `Ok(None)`
/// where something else stands.
pub open spec fn g_camera_items(
    t: Seq<(Seq<char>, u32)>,
    d: Seq<(Seq<char>, bool)>,
    p: int,
    acc: Seq<CameraItemModel>,
) -> (Result<Option<StatementModel>, ()>, int)
    decreases t.len() - p,
{
    let s = sym_at(t, p);
    if s == Symbol::BlockClose {
        (Ok(Some(StatementModel::Camera(acc))), next_pos(t, p))
    } else if (s == Symbol::Location || s == Symbol::LookAt) && 0 <= p < t.len() {
        let (v, q) = g_vector(t, d, p + 1);
        match v {
            Ok(Some(v)) => if p < q <= t.len() {
                g_camera_items(
                    t,
                    d,
                    q,
                    acc.push(
                        if s == Symbol::Location {
                            CameraItemModel::Location(v)
                        } else {
                            CameraItemModel::LookAt(v)
                        },
                    ),
                )
            } else {
                (Err(()), q)
            },
            _ => (Err(()), q),
        }
    } else if s == Symbol::Angle && 0 <= p < t.len() {
        let (e, q) = g_expr(t, d, p + 1);
        match e {
            Some(e) => if p < q <= t.len() {
                g_camera_items(t, d, q, acc.push(CameraItemModel::Angle(e)))
            } else {
                (Err(()), q)
            },
            None => (Err(()), q),
        }
    } else {
        (Ok(None), p)
    }
}

/// The keyword `kw` and `{` at `p`.
pub open spec fn opens(t: Seq<(Seq<char>, u32)>, p: int, kw: Symbol) -> bool {
    sym_at(t, p) == kw && sym_at(t, p + 1) == Symbol::BlockOpen
}

/// Where `kw` `{` does not stand at `p`: no statement, and the position
/// after what was read of it.
pub open spec fn not_opened(t: Seq<(Seq<char>, u32)>, p: int, kw: Symbol) -> (
    Result<Option<StatementModel>, ()>,
    int,
) {
    (Ok(None), if sym_at(t, p) == kw { p + 1 } else { p })
}

/// `camera` `{` item* `}`, from `p`.
pub open spec fn g_camera(t: Seq<(Seq<char>, u32)>, d: Seq<(Seq<char>, bool)>, p: int) -> (
    Result<Option<StatementModel>, ()>,
    int,
) {
    if !opens(t, p, Symbol::Camera) {
        not_opened(t, p, Symbol::Camera)
    } else {
        g_camera_items(t, d, p + 2, seq![])
    }
}

/// `light` `{` vector `,`? color `}`?, from `p`.
pub open spec fn g_light(t: Seq<(Seq<char>, u32)>, d: Seq<(Seq<char>, bool)>, p: int) -> (
    Result<Option<StatementModel>, ()>,
    int,
) {
    if !opens(t, p, Symbol::Light) {
        not_opened(t, p, Symbol::Light)
    } else {
        let (l, q) = g_vector(t, d, p + 2);
        match l {
            Err(_) => (Err(()), q),
            Ok(None) => (Ok(None), q),
            Ok(Some(l)) => {
                let (c, q2) = g_color(t, d, skip_opt(t, q, Symbol::Comma));
                match c {
                    Err(_) => (Err(()), q2),
                    Ok(None) => (Ok(None), q2),
                    Ok(Some(c)) => (
                        Ok(Some(StatementModel::Light(l, c))),
                        skip_opt(t, q2, Symbol::BlockClose),
                    ),
                }
            },
        }
    }
}

/// A vector that must stand at `p`.
pub open spec fn g_need_vector(t: Seq<(Seq<char>, u32)>, d: Seq<(Seq<char>, bool)>, p: int) -> (
    Option<V3>,
    int,
) {
    let (v, q) = g_vector(t, d, p);
    match v {
        Ok(Some(v)) => (Some(v), q),
        _ => (None, q),
    }
}

/// Texture, modifiers and `}` closing a shape whose data is `data`, from `p`.
pub open spec fn g_shape_tail(
    t: Seq<(Seq<char>, u32)>,
    d: Seq<(Seq<char>, bool)>,
    p: int,
    data: spec_fn(Option<TextureModel>, Seq<ModifierModel>) -> StatementModel,
) -> (Result<Option<StatementModel>, ()>, int) {
    let (x, q) = g_texture(t, d, p);
    match x {
        Err(_) => (Err(()), q),
        Ok(x) => {
            let (m, q2) = g_modifiers(t, d, q, seq![]);
            match m {
                Err(_) => (Err(()), q2),
                Ok(m) => (Ok(Some(data(x, m))), skip_opt(t, q2, Symbol::BlockClose)),
            }
        },
    }
}

/// `sphere` `{` vector `,`? expression texture? modifiers `}`?, from `p`.
pub open spec fn g_sphere(t: Seq<(Seq<char>, u32)>, d: Seq<(Seq<char>, bool)>, p: int) -> (
    Result<Option<StatementModel>, ()>,
    int,
) {
    if !opens(t, p, Symbol::Sphere) {
        not_opened(t, p, Symbol::Sphere)
    } else {
        let (c, q) = g_need_vector(t, d, p + 2);
        match c {
            None => (Err(()), q),
            Some(c) => {
                let (r, q2) = g_expr(t, d, skip_opt(t, q, Symbol::Comma));
                match r {
                    None => (Err(()), q2),
                    Some(r) => g_shape_tail(
                        t,
                        d,
                        q2,
                        |x: Option<TextureModel>, m: Seq<ModifierModel>|
                            StatementModel::Sphere(c, r, x, m),
                    ),
                }
            },
        }
    }
}

/// `box` `{` vector `,`? vector texture? modifiers `}`?, from `p`.
pub open spec fn g_box(t: Seq<(Seq<char>, u32)>, d: Seq<(Seq<char>, bool)>, p: int) -> (
    Result<Option<StatementModel>, ()>,
    int,
) {
    if !opens(t, p, Symbol::Box) {
        not_opened(t, p, Symbol::Box)
    } else {
        let (a, q) = g_need_vector(t, d, p + 2);
        match a {
            None => (Err(()), q),
            Some(a) => {
                let (b, q2) = g_need_vector(t, d, skip_opt(t, q, Symbol::Comma));
                match b {
                    None => (Err(()), q2),
                    Some(b) => g_shape_tail(
                        t,
                        d,
                        q2,
                        |x: Option<TextureModel>, m: Seq<ModifierModel>|
                            StatementModel::Box(a, b, x, m),
                    ),
                }
            },
        }
    }
}

/// `quadric` `{` vector `,`? vector `,`? vector `,`? expression texture?
/// modifiers `}`?, from `p`.
pub open spec fn g_quadric(t: Seq<(Seq<char>, u32)>, d: Seq<(Seq<char>, bool)>, p: int) -> (
    Result<Option<StatementModel>, ()>,
    int,
) {
    if !opens(t, p, Symbol::Quadric) {
        not_opened(t, p, Symbol::Quadric)
    } else {
        let (a, q) = g_need_vector(t, d, p + 2);
        match a {
            None => (Err(()), q),
            Some(a) => {
                let (b, q2) = g_need_vector(t, d, skip_opt(t, q, Symbol::Comma));
                match b {
                    None => (Err(()), q2),
                    Some(b) => {
                        let (c, q3) = g_need_vector(t, d, skip_opt(t, q2, Symbol::Comma));
                        match c {
                            None => (Err(()), q3),
                            Some(c) => {
                                let (j, q4) = g_expr(t, d, skip_opt(t, q3, Symbol::Comma));
                                match j {
                                    None => (Err(()), q4),
                                    Some(j) => g_shape_tail(
                                        t,
                                        d,
                                        q4,
                                        |x: Option<TextureModel>, m: Seq<ModifierModel>|
                                            StatementModel::Quadric(a, b, c, j, x, m),
                                    ),
                                }
                            },
                        }
                    },
                }
            },
        }
    }
}

/// `object` `{` name modifiers `}`?, from `p`.
pub open spec fn g_object(t: Seq<(Seq<char>, u32)>, d: Seq<(Seq<char>, bool)>, p: int) -> (
    Result<Option<StatementModel>, ()>,
    int,
) {
    if !opens(t, p, Symbol::Object) {
        not_opened(t, p, Symbol::Object)
    } else {
        let name = text_at(t, p + 2);
        let (m, q) = g_modifiers(t, d, next_pos(t, p + 2), seq![]);
        match m {
            Err(_) => (Err(()), q),
            Ok(m) => (
                Ok(Some(StatementModel::Object(name, m))),
                skip_opt(t, q, Symbol::BlockClose),
            ),
        }
    }
}

/// `#while` `(` expression, one token skipped, `<`?, expression, one token
/// skipped, from `p`; the statement records `p`.
pub open spec fn g_while(t: Seq<(Seq<char>, u32)>, d: Seq<(Seq<char>, bool)>, p: int) -> (
    Result<Option<StatementModel>, ()>,
    int,
) {
    if !(sym_at(t, p) == Symbol::While && sym_at(t, p + 1) == Symbol::ParenOpen) {
        not_opened(t, p, Symbol::While)
    } else {
        let (l, q) = g_expr(t, d, p + 2);
        match l {
            None => (Ok(None), q),
            Some(l) => {
                let (r, q2) = g_expr(t, d, skip_opt(t, next_pos(t, q), Symbol::VectorOpen));
                match r {
                    None => (Ok(None), q2),
                    Some(r) => (Ok(Some(StatementModel::While(p, l, r))), next_pos(t, q2)),
                }
            },
        }
    }
}

/// `location` vector, `look_at` vector or `angle` expression; `false` when
/// none of these stands at the cursor.
pub fn parse_camera_item(input: &mut Input, decls: &Vec<(String, bool)>, items: &mut Vec<CameraItem>) -> (r: Result<bool, SyntaxError>)
    requires
        old(input).wf(),
        old(input).spec_pos() >= 1,
    ensures
        advanced(*old(input), *final(input)),
        (r matches Ok(true)) ==> final(input).spec_pos() > old(input).spec_pos(),
        ({
            let t = old(input).toks();
            let p = old(input).spec_pos();
            let s = sym_at(t, p);
            let d = decl_views(decls@);
            let rest = g_camera_items(t, d, final(input).spec_pos(), camera_item_models(final(items)@));
            &&& (s != Symbol::Location && s != Symbol::LookAt && s != Symbol::Angle) <==> (r matches Ok(false))
            &&& r matches Ok(false) ==> *final(input) == *old(input) && final(items)@ == old(items)@
            &&& r matches Ok(true) ==> g_camera_items(t, d, p, camera_item_models(old(items)@)) == rest
            &&& r is Err ==> g_camera_items(t, d, p, camera_item_models(old(items)@)) == (
                Err::<Option<StatementModel>, ()>(()),
                final(input).spec_pos(),
            )
            &&& r matches Err(e) ==> e.line == line_at(t, final(input).spec_pos())
        }),
{
    proof {
        input.lemma_symbol();
    }
    let ghost t = input.toks();
    let ghost d = decl_views(decls@);
    let ghost p = input.spec_pos();
    let ghost acc = camera_item_models(items@);
    if input.accept(Symbol::Location) {
        proof {
            input.lemma_symbol();
        }
        match parse_vector(input, decls)? {
            Some(v) => {
                items.push(CameraItem::Location(v));
                assert(camera_item_models(items@) =~= acc.push(CameraItemModel::Location(vector_model(v))));
                return Ok(true);
            },
            None => {
                return Err(error_here(input));
            },
        }
    } else if input.accept(Symbol::LookAt) {
        proof {
            input.lemma_symbol();
        }
        match parse_vector(input, decls)? {
            Some(v) => {
                items.push(CameraItem::LookAt(v));
                assert(camera_item_models(items@) =~= acc.push(CameraItemModel::LookAt(vector_model(v))));
                return Ok(true);
            },
            None => {
                return Err(error_here(input));
            },
        }
    } else if input.accept(Symbol::Angle) {
        proof {
            input.lemma_symbol();
        }
        match parse_expression(input, decls) {
            Some(e) => {
                items.push(CameraItem::Angle(e));
                assert(camera_item_models(items@) =~= acc.push(CameraItemModel::Angle(expr_model(e))));
                return Ok(true);
            },
            None => {
                return Err(error_here(input));
            },
        }
    }
    Ok(false)
}

/// `camera` `{` camera item* `}`, as `g_camera` reads it.
#[verifier::rlimit(40)]
pub fn parse_camera(input: &mut Input, decls: &Vec<(String, bool)>) -> (r: Result<Option<Statement>, SyntaxError>)
    requires
        old(input).wf(),
        old(input).spec_pos() >= 1,
    ensures
        r matches Ok(Some(st)) ==> st is Camera,
        advanced(*old(input), *final(input)),
        old(input).spec_symbol() != Symbol::Camera ==> (r matches Ok(None)) && *final(input) == *old(input),
        (r matches Ok(Some(_))) ==> final(input).spec_pos() > old(input).spec_pos(),
        reads_statement(
            r,
            final(input).spec_pos(),
            old(input).toks(),
            g_camera(old(input).toks(), decl_views(decls@), old(input).spec_pos()),
        ),
{
    proof {
        input.lemma_symbol();
    }
    let ghost t = input.toks();
    let ghost d = decl_views(decls@);
    if input.expect_quiet(Symbol::Camera) {
        proof {
            input.lemma_symbol();
        }
        if input.expect(Symbol::BlockOpen) {
            let mut items: Vec<CameraItem> = Vec::new();
            assert(camera_item_models(items@) =~= seq![]);
            while input.symbol() != Symbol::BlockClose
                invariant
                    advanced(*old(input), *input),
                    input.spec_pos() > old(input).spec_pos(),
                    input.spec_pos() >= 1,
                    old(input).spec_symbol() == Symbol::Camera,
                    t == input.toks(),
                    t == old(input).toks(),
                    d == decl_views(decls@),
                    g_camera(t, d, old(input).spec_pos()) == g_camera_items(
                        t,
                        d,
                        input.spec_pos(),
                        camera_item_models(items@),
                    ),
                decreases input.toks().len() - input.spec_pos(),
            {
                proof {
                    input.lemma_symbol();
                }
                match parse_camera_item(input, decls, &mut items) {
                    Err(e) => {
                        return Err(e);
                    },
                    Ok(true) => {},
                    Ok(false) => {
                        return Ok(None);
                    },
                }
            }
            proof {
                input.lemma_symbol();
            }
            input.nextsym();
            return Ok(Some(Statement::Camera(items)));
        }
    }
    Ok(None)
}

/// `light` `{` vector `,` color `}`, as `g_light` reads it.
pub fn parse_light(input: &mut Input, decls: &Vec<(String, bool)>) -> (r: Result<Option<Statement>, SyntaxError>)
    requires
        old(input).wf(),
        old(input).spec_pos() >= 1,
    ensures
        r matches Ok(Some(st)) ==> st is Light,
        advanced(*old(input), *final(input)),
        old(input).spec_symbol() != Symbol::Light ==> (r matches Ok(None)) && *final(input) == *old(input),
        (r matches Ok(Some(_))) ==> final(input).spec_pos() > old(input).spec_pos(),
        reads_statement(
            r,
            final(input).spec_pos(),
            old(input).toks(),
            g_light(old(input).toks(), decl_views(decls@), old(input).spec_pos()),
        ),
{
    proof {
        input.lemma_symbol();
    }
    if input.expect_quiet(Symbol::Light) {
        proof {
            input.lemma_symbol();
        }
        if input.expect(Symbol::BlockOpen) {
            proof {
                input.lemma_symbol();
            }
            if let Some(location) = parse_vector(input, decls)? {
                proof {
                    input.lemma_symbol();
                }
                input.expect(Symbol::Comma);
                proof {
                    input.lemma_symbol();
                }
                if let Some(color) = parse_color(input, decls)? {
                    proof {
                        input.lemma_symbol();
                    }
                    input.expect(Symbol::BlockClose);
                    return Ok(Some(Statement::Light(location, color)));
                }
            }
        }
    }
    Ok(None)
}

/// `sphere` `{` vector `,` expression texture? modifiers `}`, as `g_sphere`
/// reads it.
#[verifier::rlimit(40)]
pub fn parse_sphere(input: &mut Input, decls: &Vec<(String, bool)>) -> (r: Result<Option<Statement>, SyntaxError>)
    requires
        old(input).wf(),
        old(input).spec_pos() >= 1,
    ensures
        r matches Ok(Some(st)) ==> st is Sphere,
        advanced(*old(input), *final(input)),
        old(input).spec_symbol() != Symbol::Sphere ==> (r matches Ok(None)) && *final(input) == *old(input),
        (r matches Ok(Some(_))) ==> final(input).spec_pos() > old(input).spec_pos(),
        old(input).spec_symbol() == Symbol::Sphere && sym_at(old(input).toks(), old(input).spec_pos() + 1) == Symbol::BlockOpen ==> !(r matches Ok(None)),
        reads_statement(
            r,
            final(input).spec_pos(),
            old(input).toks(),
            g_sphere(old(input).toks(), decl_views(decls@), old(input).spec_pos()),
        ),
{
    proof {
        input.lemma_symbol();
    }
    if input.expect_quiet(Symbol::Sphere) {
        proof {
            input.lemma_symbol();
        }
        if input.expect(Symbol::BlockOpen) {
            proof {
                input.lemma_symbol();
            }
            let center = match parse_vector(input, decls) {
                Err(e) => {
                    return Err(e);
                },
                Ok(Some(v)) => v,
                Ok(None) => {
                    return Err(error_here(input));
                },
            };
            proof {
                input.lemma_symbol();
            }
            input.expect(Symbol::Comma);
            proof {
                input.lemma_symbol();
            }
            let radius = match parse_expression(input, decls) {
                Some(e) => e,
                None => {
                    return Err(error_here(input));
                },
            };
            proof {
                input.lemma_symbol();
            }
            let texture = match parse_texture(input, decls) {
                Err(e) => {
                    return Err(e);
                },
                Ok(x) => x,
            };
            proof {
                input.lemma_symbol();
            }
            let modifiers = match parse_object_modifiers(input, decls) {
                Err(e) => {
                    return Err(e);
                },
                Ok(m) => m,
            };
            proof {
                input.lemma_symbol();
            }
            input.expect(Symbol::BlockClose);
            return Ok(Some(Statement::Sphere(center, radius, texture, modifiers)));
        }
    }
    Ok(None)
}

/// `box` `{` vector `,` vector texture? modifiers `}`, as `g_box` reads it.
#[verifier::rlimit(40)]
pub fn parse_box(input: &mut Input, decls: &Vec<(String, bool)>) -> (r: Result<Option<Statement>, SyntaxError>)
    requires
        old(input).wf(),
        old(input).spec_pos() >= 1,
    ensures
        r matches Ok(Some(st)) ==> st is Box,
        advanced(*old(input), *final(input)),
        old(input).spec_symbol() != Symbol::Box ==> (r matches Ok(None)) && *final(input) == *old(input),
        (r matches Ok(Some(_))) ==> final(input).spec_pos() > old(input).spec_pos(),
        old(input).spec_symbol() == Symbol::Box && sym_at(old(input).toks(), old(input).spec_pos() + 1) == Symbol::BlockOpen ==> !(r matches Ok(None)),
        reads_statement(
            r,
            final(input).spec_pos(),
            old(input).toks(),
            g_box(old(input).toks(), decl_views(decls@), old(input).spec_pos()),
        ),
{
    proof {
        input.lemma_symbol();
    }
    if input.expect_quiet(Symbol::Box) {
        proof {
            input.lemma_symbol();
        }
        if input.expect(Symbol::BlockOpen) {
            proof {
                input.lemma_symbol();
            }
            let c1 = match parse_vector(input, decls) {
                Err(e) => {
                    return Err(e);
                },
                Ok(Some(v)) => v,
                Ok(None) => {
                    return Err(error_here(input));
                },
            };
            proof {
                input.lemma_symbol();
            }
            input.expect(Symbol::Comma);
            proof {
                input.lemma_symbol();
            }
            let c2 = match parse_vector(input, decls) {
                Err(e) => {
                    return Err(e);
                },
                Ok(Some(v)) => v,
                Ok(None) => {
                    return Err(error_here(input));
                },
            };
            proof {
                input.lemma_symbol();
            }
            let texture = match parse_texture(input, decls) {
                Err(e) => {
                    return Err(e);
                },
                Ok(x) => x,
            };
            proof {
                input.lemma_symbol();
            }
            let modifiers = match parse_object_modifiers(input, decls) {
                Err(e) => {
                    return Err(e);
                },
                Ok(m) => m,
            };
            proof {
                input.lemma_symbol();
            }
            input.expect(Symbol::BlockClose);
            return Ok(Some(Statement::Box(c1, c2, texture, modifiers)));
        }
    }
    Ok(None)
}

/// `quadric` `{` vector `,` vector `,` vector `,` expression texture?
/// modifiers `}`, as `g_quadric` reads it.
#[verifier::rlimit(60)]
pub fn parse_quadric(input: &mut Input, decls: &Vec<(String, bool)>) -> (r: Result<Option<Statement>, SyntaxError>)
    requires
        old(input).wf(),
        old(input).spec_pos() >= 1,
    ensures
        r matches Ok(Some(st)) ==> st is Quadric,
        advanced(*old(input), *final(input)),
        old(input).spec_symbol() != Symbol::Quadric ==> (r matches Ok(None)) && *final(input) == *old(input),
        (r matches Ok(Some(_))) ==> final(input).spec_pos() > old(input).spec_pos(),
        old(input).spec_symbol() == Symbol::Quadric && sym_at(old(input).toks(), old(input).spec_pos() + 1) == Symbol::BlockOpen ==> !(r matches Ok(None)),
        reads_statement(
            r,
            final(input).spec_pos(),
            old(input).toks(),
            g_quadric(old(input).toks(), decl_views(decls@), old(input).spec_pos()),
        ),
{
    proof {
        input.lemma_symbol();
    }
    if input.expect_quiet(Symbol::Quadric) {
        proof {
            input.lemma_symbol();
        }
        if input.expect(Symbol::BlockOpen) {
            proof {
                input.lemma_symbol();
            }
            let v1 = match parse_vector(input, decls) {
                Err(e) => {
                    return Err(e);
                },
                Ok(Some(v)) => v,
                Ok(None) => {
                    return Err(error_here(input));
                },
            };
            proof {
                input.lemma_symbol();
            }
            input.expect(Symbol::Comma);
            proof {
                input.lemma_symbol();
            }
            let v2 = match parse_vector(input, decls) {
                Err(e) => {
                    return Err(e);
                },
                Ok(Some(v)) => v,
                Ok(None) => {
                    return Err(error_here(input));
                },
            };
            proof {
                input.lemma_symbol();
            }
            input.expect(Symbol::Comma);
            proof {
                input.lemma_symbol();
            }
            let v3 = match parse_vector(input, decls) {
                Err(e) => {
                    return Err(e);
                },
                Ok(Some(v)) => v,
                Ok(None) => {
                    return Err(error_here(input));
                },
            };
            proof {
                input.lemma_symbol();
            }
            input.expect(Symbol::Comma);
            proof {
                input.lemma_symbol();
            }
            let j = match parse_expression(input, decls) {
                Some(e) => e,
                None => {
                    return Err(error_here(input));
                },
            };
            proof {
                input.lemma_symbol();
            }
            let texture = match parse_texture(input, decls) {
                Err(e) => {
                    return Err(e);
                },
                Ok(x) => x,
            };
            proof {
                input.lemma_symbol();
            }
            let modifiers = match parse_object_modifiers(input, decls) {
                Err(e) => {
                    return Err(e);
                },
                Ok(m) => m,
            };
            proof {
                input.lemma_symbol();
            }
            input.expect(Symbol::BlockClose);
            return Ok(Some(Statement::Quadric(v1, v2, v3, j, texture, modifiers)));
        }
    }
    Ok(None)
}

/// `object` `{` name modifiers `}`, as `g_object` reads it.
pub fn parse_object(input: &mut Input, decls: &Vec<(String, bool)>) -> (r: Result<Option<Statement>, SyntaxError>)
    requires
        old(input).wf(),
        old(input).spec_pos() >= 1,
    ensures
        r matches Ok(Some(st)) ==> st is Object,
        advanced(*old(input), *final(input)),
        old(input).spec_symbol() != Symbol::Object ==> (r matches Ok(None)) && *final(input) == *old(input),
        (r matches Ok(Some(_))) ==> final(input).spec_pos() > old(input).spec_pos(),
        old(input).spec_symbol() == Symbol::Object && sym_at(old(input).toks(), old(input).spec_pos() + 1) == Symbol::BlockOpen ==> !(r matches Ok(None)),
        reads_statement(
            r,
            final(input).spec_pos(),
            old(input).toks(),
            g_object(old(input).toks(), decl_views(decls@), old(input).spec_pos()),
        ),
{
    proof {
        input.lemma_symbol();
    }
    if input.expect_quiet(Symbol::Object) {
        proof {
            input.lemma_symbol();
        }
        if input.expect(Symbol::BlockOpen) {
            proof {
                input.lemma_symbol();
            }
            let name = parse_identifier(input);
            proof {
                input.lemma_symbol();
            }
            let modifiers = match parse_object_modifiers(input, decls) {
                Err(e) => {
                    return Err(e);
                },
                Ok(m) => m,
            };
            proof {
                input.lemma_symbol();
            }
            input.expect(Symbol::BlockClose);
            return Ok(Some(Statement::Object(name, modifiers)));
        }
    }
    Ok(None)
}

/// Whether a statement describes a shape.
pub open spec fn is_shape(s: Statement) -> bool {
    match s {
        Statement::Sphere(..) | Statement::Box(..) | Statement::Quadric(..) | Statement::Object(
            ..,
        ) | Statement::Difference(..) | Statement::Intersection(..) => true,
        _ => false,
    }
}

/// Whether a statement model describes a shape.
pub open spec fn is_shape_model(s: StatementModel) -> bool {
    match s {
        StatementModel::Sphere(..) | StatementModel::Box(..) | StatementModel::Quadric(..)
        | StatementModel::Object(..) | StatementModel::Difference(..)
        | StatementModel::Intersection(..) => true,
        _ => false,
    }
}

pub fn shape(s: &Statement) -> (r: bool)
    ensures
        r == is_shape(*s),
        r == is_shape_model(statement_model(*s)),
{
    match s {
        Statement::Sphere(..) | Statement::Box(..) | Statement::Quadric(..) | Statement::Object(
            ..,
        ) | Statement::Difference(..) | Statement::Intersection(..) => true,
        _ => false,
    }
}

/// Declarations as the grammar sees them.
pub type Decls = Seq<(Seq<char>, bool)>;

/// A statement read, the position reached and the declarations after it.
pub type StatementRead = (Result<Option<StatementModel>, ()>, int, Decls);

/// The two operands of a `difference` or `intersection` and what follows them.
pub type OperandsRead = (
    Result<Option<(StatementModel, StatementModel, Option<TextureModel>, Seq<ModifierModel>)>, ()>,
    int,
    Decls,
);

/// `r`, with the cursor left at `end` and declarations `dv`, is what `g`
/// describes.
pub open spec fn reads_statement_with(
    r: Result<Option<Statement>, SyntaxError>,
    end: int,
    dv: Decls,
    t: Seq<(Seq<char>, u32)>,
    g: StatementRead,
) -> bool {
    reads_statement(r, end, t, (g.0, g.1)) && dv == g.2
}

/// `#end` at `p`.
pub open spec fn g_end(t: Seq<(Seq<char>, u32)>, p: int) -> (
    Result<Option<StatementModel>, ()>,
    int,
) {
    if sym_at(t, p) == Symbol::End {
        (Ok(Some(StatementModel::End)), next_pos(t, p))
    } else {
        (Ok(None), p)
    }
}

/// The statements that hold no other statement, tried in turn from `p`:
/// camera, light, sphere, box, quadric, object. Each starts where the one
/// before stopped.
#[verifier::opaque]
pub open spec fn g_simple(t: Seq<(Seq<char>, u32)>, d: Decls, p: int) -> (
    Result<Option<StatementModel>, ()>,
    int,
) {
    let a = g_camera(t, d, p);
    if !(a.0 matches Ok(None)) {
        a
    } else {
        let b = g_light(t, d, a.1);
        if !(b.0 matches Ok(None)) {
            b
        } else {
            let c = g_sphere(t, d, b.1);
            if !(c.0 matches Ok(None)) {
                c
            } else {
                let e = g_box(t, d, c.1);
                if !(e.0 matches Ok(None)) {
                    e
                } else {
                    let f = g_quadric(t, d, e.1);
                    if !(f.0 matches Ok(None)) {
                        f
                    } else {
                        g_object(t, d, f.1)
                    }
                }
            }
        }
    }
}

/// One statement from `p`: the simple statements, then `difference`,
/// `intersection`, `#declare`, `#while` and `#end`, each tried where the one
/// before stopped.
pub open spec fn g_statement(t: Seq<(Seq<char>, u32)>, d: Decls, p: int) -> StatementRead
    decreases t.len() - p, 4int,
{
    let a = g_simple(t, d, p);
    if !(a.0 matches Ok(None)) {
        (a.0, a.1, d)
    } else if !(p <= a.1 <= t.len()) {
        (Err(()), a.1, d)
    } else {
        let b = g_difference(t, d, a.1);
        if !(b.0 matches Ok(None)) {
            b
        } else if !(p <= b.1 <= t.len()) {
            (Err(()), b.1, b.2)
        } else {
            let c = g_intersection(t, b.2, b.1);
            if !(c.0 matches Ok(None)) {
                c
            } else if !(p <= c.1 <= t.len()) {
                (Err(()), c.1, c.2)
            } else {
                let e = g_declare(t, c.2, c.1);
                if !(e.0 matches Ok(None)) {
                    e
                } else {
                    let w = g_while(t, e.2, e.1);
                    if !(w.0 matches Ok(None)) {
                        (w.0, w.1, e.2)
                    } else {
                        let z = g_end(t, w.1);
                        (z.0, z.1, e.2)
                    }
                }
            }
        }
    }
}

/// Two shape statements from `p`, then texture? modifiers `}`?.
pub open spec fn g_operands(t: Seq<(Seq<char>, u32)>, d: Decls, p: int) -> OperandsRead
    decreases t.len() - p, 5int,
{
    let first = g_statement(t, d, p);
    let q = first.1;
    let d1 = first.2;
    if first.0 is Err {
        (Err(()), q, d1)
    } else if first.0->Ok_0 is None {
        (Ok(None), q, d1)
    } else {
        let s1 = first.0->Ok_0->Some_0;
        if !is_shape_model(s1) {
            (Ok(None), q, d1)
        } else if !(p < q <= t.len()) {
            (Err(()), q, d1)
        } else {
            let second = g_statement(t, d1, q);
            let q2 = second.1;
            let d2 = second.2;
            if second.0 is Err {
                (Err(()), q2, d2)
            } else if second.0->Ok_0 is None {
                (Ok(None), q2, d2)
            } else {
                let s2 = second.0->Ok_0->Some_0;
                if !is_shape_model(s2) {
                    (Ok(None), q2, d2)
                } else {
                    let (x, q3) = g_texture(t, d2, q2);
                    match x {
                        Err(_) => (Err(()), q3, d2),
                        Ok(x) => {
                            let (m, q4) = g_modifiers(t, d2, q3, seq![]);
                            match m {
                                Err(_) => (Err(()), q4, d2),
                                Ok(m) => (
                                    Ok(Some((s1, s2, x, m))),
                                    skip_opt(t, q4, Symbol::BlockClose),
                                    d2,
                                ),
                            }
                        },
                    }
                }
            }
        }
    }
}

/// `difference` `{` shape shape texture? modifiers `}`?, from `p`.
pub open spec fn g_difference(t: Seq<(Seq<char>, u32)>, d: Decls, p: int) -> StatementRead
    decreases t.len() - p, 3int,
{
    if !opens(t, p, Symbol::Difference) {
        let n = not_opened(t, p, Symbol::Difference);
        (n.0, n.1, d)
    } else {
        let (o, q, d1) = g_operands(t, d, p + 2);
        match o {
            Err(_) => (Err(()), q, d1),
            Ok(None) => (Ok(None), q, d1),
            Ok(Some((a, b, x, m))) => (
                Ok(Some(StatementModel::Difference(Box::new(a), Box::new(b), x, m))),
                q,
                d1,
            ),
        }
    }
}

/// `intersection` `{` shape shape texture? modifiers `}`?, from `p`.
pub open spec fn g_intersection(t: Seq<(Seq<char>, u32)>, d: Decls, p: int) -> StatementRead
    decreases t.len() - p, 3int,
{
    if !opens(t, p, Symbol::Intersection) {
        let n = not_opened(t, p, Symbol::Intersection);
        (n.0, n.1, d)
    } else {
        let (o, q, d1) = g_operands(t, d, p + 2);
        match o {
            Err(_) => (Err(()), q, d1),
            Ok(None) => (Ok(None), q, d1),
            Ok(Some((a, b, x, m))) => (
                Ok(Some(StatementModel::Intersection(Box::new(a), Box::new(b), x, m))),
                q,
                d1,
            ),
        }
    }
}

/// `#declare` name `=` value, from `p`. The value is an expression (one
/// token after it skipped, then `;`?), a vector (then `;`?) or a statement;
/// the name is recorded, as a number for an expression.
pub open spec fn g_declare(t: Seq<(Seq<char>, u32)>, d: Decls, p: int) -> StatementRead
    decreases t.len() - p, 2int,
{
    if sym_at(t, p) != Symbol::Declare {
        (Ok(None), p, d)
    } else {
        let name = text_at(t, p + 1);
        let q = next_pos(t, p + 1);
        if sym_at(t, q) != Symbol::Equal {
            (Ok(None), q, d)
        } else {
            let (e, q2) = g_expr(t, d, q + 1);
            match e {
                Some(e) => (
                    Ok(Some(StatementModel::DeclareNumber(name, e))),
                    skip_opt(t, next_pos(t, q2), Symbol::Semicolon),
                    d.push((name, true)),
                ),
                None => {
                    let (v, q3) = g_vector(t, d, q2);
                    match v {
                        Err(_) => (Err(()), q3, d),
                        Ok(Some(v)) => (
                            Ok(Some(StatementModel::DeclareVector(name, v))),
                            skip_opt(t, q3, Symbol::Semicolon),
                            d.push((name, false)),
                        ),
                        Ok(None) => if !(p < q3 <= t.len()) {
                            (Err(()), q3, d)
                        } else {
                            let (st, q4, d1) = g_statement(t, d, q3);
                            match st {
                                Err(_) => (Err(()), q4, d1),
                                Ok(st) => (
                                    Ok(
                                        Some(
                                            StatementModel::DeclareStatement(
                                                name,
                                                match st {
                                                    Some(s) => Some(Box::new(s)),
                                                    None => None,
                                                },
                                            ),
                                        ),
                                    ),
                                    q4,
                                    d1.push((name, false)),
                                ),
                            }
                        },
                    }
                },
            }
        }
    }
}

pub open spec fn operands_model(
    o: Option<(Statement, Statement, Option<Texture>, Vec<Modifier>)>,
) -> Option<(StatementModel, StatementModel, Option<TextureModel>, Seq<ModifierModel>)> {
    match o {
        Some((a, b, x, m)) => Some(
            (statement_model(a), statement_model(b), opt_texture_model(x), modifier_models(m@)),
        ),
        None => None,
    }
}

/// The two operands of `difference` or `intersection`: two shapes, then
/// texture? modifiers `}`; as `g_operands` reads them.
#[verifier::rlimit(100)]
fn parse_operands(input: &mut Input, decls: &mut Vec<(String, bool)>) -> (r: Result<
    Option<(Statement, Statement, Option<Texture>, Vec<Modifier>)>,
    SyntaxError,
>)
    requires
        old(input).wf(),
        old(input).spec_pos() >= 1,
    ensures
        advanced(*old(input), *final(input)),
        ({
            let g = g_operands(old(input).toks(), decl_views(old(decls)@), old(input).spec_pos());
            &&& final(input).spec_pos() == g.1
            &&& decl_views(final(decls)@) == g.2
            &&& r is Err <==> g.0 is Err
            &&& r matches Ok(o) ==> g.0 == Ok::<_, ()>(operands_model(o))
            &&& r matches Err(e) ==> e.line == line_at(old(input).toks(), g.1)
        }),
    decreases old(input).toks().len() - old(input).spec_pos(), 5int,
{
    proof {
        input.lemma_symbol();
    }
    let ghost t = input.toks();
    let ghost p = input.spec_pos();
    let ghost d0 = decl_views(decls@);
    let ghost g = g_operands(t, d0, p);
    let ghost g1 = g_statement(t, d0, p);
    let first = match parse_statement(input, decls) {
        Err(e) => {
            assert(g1.0 is Err);
            assert(g.0 is Err);
            assert(g.1 == g1.1);
            return Err(e);
        },
        Ok(None) => {
            assert(g1.0 == Ok::<Option<StatementModel>, ()>(None));
            assert(g.0 == Ok::<
                Option<(StatementModel, StatementModel, Option<TextureModel>, Seq<ModifierModel>)>,
                (),
            >(None));
            return Ok(None);
        },
        Ok(Some(s)) => s,
    };
    let ghost s1 = statement_model(first);
    assert(g1.0 == Ok::<_, ()>(Some(s1)));
    if !shape(&first) {
        assert(g.0 == Ok::<
            Option<(StatementModel, StatementModel, Option<TextureModel>, Seq<ModifierModel>)>,
            (),
        >(None));
        return Ok(None);
    }
    proof {
        input.lemma_symbol();
    }
    let ghost q = input.spec_pos();
    let ghost d1 = decl_views(decls@);
    assert(p < q <= t.len());
    let ghost g2 = g_statement(t, d1, q);
    let second = match parse_statement(input, decls) {
        Err(e) => {
            assert(g.0 is Err && g.1 == g2.1 && g.2 == g2.2);
            return Err(e);
        },
        Ok(None) => {
            assert(g.0 == Ok::<
                Option<(StatementModel, StatementModel, Option<TextureModel>, Seq<ModifierModel>)>,
                (),
            >(None) && g.1 == g2.1 && g.2 == g2.2);
            return Ok(None);
        },
        Ok(Some(s)) => s,
    };
    let ghost s2 = statement_model(second);
    assert(g2.0 == Ok::<_, ()>(Some(s2)));
    if !shape(&second) {
        assert(g.0 == Ok::<
            Option<(StatementModel, StatementModel, Option<TextureModel>, Seq<ModifierModel>)>,
            (),
        >(None) && g.1 == g2.1 && g.2 == g2.2);
        return Ok(None);
    }
    proof {
        input.lemma_symbol();
    }
    let ghost q2 = input.spec_pos();
    let ghost d2 = decl_views(decls@);
    let ghost gx = g_texture(t, d2, q2);
    let texture = match parse_texture(input, decls) {
        Err(e) => {
            assert(g.0 is Err && g.1 == gx.1 && g.2 == d2);
            return Err(e);
        },
        Ok(x) => x,
    };
    proof {
        input.lemma_symbol();
    }
    let ghost q3 = input.spec_pos();
    let ghost gm = g_modifiers(t, d2, q3, seq![]);
    let modifiers = match parse_object_modifiers(input, decls) {
        Err(e) => {
            assert(g.0 is Err && g.1 == gm.1 && g.2 == d2);
            return Err(e);
        },
        Ok(m) => m,
    };
    proof {
        input.lemma_symbol();
    }
    let ghost q4 = input.spec_pos();
    input.expect(Symbol::BlockClose);
    assert(g.0 == Ok::<_, ()>(
        Some((s1, s2, opt_texture_model(texture), modifier_models(modifiers@))),
    ));
    assert(g.1 == skip_opt(t, q4, Symbol::BlockClose) && g.2 == d2);
    Ok(Some((first, second, texture, modifiers)))
}

/// `difference` `{` shape shape texture? modifiers `}`: the first shape
/// without the second; as `g_difference` reads it.
#[verifier::rlimit(100)]
pub fn parse_difference(input: &mut Input, decls: &mut Vec<(String, bool)>) -> (r: Result<
    Option<Statement>,
    SyntaxError,
>)
    requires
        old(input).wf(),
        old(input).spec_pos() >= 1,
    ensures
        r matches Ok(Some(st)) ==> st is Difference,
        advanced(*old(input), *final(input)),
        old(input).spec_symbol() != Symbol::Difference ==> (r matches Ok(None)) && *final(input)
            == *old(input) && *final(decls) == *old(decls),
        (r matches Ok(Some(_))) ==> final(input).spec_pos() > old(input).spec_pos(),
        r matches Ok(Some(Statement::Difference(a, b, _, _))) ==> is_shape(*a) && is_shape(*b),
        reads_statement_with(
            r,
            final(input).spec_pos(),
            decl_views(final(decls)@),
            old(input).toks(),
            g_difference(old(input).toks(), decl_views(old(decls)@), old(input).spec_pos()),
        ),
    decreases old(input).toks().len() - old(input).spec_pos(), 3int,
{
    proof {
        input.lemma_symbol();
    }
    if input.expect_quiet(Symbol::Difference) {
        proof {
            input.lemma_symbol();
        }
        if input.expect(Symbol::BlockOpen) {
            proof {
                input.lemma_symbol();
            }
            let ghost t = input.toks();
            let ghost q = input.spec_pos();
            let ghost o = g_operands(t, decl_views(decls@), q);
            proof {
                assert(q == old(input).spec_pos() + 2);
                assert(opens(t, old(input).spec_pos(), Symbol::Difference));
                assert(g_difference(t, decl_views(old(decls)@), old(input).spec_pos()) == match o.0 {
                    Err(_) => (Err(()), o.1, o.2),
                    Ok(None) => (Ok(None), o.1, o.2),
                    Ok(Some((a, b, x, m))) => (
                        Ok(Some(StatementModel::Difference(Box::new(a), Box::new(b), x, m))),
                        o.1,
                        o.2,
                    ),
                });
            }
            match parse_operands(input, decls) {
                Err(e) => {
                    return Err(e);
                },
                Ok(Some((plus, minus, texture, modifiers))) => {
                    return Ok(
                        Some(
                            Statement::Difference(
                                Box::new(plus),
                                Box::new(minus),
                                texture,
                                modifiers,
                            ),
                        ),
                    );
                },
                Ok(None) => {},
            }
        }
    }
    Ok(None)
}

/// `intersection` `{` shape shape texture? modifiers `}`: what lies in
/// both; as `g_intersection` reads it.
#[verifier::rlimit(100)]
pub fn parse_intersection(input: &mut Input, decls: &mut Vec<(String, bool)>) -> (r: Result<
    Option<Statement>,
    SyntaxError,
>)
    requires
        old(input).wf(),
        old(input).spec_pos() >= 1,
    ensures
        r matches Ok(Some(st)) ==> st is Intersection,
        advanced(*old(input), *final(input)),
        old(input).spec_symbol() != Symbol::Intersection
            ==> (r matches Ok(None)) && *final(input) == *old(input) && *final(decls) == *old(decls),
        (r matches Ok(Some(_))) ==> final(input).spec_pos() > old(input).spec_pos(),
        r matches Ok(Some(Statement::Intersection(a, b, _, _))) ==> is_shape(*a) && is_shape(*b),
        reads_statement_with(
            r,
            final(input).spec_pos(),
            decl_views(final(decls)@),
            old(input).toks(),
            g_intersection(old(input).toks(), decl_views(old(decls)@), old(input).spec_pos()),
        ),
    decreases old(input).toks().len() - old(input).spec_pos(), 3int,
{
    proof {
        input.lemma_symbol();
    }
    if input.expect_quiet(Symbol::Intersection) {
        proof {
            input.lemma_symbol();
        }
        if input.expect(Symbol::BlockOpen) {
            proof {
                input.lemma_symbol();
            }
            let ghost t = input.toks();
            let ghost q = input.spec_pos();
            let ghost o = g_operands(t, decl_views(decls@), q);
            proof {
                assert(q == old(input).spec_pos() + 2);
                assert(opens(t, old(input).spec_pos(), Symbol::Intersection));
                assert(g_intersection(t, decl_views(old(decls)@), old(input).spec_pos()) == match o.0 {
                    Err(_) => (Err(()), o.1, o.2),
                    Ok(None) => (Ok(None), o.1, o.2),
                    Ok(Some((a, b, x, m))) => (
                        Ok(Some(StatementModel::Intersection(Box::new(a), Box::new(b), x, m))),
                        o.1,
                        o.2,
                    ),
                });
            }
            match parse_operands(input, decls) {
                Err(e) => {
                    return Err(e);
                },
                Ok(Some((a, b, texture, modifiers))) => {
                    return Ok(
                        Some(Statement::Intersection(Box::new(a), Box::new(b), texture, modifiers)),
                    );
                },
                Ok(None) => {},
            }
        }
    }
    Ok(None)
}

/// `#declare` name `=` (expression | vector `;` | statement). An expression
/// is followed by one token that is skipped and an optional `;`. The name
/// is recorded in `decls`, as a number when the value is an expression; as
/// `g_declare` reads it.
pub fn parse_declare(input: &mut Input, decls: &mut Vec<(String, bool)>) -> (r: Result<
    Option<Statement>,
    SyntaxError,
>)
    requires
        old(input).wf(),
        old(input).spec_pos() >= 1,
    ensures
        r matches Ok(Some(st)) ==> st is DeclareNumber || st is DeclareVector || st is DeclareStatement,
        advanced(*old(input), *final(input)),
        old(input).spec_symbol() != Symbol::Declare ==> (r matches Ok(None)) && *final(input)
            == *old(input) && *final(decls) == *old(decls),
        (r matches Ok(Some(_))) ==> final(input).spec_pos() > old(input).spec_pos(),
        old(input).spec_symbol() == Symbol::Declare && sym_at(old(input).toks(), old(input).spec_pos() + 2) == Symbol::Equal ==> !(r matches Ok(None)),
        reads_statement_with(
            r,
            final(input).spec_pos(),
            decl_views(final(decls)@),
            old(input).toks(),
            g_declare(old(input).toks(), decl_views(old(decls)@), old(input).spec_pos()),
        ),
    decreases old(input).toks().len() - old(input).spec_pos(), 2int,
{
    proof {
        input.lemma_symbol();
    }
    if input.expect_quiet(Symbol::Declare) {
        proof {
            input.lemma_symbol();
        }
        let ident = parse_identifier(input);
        proof {
            input.lemma_symbol();
        }
        if input.expect(Symbol::Equal) {
            proof {
                input.lemma_symbol();
            }
            if let Some(e) = parse_expression(input, decls) {
                input.nextsym();
                proof {
                    input.lemma_symbol();
                }
                input.expect(Symbol::Semicolon);
                decls.push((ident.clone(), true));
                proof {
                    assert(decl_views(decls@) =~= decl_views(old(decls)@).push((ident@, true)));
                }
                return Ok(Some(Statement::DeclareNumber(ident, e)));
            }
            proof {
                input.lemma_symbol();
            }
            match parse_vector(input, decls) {
                Err(e) => {
                    return Err(e);
                },
                Ok(Some(v)) => {
                    proof {
                        input.lemma_symbol();
                    }
                    input.expect(Symbol::Semicolon);
                    decls.push((ident.clone(), false));
                    proof {
                        assert(decl_views(decls@) =~= decl_views(old(decls)@).push((ident@, false)));
                    }
                    return Ok(Some(Statement::DeclareVector(ident, v)));
                },
                Ok(None) => {},
            }
            let ghost before = decl_views(decls@);
            let value = match parse_statement(input, decls) {
                Err(e) => {
                    return Err(e);
                },
                Ok(v) => v,
            };
            let ghost between = decl_views(decls@);
            decls.push((ident.clone(), false));
            proof {
                assert(decl_views(decls@) =~= between.push((ident@, false)));
            }
            let boxed = match value {
                Some(st) => Some(Box::new(st)),
                None => None,
            };
            return Ok(Some(Statement::DeclareStatement(ident, boxed)));
        }
    }
    Ok(None)
}

/// `#while` `(` expression `<` expression `)`: the comparison and the
/// position of `#while`. The token after each expression is skipped.
pub fn parse_while(input: &mut Input, decls: &Vec<(String, bool)>) -> (r: Result<
    Option<Statement>,
    SyntaxError,
>)
    requires
        old(input).wf(),
        old(input).spec_pos() >= 1,
    ensures
        advanced(*old(input), *final(input)),
        old(input).spec_symbol() != Symbol::While ==> (r matches Ok(None)) && *final(input)
            == *old(input),
        (r matches Ok(Some(_))) ==> final(input).spec_pos() > old(input).spec_pos(),
        r matches Ok(Some(Statement::While(start, _, _))) ==> start == old(input).spec_pos() && 1
            <= start < old(input).toks().len(),
        r is Ok,
        reads_statement(
            r,
            final(input).spec_pos(),
            old(input).toks(),
            g_while(old(input).toks(), decl_views(decls@), old(input).spec_pos()),
        ),
{
    proof {
        input.lemma_symbol();
    }
    let start = input.pos();
    if input.expect_quiet(Symbol::While) {
        proof {
            input.lemma_symbol();
        }
        if input.expect(Symbol::ParenOpen) {
            proof {
                input.lemma_symbol();
            }
            if let Some(left) = parse_expression(input, decls) {
                input.nextsym();
                proof {
                    input.lemma_symbol();
                }
                input.expect(Symbol::VectorOpen);
                proof {
                    input.lemma_symbol();
                }
                if let Some(right) = parse_expression(input, decls) {
                    input.nextsym();
                    return Ok(Some(Statement::While(start, left, right)));
                }
            }
        }
    }
    Ok(None)
}

/// `#end`.
pub fn parse_end(input: &mut Input) -> (r: Result<Option<Statement>, SyntaxError>)
    requires
        old(input).wf(),
        old(input).spec_pos() >= 1,
    ensures
        advanced(*old(input), *final(input)),
        old(input).spec_symbol() != Symbol::End ==> (r matches Ok(None)) && *final(input)
            == *old(input),
        old(input).spec_symbol() == Symbol::End ==> (r matches Ok(Some(Statement::End)))
            && final(input).spec_pos() == old(input).spec_pos() + 1,
        reads_statement(
            r,
            final(input).spec_pos(),
            old(input).toks(),
            g_end(old(input).toks(), old(input).spec_pos()),
        ),
{
    proof {
        input.lemma_symbol();
    }
    if input.expect_quiet(Symbol::End) {
        return Ok(Some(Statement::End));
    }
    Ok(None)
}

/// The symbols that start a statement.
pub open spec fn is_statement_start(s: Symbol) -> bool {
    ||| s == Symbol::Camera
    ||| s == Symbol::Light
    ||| s == Symbol::Sphere
    ||| s == Symbol::Box
    ||| s == Symbol::Quadric
    ||| s == Symbol::Object
    ||| s == Symbol::Difference
    ||| s == Symbol::Intersection
    ||| s == Symbol::Declare
    ||| s == Symbol::While
    ||| s == Symbol::End
}

/// A camera, light, sphere, box, quadric or object statement, the first
/// that reads; as `g_simple` reads it.
fn parse_simple_statement(input: &mut Input, decls: &Vec<(String, bool)>) -> (r: Result<
    Option<Statement>,
    SyntaxError,
>)
    requires
        old(input).wf(),
        old(input).spec_pos() >= 1,
    ensures
        advanced(*old(input), *final(input)),
        reads_statement(
            r,
            final(input).spec_pos(),
            old(input).toks(),
            g_simple(old(input).toks(), decl_views(decls@), old(input).spec_pos()),
        ),
        (r matches Ok(Some(_))) ==> final(input).spec_pos() > old(input).spec_pos(),
        r matches Ok(Some(st)) ==> st is Camera || st is Light || st is Sphere || st is Box
            || st is Quadric || st is Object,
        old(input).spec_symbol() != Symbol::Camera && old(input).spec_symbol() != Symbol::Light
            && old(input).spec_symbol() != Symbol::Sphere && old(input).spec_symbol() != Symbol::Box
            && old(input).spec_symbol() != Symbol::Quadric && old(input).spec_symbol() != Symbol::Object
            ==> (r matches Ok(None)) && *final(input) == *old(input),
{
    proof {
        reveal(g_simple);
        input.lemma_symbol();
    }
    match parse_camera(input, decls) {
        Ok(None) => {},
        other => {
            return other;
        },
    }
    proof {
        input.lemma_symbol();
    }
    match parse_light(input, decls) {
        Ok(None) => {},
        other => {
            return other;
        },
    }
    proof {
        input.lemma_symbol();
    }
    match parse_sphere(input, decls) {
        Ok(None) => {},
        other => {
            return other;
        },
    }
    proof {
        input.lemma_symbol();
    }
    match parse_box(input, decls) {
        Ok(None) => {},
        other => {
            return other;
        },
    }
    proof {
        input.lemma_symbol();
    }
    match parse_quadric(input, decls) {
        Ok(None) => {},
        other => {
            return other;
        },
    }
    proof {
        input.lemma_symbol();
    }
    parse_object(input, decls)
}

/// One statement: the first of camera, light, sphere, box, quadric, object,
/// difference, intersection, `#declare`, `#while` and `#end` that reads,
/// each tried where the one before stopped; as `g_statement` reads it.
/// `Ok(None)` when none does.
#[verifier::rlimit(100)]
pub fn parse_statement(input: &mut Input, decls: &mut Vec<(String, bool)>) -> (r: Result<
    Option<Statement>,
    SyntaxError,
>)
    requires
        old(input).wf(),
        old(input).spec_pos() >= 1,
    ensures
        advanced(*old(input), *final(input)),
        reads_statement_with(
            r,
            final(input).spec_pos(),
            decl_views(final(decls)@),
            old(input).toks(),
            g_statement(old(input).toks(), decl_views(old(decls)@), old(input).spec_pos()),
        ),
        (r matches Ok(Some(_))) ==> final(input).spec_pos() > old(input).spec_pos(),
        r matches Ok(Some(Statement::While(start, _, _))) ==> 1 <= start < old(input).toks().len(),
        !is_statement_start(old(input).spec_symbol()) ==> (r matches Ok(None)) && *final(input)
            == *old(input) && *final(decls) == *old(decls),
        old(input).spec_symbol() == Symbol::End ==> (r matches Ok(Some(Statement::End))),
    decreases old(input).toks().len() - old(input).spec_pos(), 4int,
{
    proof {
        input.lemma_symbol();
    }
    let ghost t = input.toks();
    let ghost p = input.spec_pos();
    let ghost d0 = decl_views(decls@);
    match parse_simple_statement(input, decls) {
        Ok(None) => {},
        other => {
            return other;
        },
    }
    proof {
        input.lemma_symbol();
    }
    match parse_difference(input, decls) {
        Ok(None) => {},
        other => {
            return other;
        },
    }
    proof {
        input.lemma_symbol();
    }
    match parse_intersection(input, decls) {
        Ok(None) => {},
        other => {
            return other;
        },
    }
    proof {
        input.lemma_symbol();
    }
    match parse_declare(input, decls) {
        Ok(None) => {},
        other => {
            return other;
        },
    }
    proof {
        input.lemma_symbol();
    }
    match parse_while(input, decls) {
        Ok(None) => {},
        other => {
            return other;
        },
    }
    proof {
        input.lemma_symbol();
    }
    parse_end(input)
}

} // verus!
