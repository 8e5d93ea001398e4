use vstd::prelude::*;

use crate::ast::ExprV;
use crate::ast::StmtV;
use crate::ast::spec_contains_var;
use crate::compiler::CState;
use crate::compiler::assoc_get;
use crate::compiler::cstate0;
use crate::compiler::expr_ok;
use crate::compiler::expr_wf;
use crate::compiler::spec_compile;
use crate::compiler::spec_compile_expr;
use crate::compiler::spec_compile_stmts;
use crate::compiler::spec_serialize;
use crate::compiler::stmts_wf;
use crate::compiler::stmts_wf_from;
use crate::compiler::u64le_bytes;
use crate::errors::CompileErrorV;
use crate::errors::LexErrorV;
use crate::errors::ParseErrorV;
use crate::lexer::lex_from;
use crate::tokens::LocV;
use crate::tokens::TokenTypeV;
use crate::tokens::TokenV;
use crate::value::Value;
use crate::vm::lemma_first_ff_props;
use crate::vm::spec_consts_part;
use crate::vm::spec_first_ff;
use crate::vm::spec_load;
use crate::vm::spec_parse_consts;
use crate::vm::spec_u64le;

verus! {

// ---------------------------------------------------------------------------
// The lexer is pure: scanning the same source twice yields the same
// token sequence.
// ---------------------------------------------------------------------------

/// Lexing is a function of the source text and the scanner's start state
/// alone: two scans of the same source from fresh lexers yield identical
/// outcomes. Each `Lexer::lex` call's contract equates its result with
/// `lex_from`, so any two runs over one source agree.
pub proof fn lemma_lex_idempotent(
    src: Seq<char>,
    file: Seq<char>,
    r1: Result<Seq<TokenV>, LexErrorV>,
    r2: Result<Seq<TokenV>, LexErrorV>,
)
    requires
        r1 == lex_from(src, file, 0, 0, 0, false),
        r2 == lex_from(src, file, 0, 0, 0, false),
    ensures
        r1 == r2,
{
}

// ---------------------------------------------------------------------------
// The parser rejects a reference to an undeclared name at the reference.
// ---------------------------------------------------------------------------

/// An identifier standing in primary position that names no declared
/// variable fails the parse with `UnknownVariable`, carrying the
/// location of the reference itself.
pub proof fn lemma_unknown_variable_rejected(
    toks: Seq<TokenV>,
    vars: Seq<Seq<char>>,
    cur: int,
    name: Seq<char>,
)
    requires
        0 <= cur < toks.len(),
        toks[cur].ttype == TokenTypeV::Ident(name),
        !spec_contains_var(vars, name),
    ensures
        crate::ast::spec_primary(toks, vars, cur) == Err::<(ExprV, int), ParseErrorV>(
            ParseErrorV::UnknownVariable(toks[cur].loc),
        ),
{
}

// ---------------------------------------------------------------------------
// The compiler rejects the use of a declared but uninitialized variable.
// ---------------------------------------------------------------------------

/// A variable whose latest table entry says "declared, never assigned"
/// compiles to `UninitializedVar` at the referencing location.
pub proof fn lemma_uninitialized_use_rejected(name: Seq<char>, loc: LocV, st: CState)
    requires
        assoc_get(st.init, name) == Some(false),
    ensures
        spec_compile_expr(ExprV::Variable(name, loc), st) == Err::<
            (Seq<u8>, Seq<Value>),
            CompileErrorV,
        >(CompileErrorV::UninitializedVar(loc)),
{
}

// ---------------------------------------------------------------------------
// Round trip: the constant pool of a compiled program, loaded back,
// is exactly the literals met in source order.
// ---------------------------------------------------------------------------

/// The literals of an expression, in evaluation (source) order.
pub open spec fn literals_of_expr(e: ExprV) -> Seq<Value>
    decreases e,
{
    match e {
        ExprV::Literal(t) => match t.ttype {
            TokenTypeV::NumLit(v) => seq![v],
            _ => Seq::empty(),
        },
        ExprV::Func(_t, e1) => literals_of_expr(*e1),
        ExprV::Grouping(e1) => literals_of_expr(*e1),
        ExprV::Binary(l, _t, r) => literals_of_expr(*l) + literals_of_expr(*r),
        ExprV::Unary(_t, e1) => literals_of_expr(*e1),
        ExprV::Variable(_name, _loc) => Seq::empty(),
    }
}

/// The literals of the statements from `i` on, in source order.
pub open spec fn literals_of(tree: Seq<StmtV>, i: int) -> Seq<Value>
    decreases tree.len() - i,
{
    if i < 0 || i >= tree.len() {
        Seq::empty()
    } else {
        (match tree[i] {
            StmtV::Expr(e) => literals_of_expr(e),
            StmtV::Decl(_name, oe) => match oe {
                Some(e) => literals_of_expr(e),
                None => Seq::empty(),
            },
            StmtV::Reassign(_name, e) => literals_of_expr(e),
        }) + literals_of(tree, i + 1)
    }
}

/// Lowering an expression appends exactly its literals to the pool.
proof fn lemma_expr_consts(e: ExprV, st: CState)
    requires
        expr_ok(e, st.numbers, st.init),
        spec_compile_expr(e, st) is Ok,
    ensures
        spec_compile_expr(e, st)->Ok_0.1 == st.consts + literals_of_expr(e),
    decreases e,
{
    match e {
        ExprV::Literal(t) => {
            assert(st.consts.push(t.ttype->NumLit_0) =~= st.consts + literals_of_expr(e));
        },
        ExprV::Func(_t, e1) => {
            lemma_expr_consts(*e1, st);
        },
        ExprV::Grouping(e1) => {
            lemma_expr_consts(*e1, st);
        },
        ExprV::Binary(l, _t, r) => {
            lemma_expr_consts(*l, st);
            let cs1 = spec_compile_expr(*l, st)->Ok_0.1;
            let st1 = CState { consts: cs1, ..st };
            lemma_expr_consts(*r, st1);
            assert((st.consts + literals_of_expr(*l)) + literals_of_expr(*r) =~= st.consts + (
            literals_of_expr(*l) + literals_of_expr(*r)));
        },
        ExprV::Unary(_t, e1) => {
            lemma_expr_consts(*e1, st);
        },
        ExprV::Variable(_name, _loc) => {
            assert(st.consts =~= st.consts + Seq::<Value>::empty());
        },
    }
}

/// The table-link the compiler maintains: every declared name answers
/// both lookups.
pub open spec fn tables_cover(
    declared: Seq<Seq<char>>,
    numbers: Seq<(Seq<char>, u32)>,
    init: Seq<(Seq<char>, bool)>,
) -> bool {
    forall|nm: Seq<char>|
        spec_contains_var(declared, nm) ==> ((#[trigger] assoc_get(numbers, nm)) is Some
            && assoc_get(init, nm) is Some)
}

/// Lowering the statements from `i` on appends exactly their literals to
/// the pool.
proof fn lemma_stmts_consts(tree: Seq<StmtV>, i: int, st: CState, declared: Seq<Seq<char>>)
    requires
        stmts_wf_from(tree, i, declared),
        tables_cover(declared, st.numbers, st.init),
        spec_compile_stmts(tree, i, st) is Ok,
    ensures
        spec_compile_stmts(tree, i, st)->Ok_0.1.consts == st.consts + literals_of(tree, i),
    decreases tree.len() - i,
{
    broadcast use crate::compiler::lemma_assoc_push;

    if i < 0 || i >= tree.len() {
        assert(st.consts =~= st.consts + Seq::<Value>::empty());
    } else {
        match tree[i] {
            StmtV::Expr(e) => {
                crate::compiler::lemma_wf_expr_ok(e, declared, st.numbers, st.init);
                lemma_expr_consts(e, st);
                let st1 = CState {
                    consts: spec_compile_expr(e, st)->Ok_0.1,
                    ..st
                };
                lemma_stmts_consts(tree, i + 1, st1, declared);
                assert((st.consts + literals_of_expr(e)) + literals_of(tree, i + 1) =~= st.consts
                    + (literals_of_expr(e) + literals_of(tree, i + 1)));
            },
            StmtV::Decl(name, oe) => {
                match oe {
                    Some(e) => {
                        let sti = CState { init: st.init.push((name, true)), ..st };
                        crate::compiler::lemma_wf_expr_ok(e, declared, sti.numbers, sti.init);
                        lemma_expr_consts(e, sti);
                        let st1 = CState {
                            numbers: st.numbers.push((name, st.counter as u32)),
                            init: st.init.push((name, true)),
                            counter: st.counter + 1,
                            consts: spec_compile_expr(e, sti)->Ok_0.1,
                        };
                        lemma_stmts_consts(tree, i + 1, st1, declared.push(name));
                        assert((st.consts + literals_of_expr(e)) + literals_of(tree, i + 1)
                            =~= st.consts + (literals_of_expr(e) + literals_of(tree, i + 1)));
                    },
                    None => {
                        let st1 = CState {
                            numbers: st.numbers.push((name, st.counter as u32)),
                            init: st.init.push((name, false)),
                            counter: st.counter + 1,
                            consts: st.consts,
                        };
                        lemma_stmts_consts(tree, i + 1, st1, declared.push(name));
                        assert(st.consts + (Seq::<Value>::empty() + literals_of(tree, i + 1))
                            =~= st.consts + literals_of(tree, i + 1));
                    },
                }
            },
            StmtV::Reassign(name, e) => {
                let sti = CState { init: st.init.push((name, true)), ..st };
                crate::compiler::lemma_wf_expr_ok(e, declared, sti.numbers, sti.init);
                lemma_expr_consts(e, sti);
                let st1 = CState {
                    init: st.init.push((name, true)),
                    consts: spec_compile_expr(e, sti)->Ok_0.1,
                    ..st
                };
                lemma_stmts_consts(tree, i + 1, st1, declared);
                assert((st.consts + literals_of_expr(e)) + literals_of(tree, i + 1) =~= st.consts
                    + (literals_of_expr(e) + literals_of(tree, i + 1)));
            },
        }
    }
}

/// An eight-byte little-endian write reads back as the same double.
proof fn lemma_u64le_round_trip(x: u64)
    ensures
        spec_u64le(u64le_bytes(x)) == x,
{
    assert(((x & 0xff) as u8 as u64) | ((((x >> 8) & 0xff) as u8 as u64) << 8) | ((((x >> 16)
        & 0xff) as u8 as u64) << 16) | ((((x >> 24) & 0xff) as u8 as u64) << 24) | ((((x >> 32)
        & 0xff) as u8 as u64) << 32) | ((((x >> 40) & 0xff) as u8 as u64) << 40) | ((((x >> 48)
        & 0xff) as u8 as u64) << 48) | ((((x >> 56) & 0xff) as u8 as u64) << 56) == x)
        by (bit_vector);
}

/// Parsing ignores a prefix it is told to skip.
proof fn lemma_parse_consts_offset(p: Seq<u8>, bytes: Seq<u8>, j: nat)
    ensures
        spec_parse_consts(p + bytes, (p.len() + j) as nat) == spec_parse_consts(bytes, j),
    decreases bytes.len() - j,
{
    let whole = p + bytes;
    let at = (p.len() + j) as nat;
    if j >= bytes.len() {
    } else if j + 1 >= bytes.len() {
    } else {
        assert(whole[at as int + 1] == bytes[j as int + 1]);
        let size = bytes[j as int + 1] as nat;
        if j + 2 + size > bytes.len() {
        } else if size != 8 {
        } else {
            assert(whole.subrange(at as int + 2, at as int + 10) =~= bytes.subrange(
                j as int + 2,
                j as int + 10,
            ));
            lemma_parse_consts_offset(p, bytes, j + 10);
        }
    }
}

/// Deserializing a serialized pool yields the pool back, entry for
/// entry.
proof fn lemma_serialize_round_trip(consts: Seq<Value>, i: int)
    requires
        0 <= i <= consts.len(),
    ensures
        spec_parse_consts(spec_serialize(consts, i), 0) == Ok::<Seq<Value>, crate::errors::BytecodeError>(
            consts.skip(i),
        ),
    decreases consts.len() - i,
{
    if i == consts.len() {
        assert(consts.skip(i) =~= Seq::<Value>::empty());
    } else {
        let bytes = spec_serialize(consts, i);
        let record = seq![0x00u8, 0x08u8] + u64le_bytes(consts[i]);
        let rest = spec_serialize(consts, i + 1);
        assert(bytes =~= record + rest);
        assert(bytes[1] == 8);
        assert(bytes.subrange(2, 10) =~= u64le_bytes(consts[i]));
        lemma_u64le_round_trip(consts[i]);
        lemma_parse_consts_offset(record, rest, 0);
        assert(spec_parse_consts(bytes, 10) == spec_parse_consts(rest, 0));
        lemma_serialize_round_trip(consts, i + 1);
        assert(seq![consts[i]] + consts.skip(i + 1) =~= consts.skip(i));
    }
}

/// Round trip: loading the image a compilation produced recovers, as the
/// machine's constant pool, exactly the literals the source held, in
/// source order — two occurrences of one number give two entries. The
/// one proviso: no instruction byte of the image may itself be the
/// end-of-program marker, since the loader cuts at the first such byte.
pub proof fn lemma_const_pool_round_trip(tree: Seq<StmtV>, bytes: Seq<u8>)
    requires
        stmts_wf(tree),
        spec_compile(tree) == Ok::<Seq<u8>, CompileErrorV>(bytes),
        (spec_compile_stmts(tree, 0, cstate0()) matches Ok(p) && forall|j: int|
            0 <= j < p.0.len() ==> p.0[j] != 0xff),
    ensures
        spec_load(bytes) matches Ok(m) && m.consts == literals_of(tree, 0),
{
    let p = spec_compile_stmts(tree, 0, cstate0())->Ok_0;
    let body = p.0;
    let pool = spec_serialize(p.1.consts, 0);
    assert(bytes =~= (body + seq![0xffu8]) + pool);
    lemma_first_ff_props(bytes);
    let f = spec_first_ff(bytes);
    assert(f == body.len()) by {
        if f < body.len() {
            assert(bytes[f] == body[f]);
        }
        if body.len() < f {
            assert(bytes[body.len() as int] == 0xff);
        }
    }
    assert(spec_consts_part(bytes) =~= pool);
    lemma_serialize_round_trip(p.1.consts, 0);
    assert(p.1.consts.skip(0) =~= p.1.consts);
    assert(tables_cover(Seq::empty(), cstate0().numbers, cstate0().init));
    lemma_stmts_consts(tree, 0, cstate0(), Seq::empty());
    assert(cstate0().consts + literals_of(tree, 0) =~= literals_of(tree, 0));
}

// ---------------------------------------------------------------------------
// A generated arithmetic expression always parses and compiles. The
// generator builds fully parenthesized arithmetic: literals, negation,
// and the four operators, each operand wrapped in parentheses, exactly
// the token shapes the lexer produces from such an expression's text.
// ---------------------------------------------------------------------------

/// An abstract arithmetic expression, the generator's alphabet.
pub ghost enum GenExpr {
    Lit(Value),
    Neg(Box<GenExpr>),
    Add(Box<GenExpr>, Box<GenExpr>),
    Sub(Box<GenExpr>, Box<GenExpr>),
    Mul(Box<GenExpr>, Box<GenExpr>),
    Div(Box<GenExpr>, Box<GenExpr>),
}

/// The token kinds of a generated expression: operands are
/// parenthesized, so precedence cannot rebind them.
pub open spec fn gen_ttypes(g: GenExpr) -> Seq<TokenTypeV>
    decreases g,
{
    match g {
        GenExpr::Lit(v) => seq![TokenTypeV::NumLit(v)],
        GenExpr::Neg(e) => seq![TokenTypeV::OpMinus, TokenTypeV::ParenLeft] + gen_ttypes(*e)
            + seq![TokenTypeV::ParenRight],
        GenExpr::Add(l, r) => seq![TokenTypeV::ParenLeft] + gen_ttypes(*l)
            + seq![TokenTypeV::ParenRight, TokenTypeV::OpPlus, TokenTypeV::ParenLeft]
            + gen_ttypes(*r) + seq![TokenTypeV::ParenRight],
        GenExpr::Sub(l, r) => seq![TokenTypeV::ParenLeft] + gen_ttypes(*l)
            + seq![TokenTypeV::ParenRight, TokenTypeV::OpMinus, TokenTypeV::ParenLeft]
            + gen_ttypes(*r) + seq![TokenTypeV::ParenRight],
        GenExpr::Mul(l, r) => seq![TokenTypeV::ParenLeft] + gen_ttypes(*l)
            + seq![TokenTypeV::ParenRight, TokenTypeV::OpStar, TokenTypeV::ParenLeft]
            + gen_ttypes(*r) + seq![TokenTypeV::ParenRight],
        GenExpr::Div(l, r) => seq![TokenTypeV::ParenLeft] + gen_ttypes(*l)
            + seq![TokenTypeV::ParenRight, TokenTypeV::OpSlash, TokenTypeV::ParenLeft]
            + gen_ttypes(*r) + seq![TokenTypeV::ParenRight],
    }
}

/// How many literals a generated expression holds.
pub open spec fn gen_lits(g: GenExpr) -> nat
    decreases g,
{
    match g {
        GenExpr::Lit(_v) => 1,
        GenExpr::Neg(e) => gen_lits(*e),
        GenExpr::Add(l, r) => gen_lits(*l) + gen_lits(*r),
        GenExpr::Sub(l, r) => gen_lits(*l) + gen_lits(*r),
        GenExpr::Mul(l, r) => gen_lits(*l) + gen_lits(*r),
        GenExpr::Div(l, r) => gen_lits(*l) + gen_lits(*r),
    }
}

/// Purely arithmetic tree shapes: number literals, the four binary
/// operators and negation, grouped at will — no variables, no calls.
pub open spec fn arith_shape(e: ExprV) -> bool
    decreases e,
{
    match e {
        ExprV::Literal(t) => t.ttype is NumLit,
        ExprV::Grouping(e1) => arith_shape(*e1),
        ExprV::Unary(t, e1) => t.ttype is OpMinus && arith_shape(*e1),
        ExprV::Binary(l, t, r) => (t.ttype is OpPlus || t.ttype is OpMinus || t.ttype is OpStar
            || t.ttype is OpSlash) && arith_shape(*l) && arith_shape(*r),
        ExprV::Func(_t, _e1) => false,
        ExprV::Variable(_name, _loc) => false,
    }
}

/// Compiling an arithmetic tree cannot fail while the pool has room for
/// its literals.
pub proof fn lemma_arith_compiles(e: ExprV, st: CState)
    requires
        arith_shape(e),
        st.consts.len() + literals_of_expr(e).len() <= 0x10000,
    ensures
        spec_compile_expr(e, st) is Ok,
        spec_compile_expr(e, st)->Ok_0.1.len() == st.consts.len() + literals_of_expr(e).len(),
    decreases e,
{
    match e {
        ExprV::Literal(_t) => {},
        ExprV::Grouping(e1) => {
            lemma_arith_compiles(*e1, st);
        },
        ExprV::Unary(_t, e1) => {
            lemma_arith_compiles(*e1, st);
        },
        ExprV::Binary(l, _t, r) => {
            lemma_arith_compiles(*l, st);
            let cs1 = spec_compile_expr(*l, st)->Ok_0.1;
            lemma_arith_compiles(*r, CState { consts: cs1, ..st });
        },
        ExprV::Func(_t, _e1) => {},
        ExprV::Variable(_name, _loc) => {},
    }
}

/// A token at which a finished expression must stop: the closer of an
/// enclosing group, the end of a statement, or the end of input.
pub open spec fn gen_stopper(t: TokenTypeV) -> bool {
    t is ParenRight || t is Semicolon || t is Eof
}

/// The descent accepts every generated expression: at a position whose
/// tokens spell `g` and whose next token stops the expression, `expr`
/// succeeds, consumes exactly the generated tokens, and yields an
/// arithmetic tree with `g`'s literal count.
#[verifier::rlimit(100)]
pub proof fn lemma_gen_parses(toks: Seq<TokenV>, vars: Seq<Seq<char>>, i: int, g: GenExpr)
    requires
        0 <= i,
        i + gen_ttypes(g).len() < toks.len(),
        forall|j: int| 0 <= j < gen_ttypes(g).len() ==> (#[trigger] toks[i + j].ttype)
            == gen_ttypes(g)[j],
        gen_stopper(toks[i + gen_ttypes(g).len()].ttype),
    ensures
        crate::ast::spec_expr(toks, vars, i) matches Ok(p) && p.1 == i + gen_ttypes(g).len()
            && arith_shape(p.0) && literals_of_expr(p.0).len() == gen_lits(g),
    decreases g, 2int,
{
    let glen = gen_ttypes(g).len() as int;
    match g {
        GenExpr::Lit(_v) => {
            assert(toks[i + 0].ttype == gen_ttypes(g)[0]);
            assert(gen_stopper(toks[i + 1].ttype));
            let lit = ExprV::Literal(toks[i]);
            assert(crate::ast::spec_primary(toks, vars, i) matches Ok(p) && p.0 == lit && p.1 == i
                + 1);
            assert(crate::ast::spec_unary(toks, vars, i) matches Ok(p) && p.0 == lit && p.1 == i
                + 1);
            assert(crate::ast::spec_factor_rest(toks, vars, i + 1, lit) matches Ok(p) && p.1 == i
                + 1);
            assert(crate::ast::spec_factor(toks, vars, i) matches Ok(p) && p.0 == lit && p.1 == i
                + 1);
            assert(crate::ast::spec_term_rest(toks, vars, i + 1, lit) matches Ok(p) && p.1 == i
                + 1);
            assert(crate::ast::spec_term(toks, vars, i) matches Ok(p) && p.0 == lit && p.1 == i
                + 1);
            assert(arith_shape(lit));
            assert(literals_of_expr(lit).len() == 1);
        },
        GenExpr::Neg(e1) => {
            assert(toks[i + 0].ttype == gen_ttypes(g)[0]);
            assert(toks[i + 1].ttype == gen_ttypes(g)[1]);
            let ilen = gen_ttypes(*e1).len() as int;
            assert forall|j: int| 0 <= j < ilen implies (#[trigger] toks[i + 2 + j].ttype)
                == gen_ttypes(*e1)[j] by {
                assert(toks[i + (2 + j)].ttype == gen_ttypes(g)[2 + j]);
            }
            assert(toks[i + (2 + ilen)].ttype == gen_ttypes(g)[2 + ilen]);
            lemma_gen_parses(toks, vars, i + 2, *e1);
            let inner = crate::ast::spec_expr(toks, vars, i + 2)->Ok_0;
            assert(gen_stopper(toks[i + glen].ttype));
            let grp = ExprV::Grouping(Box::new(inner.0));
            let u = ExprV::Unary(toks[i], Box::new(grp));
            assert(arith_shape(grp));
            assert(arith_shape(u));
            assert(literals_of_expr(grp) == literals_of_expr(inner.0));
            assert(literals_of_expr(u) == literals_of_expr(inner.0));
            assert(crate::ast::spec_primary(toks, vars, i + 1) matches Ok(p) && p.0 == grp
                && p.1 == i + glen);
            assert(crate::ast::spec_unary(toks, vars, i) matches Ok(p) && p.0 == u && p.1 == i
                + glen);
            assert(crate::ast::spec_factor_rest(toks, vars, i + glen, u) matches Ok(p) && p.1 == i
                + glen);
            assert(crate::ast::spec_factor(toks, vars, i) matches Ok(p) && p.0 == u && p.1 == i
                + glen);
            assert(crate::ast::spec_term_rest(toks, vars, i + glen, u) matches Ok(p) && p.1 == i
                + glen);
            assert(crate::ast::spec_term(toks, vars, i) matches Ok(p) && p.0 == u && p.1 == i
                + glen);
        },
        GenExpr::Add(l, r) => {
            lemma_gen_binop(toks, vars, i, g, *l, *r, TokenTypeV::OpPlus);
        },
        GenExpr::Sub(l, r) => {
            lemma_gen_binop(toks, vars, i, g, *l, *r, TokenTypeV::OpMinus);
        },
        GenExpr::Mul(l, r) => {
            lemma_gen_binop(toks, vars, i, g, *l, *r, TokenTypeV::OpStar);
        },
        GenExpr::Div(l, r) => {
            lemma_gen_binop(toks, vars, i, g, *l, *r, TokenTypeV::OpSlash);
        },
    }
}

/// The shared spine of the binary cases: both operands parse as
/// parenthesized groups around the operator.
#[verifier::rlimit(100)]
proof fn lemma_gen_binop_operands(
    toks: Seq<TokenV>,
    vars: Seq<Seq<char>>,
    i: int,
    g: GenExpr,
    l: GenExpr,
    r: GenExpr,
    op: TokenTypeV,
)
    requires
        0 <= i,
        i + gen_ttypes(g).len() < toks.len(),
        forall|j: int| 0 <= j < gen_ttypes(g).len() ==> (#[trigger] toks[i + j].ttype)
            == gen_ttypes(g)[j],
        gen_stopper(toks[i + gen_ttypes(g).len()].ttype),
        gen_ttypes(g) == seq![TokenTypeV::ParenLeft] + gen_ttypes(l)
            + seq![TokenTypeV::ParenRight, op, TokenTypeV::ParenLeft] + gen_ttypes(r)
            + seq![TokenTypeV::ParenRight],
        op is OpPlus || op is OpMinus || op is OpStar || op is OpSlash,
        decreases_to!(g => l),
        decreases_to!(g => r),
    ensures
        ({
            let llen = gen_ttypes(l).len() as int;
            let rlen = gen_ttypes(r).len() as int;
            let jl = i + 2 + llen;
            let jr = jl + 3 + rlen;
            &&& toks[i + 0].ttype == TokenTypeV::ParenLeft
            &&& toks[jl].ttype == op
            &&& jr == i + gen_ttypes(g).len()
            &&& gen_stopper(toks[jr].ttype)
            &&& (crate::ast::spec_primary(toks, vars, i) matches Ok(p) && p.1 == jl
                && arith_shape(p.0) && literals_of_expr(p.0).len() == gen_lits(l))
            &&& (crate::ast::spec_unary(toks, vars, i) == crate::ast::spec_primary(toks, vars, i))
            &&& (crate::ast::spec_primary(toks, vars, jl + 1) matches Ok(p) && p.1 == jr
                && arith_shape(p.0) && literals_of_expr(p.0).len() == gen_lits(r))
            &&& (crate::ast::spec_unary(toks, vars, jl + 1) == crate::ast::spec_primary(
                toks,
                vars,
                jl + 1,
            ))
        }),
    decreases g, 0int,
{
    let glen = gen_ttypes(g).len() as int;
    let llen = gen_ttypes(l).len() as int;
    let rlen = gen_ttypes(r).len() as int;
    assert(toks[i + 0].ttype == gen_ttypes(g)[0]);
    // the left operand sits behind the opening parenthesis
    assert forall|j: int| 0 <= j < llen implies (#[trigger] toks[i + 1 + j].ttype)
        == gen_ttypes(l)[j] by {
        assert(toks[i + (1 + j)].ttype == gen_ttypes(g)[1 + j]);
    }
    assert(toks[i + (1 + llen)].ttype == gen_ttypes(g)[1 + llen]);
    assert(gen_stopper(toks[i + 1 + llen].ttype));
    lemma_gen_parses(toks, vars, i + 1, l);
    let el = crate::ast::spec_expr(toks, vars, i + 1)->Ok_0;
    let jl = i + 2 + llen;
    assert(toks[i + (2 + llen)].ttype == gen_ttypes(g)[2 + llen]);
    assert(toks[jl].ttype == op);
    // the right operand sits behind the operator's opening parenthesis
    assert(toks[i + (3 + llen)].ttype == gen_ttypes(g)[3 + llen]);
    assert(toks[jl + 1].ttype == TokenTypeV::ParenLeft);
    assert forall|j: int| 0 <= j < rlen implies (#[trigger] toks[jl + 2 + j].ttype)
        == gen_ttypes(r)[j] by {
        assert(toks[i + (4 + llen + j)].ttype == gen_ttypes(g)[4 + llen + j]);
        assert(gen_ttypes(g)[4 + llen + j] == gen_ttypes(r)[j]);
    }
    assert(toks[i + (4 + llen + rlen)].ttype == gen_ttypes(g)[4 + llen + rlen]);
    assert(gen_stopper(toks[jl + 2 + rlen].ttype));
    lemma_gen_parses(toks, vars, jl + 2, r);
    let er = crate::ast::spec_expr(toks, vars, jl + 2)->Ok_0;
    let jr = jl + 3 + rlen;
    assert(gen_stopper(toks[jr].ttype));
    assert(crate::ast::spec_primary(toks, vars, i) matches Ok(p) && p.0 == ExprV::Grouping(
        Box::new(el.0),
    ) && p.1 == jl);
    assert(crate::ast::spec_primary(toks, vars, jl + 1) matches Ok(p) && p.0 == ExprV::Grouping(
        Box::new(er.0),
    ) && p.1 == jr);
}

/// The binary cases of `lemma_gen_parses`: `( l ) op ( r )`.
#[verifier::rlimit(100)]
proof fn lemma_gen_binop(
    toks: Seq<TokenV>,
    vars: Seq<Seq<char>>,
    i: int,
    g: GenExpr,
    l: GenExpr,
    r: GenExpr,
    op: TokenTypeV,
)
    requires
        0 <= i,
        i + gen_ttypes(g).len() < toks.len(),
        forall|j: int| 0 <= j < gen_ttypes(g).len() ==> (#[trigger] toks[i + j].ttype)
            == gen_ttypes(g)[j],
        gen_stopper(toks[i + gen_ttypes(g).len()].ttype),
        gen_ttypes(g) == seq![TokenTypeV::ParenLeft] + gen_ttypes(l)
            + seq![TokenTypeV::ParenRight, op, TokenTypeV::ParenLeft] + gen_ttypes(r)
            + seq![TokenTypeV::ParenRight],
        gen_lits(g) == gen_lits(l) + gen_lits(r),
        op is OpPlus || op is OpMinus || op is OpStar || op is OpSlash,
        decreases_to!(g => l),
        decreases_to!(g => r),
    ensures
        crate::ast::spec_expr(toks, vars, i) matches Ok(p) && p.1 == i + gen_ttypes(g).len()
            && arith_shape(p.0) && literals_of_expr(p.0).len() == gen_lits(g),
    decreases g, 1int,
{
    let glen = gen_ttypes(g).len() as int;
    let llen = gen_ttypes(l).len() as int;
    let rlen = gen_ttypes(r).len() as int;
    let jl = i + 2 + llen;
    let jr = jl + 3 + rlen;
    lemma_gen_binop_operands(toks, vars, i, g, l, r, op);
    let gl = crate::ast::spec_primary(toks, vars, i)->Ok_0.0;
    let gr = crate::ast::spec_primary(toks, vars, jl + 1)->Ok_0.0;
    let bin = ExprV::Binary(Box::new(gl), toks[jl], Box::new(gr));
    // the operator's tail lives in whichever loop owns it; the stopper
    // then ends both tails
    if op is OpStar || op is OpSlash {
        assert(crate::ast::spec_factor_rest(toks, vars, jr, bin) matches Ok(p) && p.1 == jr);
        assert(crate::ast::spec_factor_rest(toks, vars, jl, gl) matches Ok(p) && p.0 == bin && p.1
            == jr);
        assert(crate::ast::spec_factor(toks, vars, i) matches Ok(p) && p.0 == bin && p.1 == jr);
        assert(crate::ast::spec_term_rest(toks, vars, jr, bin) matches Ok(p) && p.1 == jr);
        assert(crate::ast::spec_term(toks, vars, i) matches Ok(p) && p.0 == bin && p.1 == jr);
    } else {
        assert(crate::ast::spec_factor_rest(toks, vars, jl, gl) matches Ok(p) && p.0 == gl && p.1
            == jl);
        assert(crate::ast::spec_factor(toks, vars, i) matches Ok(p) && p.0 == gl && p.1 == jl);
        assert(crate::ast::spec_factor_rest(toks, vars, jr, gr) matches Ok(p) && p.1 == jr);
        assert(crate::ast::spec_factor(toks, vars, jl + 1) matches Ok(p) && p.0 == gr && p.1
            == jr);
        assert(crate::ast::spec_term_rest(toks, vars, jr, bin) matches Ok(p) && p.1 == jr);
        assert(crate::ast::spec_term_rest(toks, vars, jl, gl) matches Ok(p) && p.0 == bin && p.1
            == jr);
        assert(crate::ast::spec_term(toks, vars, i) matches Ok(p) && p.0 == bin && p.1 == jr);
    }
    assert(crate::ast::spec_expr(toks, vars, i) matches Ok(p) && p.0 == bin && p.1 == jr);
    assert(literals_of_expr(bin).len() == gen_lits(g));
}

/// A generated arithmetic expression, closed off as a statement, always
/// parses and compiles: for every token sequence that spells such an
/// expression followed by the statement terminator and end of input —
/// exactly what the lexer yields from the expression's text — parsing
/// succeeds and compiling the resulting tree succeeds, as long as the
/// pool can seat the expression's literals.
pub proof fn lemma_generated_program_compiles(toks: Seq<TokenV>, g: GenExpr)
    requires
        toks.len() == gen_ttypes(g).len() + 2,
        forall|j: int|
            0 <= j < gen_ttypes(g).len() ==> (#[trigger] toks[j].ttype) == gen_ttypes(g)[j],
        toks[gen_ttypes(g).len() as int].ttype == TokenTypeV::Semicolon,
        toks[gen_ttypes(g).len() as int + 1].ttype == TokenTypeV::Eof,
        gen_lits(g) <= 0x10000,
    ensures
        crate::ast::spec_parse(toks) is Ok,
        spec_compile(crate::ast::spec_parse(toks)->Ok_0.0) is Ok,
{
    let glen = gen_ttypes(g).len() as int;
    assert forall|j: int| 0 <= j < glen implies (#[trigger] toks[0 + j].ttype) == gen_ttypes(g)[j]
        by {
        assert(toks[j].ttype == gen_ttypes(g)[j]);
    }
    assert(gen_stopper(toks[0 + glen].ttype));
    lemma_gen_parses(toks, Seq::empty(), 0, g);
    let e = crate::ast::spec_expr(toks, Seq::empty(), 0)->Ok_0.0;
    // the first generated token opens an expression statement
    assert(toks[0].ttype == gen_ttypes(g)[0]);
    match g {
        GenExpr::Lit(_v) => {},
        GenExpr::Neg(_e) => {},
        GenExpr::Add(_l, _r) => {},
        GenExpr::Sub(_l, _r) => {},
        GenExpr::Mul(_l, _r) => {},
        GenExpr::Div(_l, _r) => {},
    }
    let tree = seq![StmtV::Expr(e)];
    assert(crate::ast::spec_parse_stmts(toks, Seq::empty(), glen + 1, tree) == Ok::<
        (Seq<StmtV>, Seq<Seq<char>>),
        ParseErrorV,
    >((tree, Seq::empty())));
    assert(crate::ast::spec_parse(toks) == Ok::<(Seq<StmtV>, Seq<Seq<char>>), ParseErrorV>(
        (tree, Seq::empty()),
    ));
    // and the tree it yields compiles
    lemma_arith_compiles(e, cstate0());
    let cs = spec_compile_expr(e, cstate0())->Ok_0.1;
    assert(spec_compile_stmts(tree, 1, CState { consts: cs, ..cstate0() }) is Ok);
    assert(spec_compile_stmts(tree, 0, cstate0()) is Ok);
}

// ---------------------------------------------------------------------------
// The parser's trees always compile: every tree it builds is well
// formed, so `Compiler::compile`'s precondition holds of it.
// ---------------------------------------------------------------------------
/// Expressions out of `primary` are well formed for the variables in
/// scope.
proof fn lemma_primary_wf(toks: Seq<TokenV>, vars: Seq<Seq<char>>, cur: int)
    ensures
        crate::ast::spec_primary(toks, vars, cur) matches Ok(p) ==> expr_wf(p.0, vars),
    decreases crate::ast::remaining(toks, cur), 3int,
{
    match crate::ast::spec_consume(toks, cur) {
        Ok(c) => {
            if c.0.ttype is ParenLeft {
                lemma_expr_wf(toks, vars, c.1);
            }
        },
        _ => {},
    }
}

/// Expressions out of `unary` are well formed for the variables in
/// scope.
proof fn lemma_unary_wf(toks: Seq<TokenV>, vars: Seq<Seq<char>>, cur: int)
    ensures
        crate::ast::spec_unary(toks, vars, cur) matches Ok(p) ==> expr_wf(p.0, vars),
    decreases crate::ast::remaining(toks, cur), 4int,
{
    match crate::ast::spec_match1(toks, cur, TokenTypeV::OpMinus) {
        Ok(m) => {
            if m.0 {
                lemma_primary_wf(toks, vars, m.1);
            } else {
                lemma_primary_wf(toks, vars, cur);
            }
        },
        _ => {},
    }
}

/// The `factor` tail keeps well-formedness while it folds operators in.
proof fn lemma_factor_rest_wf(toks: Seq<TokenV>, vars: Seq<Seq<char>>, cur: int, left: ExprV)
    requires
        expr_wf(left, vars),
    ensures
        crate::ast::spec_factor_rest(toks, vars, cur, left) matches Ok(p) ==> expr_wf(p.0, vars),
    decreases crate::ast::remaining(toks, cur), 5int,
{
    match crate::ast::spec_match2(toks, cur, TokenTypeV::OpStar, TokenTypeV::OpSlash) {
        Ok(m) => {
            if m.0 {
                lemma_unary_wf(toks, vars, m.1);
                match crate::ast::spec_unary(toks, vars, m.1) {
                    Ok(p) => {
                        let c3 = if p.1 <= cur {
                            cur + 1
                        } else {
                            p.1
                        };
                        lemma_factor_rest_wf(
                            toks,
                            vars,
                            c3,
                            ExprV::Binary(Box::new(left), toks[cur], Box::new(p.0)),
                        );
                    },
                    _ => {},
                }
            }
        },
        _ => {},
    }
}

/// Expressions out of `factor` are well formed for the variables in
/// scope.
proof fn lemma_factor_wf(toks: Seq<TokenV>, vars: Seq<Seq<char>>, cur: int)
    ensures
        crate::ast::spec_factor(toks, vars, cur) matches Ok(p) ==> expr_wf(p.0, vars),
    decreases crate::ast::remaining(toks, cur), 6int,
{
    lemma_unary_wf(toks, vars, cur);
    match crate::ast::spec_unary(toks, vars, cur) {
        Ok(p) => {
            let c1 = if p.1 < cur {
                cur
            } else {
                p.1
            };
            lemma_factor_rest_wf(toks, vars, c1, p.0);
        },
        _ => {},
    }
}

/// The `term` tail keeps well-formedness while it folds operators in.
proof fn lemma_term_rest_wf(toks: Seq<TokenV>, vars: Seq<Seq<char>>, cur: int, left: ExprV)
    requires
        expr_wf(left, vars),
    ensures
        crate::ast::spec_term_rest(toks, vars, cur, left) matches Ok(p) ==> expr_wf(p.0, vars),
    decreases crate::ast::remaining(toks, cur), 7int,
{
    match crate::ast::spec_match2(toks, cur, TokenTypeV::OpPlus, TokenTypeV::OpMinus) {
        Ok(m) => {
            if m.0 {
                lemma_factor_wf(toks, vars, m.1);
                match crate::ast::spec_factor(toks, vars, m.1) {
                    Ok(p) => {
                        let c3 = if p.1 <= cur {
                            cur + 1
                        } else {
                            p.1
                        };
                        lemma_term_rest_wf(
                            toks,
                            vars,
                            c3,
                            ExprV::Binary(Box::new(left), toks[cur], Box::new(p.0)),
                        );
                    },
                    _ => {},
                }
            }
        },
        _ => {},
    }
}

/// Expressions out of `term` are well formed for the variables in scope.
proof fn lemma_term_wf(toks: Seq<TokenV>, vars: Seq<Seq<char>>, cur: int)
    ensures
        crate::ast::spec_term(toks, vars, cur) matches Ok(p) ==> expr_wf(p.0, vars),
    decreases crate::ast::remaining(toks, cur), 8int,
{
    lemma_factor_wf(toks, vars, cur);
    match crate::ast::spec_factor(toks, vars, cur) {
        Ok(p) => {
            let c1 = if p.1 < cur {
                cur
            } else {
                p.1
            };
            lemma_term_rest_wf(toks, vars, c1, p.0);
        },
        _ => {},
    }
}

/// Expressions out of `expr` are well formed for the variables in scope.
proof fn lemma_expr_wf(toks: Seq<TokenV>, vars: Seq<Seq<char>>, cur: int)
    ensures
        crate::ast::spec_expr(toks, vars, cur) matches Ok(p) ==> expr_wf(p.0, vars),
    decreases crate::ast::remaining(toks, cur), 9int,
{
    match crate::ast::spec_peek(toks, cur) {
        Ok(t0) => {
            if t0.ttype is Builtin {
                match crate::ast::spec_consume(toks, cur) {
                    Ok(c) => {
                        match crate::ast::spec_match1(toks, c.1, TokenTypeV::ParenLeft) {
                            Ok(m) => {
                                if m.0 {
                                    lemma_expr_wf(toks, vars, m.1);
                                }
                            },
                            _ => {},
                        }
                    },
                    _ => {},
                }
            } else {
                lemma_term_wf(toks, vars, cur);
            }
        },
        _ => {},
    }
}

/// The declarations of a tree's statements, in order: exactly the
/// variable table the parser hands out beside it.
pub open spec fn decls_of(tree: Seq<StmtV>) -> Seq<Seq<char>>
    decreases tree.len(),
{
    if tree.len() == 0 {
        Seq::empty()
    } else {
        decls_of(tree.drop_last()) + (match tree.last() {
            StmtV::Decl(name, _oe) => seq![name],
            _ => Seq::empty(),
        })
    }
}

/// Appending one statement that is well formed for the declarations so
/// far keeps the whole tree well formed.
proof fn lemma_wf_snoc(tree: Seq<StmtV>, i: int, declared: Seq<Seq<char>>, s: StmtV)
    requires
        0 <= i <= tree.len(),
        stmts_wf_from(tree, i, declared),
        (match s {
            StmtV::Expr(e) => expr_wf(e, declared + decls_of(tree.skip(i))),
            StmtV::Decl(_name, oe) => match oe {
                Some(e) => expr_wf(e, declared + decls_of(tree.skip(i))),
                None => true,
            },
            StmtV::Reassign(name, e) => spec_contains_var(declared + decls_of(tree.skip(i)), name)
                && expr_wf(e, declared + decls_of(tree.skip(i))),
        }),
    ensures
        stmts_wf_from(tree.push(s), i, declared),
    decreases tree.len() - i,
{
    let t2 = tree.push(s);
    if i == tree.len() {
        assert(decls_of(tree.skip(i)) =~= Seq::<Seq<char>>::empty());
        assert(declared + decls_of(tree.skip(i)) =~= declared);
        assert(t2[i] == s);
        assert(stmts_wf_from(
            t2,
            i + 1,
            match s {
                StmtV::Decl(name, _oe) => declared.push(name),
                _ => declared,
            },
        ));
    } else {
        assert(t2[i] == tree[i]);
        assert(tree.skip(i).drop_first() =~= tree.skip(i + 1));
        assert(tree.skip(i)[0] == tree[i]);
        match tree[i] {
            StmtV::Decl(name, _oe) => {
                assert(decls_of(tree.skip(i)) =~= seq![name] + decls_of(tree.skip(i + 1))) by {
                    lemma_decls_of_first(tree.skip(i));
                }
                assert((declared.push(name)) + decls_of(tree.skip(i + 1)) =~= declared
                    + decls_of(tree.skip(i)));
                lemma_wf_snoc(tree, i + 1, declared.push(name), s);
            },
            _ => {
                assert(decls_of(tree.skip(i)) =~= decls_of(tree.skip(i + 1))) by {
                    lemma_decls_of_first(tree.skip(i));
                }
                assert(declared + decls_of(tree.skip(i + 1)) =~= declared + decls_of(
                    tree.skip(i),
                ));
                lemma_wf_snoc(tree, i + 1, declared, s);
            },
        }
    }
}

/// Splitting the declaration list at a nonempty tree's first statement.
proof fn lemma_decls_of_first(tree: Seq<StmtV>)
    requires
        tree.len() > 0,
    ensures
        decls_of(tree) == (match tree[0] {
            StmtV::Decl(name, _oe) => seq![name] + decls_of(tree.drop_first()),
            _ => decls_of(tree.drop_first()),
        }),
    decreases tree.len(),
{
    if tree.len() == 1 {
        assert(tree.drop_last() =~= Seq::<StmtV>::empty());
        assert(tree.drop_first() =~= Seq::<StmtV>::empty());
        assert(decls_of(Seq::<StmtV>::empty()) =~= Seq::<Seq<char>>::empty());
        assert(tree.last() == tree[0]);
        match tree[0] {
            StmtV::Decl(name, _oe) => {
                assert(decls_of(tree) =~= seq![name]);
                assert(seq![name] + decls_of(tree.drop_first()) =~= seq![name]);
            },
            _ => {
                assert(decls_of(tree) =~= Seq::<Seq<char>>::empty());
            },
        }
    } else {
        lemma_decls_of_first(tree.drop_last());
        assert(tree.drop_last()[0] == tree[0]);
        assert(tree.drop_first().drop_last() =~= tree.drop_last().drop_first());
        assert(tree.drop_first().last() == tree.last());
        match tree[0] {
            StmtV::Decl(name, _oe) => {
                assert(decls_of(tree) =~= seq![name] + decls_of(tree.drop_first()));
            },
            _ => {
                assert(decls_of(tree) =~= decls_of(tree.drop_first()));
            },
        }
    }
}

/// The statement loop only ever builds well-formed trees whose
/// declarations are the variable table it carries.
proof fn lemma_parse_stmts_wf(toks: Seq<TokenV>, vars: Seq<Seq<char>>, cur: int, tree: Seq<StmtV>)
    requires
        stmts_wf(tree),
        decls_of(tree) == vars,
    ensures
        crate::ast::spec_parse_stmts(toks, vars, cur, tree) matches Ok(p) ==> stmts_wf(p.0)
            && decls_of(p.0) == p.1,
    decreases crate::ast::remaining(toks, cur), 10int,
{
    match crate::ast::spec_peek(toks, cur) {
        Ok(t) => {
            match t.ttype {
                TokenTypeV::Eof => {},
                _ => {
                    let stmt_res: Result<(StmtV, Seq<Seq<char>>, int), ParseErrorV> = match t.ttype {
                        TokenTypeV::Keyword(_) => crate::ast::spec_decl(toks, vars, cur + 1),
                        TokenTypeV::Ident(_) => match crate::ast::spec_reassign(toks, vars, cur) {
                            Err(e) => Err(e),
                            Ok((s, c)) => Ok((s, vars, c)),
                        },
                        _ => match crate::ast::spec_expr(toks, vars, cur) {
                            Err(e) => Err(e),
                            Ok((e, c)) => Ok((StmtV::Expr(e), vars, c)),
                        },
                    };
                    // whichever statement form it was, its expressions
                    // are well formed for the variables in scope
                    match t.ttype {
                        TokenTypeV::Keyword(_) => {
                            match crate::ast::spec_consume(toks, cur + 1) {
                                Ok(c1) => {
                                    match crate::ast::spec_match1(
                                        toks,
                                        c1.1,
                                        TokenTypeV::Assign,
                                    ) {
                                        Ok(m) => {
                                            if m.0 {
                                                lemma_expr_wf(toks, vars, m.1);
                                            }
                                        },
                                        _ => {},
                                    }
                                },
                                _ => {},
                            }
                        },
                        TokenTypeV::Ident(_) => {
                            match crate::ast::spec_consume(toks, cur) {
                                Ok(c1) => {
                                    match crate::ast::spec_match1(
                                        toks,
                                        c1.1,
                                        TokenTypeV::Assign,
                                    ) {
                                        Ok(m) => {
                                            if m.0 {
                                                lemma_expr_wf(toks, vars, m.1);
                                            }
                                        },
                                        _ => {},
                                    }
                                },
                                _ => {},
                            }
                        },
                        _ => {
                            lemma_expr_wf(toks, vars, cur);
                        },
                    }
                    match stmt_res {
                        Err(_e) => {},
                        Ok((s, vars2, c2)) => {
                            match crate::ast::spec_match1(toks, c2, TokenTypeV::Semicolon) {
                                Ok(m) => {
                                    if m.0 {
                                        let c4 = if m.1 <= cur {
                                            cur + 1
                                        } else {
                                            m.1
                                        };
                                        assert(tree.skip(0) =~= tree);
                                        assert(Seq::<Seq<char>>::empty() + decls_of(tree)
                                            =~= decls_of(tree));
                                        lemma_wf_snoc(tree, 0, Seq::empty(), s);
                                        assert(decls_of(tree.push(s)) =~= vars2) by {
                                            assert(tree.push(s).drop_last() =~= tree);
                                        }
                                        lemma_parse_stmts_wf(toks, vars2, c4, tree.push(s));
                                    }
                                },
                                _ => {},
                            }
                        },
                    }
                },
            }
        },
        _ => {},
    }
}


/// Whatever the parser accepts, the compiler takes: a parsed program's
/// tree is well formed, and its variable table is exactly the tree's
/// declarations in order.
pub proof fn lemma_parsed_tree_well_formed(toks: Seq<TokenV>)
    ensures
        crate::ast::spec_parse(toks) matches Ok(p) ==> stmts_wf(p.0) && decls_of(p.0) == p.1,
{
    assert(stmts_wf(Seq::<StmtV>::empty()));
    assert(decls_of(Seq::<StmtV>::empty()) =~= Seq::<Seq<char>>::empty());
    lemma_parse_stmts_wf(toks, Seq::empty(), 0, Seq::empty());
}

} // verus!
