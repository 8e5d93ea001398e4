use vstd::prelude::*;

use crate::ast::Ast;
use crate::ast::Expr;
use crate::ast::ExprV;
use crate::ast::Stmt;
use crate::ast::StmtV;
use crate::ast::Variable;
use crate::ast::spec_contains_var;
use crate::ast::stmts_view;
use crate::ast::vars_view;
use crate::errors::CompileError;
use crate::errors::CompileErrorV;
use crate::tokens::BIn;
use crate::tokens::TokenType;
use crate::tokens::TokenTypeV;
use crate::value::Value;

verus! {

// ---------------------------------------------------------------------------
// Variable tables. The compiler keeps its name-to-slot and
// name-to-initialized tables as append-only pair lists; a later entry for
// the same name shadows an earlier one, exactly as re-inserting into a
// map would.
// ---------------------------------------------------------------------------

/// The value the latest entry for `key` carries, if any.
pub open spec fn assoc_get<V>(s: Seq<(Seq<char>, V)>, key: Seq<char>) -> Option<V>
    decreases s.len(),
{
    if s.len() == 0 {
        None
    } else if s.last().0 == key {
        Some(s.last().1)
    } else {
        assoc_get(s.drop_last(), key)
    }
}

/// The view of an executable pair list.
pub open spec fn pairs_view<V>(s: Seq<(Variable, V)>) -> Seq<(Seq<char>, V)> {
    s.map_values(|p: (Variable, V)| (p.0.name@, p.1))
}

/// Finds the latest entry for `name`.
fn assoc_find<V: Copy>(pairs: &Vec<(Variable, V)>, name: &String) -> (r: Option<V>)
    ensures
        r == assoc_get(pairs_view(pairs@), name@),
{
    let n = pairs.len();
    let mut k = n;
    proof {
        assert(pairs_view(pairs@).take(n as int) =~= pairs_view(pairs@));
    }
    while k > 0
        invariant
            k <= n,
            n == pairs@.len(),
            assoc_get(pairs_view(pairs@), name@) == assoc_get(
                pairs_view(pairs@).take(k as int),
                name@,
            ),
        decreases k,
    {
        k = k - 1;
        proof {
            assert(pairs_view(pairs@).take(k as int + 1).last() == (pairs@[k as int].0.name@, pairs@[k as int].1));
            assert(pairs_view(pairs@).take(k as int + 1).drop_last() =~= pairs_view(pairs@).take(
                k as int,
            ));
        }
        if pairs[k].0.name == *name {
            return Some(pairs[k].1);
        }
    }
    None
}

// ---------------------------------------------------------------------------
// Well-formedness: what the parser guarantees of the trees it builds, and
// what the compiler's table lookups need. A tree is well formed when every
// literal node carries a numeric token, every call node a builtin token,
// and every variable reference and reassignment target names a variable
// declared in a strictly earlier statement.
// ---------------------------------------------------------------------------

pub open spec fn expr_wf(e: ExprV, declared: Seq<Seq<char>>) -> bool
    decreases e,
{
    match e {
        ExprV::Literal(t) => t.ttype is NumLit,
        ExprV::Func(t, e1) => t.ttype is Builtin && expr_wf(*e1, declared),
        ExprV::Grouping(e1) => expr_wf(*e1, declared),
        ExprV::Binary(l, _t, r) => expr_wf(*l, declared) && expr_wf(*r, declared),
        ExprV::Unary(_t, e1) => expr_wf(*e1, declared),
        ExprV::Variable(name, _loc) => spec_contains_var(declared, name),
    }
}

pub open spec fn stmts_wf_from(tree: Seq<StmtV>, i: int, declared: Seq<Seq<char>>) -> bool
    decreases tree.len() - i,
{
    if i < 0 || i >= tree.len() {
        true
    } else {
        match tree[i] {
            StmtV::Expr(e) => expr_wf(e, declared) && stmts_wf_from(tree, i + 1, declared),
            StmtV::Decl(name, oe) => (match oe {
                Some(e) => expr_wf(e, declared),
                None => true,
            }) && stmts_wf_from(tree, i + 1, declared.push(name)),
            StmtV::Reassign(name, e) => spec_contains_var(declared, name) && expr_wf(e, declared)
                && stmts_wf_from(tree, i + 1, declared),
        }
    }
}

pub open spec fn stmts_wf(tree: Seq<StmtV>) -> bool {
    stmts_wf_from(tree, 0, Seq::empty())
}

// ---------------------------------------------------------------------------
// Codegen, as mathematics. The compiler state is the slot table, the
// initialized table, the next free slot, and the constant pool.
// ---------------------------------------------------------------------------

/// The compiler's threaded state.
pub ghost struct CState {
    pub numbers: Seq<(Seq<char>, u32)>,
    pub init: Seq<(Seq<char>, bool)>,
    pub counter: int,
    pub consts: Seq<Value>,
}

/// The two little-endian bytes of a push operand.
pub open spec fn u16le_pair(x: u16) -> Seq<u8> {
    seq![(x & 0xff) as u8, (x >> 8) as u8]
}

/// The four little-endian bytes of a slot operand.
pub open spec fn u32le_quad(x: u32) -> Seq<u8> {
    seq![
        (x & 0xff) as u8,
        ((x >> 8) & 0xff) as u8,
        ((x >> 16) & 0xff) as u8,
        ((x >> 24) & 0xff) as u8,
    ]
}

/// The eight little-endian bytes of a pool constant.
pub open spec fn u64le_bytes(x: u64) -> Seq<u8> {
    seq![
        (x & 0xff) as u8,
        ((x >> 8) & 0xff) as u8,
        ((x >> 16) & 0xff) as u8,
        ((x >> 24) & 0xff) as u8,
        ((x >> 32) & 0xff) as u8,
        ((x >> 40) & 0xff) as u8,
        ((x >> 48) & 0xff) as u8,
        ((x >> 56) & 0xff) as u8,
    ]
}

/// Whether the compiler's tables answer every lookup this expression
/// makes; under `stmts_wf` the driver loop establishes it before each
/// statement.
pub open spec fn expr_ok(
    e: ExprV,
    numbers: Seq<(Seq<char>, u32)>,
    init: Seq<(Seq<char>, bool)>,
) -> bool
    decreases e,
{
    match e {
        ExprV::Literal(t) => t.ttype is NumLit,
        ExprV::Func(t, e1) => t.ttype is Builtin && expr_ok(*e1, numbers, init),
        ExprV::Grouping(e1) => expr_ok(*e1, numbers, init),
        ExprV::Binary(l, _t, r) => expr_ok(*l, numbers, init) && expr_ok(*r, numbers, init),
        ExprV::Unary(_t, e1) => expr_ok(*e1, numbers, init),
        ExprV::Variable(name, _loc) => assoc_get(numbers, name) is Some && assoc_get(
            init,
            name,
        ) is Some,
    }
}

/// Post-order codegen of one expression: the emitted bytes and the
/// constant pool with any new entries. The tables and the slot counter
/// never change under an expression. Branches that well-formedness rules
/// out are left unconstrained.
pub open spec fn spec_compile_expr(e: ExprV, st: CState) -> Result<
    (Seq<u8>, Seq<Value>),
    CompileErrorV,
>
    decreases e,
{
    match e {
        ExprV::Binary(l, op, r) => match spec_compile_expr(*l, st) {
            Err(er) => Err(er),
            Ok((bl, cs1)) => match spec_compile_expr(*r, CState { consts: cs1, ..st }) {
                Err(er) => Err(er),
                Ok((br, cs2)) => match op.ttype {
                    TokenTypeV::OpPlus => Ok((bl + br + seq![0x02u8], cs2)),
                    TokenTypeV::OpMinus => Ok((bl + br + seq![0x03u8], cs2)),
                    TokenTypeV::OpStar => Ok((bl + br + seq![0x04u8], cs2)),
                    TokenTypeV::OpSlash => Ok((bl + br + seq![0x05u8], cs2)),
                    _ => Err(CompileErrorV::ExpectedOp(op.loc)),
                },
            },
        },
        ExprV::Unary(op, e1) => match spec_compile_expr(*e1, st) {
            Err(er) => Err(er),
            Ok((b, cs1)) => match op.ttype {
                TokenTypeV::OpMinus => Ok((b + seq![0x06u8], cs1)),
                _ => Err(CompileErrorV::ExpectedOp(op.loc)),
            },
        },
        ExprV::Grouping(e1) => spec_compile_expr(*e1, st),
        ExprV::Literal(t) => match t.ttype {
            TokenTypeV::NumLit(v) => if st.consts.len() > 0xffff {
                Err(CompileErrorV::ConstTableOverflow)
            } else {
                Ok((seq![0x01u8] + u16le_pair(st.consts.len() as u16), st.consts.push(v)))
            },
            _ => arbitrary(),
        },
        ExprV::Func(t, e1) => match spec_compile_expr(*e1, st) {
            Err(er) => Err(er),
            Ok((b, cs1)) => match t.ttype {
                TokenTypeV::Builtin(BIn::Println) => Ok((b + seq![0x11u8, 0x00u8, 0x00u8], cs1)),
                TokenTypeV::Builtin(BIn::Abs) => Ok((b + seq![0x11u8, 0x01u8, 0x00u8], cs1)),
                _ => arbitrary(),
            },
        },
        ExprV::Variable(name, loc) => match assoc_get(st.init, name) {
            Some(true) => match assoc_get(st.numbers, name) {
                Some(idx) => Ok((seq![0x13u8] + u32le_quad(idx), st.consts)),
                None => arbitrary(),
            },
            Some(false) => Err(CompileErrorV::UninitializedVar(loc)),
            None => arbitrary(),
        },
    }
}

/// Codegen of a declaration: the variable is marked before its
/// initializer is lowered, the store targets the next free slot, and the
/// slot counter advances whether or not an initializer is there.
pub open spec fn spec_compile_decl(name: Seq<char>, oe: Option<ExprV>, st: CState) -> Result<
    (Seq<u8>, CState),
    CompileErrorV,
> {
    match oe {
        Some(e) => {
            let st1 = CState { init: st.init.push((name, true)), ..st };
            match spec_compile_expr(e, st1) {
                Err(er) => Err(er),
                Ok((b, cs2)) => Ok(
                    (
                        b + seq![0x12u8] + u32le_quad(st.counter as u32),
                        CState {
                            numbers: st.numbers.push((name, st.counter as u32)),
                            init: st1.init,
                            counter: st.counter + 1,
                            consts: cs2,
                        },
                    ),
                ),
            }
        },
        None => Ok(
            (
                Seq::empty(),
                CState {
                    numbers: st.numbers.push((name, st.counter as u32)),
                    init: st.init.push((name, false)),
                    counter: st.counter + 1,
                    ..st
                },
            ),
        ),
    }
}

/// Codegen of a reassignment: the variable is marked initialized, the
/// right-hand side is lowered, and the store targets the slot the
/// declaration assigned.
pub open spec fn spec_compile_reassign(name: Seq<char>, e: ExprV, st: CState) -> Result<
    (Seq<u8>, CState),
    CompileErrorV,
> {
    let st1 = CState { init: st.init.push((name, true)), ..st };
    match spec_compile_expr(e, st1) {
        Err(er) => Err(er),
        Ok((b, cs2)) => match assoc_get(st.numbers, name) {
            Some(idx) => Ok((b + seq![0x12u8] + u32le_quad(idx), CState { init: st1.init, consts: cs2, ..st })),
            None => arbitrary(),
        },
    }
}

/// Codegen of one statement.
pub open spec fn spec_compile_stmt(s: StmtV, st: CState) -> Result<
    (Seq<u8>, CState),
    CompileErrorV,
> {
    match s {
        StmtV::Expr(e) => match spec_compile_expr(e, st) {
            Err(er) => Err(er),
            Ok((b, cs)) => Ok((b, CState { consts: cs, ..st })),
        },
        StmtV::Decl(name, oe) => spec_compile_decl(name, oe, st),
        StmtV::Reassign(name, e) => spec_compile_reassign(name, e, st),
    }
}

/// Codegen of the statements from `i` on: their concatenated bytes and
/// the final state.
pub open spec fn spec_compile_stmts(tree: Seq<StmtV>, i: int, st: CState) -> Result<
    (Seq<u8>, CState),
    CompileErrorV,
>
    decreases tree.len() - i,
{
    if i < 0 || i >= tree.len() {
        Ok((Seq::empty(), st))
    } else {
        match spec_compile_stmt(tree[i], st) {
            Err(er) => Err(er),
            Ok((b, st1)) => match spec_compile_stmts(tree, i + 1, st1) {
                Err(er) => Err(er),
                Ok((brest, st2)) => Ok((b + brest, st2)),
            },
        }
    }
}

/// The serialized constant pool from entry `i` on: one
/// `(tag, length, bytes)` record per double.
pub open spec fn spec_serialize(consts: Seq<Value>, i: int) -> Seq<u8>
    decreases consts.len() - i,
{
    if i < 0 || i >= consts.len() {
        Seq::empty()
    } else {
        seq![0x00u8, 0x08u8] + u64le_bytes(consts[i]) + spec_serialize(consts, i + 1)
    }
}

/// The fresh compiler state.
pub open spec fn cstate0() -> CState {
    CState { numbers: Seq::empty(), init: Seq::empty(), counter: 0, consts: Seq::empty() }
}

/// What compiling a whole program yields: the instruction stream, the
/// end-of-program marker, and the serialized pool.
pub open spec fn spec_compile(tree: Seq<StmtV>) -> Result<Seq<u8>, CompileErrorV> {
    match spec_compile_stmts(tree, 0, cstate0()) {
        Err(er) => Err(er),
        Ok((b, st)) => Ok(b + seq![0xffu8] + spec_serialize(st.consts, 0)),
    }
}

/// Re-inserting a key: the newest entry wins, other keys keep their
/// answers.
pub broadcast proof fn lemma_assoc_push<V>(s: Seq<(Seq<char>, V)>, k: Seq<char>, v: V, nm: Seq<char>)
    ensures
        #[trigger] assoc_get(s.push((k, v)), nm) == (if nm == k {
            Some(v)
        } else {
            assoc_get(s, nm)
        }),
{
    assert(s.push((k, v)).drop_last() =~= s);
}

/// Under well-formedness, the compiler's tables answer every lookup an
/// expression makes.
pub proof fn lemma_wf_expr_ok(
    e: ExprV,
    declared: Seq<Seq<char>>,
    numbers: Seq<(Seq<char>, u32)>,
    init: Seq<(Seq<char>, bool)>,
)
    requires
        expr_wf(e, declared),
        forall|nm: Seq<char>|
            spec_contains_var(declared, nm) ==> ((#[trigger] assoc_get(numbers, nm)) is Some
                && assoc_get(init, nm) is Some),
    ensures
        expr_ok(e, numbers, init),
    decreases e,
{
    match e {
        ExprV::Literal(_t) => {},
        ExprV::Func(_t, e1) => {
            lemma_wf_expr_ok(*e1, declared, numbers, init);
        },
        ExprV::Grouping(e1) => {
            lemma_wf_expr_ok(*e1, declared, numbers, init);
        },
        ExprV::Binary(l, _t, r) => {
            lemma_wf_expr_ok(*l, declared, numbers, init);
            lemma_wf_expr_ok(*r, declared, numbers, init);
        },
        ExprV::Unary(_t, e1) => {
            lemma_wf_expr_ok(*e1, declared, numbers, init);
        },
        ExprV::Variable(_name, _loc) => {},
    }
}

/// The view of an executable initializer option.
pub open spec fn opt_expr_view(oe: &Option<Box<Expr>>) -> Option<ExprV> {
    match oe {
        Some(e) => Some((**e)@),
        None => None,
    }
}

/// The compiler: the output file's name (kept for diagnostics), the
/// constant pool, and the variable-to-slot table with its running
/// counter.
pub struct Compiler {
    file_name: String,
    const_table: Vec<Value>,
    variable_numbers: Vec<(Variable, u32)>,
    last_variable_number: u32,
}

/// Mathematical image of the compiler's state.
pub ghost struct CompilerV {
    pub file_name: Seq<char>,
    pub consts: Seq<Value>,
    pub numbers: Seq<(Seq<char>, u32)>,
    pub counter: int,
}

impl View for Compiler {
    type V = CompilerV;

    closed spec fn view(&self) -> CompilerV {
        CompilerV {
            file_name: self.file_name@,
            consts: self.const_table@,
            numbers: pairs_view(self.variable_numbers@),
            counter: self.last_variable_number as int,
        }
    }
}

/// The compiler's threaded state, as `spec_compile_expr` and friends see
/// it.
pub open spec fn cur_cstate(c: CompilerV, init: Seq<(Seq<char>, bool)>) -> CState {
    CState { numbers: c.numbers, init, counter: c.counter, consts: c.consts }
}

impl Compiler {
    pub fn new(out_file_path: String) -> (r: Result<Self, CompileError>)
        ensures
            r matches Ok(c) && c@ == (CompilerV {
                file_name: out_file_path@,
                consts: Seq::empty(),
                numbers: Seq::empty(),
                counter: 0,
            }),
    {
        let c = Compiler {
            file_name: out_file_path,
            const_table: Vec::new(),
            variable_numbers: Vec::new(),
            last_variable_number: 0,
        };
        proof {
            assert(pairs_view(c.variable_numbers@) =~= Seq::<(Seq<char>, u32)>::empty());
        }
        Ok(c)
    }

    /// The constant pool gathered so far, one double per literal met, in
    /// source order.
    pub fn consts(&self) -> (r: &Vec<Value>)
        ensures
            r@ == self@.consts,
    {
        &self.const_table
    }

    /// Compiles a whole program to its bytecode image: each statement in
    /// source order, the end-of-program marker, then the serialized
    /// constant pool. The tree must be well formed — the parser
    /// guarantees it, and `Ast::well_formed` re-checks it — and the
    /// compiler fresh.
    #[allow(unused_variables)]
    pub fn compile(&mut self, tree: Vec<Stmt>, variables: Vec<Variable>) -> (r: Result<
        Vec<u8>,
        CompileError,
    >)
        requires
            stmts_wf(stmts_view(tree@)),
            tree@.len() <= u32::MAX,
            old(self)@.numbers.len() == 0,
            old(self)@.counter == 0,
            old(self)@.consts.len() == 0,
        ensures
            final(self)@.file_name == old(self)@.file_name,
            match spec_compile(stmts_view(tree@)) {
                Ok(bytes) => r matches Ok(v) && v@ == bytes,
                Err(ev) => r matches Err(er) && er@ == ev,
            },
            (spec_compile_stmts(stmts_view(tree@), 0, cstate0()) matches Ok(p) ==> final(self)@.consts == p.1.consts),
    {
        broadcast use lemma_assoc_push;

        let ghost treev = stmts_view(tree@);
        let mut initialized: Vec<(Variable, bool)> = Vec::new();
        let mut out: Vec<u8> = Vec::new();
        let n = tree.len();
        let mut i: usize = 0;
        let ghost mut declared: Seq<Seq<char>> = Seq::empty();
        proof {
            assert(pairs_view(initialized@) =~= Seq::<(Seq<char>, bool)>::empty());
            assert(old(self)@.numbers =~= Seq::<(Seq<char>, u32)>::empty());
            assert(old(self)@.consts =~= Seq::<Value>::empty());
            assert(cur_cstate(self@, pairs_view(initialized@)) == cstate0());
        }
        while i < n
            invariant
                i <= n,
                n == tree@.len(),
                n <= u32::MAX,
                treev == stmts_view(tree@),
                stmts_wf_from(treev, i as int, declared),
                forall|nm: Seq<char>|
                    spec_contains_var(declared, nm) ==> ((#[trigger] assoc_get(
                        self@.numbers,
                        nm,
                    )) is Some && assoc_get(pairs_view(initialized@), nm) is Some),
                0 <= self@.counter <= i,
                self@.file_name == old(self)@.file_name,
                spec_compile_stmts(treev, 0, cstate0()) == (match spec_compile_stmts(
                    treev,
                    i as int,
                    cur_cstate(self@, pairs_view(initialized@)),
                ) {
                    Ok(p) => Ok::<(Seq<u8>, CState), CompileErrorV>((out@ + p.0, p.1)),
                    Err(e) => Err(e),
                }),
            decreases n - i,
        {
            broadcast use lemma_assoc_push;

            let ghost st_i = cur_cstate(self@, pairs_view(initialized@));
            let ghost out_i = out@;
            match &tree[i] {
                Stmt::Expr(e) => {
                    proof {
                        lemma_wf_expr_ok((**e)@, declared, st_i.numbers, st_i.init);
                    }
                    self.compile_expr(e, &initialized, &mut out)?;
                },
                Stmt::Decl(var, oe) => {
                    proof {
                        match oe {
                            Some(e) => {
                                lemma_wf_expr_ok(
                                    (**e)@,
                                    declared,
                                    st_i.numbers,
                                    st_i.init.push((var@, true)),
                                );
                            },
                            None => {},
                        }
                    }
                    self.compile_decl(var, oe, &mut initialized, &mut out)?;
                    proof {
                        declared = declared.push(var@);
                    }
                },
                Stmt::Reassign(var, e) => {
                    proof {
                        lemma_wf_expr_ok(
                            (**e)@,
                            declared,
                            st_i.numbers,
                            st_i.init.push((var@, true)),
                        );
                    }
                    self.compile_reassign(var, e, &mut initialized, &mut out)?;
                },
            }
            i = i + 1;
            proof {
                assert(spec_contains_var(declared, declared.last()) || declared.len() == 0) by {
                    if declared.len() > 0 {
                        assert(declared[declared.len() - 1] == declared.last());
                    }
                }
                let st_n = cur_cstate(self@, pairs_view(initialized@));
                match spec_compile_stmt(treev[i - 1], st_i) {
                    Ok(p) => {
                        match spec_compile_stmts(treev, i as int, st_n) {
                            Ok(p2) => {
                                assert((out_i + p.0) + p2.0 =~= out_i + (p.0 + p2.0));
                            },
                            Err(_) => {},
                        }
                    },
                    Err(_) => {},
                }
            }
        }
        proof {
            match spec_compile_stmts(treev, n as int, cur_cstate(self@, pairs_view(initialized@))) {
                Ok(p) => {
                    assert(out@ + p.0 =~= out@);
                },
                Err(_) => {},
            }
        }
        let ghost sbase = self@;
        let ghost body = out@;
        out.push(0xff);
        let m = self.const_table.len();
        let mut k: usize = 0;
        proof {
            assert(out@ =~= body + seq![0xffu8]);
        }
        while k < m
            invariant
                k <= m,
                m == self@.consts.len(),
                self@ == sbase,
                out@ + spec_serialize(self@.consts, k as int) == body + seq![0xffu8]
                    + spec_serialize(self@.consts, 0),
            decreases m - k,
        {
            let ghost out_k = out@;
            out.push(0x00);
            out.push(0x08);
            let v = self.const_table[k];
            Self::push_u64le(&mut out, v);
            proof {
                assert(out@ =~= out_k + (seq![0x00u8, 0x08u8] + u64le_bytes(v)));
                assert((out_k + (seq![0x00u8, 0x08u8] + u64le_bytes(v))) + spec_serialize(
                    self@.consts,
                    k as int + 1,
                ) =~= out_k + spec_serialize(self@.consts, k as int));
            }
            k = k + 1;
        }
        proof {
            assert(out@ + spec_serialize(self@.consts, m as int) =~= out@);
            match spec_compile_stmts(treev, 0, cstate0()) {
                Ok(p) => {
                    assert(out@ =~= (p.0 + seq![0xffu8]) + spec_serialize(p.1.consts, 0));
                    assert((p.0 + seq![0xffu8]) + spec_serialize(p.1.consts, 0) =~= p.0 + seq![
                        0xffu8,
                    ] + spec_serialize(p.1.consts, 0));
                },
                Err(_) => {},
            }
        }
        Ok(out)
    }

    /// Lowers one expression in post-order: operands first, then the
    /// operator's opcode.
    fn compile_expr(
        &mut self,
        e: &Expr,
        initialized: &Vec<(Variable, bool)>,
        out: &mut Vec<u8>,
    ) -> (r: Result<(), CompileError>)
        requires
            expr_ok(e@, old(self)@.numbers, pairs_view(initialized@)),
        ensures
            final(self)@.file_name == old(self)@.file_name,
            final(self)@.numbers == old(self)@.numbers,
            final(self)@.counter == old(self)@.counter,
            match spec_compile_expr(e@, cur_cstate(old(self)@, pairs_view(initialized@))) {
                Ok(p) => r matches Ok(()) && final(out)@ == old(out)@ + p.0 && final(self)@.consts
                    == p.1,
                Err(ev) => r matches Err(er) && er@ == ev,
            },
        decreases e,
    {
        match e {
            Expr::Binary(l, op, rr) => {
                self.compile_expr(l, initialized, out)?;
                self.compile_expr(rr, initialized, out)?;
                let opb: u8 = match &op.ttype {
                    TokenType::OpPlus => 0x02,
                    TokenType::OpMinus => 0x03,
                    TokenType::OpStar => 0x04,
                    TokenType::OpSlash => 0x05,
                    _ => {
                        return Err(CompileError::ExpectedOp(op.loc.clone()));
                    },
                };
                out.push(opb);
                proof {
                    let st0 = cur_cstate(old(self)@, pairs_view(initialized@));
                    let p1 = spec_compile_expr((**l)@, st0)->Ok_0;
                    let p2 = spec_compile_expr((**rr)@, CState { consts: p1.1, ..st0 })->Ok_0;
                    assert(out@ =~= old(out)@ + (p1.0 + p2.0 + seq![opb]));
                }
                Ok(())
            },
            Expr::Unary(op, e1) => {
                self.compile_expr(e1, initialized, out)?;
                match &op.ttype {
                    TokenType::OpMinus => {
                        out.push(0x06);
                        proof {
                            let st0 = cur_cstate(old(self)@, pairs_view(initialized@));
                            let p1 = spec_compile_expr((**e1)@, st0)->Ok_0;
                            assert(out@ =~= old(out)@ + (p1.0 + seq![0x06u8]));
                        }
                        Ok(())
                    },
                    _ => Err(CompileError::ExpectedOp(op.loc.clone())),
                }
            },
            Expr::Grouping(e1) => self.compile_expr(e1, initialized, out),
            Expr::Literal(t) => {
                let index = self.const_table.len();
                if index > 0xffff {
                    return Err(CompileError::ConstTableOverflow);
                }
                let v: u64 = match &t.ttype {
                    TokenType::NumLit(x) => *x,
                    _ => {
                        // a literal node always carries a numeric token
                        proof {
                            assert(false);
                        }
                        0
                    },
                };
                self.const_table.push(v);
                let idx16 = index as u16;
                out.push(0x01);
                out.push((idx16 & 0xff) as u8);
                out.push((idx16 >> 8) as u8);
                proof {
                    assert(out@ =~= old(out)@ + (seq![0x01u8] + u16le_pair(idx16)));
                }
                Ok(())
            },
            Expr::Func(t, e1) => {
                self.compile_expr(e1, initialized, out)?;
                match &t.ttype {
                    TokenType::Builtin(b) => {
                        out.push(0x11);
                        match b {
                            BIn::Println => {
                                out.push(0x00);
                                out.push(0x00);
                            },
                            BIn::Abs => {
                                out.push(0x01);
                                out.push(0x00);
                            },
                        }
                        proof {
                            let st0 = cur_cstate(old(self)@, pairs_view(initialized@));
                            let p1 = spec_compile_expr((**e1)@, st0)->Ok_0;
                            if b is Println {
                                assert(out@ =~= old(out)@ + (p1.0 + seq![0x11u8, 0x00u8, 0x00u8]));
                            } else {
                                assert(out@ =~= old(out)@ + (p1.0 + seq![0x11u8, 0x01u8, 0x00u8]));
                            }
                        }
                        Ok(())
                    },
                    _ => {
                        // a call node always carries a builtin token
                        proof {
                            assert(false);
                        }
                        Err(CompileError::ConstTableOverflow)
                    },
                }
            },
            Expr::Variable(var, loc) => {
                match assoc_find(initialized, &var.name) {
                    Some(marked) => {
                        if !marked {
                            return Err(CompileError::UninitializedVar(loc.clone()));
                        }
                    },
                    None => {
                        // every referenced variable has a table entry
                        proof {
                            assert(false);
                        }
                        return Err(CompileError::UninitializedVar(loc.clone()));
                    },
                }
                let idx: u32 = match assoc_find(&self.variable_numbers, &var.name) {
                    Some(x) => x,
                    None => {
                        // every referenced variable has a slot
                        proof {
                            assert(false);
                        }
                        return Err(CompileError::UninitializedVar(loc.clone()));
                    },
                };
                out.push(0x13);
                Self::push_u32le(out, idx);
                proof {
                    assert(out@ =~= old(out)@ + (seq![0x13u8] + u32le_quad(idx)));
                }
                Ok(())
            },
        }
    }

    /// Lowers a declaration; see `spec_compile_decl`.
    fn compile_decl(
        &mut self,
        var: &Variable,
        oe: &Option<Box<Expr>>,
        initialized: &mut Vec<(Variable, bool)>,
        out: &mut Vec<u8>,
    ) -> (r: Result<(), CompileError>)
        requires
            (match oe {
                Some(e) => expr_ok(
                    (**e)@,
                    old(self)@.numbers,
                    pairs_view(old(initialized)@).push((var@, true)),
                ),
                None => true,
            }),
            old(self)@.counter < u32::MAX,
        ensures
            final(self)@.file_name == old(self)@.file_name,
            match spec_compile_decl(
                var@,
                opt_expr_view(oe),
                cur_cstate(old(self)@, pairs_view(old(initialized)@)),
            ) {
                Ok(p) => r matches Ok(()) && final(out)@ == old(out)@ + p.0 && cur_cstate(
                    final(self)@,
                    pairs_view(final(initialized)@),
                ) == p.1,
                Err(ev) => r matches Err(er) && er@ == ev,
            },
    {
        match oe {
            Some(e) => {
                initialized.push((var.clone(), true));
                proof {
                    assert(pairs_view(initialized@) =~= pairs_view(old(initialized)@).push(
                        (var@, true),
                    ));
                }
                self.compile_expr(e, initialized, out)?;
                let c = self.last_variable_number;
                out.push(0x12);
                Self::push_u32le(out, c);
                self.variable_numbers.push((var.clone(), c));
                self.last_variable_number = c + 1;
                proof {
                    let st1 = CState {
                        init: pairs_view(old(initialized)@).push((var@, true)),
                        numbers: old(self)@.numbers,
                        counter: old(self)@.counter,
                        consts: old(self)@.consts,
                    };
                    let p = spec_compile_expr((**e)@, st1)->Ok_0;
                    assert(out@ =~= old(out)@ + (p.0 + seq![0x12u8] + u32le_quad(c)));
                    assert(pairs_view(self.variable_numbers@) =~= old(self)@.numbers.push(
                        (var@, c),
                    ));
                }
                Ok(())
            },
            None => {
                initialized.push((var.clone(), false));
                let c = self.last_variable_number;
                self.variable_numbers.push((var.clone(), c));
                self.last_variable_number = c + 1;
                proof {
                    assert(pairs_view(initialized@) =~= pairs_view(old(initialized)@).push(
                        (var@, false),
                    ));
                    assert(pairs_view(self.variable_numbers@) =~= old(self)@.numbers.push(
                        (var@, c),
                    ));
                    assert(out@ =~= old(out)@ + Seq::<u8>::empty());
                }
                Ok(())
            },
        }
    }

    /// Lowers a reassignment; see `spec_compile_reassign`.
    fn compile_reassign(
        &mut self,
        var: &Variable,
        e: &Expr,
        initialized: &mut Vec<(Variable, bool)>,
        out: &mut Vec<u8>,
    ) -> (r: Result<(), CompileError>)
        requires
            expr_ok(e@, old(self)@.numbers, pairs_view(old(initialized)@).push((var@, true))),
            assoc_get(old(self)@.numbers, var@) is Some,
        ensures
            final(self)@.file_name == old(self)@.file_name,
            match spec_compile_reassign(
                var@,
                e@,
                cur_cstate(old(self)@, pairs_view(old(initialized)@)),
            ) {
                Ok(p) => r matches Ok(()) && final(out)@ == old(out)@ + p.0 && cur_cstate(
                    final(self)@,
                    pairs_view(final(initialized)@),
                ) == p.1,
                Err(ev) => r matches Err(er) && er@ == ev,
            },
    {
        initialized.push((var.clone(), true));
        proof {
            assert(pairs_view(initialized@) =~= pairs_view(old(initialized)@).push((var@, true)));
        }
        self.compile_expr(e, initialized, out)?;
        let idx: u32 = match assoc_find(&self.variable_numbers, &var.name) {
            Some(x) => x,
            None => {
                // a reassigned variable was declared, so it has a slot
                proof {
                    assert(false);
                }
                return Err(CompileError::ConstTableOverflow);
            },
        };
        out.push(0x12);
        Self::push_u32le(out, idx);
        proof {
            let st1 = CState {
                init: pairs_view(old(initialized)@).push((var@, true)),
                numbers: old(self)@.numbers,
                counter: old(self)@.counter,
                consts: old(self)@.consts,
            };
            let p = spec_compile_expr(e@, st1)->Ok_0;
            assert(out@ =~= old(out)@ + (p.0 + seq![0x12u8] + u32le_quad(idx)));
        }
        Ok(())
    }

    /// Appends a slot index as four little-endian bytes.
    fn push_u32le(out: &mut Vec<u8>, x: u32)
        ensures
            final(out)@ == old(out)@ + u32le_quad(x),
    {
        out.push((x & 0xff) as u8);
        out.push(((x >> 8) & 0xff) as u8);
        out.push(((x >> 16) & 0xff) as u8);
        out.push(((x >> 24) & 0xff) as u8);
        proof {
            assert(out@ =~= old(out)@ + u32le_quad(x));
        }
    }

    /// Appends a pool constant as eight little-endian bytes.
    fn push_u64le(out: &mut Vec<u8>, x: u64)
        ensures
            final(out)@ == old(out)@ + u64le_bytes(x),
    {
        out.push((x & 0xff) as u8);
        out.push(((x >> 8) & 0xff) as u8);
        out.push(((x >> 16) & 0xff) as u8);
        out.push(((x >> 24) & 0xff) as u8);
        out.push(((x >> 32) & 0xff) as u8);
        out.push(((x >> 40) & 0xff) as u8);
        out.push(((x >> 48) & 0xff) as u8);
        out.push(((x >> 56) & 0xff) as u8);
        proof {
            assert(out@ =~= old(out)@ + u64le_bytes(x));
        }
    }
}

/// Whether a name stands in a variable list.
fn contains_name(declared: &Vec<Variable>, name: &String) -> (r: bool)
    ensures
        r == spec_contains_var(vars_view(declared@), name@),
{
    let n = declared.len();
    let mut i: usize = 0;
    while i < n
        invariant
            i <= n,
            n == declared@.len(),
            forall|j: int| 0 <= j < i ==> vars_view(declared@)[j] != name@,
        decreases n - i,
    {
        if declared[i].name == *name {
            proof {
                assert(vars_view(declared@)[i as int] == name@);
            }
            return true;
        }
        i = i + 1;
    }
    false
}

/// Whether an expression is well formed with respect to the variables
/// declared so far.
fn expr_well_formed(e: &Expr, declared: &Vec<Variable>) -> (r: bool)
    ensures
        r == expr_wf(e@, vars_view(declared@)),
    decreases e,
{
    match e {
        Expr::Literal(t) => matches!(&t.ttype, TokenType::NumLit(_)),
        Expr::Func(t, e1) => matches!(&t.ttype, TokenType::Builtin(_)) && expr_well_formed(
            e1,
            declared,
        ),
        Expr::Grouping(e1) => expr_well_formed(e1, declared),
        Expr::Binary(l, _t, r) => expr_well_formed(l, declared) && expr_well_formed(r, declared),
        Expr::Unary(_t, e1) => expr_well_formed(e1, declared),
        Expr::Variable(var, _loc) => contains_name(declared, &var.name),
    }
}

impl Ast {
    /// Whether the tree can be compiled: every literal node carries a
    /// number, every call a builtin, and every variable reference and
    /// reassignment target names a variable declared in an earlier
    /// statement. Trees the parser builds always are; a tree assembled by
    /// hand is checked here before `Compiler::compile` takes it.
    pub fn well_formed(&self) -> (r: bool)
        ensures
            r == stmts_wf(stmts_view(self.tree@)),
    {
        let n = self.tree.len();
        let mut declared: Vec<Variable> = Vec::new();
        let mut i: usize = 0;
        proof {
            assert(vars_view(declared@) =~= Seq::<Seq<char>>::empty());
        }
        while i < n
            invariant
                i <= n,
                n == self.tree@.len(),
                stmts_wf(stmts_view(self.tree@)) == stmts_wf_from(
                    stmts_view(self.tree@),
                    i as int,
                    vars_view(declared@),
                ),
            decreases n - i,
        {
            let ghost d0 = vars_view(declared@);
            match &self.tree[i] {
                Stmt::Expr(e) => {
                    if !expr_well_formed(e, &declared) {
                        return false;
                    }
                },
                Stmt::Decl(var, oe) => {
                    match oe {
                        Some(e) => {
                            if !expr_well_formed(e, &declared) {
                                return false;
                            }
                        },
                        None => {},
                    }
                    declared.push(var.clone());
                    proof {
                        assert(vars_view(declared@) =~= d0.push(var@));
                    }
                },
                Stmt::Reassign(var, e) => {
                    if !contains_name(&declared, &var.name) {
                        return false;
                    }
                    if !expr_well_formed(e, &declared) {
                        return false;
                    }
                },
            }
            i = i + 1;
        }
        true
    }
}

} // verus!
