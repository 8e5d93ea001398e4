use vstd::prelude::*;

use crate::errors::ParseError;
use crate::errors::ParseErrorV;
use crate::tokens::Loc;
use crate::tokens::LocV;
use crate::tokens::Token;
use crate::tokens::TokenType;
use crate::tokens::TokenTypeV;
use crate::tokens::TokenV;
use crate::tokens::tokens_view;

verus! {

/// A declared variable; its identity is its name. No scoping: a name is
/// unique across the whole program.
#[derive(Debug, PartialEq, Eq, Hash)]
pub struct Variable {
    pub name: String,
}

impl View for Variable {
    type V = Seq<char>;

    open spec fn view(&self) -> Seq<char> {
        self.name@
    }
}

impl Clone for Variable {
    fn clone(&self) -> (r: Self)
        ensures
            r == *self,
    {
        Variable { name: self.name.clone() }
    }
}

/// An expression node. Literal, operator and builtin nodes keep the token
/// they came from, so that later stages can point diagnostics at the
/// source.
#[derive(Debug)]
pub enum Expr {
    Func(Token, Box<Expr>),
    Literal(Token),
    Grouping(Box<Expr>),
    Binary(Box<Expr>, Token, Box<Expr>),
    Unary(Token, Box<Expr>),
    Variable(Variable, Loc),
}

/// Mathematical image of an `Expr`.
pub ghost enum ExprV {
    Func(TokenV, Box<ExprV>),
    Literal(TokenV),
    Grouping(Box<ExprV>),
    Binary(Box<ExprV>, TokenV, Box<ExprV>),
    Unary(TokenV, Box<ExprV>),
    Variable(Seq<char>, LocV),
}

impl View for Expr {
    type V = ExprV;

    open spec fn view(&self) -> ExprV
        decreases self,
    {
        match self {
            Expr::Func(t, e) => ExprV::Func(t@, Box::new((**e)@)),
            Expr::Literal(t) => ExprV::Literal(t@),
            Expr::Grouping(e) => ExprV::Grouping(Box::new((**e)@)),
            Expr::Binary(l, t, r) => ExprV::Binary(Box::new((**l)@), t@, Box::new((**r)@)),
            Expr::Unary(t, e) => ExprV::Unary(t@, Box::new((**e)@)),
            Expr::Variable(v, loc) => ExprV::Variable(v.name@, loc@),
        }
    }
}

/// A statement: a bare expression, a declaration with an optional
/// initializer, or a reassignment of a declared variable.
#[derive(Debug)]
pub enum Stmt {
    Expr(Box<Expr>),
    Decl(Variable, Option<Box<Expr>>),
    Reassign(Variable, Box<Expr>),
}

/// Mathematical image of a `Stmt`.
pub ghost enum StmtV {
    Expr(ExprV),
    Decl(Seq<char>, Option<ExprV>),
    Reassign(Seq<char>, ExprV),
}

impl View for Stmt {
    type V = StmtV;

    open spec fn view(&self) -> StmtV {
        match self {
            Stmt::Expr(e) => StmtV::Expr((**e)@),
            Stmt::Decl(v, oe) => StmtV::Decl(
                v.name@,
                match oe {
                    Some(e) => Some((**e)@),
                    None => None,
                },
            ),
            Stmt::Reassign(v, e) => StmtV::Reassign(v.name@, (**e)@),
        }
    }
}

/// The view of a whole statement list.
pub open spec fn stmts_view(tree: Seq<Stmt>) -> Seq<StmtV> {
    tree.map_values(|s: Stmt| s@)
}

/// The view of a variable table.
pub open spec fn vars_view(vars: Seq<Variable>) -> Seq<Seq<char>> {
    vars.map_values(|v: Variable| v@)
}

/// Whether `vars` holds a variable of this name.
pub open spec fn spec_contains_var(vars: Seq<Seq<char>>, name: Seq<char>) -> bool {
    exists|i: int| 0 <= i < vars.len() && vars[i] == name
}

/// The finished product of parsing: the statement list and the table of
/// declared variables, in declaration order.
pub struct Ast {
    pub tree: Vec<Stmt>,
    pub variables: Vec<Variable>,
}

/// The recursive-descent parser: a token list, a forward-only cursor, and
/// the statements and variables built so far.
pub struct AstBuilder {
    tokens: Vec<Token>,
    cursor: usize,
    tree: Vec<Stmt>,
    variables: Vec<Variable>,
}

// ---------------------------------------------------------------------------
// The grammar, as mathematics: each function mirrors one rule of the
// predictive recursive descent and returns the parsed node together with
// the cursor after it, or the first error. The measure is the remaining
// token count, tie-broken by the rule's depth in the grammar.
// ---------------------------------------------------------------------------

/// The current token, or `UnexpectedEof` with the previous token's
/// location when the cursor has left the list.
pub open spec fn spec_peek(toks: Seq<TokenV>, cur: int) -> Result<TokenV, ParseErrorV> {
    if 0 <= cur < toks.len() {
        Ok(toks[cur])
    } else {
        Err(ParseErrorV::UnexpectedEof(toks[cur - 1].loc))
    }
}

/// Reads the current token. The cursor advances past it except on the
/// end-of-input token, which is handed out but never consumed.
pub open spec fn spec_consume(toks: Seq<TokenV>, cur: int) -> Result<(TokenV, int), ParseErrorV> {
    match spec_peek(toks, cur) {
        Err(e) => Err(e),
        Ok(t) => if t.ttype is Eof {
            Ok((t, cur))
        } else {
            Ok((t, cur + 1))
        },
    }
}

/// Consumes the current token if it has kind `k`; end of input never
/// matches.
pub open spec fn spec_match1(toks: Seq<TokenV>, cur: int, k: TokenTypeV) -> Result<
    (bool, int),
    ParseErrorV,
> {
    match spec_peek(toks, cur) {
        Err(e) => Err(e),
        Ok(t) => if t.ttype is Eof {
            Ok((false, cur))
        } else if t.ttype == k {
            Ok((true, cur + 1))
        } else {
            Ok((false, cur))
        },
    }
}

/// Consumes the current token if it has kind `k1` or kind `k2`.
pub open spec fn spec_match2(toks: Seq<TokenV>, cur: int, k1: TokenTypeV, k2: TokenTypeV) -> Result<
    (bool, int),
    ParseErrorV,
> {
    match spec_match1(toks, cur, k1) {
        Err(e) => Err(e),
        Ok((true, c)) => Ok((true, c)),
        Ok((false, _)) => spec_match1(toks, cur, k2),
    }
}

/// How many tokens lie at or after the cursor: the termination measure of
/// the descent.
pub open spec fn remaining(toks: Seq<TokenV>, cur: int) -> nat {
    if cur <= toks.len() {
        (toks.len() - cur) as nat
    } else {
        0
    }
}

/// primary := NUMLIT | '(' expr ')' | IDENT
pub open spec fn spec_primary(toks: Seq<TokenV>, vars: Seq<Seq<char>>, cur: int) -> Result<
    (ExprV, int),
    ParseErrorV,
>
    decreases remaining(toks, cur), 3int,
{
    match spec_consume(toks, cur) {
        Err(e) => Err(e),
        Ok((t, c1)) => match t.ttype {
            TokenTypeV::Eof => Err(ParseErrorV::UnexpectedEof(t.loc)),
            TokenTypeV::NumLit(_) => Ok((ExprV::Literal(t), c1)),
            TokenTypeV::ParenLeft => match spec_expr(toks, vars, c1) {
                Err(e) => Err(e),
                Ok((e, c2)) => match spec_consume(toks, c2) {
                    Err(e2) => Err(e2),
                    Ok((t2, c3)) => if !(t2.ttype is ParenRight) {
                        Err(ParseErrorV::UnmatchingBrace(t.loc))
                    } else {
                        Ok((ExprV::Grouping(Box::new(e)), c3))
                    },
                },
            },
            TokenTypeV::ParenRight => Err(ParseErrorV::UnmatchingBrace(t.loc)),
            TokenTypeV::Ident(name) => if spec_contains_var(vars, name) {
                Ok((ExprV::Variable(name, t.loc), c1))
            } else {
                Err(ParseErrorV::UnknownVariable(t.loc))
            },
            _ => Err(ParseErrorV::UnexpectedToken(t.loc)),
        },
    }
}

/// unary := '-' primary | primary
pub open spec fn spec_unary(toks: Seq<TokenV>, vars: Seq<Seq<char>>, cur: int) -> Result<
    (ExprV, int),
    ParseErrorV,
>
    decreases remaining(toks, cur), 4int,
{
    match spec_match1(toks, cur, TokenTypeV::OpMinus) {
        Err(e) => Err(e),
        Ok((true, c1)) => match spec_primary(toks, vars, c1) {
            Err(e) => Err(e),
            Ok((e, c2)) => Ok((ExprV::Unary(toks[cur], Box::new(e)), c2)),
        },
        Ok((false, _)) => spec_primary(toks, vars, cur),
    }
}

/// The left-associative tail of `factor`: zero or more `('*'|'/') unary`.
pub open spec fn spec_factor_rest(
    toks: Seq<TokenV>,
    vars: Seq<Seq<char>>,
    cur: int,
    left: ExprV,
) -> Result<(ExprV, int), ParseErrorV>
    decreases remaining(toks, cur), 5int,
{
    match spec_match2(toks, cur, TokenTypeV::OpStar, TokenTypeV::OpSlash) {
        Err(e) => Err(e),
        Ok((false, _)) => Ok((left, cur)),
        Ok((true, c1)) => match spec_unary(toks, vars, c1) {
            Err(e) => Err(e),
            Ok((right, c2)) => {
                // a sub-parse never moves the cursor back; the bound keeps
                // the recursion well-founded
                let c3 = if c2 <= cur {
                    cur + 1
                } else {
                    c2
                };
                spec_factor_rest(
                    toks,
                    vars,
                    c3,
                    ExprV::Binary(Box::new(left), toks[cur], Box::new(right)),
                )
            },
        },
    }
}

/// factor := unary (('*'|'/') unary)*
pub open spec fn spec_factor(toks: Seq<TokenV>, vars: Seq<Seq<char>>, cur: int) -> Result<
    (ExprV, int),
    ParseErrorV,
>
    decreases remaining(toks, cur), 6int,
{
    match spec_unary(toks, vars, cur) {
        Err(e) => Err(e),
        Ok((e, c)) => {
            let c1 = if c < cur {
                cur
            } else {
                c
            };
            spec_factor_rest(toks, vars, c1, e)
        },
    }
}

/// The left-associative tail of `term`: zero or more `('+'|'-') factor`.
pub open spec fn spec_term_rest(
    toks: Seq<TokenV>,
    vars: Seq<Seq<char>>,
    cur: int,
    left: ExprV,
) -> Result<(ExprV, int), ParseErrorV>
    decreases remaining(toks, cur), 7int,
{
    match spec_match2(toks, cur, TokenTypeV::OpPlus, TokenTypeV::OpMinus) {
        Err(e) => Err(e),
        Ok((false, _)) => Ok((left, cur)),
        Ok((true, c1)) => match spec_factor(toks, vars, c1) {
            Err(e) => Err(e),
            Ok((right, c2)) => {
                let c3 = if c2 <= cur {
                    cur + 1
                } else {
                    c2
                };
                spec_term_rest(
                    toks,
                    vars,
                    c3,
                    ExprV::Binary(Box::new(left), toks[cur], Box::new(right)),
                )
            },
        },
    }
}

/// term := factor (('+'|'-') factor)*
pub open spec fn spec_term(toks: Seq<TokenV>, vars: Seq<Seq<char>>, cur: int) -> Result<
    (ExprV, int),
    ParseErrorV,
>
    decreases remaining(toks, cur), 8int,
{
    match spec_factor(toks, vars, cur) {
        Err(e) => Err(e),
        Ok((e, c)) => {
            let c1 = if c < cur {
                cur
            } else {
                c
            };
            spec_term_rest(toks, vars, c1, e)
        },
    }
}

/// expr := builtin '(' expr ')' | term
pub open spec fn spec_expr(toks: Seq<TokenV>, vars: Seq<Seq<char>>, cur: int) -> Result<
    (ExprV, int),
    ParseErrorV,
>
    decreases remaining(toks, cur), 9int,
{
    match spec_peek(toks, cur) {
        Err(e) => Err(e),
        Ok(t0) => if t0.ttype is Builtin {
            match spec_consume(toks, cur) {
                Err(e) => Err(e),
                Ok((func, c1)) => match spec_match1(toks, c1, TokenTypeV::ParenLeft) {
                    Err(e) => Err(e),
                    Ok((false, c2)) => match spec_peek(toks, c2) {
                        Ok(t2) => Err(ParseErrorV::ExpectedParen(t2.loc)),
                        Err(e) => Err(e),
                    },
                    Ok((true, c2)) => match spec_expr(toks, vars, c2) {
                        Err(e) => Err(e),
                        Ok((e, c3)) => match spec_match1(toks, c3, TokenTypeV::ParenRight) {
                            Err(e2) => Err(e2),
                            Ok((false, c4)) => match spec_peek(toks, c4) {
                                Ok(t4) => Err(ParseErrorV::ExpectedParen(t4.loc)),
                                Err(e2) => Err(e2),
                            },
                            Ok((true, c4)) => Ok((ExprV::Func(func, Box::new(e)), c4)),
                        },
                    },
                },
            }
        } else {
            spec_term(toks, vars, cur)
        },
    }
}

/// decl := 'let' IDENT ('=' expr)? ';' — entered with the keyword already
/// consumed; returns the statement and the variable table with the new
/// name appended.
pub open spec fn spec_decl(toks: Seq<TokenV>, vars: Seq<Seq<char>>, cur: int) -> Result<
    (StmtV, Seq<Seq<char>>, int),
    ParseErrorV,
> {
    match spec_consume(toks, cur) {
        Err(e) => Err(e),
        Ok((t, c1)) => match t.ttype {
            TokenTypeV::Ident(name) => match spec_match1(toks, c1, TokenTypeV::Assign) {
                Err(e) => Err(e),
                Ok((true, c2)) => match spec_expr(toks, vars, c2) {
                    Err(e) => Err(e),
                    Ok((e, c3)) => Ok((StmtV::Decl(name, Some(e)), vars.push(name), c3)),
                },
                Ok((false, c2)) => Ok((StmtV::Decl(name, None), vars.push(name), c2)),
            },
            _ => Err(ParseErrorV::ExpectedIdent(toks[c1 - 1].loc)),
        },
    }
}

/// reassign := IDENT '=' expr ';' — the name must already be declared.
pub open spec fn spec_reassign(toks: Seq<TokenV>, vars: Seq<Seq<char>>, cur: int) -> Result<
    (StmtV, int),
    ParseErrorV,
> {
    match spec_consume(toks, cur) {
        Err(e) => Err(e),
        Ok((t, c1)) => match t.ttype {
            TokenTypeV::Ident(name) => match spec_match1(toks, c1, TokenTypeV::Assign) {
                Err(e) => Err(e),
                Ok((false, c2)) => Err(ParseErrorV::ExpectedAssign(toks[c2 - 1].loc)),
                Ok((true, c2)) => if !spec_contains_var(vars, name) {
                    Err(ParseErrorV::UnknownVariable(t.loc))
                } else {
                    match spec_expr(toks, vars, c2) {
                        Err(e) => Err(e),
                        Ok((e, c3)) => Ok((StmtV::Reassign(name, e), c3)),
                    }
                },
            },
            _ => Err(ParseErrorV::ExpectedIdent(t.loc)),
        },
    }
}

/// program := (decl | reassign | exprStmt)* EOF
pub open spec fn spec_parse_stmts(
    toks: Seq<TokenV>,
    vars: Seq<Seq<char>>,
    cur: int,
    tree: Seq<StmtV>,
) -> Result<(Seq<StmtV>, Seq<Seq<char>>), ParseErrorV>
    decreases remaining(toks, cur), 10int,
{
    match spec_peek(toks, cur) {
        Err(e) => Err(e),
        Ok(t) => match t.ttype {
            TokenTypeV::Eof => Ok((tree, vars)),
            _ => {
                let stmt_res: Result<(StmtV, Seq<Seq<char>>, int), ParseErrorV> = match t.ttype {
                    TokenTypeV::Keyword(_) => spec_decl(toks, vars, cur + 1),
                    TokenTypeV::Ident(_) => match spec_reassign(toks, vars, cur) {
                        Err(e) => Err(e),
                        Ok((s, c)) => Ok((s, vars, c)),
                    },
                    _ => match spec_expr(toks, vars, cur) {
                        Err(e) => Err(e),
                        Ok((e, c)) => Ok((StmtV::Expr(e), vars, c)),
                    },
                };
                match stmt_res {
                    Err(e) => Err(e),
                    Ok((s, vars2, c2)) => match spec_match1(toks, c2, TokenTypeV::Semicolon) {
                        Err(e) => Err(e),
                        Ok((false, c3)) => Err(ParseErrorV::ExpectedSemi(toks[c3 - 1].loc)),
                        Ok((true, c3)) => {
                            let c4 = if c3 <= cur {
                                cur + 1
                            } else {
                                c3
                            };
                            spec_parse_stmts(toks, vars2, c4, tree.push(s))
                        },
                    },
                }
            },
        },
    }
}

/// What parsing a whole token list yields: the statement list and the
/// variable table, or the first error.
pub open spec fn spec_parse(toks: Seq<TokenV>) -> Result<
    (Seq<StmtV>, Seq<Seq<char>>),
    ParseErrorV,
> {
    spec_parse_stmts(toks, Seq::empty(), 0, Seq::empty())
}


/// Mathematical image of the parser's whole state.
pub ghost struct AstBuilderV {
    pub tokens: Seq<TokenV>,
    pub cursor: int,
    pub tree: Seq<StmtV>,
    pub vars: Seq<Seq<char>>,
}

impl View for AstBuilder {
    type V = AstBuilderV;

    closed spec fn view(&self) -> AstBuilderV {
        AstBuilderV {
            tokens: tokens_view(self.tokens@),
            cursor: self.cursor as int,
            tree: stmts_view(self.tree@),
            vars: vars_view(self.variables@),
        }
    }
}

impl AstBuilder {
    /// A cursor that has not left the token list, which holds at least
    /// one token (the end-of-input marker of a lexed program).
    pub open spec fn wf(&self) -> bool {
        1 <= self@.tokens.len() && 0 <= self@.cursor <= self@.tokens.len()
    }

    pub fn new(tokens: Vec<Token>) -> (r: Self)
        ensures
            r@.tokens == tokens_view(tokens@),
            r@.cursor == 0,
            r@.tree == Seq::<StmtV>::empty(),
            r@.vars == Seq::<Seq<char>>::empty(),
            tokens@.len() >= 1 ==> r.wf(),
    {
        Self { tokens, cursor: 0, tree: Vec::new(), variables: Vec::new() }
    }

    /// Hands the built tree and variable table out.
    pub fn ast(self) -> (r: Ast)
        ensures
            stmts_view(r.tree@) == self@.tree,
            vars_view(r.variables@) == self@.vars,
    {
        Ast { tree: self.tree, variables: self.variables }
    }

    /// Parses statements from the current cursor until end of input; the
    /// result is exactly what the grammar functions say.
    #[verifier::rlimit(80)]
    pub fn parse(&mut self) -> (r: Result<(), ParseError>)
        requires
            old(self).wf(),
        ensures
            final(self)@.tokens == old(self)@.tokens,
            match spec_parse_stmts(
                old(self)@.tokens,
                old(self)@.vars,
                old(self)@.cursor,
                old(self)@.tree,
            ) {
                Ok((tr, vs)) => r matches Ok(()) && final(self)@.tree == tr && final(self)@.vars
                    == vs,
                Err(ev) => r matches Err(e) && e@ == ev,
            },
    {
        loop
            invariant
                self.wf(),
                self@.tokens == old(self)@.tokens,
                spec_parse_stmts(
                    old(self)@.tokens,
                    old(self)@.vars,
                    old(self)@.cursor,
                    old(self)@.tree,
                ) == spec_parse_stmts(old(self)@.tokens, self@.vars, self@.cursor, self@.tree),
            decreases remaining(old(self)@.tokens, self@.cursor),
        {
            let kind: u8 = {
                let t = self.peek()?;
                match &t.ttype {
                    TokenType::Eof => 0,
                    TokenType::Keyword(_) => 1,
                    TokenType::Ident(_) => 2,
                    _ => 3,
                }
            };
            if kind == 0 {
                return Ok(());
            }
            let stmt: Stmt = if kind == 1 {
                let _lk = self.consume()?;
                self.decl()?
            } else if kind == 2 {
                self.reassign()?
            } else {
                let e = self.expr()?;
                Stmt::Expr(Box::new(e))
            };
            let m = self.match_kind(&TokenType::Semicolon)?;
            if !m {
                let loc = self.prev().loc.clone();
                return Err(ParseError::ExpectedSemi(loc));
            }
            let ghost tree_i = self@.tree;
            let ghost stmt_v = stmt@;
            self.tree.push(stmt);
            proof {
                assert(self@.tree =~= tree_i.push(stmt_v));
            }
        }
    }

    /// decl := 'let' IDENT ('=' expr)? — the keyword is already consumed.
    fn decl(&mut self) -> (r: Result<Stmt, ParseError>)
        requires
            old(self).wf(),
            old(self)@.cursor >= 1,
        ensures
            final(self)@.tokens == old(self)@.tokens,
            final(self)@.tree == old(self)@.tree,
            old(self)@.cursor <= final(self)@.cursor <= old(self)@.tokens.len(),
            match spec_decl(old(self)@.tokens, old(self)@.vars, old(self)@.cursor) {
                Ok((sv, vs, c)) => r matches Ok(s) && s@ == sv && final(self)@.vars == vs && final(self)@.cursor == c && c > old(self)@.cursor,
                Err(ev) => r matches Err(e) && e@ == ev && final(self)@.vars == old(self)@.vars,
            },
    {
        let token = self.consume()?;
        let name: String = match token.ttype {
            TokenType::Ident(id) => id,
            _ => {
                let loc = self.prev().loc.clone();
                return Err(ParseError::ExpectedIdent(loc));
            },
        };
        let m = self.match_kind(&TokenType::Assign)?;
        if m {
            let e = self.expr()?;
            let var = Variable { name };
            self.variables.push(var.clone());
            Ok(Stmt::Decl(var, Some(Box::new(e))))
        } else {
            let var = Variable { name };
            self.variables.push(var.clone());
            Ok(Stmt::Decl(var, None))
        }
    }

    /// reassign := IDENT '=' expr — the name must be declared already.
    fn reassign(&mut self) -> (r: Result<Stmt, ParseError>)
        requires
            old(self).wf(),
        ensures
            final(self)@.tokens == old(self)@.tokens,
            final(self)@.tree == old(self)@.tree,
            final(self)@.vars == old(self)@.vars,
            old(self)@.cursor <= final(self)@.cursor <= old(self)@.tokens.len(),
            match spec_reassign(old(self)@.tokens, old(self)@.vars, old(self)@.cursor) {
                Ok((sv, c)) => r matches Ok(s) && s@ == sv && final(self)@.cursor == c && c > old(self)@.cursor,
                Err(ev) => r matches Err(e) && e@ == ev,
            },
    {
        let token = self.consume()?;
        let name: String = match token.ttype {
            TokenType::Ident(id) => id,
            _ => {
                return Err(ParseError::ExpectedIdent(token.loc));
            },
        };
        let m = self.match_kind(&TokenType::Assign)?;
        if !m {
            let loc = self.prev().loc.clone();
            return Err(ParseError::ExpectedAssign(loc));
        }
        let var = match self.find_var(&name) {
            None => {
                return Err(ParseError::UnknownVariable(token.loc));
            },
            Some(v) => v,
        };
        let e = self.expr()?;
        Ok(Stmt::Reassign(var, Box::new(e)))
    }

    /// expr := builtin '(' expr ')' | term
    fn expr(&mut self) -> (r: Result<Expr, ParseError>)
        requires
            old(self).wf(),
        ensures
            final(self)@.tokens == old(self)@.tokens,
            final(self)@.tree == old(self)@.tree,
            final(self)@.vars == old(self)@.vars,
            old(self)@.cursor <= final(self)@.cursor <= old(self)@.tokens.len(),
            match spec_expr(old(self)@.tokens, old(self)@.vars, old(self)@.cursor) {
                Ok((ev, c)) => r matches Ok(e) && e@ == ev && final(self)@.cursor == c && c > old(self)@.cursor,
                Err(ev) => r matches Err(e) && e@ == ev,
            },
        decreases remaining(old(self)@.tokens, old(self)@.cursor), 9int,
    {
        let is_builtin = {
            let t = self.peek()?;
            matches!(&t.ttype, TokenType::Builtin(_))
        };
        if is_builtin {
            let func = self.consume()?;
            let m = self.match_kind(&TokenType::ParenLeft)?;
            if !m {
                let loc = {
                    let t2 = self.peek()?;
                    t2.loc.clone()
                };
                return Err(ParseError::ExpectedParen(loc));
            }
            let e = self.expr()?;
            let m2 = self.match_kind(&TokenType::ParenRight)?;
            if !m2 {
                let loc = {
                    let t4 = self.peek()?;
                    t4.loc.clone()
                };
                return Err(ParseError::ExpectedParen(loc));
            }
            Ok(Expr::Func(func, Box::new(e)))
        } else {
            self.term()
        }
    }

    /// term := factor (('+'|'-') factor)*
    fn term(&mut self) -> (r: Result<Expr, ParseError>)
        requires
            old(self).wf(),
        ensures
            final(self)@.tokens == old(self)@.tokens,
            final(self)@.tree == old(self)@.tree,
            final(self)@.vars == old(self)@.vars,
            old(self)@.cursor <= final(self)@.cursor <= old(self)@.tokens.len(),
            match spec_term(old(self)@.tokens, old(self)@.vars, old(self)@.cursor) {
                Ok((ev, c)) => r matches Ok(e) && e@ == ev && final(self)@.cursor == c && c > old(self)@.cursor,
                Err(ev) => r matches Err(e) && e@ == ev,
            },
        decreases remaining(old(self)@.tokens, old(self)@.cursor), 8int,
    {
        let mut e = self.factor()?;
        loop
            invariant
                self.wf(),
                self@.tokens == old(self)@.tokens,
                self@.vars == old(self)@.vars,
                self@.tree == old(self)@.tree,
                old(self)@.cursor < self@.cursor <= old(self)@.tokens.len(),
                spec_term(old(self)@.tokens, old(self)@.vars, old(self)@.cursor) == spec_term_rest(
                    old(self)@.tokens,
                    old(self)@.vars,
                    self@.cursor,
                    e@,
                ),
            ensures
                self.wf(),
                self@.tokens == old(self)@.tokens,
                self@.vars == old(self)@.vars,
                self@.tree == old(self)@.tree,
                old(self)@.cursor < self@.cursor <= old(self)@.tokens.len(),
                spec_term(old(self)@.tokens, old(self)@.vars, old(self)@.cursor) == Ok::<
                    (ExprV, int),
                    ParseErrorV,
                >((e@, self@.cursor)),
            decreases remaining(old(self)@.tokens, self@.cursor),
        {
            let m = self.match_kind2(&TokenType::OpPlus, &TokenType::OpMinus)?;
            if !m {
                break ;
            }
            let op = self.prev().clone();
            let right = self.factor()?;
            e = Expr::Binary(Box::new(e), op, Box::new(right));
        }
        Ok(e)
    }

    /// factor := unary (('*'|'/') unary)*
    fn factor(&mut self) -> (r: Result<Expr, ParseError>)
        requires
            old(self).wf(),
        ensures
            final(self)@.tokens == old(self)@.tokens,
            final(self)@.tree == old(self)@.tree,
            final(self)@.vars == old(self)@.vars,
            old(self)@.cursor <= final(self)@.cursor <= old(self)@.tokens.len(),
            match spec_factor(old(self)@.tokens, old(self)@.vars, old(self)@.cursor) {
                Ok((ev, c)) => r matches Ok(e) && e@ == ev && final(self)@.cursor == c && c > old(self)@.cursor,
                Err(ev) => r matches Err(e) && e@ == ev,
            },
        decreases remaining(old(self)@.tokens, old(self)@.cursor), 6int,
    {
        let mut e = self.unary()?;
        loop
            invariant
                self.wf(),
                self@.tokens == old(self)@.tokens,
                self@.vars == old(self)@.vars,
                self@.tree == old(self)@.tree,
                old(self)@.cursor < self@.cursor <= old(self)@.tokens.len(),
                spec_factor(old(self)@.tokens, old(self)@.vars, old(self)@.cursor)
                    == spec_factor_rest(
                    old(self)@.tokens,
                    old(self)@.vars,
                    self@.cursor,
                    e@,
                ),
            ensures
                self.wf(),
                self@.tokens == old(self)@.tokens,
                self@.vars == old(self)@.vars,
                self@.tree == old(self)@.tree,
                old(self)@.cursor < self@.cursor <= old(self)@.tokens.len(),
                spec_factor(old(self)@.tokens, old(self)@.vars, old(self)@.cursor) == Ok::<
                    (ExprV, int),
                    ParseErrorV,
                >((e@, self@.cursor)),
            decreases remaining(old(self)@.tokens, self@.cursor),
        {
            let m = self.match_kind2(&TokenType::OpStar, &TokenType::OpSlash)?;
            if !m {
                break ;
            }
            let op = self.prev().clone();
            let right = self.unary()?;
            e = Expr::Binary(Box::new(e), op, Box::new(right));
        }
        Ok(e)
    }

    /// unary := '-' primary | primary
    fn unary(&mut self) -> (r: Result<Expr, ParseError>)
        requires
            old(self).wf(),
        ensures
            final(self)@.tokens == old(self)@.tokens,
            final(self)@.tree == old(self)@.tree,
            final(self)@.vars == old(self)@.vars,
            old(self)@.cursor <= final(self)@.cursor <= old(self)@.tokens.len(),
            match spec_unary(old(self)@.tokens, old(self)@.vars, old(self)@.cursor) {
                Ok((ev, c)) => r matches Ok(e) && e@ == ev && final(self)@.cursor == c && c > old(self)@.cursor,
                Err(ev) => r matches Err(e) && e@ == ev,
            },
        decreases remaining(old(self)@.tokens, old(self)@.cursor), 4int,
    {
        let m = self.match_kind(&TokenType::OpMinus)?;
        if m {
            let op = self.prev().clone();
            let e = self.primary()?;
            Ok(Expr::Unary(op, Box::new(e)))
        } else {
            self.primary()
        }
    }

    /// primary := NUMLIT | '(' expr ')' | IDENT
    fn primary(&mut self) -> (r: Result<Expr, ParseError>)
        requires
            old(self).wf(),
        ensures
            final(self)@.tokens == old(self)@.tokens,
            final(self)@.tree == old(self)@.tree,
            final(self)@.vars == old(self)@.vars,
            old(self)@.cursor <= final(self)@.cursor <= old(self)@.tokens.len(),
            match spec_primary(old(self)@.tokens, old(self)@.vars, old(self)@.cursor) {
                Ok((ev, c)) => r matches Ok(e) && e@ == ev && final(self)@.cursor == c && c > old(self)@.cursor,
                Err(ev) => r matches Err(e) && e@ == ev,
            },
        decreases remaining(old(self)@.tokens, old(self)@.cursor), 3int,
    {
        let token = self.consume()?;
        match &token.ttype {
            TokenType::Eof => Err(ParseError::UnexpectedEof(token.loc.clone())),
            TokenType::NumLit(_) => Ok(Expr::Literal(token)),
            TokenType::ParenLeft => {
                let e = self.expr()?;
                let t2 = self.consume()?;
                if !matches!(&t2.ttype, TokenType::ParenRight) {
                    return Err(ParseError::UnmatchingBrace(token.loc));
                }
                Ok(Expr::Grouping(Box::new(e)))
            },
            TokenType::ParenRight => Err(ParseError::UnmatchingBrace(token.loc.clone())),
            TokenType::Ident(id) => match self.find_var(id) {
                None => Err(ParseError::UnknownVariable(token.loc.clone())),
                Some(var) => Ok(Expr::Variable(var, token.loc.clone())),
            },
            _ => Err(ParseError::UnexpectedToken(token.loc.clone())),
        }
    }

    /// The first declared variable of this name, if any.
    fn find_var(&self, name: &String) -> (r: Option<Variable>)
        ensures
            match r {
                Some(v) => spec_contains_var(self@.vars, name@) && v@ == name@,
                None => !spec_contains_var(self@.vars, name@),
            },
    {
        let n = self.variables.len();
        let mut i: usize = 0;
        while i < n
            invariant
                i <= n,
                n == self.variables@.len(),
                forall|j: int| 0 <= j < i ==> self@.vars[j] != name@,
            decreases n - i,
        {
            if self.variables[i].name == *name {
                proof {
                    assert(self@.vars[i as int] == name@);
                }
                return Some(self.variables[i].clone());
            }
            i = i + 1;
        }
        None
    }

    /// Consumes the current token if it has the kind of `k`.
    fn match_kind(&mut self, k: &TokenType) -> (r: Result<bool, ParseError>)
        requires
            old(self).wf(),
        ensures
            final(self)@.tokens == old(self)@.tokens,
            final(self)@.tree == old(self)@.tree,
            final(self)@.vars == old(self)@.vars,
            old(self)@.cursor <= final(self)@.cursor <= old(self)@.tokens.len(),
            match spec_match1(old(self)@.tokens, old(self)@.cursor, k@) {
                Ok((b, c)) => r matches Ok(rb) && rb == b && final(self)@.cursor == c,
                Err(ev) => r matches Err(e) && e@ == ev && final(self)@.cursor == old(self)@.cursor,
            },
    {
        let is_match = {
            let t = self.peek()?;
            if matches!(&t.ttype, TokenType::Eof) {
                false
            } else {
                t.ttype == *k
            }
        };
        if is_match {
            proof {
                vstd::std_specs::vec::axiom_spec_len(&self.tokens);
            }
            self.cursor = self.cursor + 1;
        }
        Ok(is_match)
    }

    /// Consumes the current token if it has the kind of `k1` or of `k2`.
    fn match_kind2(&mut self, k1: &TokenType, k2: &TokenType) -> (r: Result<bool, ParseError>)
        requires
            old(self).wf(),
        ensures
            final(self)@.tokens == old(self)@.tokens,
            final(self)@.tree == old(self)@.tree,
            final(self)@.vars == old(self)@.vars,
            old(self)@.cursor <= final(self)@.cursor <= old(self)@.tokens.len(),
            match spec_match2(old(self)@.tokens, old(self)@.cursor, k1@, k2@) {
                Ok((b, c)) => r matches Ok(rb) && rb == b && final(self)@.cursor == c,
                Err(ev) => r matches Err(e) && e@ == ev && final(self)@.cursor == old(self)@.cursor,
            },
    {
        let m1 = self.match_kind(k1)?;
        if m1 {
            return Ok(true);
        }
        self.match_kind(k2)
    }

    /// Reads the current token; the cursor advances past it except on the
    /// end-of-input token.
    fn consume(&mut self) -> (r: Result<Token, ParseError>)
        requires
            old(self).wf(),
        ensures
            final(self)@.tokens == old(self)@.tokens,
            final(self)@.tree == old(self)@.tree,
            final(self)@.vars == old(self)@.vars,
            old(self)@.cursor <= final(self)@.cursor <= old(self)@.tokens.len(),
            match spec_consume(old(self)@.tokens, old(self)@.cursor) {
                Ok((tv, c)) => r matches Ok(t) && t@ == tv && final(self)@.cursor == c,
                Err(ev) => r matches Err(e) && e@ == ev && final(self)@.cursor == old(self)@.cursor,
            },
    {
        if self.cursor >= self.tokens.len() {
            return Err(ParseError::UnexpectedEof(self.tokens[self.cursor - 1].loc.clone()));
        }
        let t = self.tokens[self.cursor].clone();
        if !matches!(&t.ttype, TokenType::Eof) {
            self.cursor = self.cursor + 1;
        }
        Ok(t)
    }

    /// The current token, or `UnexpectedEof` past the end of the list.
    fn peek(&self) -> (r: Result<&Token, ParseError>)
        requires
            self.wf(),
        ensures
            match spec_peek(self@.tokens, self@.cursor) {
                Ok(tv) => r matches Ok(t) && t@ == tv,
                Err(ev) => r matches Err(e) && e@ == ev,
            },
    {
        if self.cursor < self.tokens.len() {
            Ok(&self.tokens[self.cursor])
        } else {
            Err(ParseError::UnexpectedEof(self.tokens[self.cursor - 1].loc.clone()))
        }
    }

    /// The token before the cursor.
    fn prev(&self) -> (r: &Token)
        requires
            1 <= self@.cursor <= self@.tokens.len(),
        ensures
            r@ == self@.tokens[self@.cursor - 1],
    {
        &self.tokens[self.cursor - 1]
    }
}

} // verus!
