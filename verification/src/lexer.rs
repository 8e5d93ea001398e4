use vstd::prelude::*;

use crate::errors::LexError;
use crate::errors::LexErrorV;
use crate::tokens::BIn;
use crate::tokens::Kw;
use crate::tokens::Loc;
use crate::tokens::LocV;
use crate::tokens::Token;
use crate::tokens::TokenType;
use crate::tokens::TokenTypeV;
use crate::tokens::TokenV;
use crate::tokens::tokens_view;
use crate::value::num_lit_bits;
use crate::value::parse_num_lit;

verus! {

/// Whether the Unicode property `Alphabetic` holds of `c`.
pub uninterp spec fn alphabetic(c: char) -> bool;

/// Relies on `char::is_alphabetic`: a fixed classification of each
/// character.
#[verifier::external_body]
fn is_alphabetic_ch(c: char) -> (r: bool)
    ensures
        r == alphabetic(c),
{
    c.is_alphabetic()
}

/// Whether `c` is alphanumeric in the Unicode sense.
pub uninterp spec fn alphanumeric(c: char) -> bool;

/// Relies on `char::is_alphanumeric`: a fixed classification of each
/// character.
#[verifier::external_body]
fn is_alphanumeric_ch(c: char) -> (r: bool)
    ensures
        r == alphanumeric(c),
{
    c.is_alphanumeric()
}

/// Whether `c` has the Unicode property `White_Space`.
pub uninterp spec fn whitespace(c: char) -> bool;

/// Relies on `char::is_whitespace`: a fixed classification of each
/// character.
#[verifier::external_body]
fn is_whitespace_ch(c: char) -> (r: bool)
    ensures
        r == whitespace(c),
{
    c.is_whitespace()
}

/// Relies on `str::chars`: the characters of a string slice, in order,
/// as a vector.
#[verifier::external_body]
pub(crate) fn chars_of(s: &str) -> (r: Vec<char>)
    ensures
        r@ == s@,
{
    s.chars().collect()
}

/// Relies on `String`'s `FromIterator` over `char`: the string holding
/// exactly these characters.
#[verifier::external_body]
pub(crate) fn string_from_chars(buf: &Vec<char>) -> (r: String)
    ensures
        r@ == buf@,
{
    buf.iter().collect()
}

/// An ASCII decimal digit.
pub open spec fn ascii_digit(c: char) -> bool {
    48 <= c as u32 <= 57
}

fn is_ascii_digit_ch(c: char) -> (r: bool)
    ensures
        r == ascii_digit(c),
{
    let d = c as u32;
    48 <= d && d <= 57
}

/// A character a numeric literal's run may contain after its leading
/// digit.
pub open spec fn num_char(c: char) -> bool {
    ascii_digit(c) || c == '.' || c == '-'
}

fn is_num_char_ch(c: char) -> (r: bool)
    ensures
        r == num_char(c),
{
    is_ascii_digit_ch(c) || c == '.' || c == '-'
}

/// Where the greedy alphanumeric run that begins at `j` ends.
pub open spec fn ident_end(cs: Seq<char>, j: int) -> int
    decreases cs.len() - j,
{
    if 0 <= j < cs.len() && alphanumeric(cs[j]) {
        ident_end(cs, j + 1)
    } else {
        j
    }
}

/// Where the greedy numeric run that begins at `j` ends.
pub open spec fn num_end(cs: Seq<char>, j: int) -> int
    decreases cs.len() - j,
{
    if 0 <= j < cs.len() && num_char(cs[j]) {
        num_end(cs, j + 1)
    } else {
        j
    }
}

/// The location a token or error created at scanner state `(line, col)`
/// carries: both counters stored 1-based.
pub open spec fn locv(file: Seq<char>, line: nat, col: nat) -> LocV {
    LocV { file, line: line + 1, col: col + 1 }
}

/// How a completed word resolves: against the fixed keyword and builtin
/// table first, and to an identifier otherwise.
pub open spec fn ident_ttype(buf: Seq<char>) -> TokenTypeV {
    if buf == "abs"@ {
        TokenTypeV::Builtin(BIn::Abs)
    } else if buf == "println"@ {
        TokenTypeV::Builtin(BIn::Println)
    } else if buf == "let"@ {
        TokenTypeV::Keyword(Kw::Let)
    } else {
        TokenTypeV::Ident(buf)
    }
}

/// The tokens the scan yields from position `i` in state `(line, col,
/// in_comment)`, ending with the end-of-input token, or the first error.
pub open spec fn lex_from(
    cs: Seq<char>,
    file: Seq<char>,
    i: int,
    line: nat,
    col: nat,
    in_comment: bool,
) -> Result<Seq<TokenV>, LexErrorV>
    decreases cs.len() - i, 1int,
{
    if !(0 <= i < cs.len()) {
        Ok(seq![TokenV { ttype: TokenTypeV::Eof, loc: locv(file, line, col) }])
    } else {
        let c = cs[i];
        if in_comment {
            if c == '\n' {
                lex_from(cs, file, i + 1, line + 1, 0, false)
            } else {
                lex_from(cs, file, i + 1, line, col + 1, true)
            }
        } else if c == '\n' {
            lex_from(cs, file, i + 1, line + 1, 0, false)
        } else if whitespace(c) {
            lex_from(cs, file, i + 1, line, col + 1, false)
        } else if alphabetic(c) {
            let j0 = ident_end(cs, i + 1);
            // the run never moves backward nor past the end; the bounds
            // keep the recursion well-founded
            let j = if j0 < i + 1 {
                i + 1
            } else if j0 > cs.len() {
                cs.len() as int
            } else {
                j0
            };
            let t = TokenV { ttype: ident_ttype(cs.subrange(i, j)), loc: locv(file, line, col) };
            match lex_from(cs, file, j, line, col + (j - i) as nat, false) {
                Ok(rest) => Ok(seq![t] + rest),
                Err(e) => Err(e),
            }
        } else if ascii_digit(c) {
            let j0 = num_end(cs, i + 1);
            let j = if j0 < i + 1 {
                i + 1
            } else if j0 > cs.len() {
                cs.len() as int
            } else {
                j0
            };
            match num_lit_bits(cs.subrange(i, j)) {
                Some(v) => {
                    let t = TokenV { ttype: TokenTypeV::NumLit(v), loc: locv(file, line, col) };
                    match lex_from(cs, file, j, line, col + (j - i) as nat, false) {
                        Ok(rest) => Ok(seq![t] + rest),
                        Err(e) => Err(e),
                    }
                },
                None => Err(LexErrorV::MalformedNumLit(locv(file, line, col))),
            }
        } else if c == '=' {
            lex_punct(cs, file, i, line, col, TokenTypeV::Assign)
        } else if c == '+' {
            lex_punct(cs, file, i, line, col, TokenTypeV::OpPlus)
        } else if c == '-' {
            lex_punct(cs, file, i, line, col, TokenTypeV::OpMinus)
        } else if c == '*' {
            lex_punct(cs, file, i, line, col, TokenTypeV::OpStar)
        } else if c == '/' {
            if i + 1 < cs.len() && cs[i + 1] == '/' {
                lex_from(cs, file, i + 1, line, col + 2, true)
            } else {
                lex_punct(cs, file, i, line, col, TokenTypeV::OpSlash)
            }
        } else if c == '(' {
            lex_punct(cs, file, i, line, col, TokenTypeV::ParenLeft)
        } else if c == ')' {
            lex_punct(cs, file, i, line, col, TokenTypeV::ParenRight)
        } else if c == ';' {
            lex_punct(cs, file, i, line, col, TokenTypeV::Semicolon)
        } else {
            Err(LexErrorV::UnknownLexem(locv(file, line, col)))
        }
    }
}

/// One single-character punctuation token, then the rest of the scan.
pub open spec fn lex_punct(
    cs: Seq<char>,
    file: Seq<char>,
    i: int,
    line: nat,
    col: nat,
    tt: TokenTypeV,
) -> Result<Seq<TokenV>, LexErrorV>
    decreases cs.len() - i, 0int,
{
    if !(0 <= i < cs.len()) {
        Err(LexErrorV::UnknownLexem(locv(file, line, col)))
    } else {
        let t = TokenV { ttype: tt, loc: locv(file, line, col) };
        match lex_from(cs, file, i + 1, line, col + 1, false) {
            Ok(rest) => Ok(seq![t] + rest),
            Err(e) => Err(e),
        }
    }
}

/// The scan's running correspondence: what the whole scan from the start
/// state yields equals the tokens built so far followed by the scan from
/// the current state.
pub open spec fn scan_inv(l0: LexerV, l: LexerV, i: int) -> bool {
    lex_prepend(l0.tokens, lex_from(l0.source, l0.file, 0, l0.line, l0.col, l0.in_comment))
        == lex_prepend(l.tokens, lex_from(l0.source, l0.file, i, l.line, l.col, l.in_comment))
}

/// Prefixing already-built tokens onto the rest of a scan.
pub open spec fn lex_prepend(pre: Seq<TokenV>, r: Result<Seq<TokenV>, LexErrorV>) -> Result<
    Seq<TokenV>,
    LexErrorV,
> {
    match r {
        Ok(rest) => Ok(pre + rest),
        Err(e) => Err(e),
    }
}

pub broadcast proof fn lemma_prepend_push(
    pre: Seq<TokenV>,
    t: TokenV,
    rest: Result<Seq<TokenV>, LexErrorV>,
)
    ensures
        #[trigger] lex_prepend(pre.push(t), rest) == lex_prepend(
            pre,
            match rest {
                Ok(rs) => Ok(seq![t] + rs),
                Err(e) => Err(e),
            },
        ),
{
    match rest {
        Ok(rs) => {
            assert(pre + (seq![t] + rs) =~= pre.push(t) + rs);
        },
        Err(e) => {},
    }
}

/// One punctuation step of the scan preserves the running
/// correspondence.
proof fn lemma_punct_step(l0: LexerV, l_pre: LexerV, l_post: LexerV, i: int, tt: TokenTypeV)
    requires
        scan_inv(l0, l_pre, i),
        0 <= i < l0.source.len(),
        l_pre.in_comment == false,
        l_pre.file == l0.file,
        lex_from(l0.source, l0.file, i, l_pre.line, l_pre.col, l_pre.in_comment) == lex_punct(
            l0.source,
            l0.file,
            i,
            l_pre.line,
            l_pre.col,
            tt,
        ),
        l_post == (LexerV {
            tokens: l_pre.tokens.push(
                TokenV { ttype: tt, loc: locv(l0.file, l_pre.line, l_pre.col) },
            ),
            col: (l_pre.col + 1) as nat,
            ..l_pre
        }),
    ensures
        scan_inv(l0, l_post, i + 1),
{
    lemma_prepend_push(
        l_pre.tokens,
        TokenV { ttype: tt, loc: locv(l0.file, l_pre.line, l_pre.col) },
        lex_from(l0.source, l0.file, i + 1, l_pre.line, (l_pre.col + 1) as nat, false),
    );
}

/// The lexer: the source text, the tokens built so far, and the
/// scanner's line, column and comment state.
pub struct Lexer {
    source: String,
    tokens: Vec<Token>,
    file: String,
    line: usize,
    col: usize,
    in_comment: bool,
}

/// Mathematical image of the lexer's whole state.
pub ghost struct LexerV {
    pub source: Seq<char>,
    pub tokens: Seq<TokenV>,
    pub file: Seq<char>,
    pub line: nat,
    pub col: nat,
    pub in_comment: bool,
}

impl View for Lexer {
    type V = LexerV;

    closed spec fn view(&self) -> LexerV {
        LexerV {
            source: self.source@,
            tokens: tokens_view(self.tokens@),
            file: self.file@,
            line: self.line as nat,
            col: self.col as nat,
            in_comment: self.in_comment,
        }
    }
}

impl Lexer {
    pub fn new(file: String, source: String) -> (r: Self)
        ensures
            r@ == (LexerV {
                source: source@,
                tokens: Seq::<TokenV>::empty(),
                file: file@,
                line: 0,
                col: 0,
                in_comment: false,
            }),
    {
        let r = Self { source, tokens: Vec::new(), file, line: 0, col: 0, in_comment: false };
        proof {
            assert(tokens_view(r.tokens@) =~= Seq::<TokenV>::empty());
        }
        r
    }

    /// The token list built so far.
    pub fn tokens(&self) -> (r: &Vec<Token>)
        ensures
            tokens_view(r@) == self@.tokens,
    {
        &self.tokens
    }

    /// Scans the whole source text once, left to right, appending the
    /// token sequence that `lex_from` describes, or stops at the first
    /// bad lexeme. The counter bounds keep the 1-based location
    /// arithmetic within the machine's integers.
    pub fn lex(&mut self) -> (r: Result<(), LexError>)
        requires
            old(self)@.col + 2 * old(self)@.source.len() < usize::MAX,
            old(self)@.line + old(self)@.source.len() < usize::MAX,
        ensures
            final(self)@.source == old(self)@.source,
            final(self)@.file == old(self)@.file,
            match lex_from(
                old(self)@.source,
                old(self)@.file,
                0,
                old(self)@.line,
                old(self)@.col,
                old(self)@.in_comment,
            ) {
                Ok(ts) => r matches Ok(()) && final(self)@.tokens == old(self)@.tokens + ts,
                Err(ev) => r matches Err(e) && e@ == ev,
            },
    {
        broadcast use lemma_prepend_push;

        let cs = chars_of(self.source.as_str());
        let n = cs.len();
        let mut i: usize = 0;
        loop
            invariant
                i <= n,
                n == cs@.len(),
                cs@ == old(self)@.source,
                self@.source == old(self)@.source,
                self@.file == old(self)@.file,
                self@.col + 2 * (n - i) < usize::MAX,
                self@.line + (n - i) < usize::MAX,
                scan_inv(old(self)@, self@, i as int),
            ensures
                i == n,
                self@.source == old(self)@.source,
                self@.file == old(self)@.file,
                self@.line < usize::MAX,
                self@.col < usize::MAX,
                scan_inv(old(self)@, self@, i as int),
            decreases n - i,
        {
            broadcast use lemma_prepend_push;

            if i >= n {
                break ;
            }
            let c = cs[i];
            if self.in_comment {
                if c == '\n' {
                    self.in_comment = false;
                    self.line = self.line + 1;
                    self.col = 0;
                } else {
                    self.col = self.col + 1;
                }
                i = i + 1;
            } else if c == '\n' {
                self.line = self.line + 1;
                self.col = 0;
                i = i + 1;
            } else if is_whitespace_ch(c) {
                self.col = self.col + 1;
                i = i + 1;
            } else if is_alphabetic_ch(c) {
                let j = Self::scan_ident(&cs, i);
                let buf = Self::collect_range(&cs, i, j);
                let tt = Self::resolve_word(&buf);
                self.push_token(tt);
                self.col = self.col + (j - i);
                i = j;
            } else if is_ascii_digit_ch(c) {
                let j = Self::scan_num(&cs, i);
                let buf = Self::collect_range(&cs, i, j);
                match parse_num_lit(&buf) {
                    Some(v) => {
                        self.push_token(TokenType::NumLit(v));
                        self.col = self.col + (j - i);
                        i = j;
                    },
                    None => {
                        return Err(
                            LexError::MalformedNumLit(
                                Loc::new(self.file.clone(), self.line, self.col),
                            ),
                        );
                    },
                }
            } else if c == '=' {
                let ghost l_pre = self@;
                let ghost i0 = i as int;
                self.punct(TokenType::Assign);
                i = i + 1;
                proof {
                    lemma_punct_step(old(self)@, l_pre, self@, i0, TokenTypeV::Assign);
                }
            } else if c == '+' {
                let ghost l_pre = self@;
                let ghost i0 = i as int;
                self.punct(TokenType::OpPlus);
                i = i + 1;
                proof {
                    lemma_punct_step(old(self)@, l_pre, self@, i0, TokenTypeV::OpPlus);
                }
            } else if c == '-' {
                let ghost l_pre = self@;
                let ghost i0 = i as int;
                self.punct(TokenType::OpMinus);
                i = i + 1;
                proof {
                    lemma_punct_step(old(self)@, l_pre, self@, i0, TokenTypeV::OpMinus);
                }
            } else if c == '*' {
                let ghost l_pre = self@;
                let ghost i0 = i as int;
                self.punct(TokenType::OpStar);
                i = i + 1;
                proof {
                    lemma_punct_step(old(self)@, l_pre, self@, i0, TokenTypeV::OpStar);
                }
            } else if c == '/' {
                if i + 1 < n && cs[i + 1] == '/' {
                    self.in_comment = true;
                    self.col = self.col + 2;
                    i = i + 1;
                    proof {
                        assert(scan_inv(old(self)@, self@, i as int));
                    }
                } else {
                    let ghost l_pre = self@;
                    let ghost i0 = i as int;
                    self.punct(TokenType::OpSlash);
                    i = i + 1;
                    proof {
                        lemma_punct_step(old(self)@, l_pre, self@, i0, TokenTypeV::OpSlash);
                    }
                }
            } else if c == '(' {
                let ghost l_pre = self@;
                let ghost i0 = i as int;
                self.punct(TokenType::ParenLeft);
                i = i + 1;
                proof {
                    lemma_punct_step(old(self)@, l_pre, self@, i0, TokenTypeV::ParenLeft);
                }
            } else if c == ')' {
                let ghost l_pre = self@;
                let ghost i0 = i as int;
                self.punct(TokenType::ParenRight);
                i = i + 1;
                proof {
                    lemma_punct_step(old(self)@, l_pre, self@, i0, TokenTypeV::ParenRight);
                }
            } else if c == ';' {
                let ghost l_pre = self@;
                let ghost i0 = i as int;
                self.punct(TokenType::Semicolon);
                i = i + 1;
                proof {
                    lemma_punct_step(old(self)@, l_pre, self@, i0, TokenTypeV::Semicolon);
                }
            } else {
                return Err(
                    LexError::UnknownLexem(Loc::new(self.file.clone(), self.line, self.col)),
                );
            }
        }
        let ghost pre = self@.tokens;
        self.push_token(TokenType::Eof);
        proof {
            assert(pre + seq![
                TokenV { ttype: TokenTypeV::Eof, loc: locv(self@.file, self@.line, self@.col) },
            ] =~= pre.push(
                TokenV { ttype: TokenTypeV::Eof, loc: locv(self@.file, self@.line, self@.col) },
            ));
        }
        Ok(())
    }

    /// One single-character token at the current spot; the caller then
    /// advances the column.
    fn punct(&mut self, tt: TokenType)
        requires
            old(self)@.line < usize::MAX,
            old(self)@.col + 1 < usize::MAX,
        ensures
            final(self)@ == (LexerV {
                tokens: old(self)@.tokens.push(
                    TokenV { ttype: tt@, loc: locv(old(self)@.file, old(self)@.line, old(self)@.col) },
                ),
                col: old(self)@.col + 1,
                ..old(self)@
            }),
    {
        self.push_token(tt);
        self.col = self.col + 1;
    }

    fn push_token(&mut self, tt: TokenType)
        requires
            old(self)@.line < usize::MAX,
            old(self)@.col < usize::MAX,
        ensures
            final(self)@ == (LexerV {
                tokens: old(self)@.tokens.push(
                    TokenV { ttype: tt@, loc: locv(old(self)@.file, old(self)@.line, old(self)@.col) },
                ),
                ..old(self)@
            }),
    {
        let ghost ttv = tt@;
        let t = Token::new(tt, Loc::new(self.file.clone(), self.line, self.col));
        self.tokens.push(t);
        proof {
            assert(tokens_view(self.tokens@) =~= old(self)@.tokens.push(
                TokenV { ttype: ttv, loc: locv(old(self)@.file, old(self)@.line, old(self)@.col) },
            ));
        }
    }

    /// The end of the greedy alphanumeric run that begins after the
    /// letter at `i`.
    fn scan_ident(cs: &Vec<char>, i: usize) -> (r: usize)
        requires
            i < cs@.len(),
        ensures
            i + 1 <= r <= cs@.len(),
            r as int == ident_end(cs@, i as int + 1),
    {
        let n = cs.len();
        let mut j = i + 1;
        loop
            invariant
                i + 1 <= j <= n,
                n == cs@.len(),
                ident_end(cs@, i as int + 1) == ident_end(cs@, j as int),
            ensures
                i + 1 <= j <= n,
                ident_end(cs@, i as int + 1) == j as int,
            decreases n - j,
        {
            if j >= n {
                break ;
            }
            if !is_alphanumeric_ch(cs[j]) {
                break ;
            }
            j = j + 1;
        }
        j
    }

    /// The end of the greedy numeric run that begins after the digit at
    /// `i`.
    fn scan_num(cs: &Vec<char>, i: usize) -> (r: usize)
        requires
            i < cs@.len(),
        ensures
            i + 1 <= r <= cs@.len(),
            r as int == num_end(cs@, i as int + 1),
    {
        let n = cs.len();
        let mut j = i + 1;
        loop
            invariant
                i + 1 <= j <= n,
                n == cs@.len(),
                num_end(cs@, i as int + 1) == num_end(cs@, j as int),
            ensures
                i + 1 <= j <= n,
                num_end(cs@, i as int + 1) == j as int,
            decreases n - j,
        {
            if j >= n {
                break ;
            }
            if !is_num_char_ch(cs[j]) {
                break ;
            }
            j = j + 1;
        }
        j
    }

    /// The characters `cs[i..j]`, copied out as the token's text.
    fn collect_range(cs: &Vec<char>, i: usize, j: usize) -> (r: Vec<char>)
        requires
            i <= j <= cs@.len(),
        ensures
            r@ == cs@.subrange(i as int, j as int),
    {
        let mut buf: Vec<char> = Vec::new();
        let mut k = i;
        while k < j
            invariant
                i <= k <= j <= cs@.len(),
                buf@ == cs@.subrange(i as int, k as int),
            decreases j - k,
        {
            buf.push(cs[k]);
            proof {
                assert(buf@ =~= cs@.subrange(i as int, k as int + 1));
            }
            k = k + 1;
        }
        buf
    }

    /// Resolves a completed word against the keyword and builtin table.
    fn resolve_word(buf: &Vec<char>) -> (r: TokenType)
        ensures
            r@ == ident_ttype(buf@),
    {
        if Self::word_is(buf, "abs") {
            TokenType::Builtin(BIn::Abs)
        } else if Self::word_is(buf, "println") {
            TokenType::Builtin(BIn::Println)
        } else if Self::word_is(buf, "let") {
            TokenType::Keyword(Kw::Let)
        } else {
            TokenType::Ident(string_from_chars(buf))
        }
    }

    /// Whether the buffered word is exactly `w`.
    fn word_is(buf: &Vec<char>, w: &str) -> (r: bool)
        ensures
            r == (buf@ == w@),
    {
        let wc = chars_of(w);
        let n = buf.len();
        if n != wc.len() {
            proof {
                assert(buf@ != w@);
            }
            return false;
        }
        let mut k: usize = 0;
        while k < n
            invariant
                k <= n,
                n == buf@.len(),
                n == wc@.len(),
                wc@ == w@,
                forall|x: int| 0 <= x < k ==> buf@[x] == w@[x],
            decreases n - k,
        {
            if buf[k] != wc[k] {
                return false;
            }
            k = k + 1;
        }
        proof {
            assert(buf@ =~= w@);
        }
        true
    }
}

} // verus!
