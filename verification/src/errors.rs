use vstd::prelude::*;

use crate::tokens::Loc;
use crate::tokens::LocV;

verus! {

/// Errors of the lexical pass. Each carries the location of the offending
/// lexeme; lexing stops at the first one.
#[derive(Debug, PartialEq)]
pub enum LexError {
    MalformedNumLit(Loc),
    UnknownLexem(Loc),
}

/// Mathematical image of a `LexError`.
pub ghost enum LexErrorV {
    MalformedNumLit(LocV),
    UnknownLexem(LocV),
}

impl View for LexError {
    type V = LexErrorV;

    open spec fn view(&self) -> LexErrorV {
        match self {
            LexError::MalformedNumLit(loc) => LexErrorV::MalformedNumLit(loc@),
            LexError::UnknownLexem(loc) => LexErrorV::UnknownLexem(loc@),
        }
    }
}

/// Errors of the parsing pass; parsing stops at the first one.
#[derive(Debug, PartialEq)]
pub enum ParseError {
    UnexpectedEof(Loc),
    UnmatchingBrace(Loc),
    UnexpectedToken(Loc),
    ExpectedSemi(Loc),
    ExpectedParen(Loc),
    ExpectedIdent(Loc),
    ExpectedAssign(Loc),
    UnknownVariable(Loc),
}

/// Mathematical image of a `ParseError`.
pub ghost enum ParseErrorV {
    UnexpectedEof(LocV),
    UnmatchingBrace(LocV),
    UnexpectedToken(LocV),
    ExpectedSemi(LocV),
    ExpectedParen(LocV),
    ExpectedIdent(LocV),
    ExpectedAssign(LocV),
    UnknownVariable(LocV),
}

impl View for ParseError {
    type V = ParseErrorV;

    open spec fn view(&self) -> ParseErrorV {
        match self {
            ParseError::UnexpectedEof(loc) => ParseErrorV::UnexpectedEof(loc@),
            ParseError::UnmatchingBrace(loc) => ParseErrorV::UnmatchingBrace(loc@),
            ParseError::UnexpectedToken(loc) => ParseErrorV::UnexpectedToken(loc@),
            ParseError::ExpectedSemi(loc) => ParseErrorV::ExpectedSemi(loc@),
            ParseError::ExpectedParen(loc) => ParseErrorV::ExpectedParen(loc@),
            ParseError::ExpectedIdent(loc) => ParseErrorV::ExpectedIdent(loc@),
            ParseError::ExpectedAssign(loc) => ParseErrorV::ExpectedAssign(loc@),
            ParseError::UnknownVariable(loc) => ParseErrorV::UnknownVariable(loc@),
        }
    }
}

/// Errors of the bytecode compiler. `FileError` carries the output file's
/// name and the host's description of the failed write; it is produced by
/// the part of the driver that puts the compiled image on disk, never by
/// the compiler itself.
#[derive(Debug, PartialEq)]
pub enum CompileError {
    FileError(String, String),
    ExpectedOp(Loc),
    ConstTableOverflow,
    UninitializedVar(Loc),
}

/// Mathematical image of a `CompileError`.
pub ghost enum CompileErrorV {
    FileError(Seq<char>, Seq<char>),
    ExpectedOp(LocV),
    ConstTableOverflow,
    UninitializedVar(LocV),
}

impl View for CompileError {
    type V = CompileErrorV;

    open spec fn view(&self) -> CompileErrorV {
        match self {
            CompileError::FileError(name, msg) => CompileErrorV::FileError(name@, msg@),
            CompileError::ExpectedOp(loc) => CompileErrorV::ExpectedOp(loc@),
            CompileError::ConstTableOverflow => CompileErrorV::ConstTableOverflow,
            CompileError::UninitializedVar(loc) => CompileErrorV::UninitializedVar(loc@),
        }
    }
}

/// Errors met while loading a bytecode image's constant pool.
#[derive(Debug, Clone, Copy, PartialEq, Eq, Structural)]
pub enum BytecodeError {
    UnexpectedEof,
    IncorrectRep,
}

/// Errors met while executing bytecode. The first six mirror the classic
/// failure modes of the fetch-decode-execute loop; `InvalidSlotIndex` is a
/// store or load outside the contiguously grown slot array, and
/// `InvalidJump` is a backward jump past the start of the program. Both of
/// the latter are representation-integrity violations of the image.
#[derive(Debug, Clone, Copy, PartialEq, Eq, Structural)]
pub enum InterpretationError {
    OpcodeError,
    UnexpectedEndError,
    BadConstsIndexError,
    EmptyStackError,
    ZeroDivisionError,
    UnknownBuiltin,
    InvalidSlotIndex,
    InvalidJump,
}

/// Errors of command-line argument handling.
#[derive(Debug, PartialEq)]
pub enum CliError {
    UnknownCommand(String),
    NoCommand,
    NoInputFile,
    IncorrectParam(String, String),
}

/// Mathematical image of a `CliError`.
pub ghost enum CliErrorV {
    UnknownCommand(Seq<char>),
    NoCommand,
    NoInputFile,
    IncorrectParam(Seq<char>, Seq<char>),
}

impl View for CliError {
    type V = CliErrorV;

    open spec fn view(&self) -> CliErrorV {
        match self {
            CliError::UnknownCommand(c) => CliErrorV::UnknownCommand(c@),
            CliError::NoCommand => CliErrorV::NoCommand,
            CliError::NoInputFile => CliErrorV::NoInputFile,
            CliError::IncorrectParam(c, p) => CliErrorV::IncorrectParam(c@, p@),
        }
    }
}

/// The one error type the driver hands to the user: every stage's error,
/// wrapped.
#[derive(Debug, PartialEq)]
pub enum HammerError {
    Cli(CliError),
    Compile(CompileError),
    Lex(LexError),
    Parse(ParseError),
    Interp(InterpretationError),
    Bytecode(BytecodeError),
}

} // verus!
