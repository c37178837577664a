//! The single-pass compiler: tokens in, a compiled program out.
//!
//! A Pratt (precedence-climbing) parser drives compilation, emitting
//! bytecode into the chunk of the function being compiled as it consumes
//! tokens; there is no intermediate syntax tree. A stack of `Resolver`s, one
//! per enclosing function literal, carries the lexical-scope bookkeeping:
//! the locals of each function, its scope depth, and the upvalues it
//! captures from enclosing functions.

use vstd::prelude::*;
use crate::bytes::{bytes_equal, copy_range, concat_bytes, text_bytes, dec_of_u64, dec_digits};
use vstd::string::StringSliceAdditionalSpecFns;
use crate::chunk::{Function, OpCode, Program, chunk_ok, CODE_LIMIT};
use crate::numbers::num_of_decimal;
use crate::scanner::{Scanner, Token, TokenType, token_ok};
use crate::value::Value;

verus! {

/// The most locals one function may hold, so a stack slot index fits in the
/// 32-bit operand of `GetLocal` and `SetLocal`.
pub const LOCAL_LIMIT: usize = 0xffff_ff00;

/// The most upvalues one function may capture, so an upvalue index fits in
/// the 32-bit operand of `GetUpvalue` and `SetUpvalue`.
pub const UPVALUE_LIMIT: usize = 0xffff_ff00;

/// What a resolver is tracking: the top-level script, or a function literal.
#[derive(Clone, Copy, PartialEq, Eq, Structural, Debug)]
pub enum FunctionType {
    Script,
    Function,
}

/// A declared local variable: its name, the scope depth it was declared at
/// (none while its own initializer is being parsed), and whether some nested
/// function captures it.
#[derive(Clone, Debug)]
pub struct Local {
    pub name: Vec<u8>,
    pub depth: Option<u32>,
    pub is_captured: bool,
}

/// How a function reaches one captured variable: a stack slot of the
/// enclosing function (`is_local`), or an upvalue of the enclosing function.
#[derive(Clone, Copy, PartialEq, Eq, Structural, Debug)]
pub struct UpvalueRef {
    pub is_local: bool,
    pub index: u32,
}

/// The compilation context of one function under construction.
pub struct Resolver {
    pub locals: Vec<Local>,
    pub upvalues: Vec<UpvalueRef>,
    pub scope_depth: u32,
    pub kind: FunctionType,
    pub func: Function,
}

impl Resolver {
    /// Bookkeeping the compiler relies on: the chunk stays well-formed, the
    /// upvalue count mirrors the descriptor list, and both tables stay small
    /// enough for 32-bit operands.
    pub open spec fn wf(self) -> bool {
        &&& self.func.chunk.wf()
        &&& self.upvalues@.len() == self.func.upvalue_count
        &&& self.upvalues@.len() <= UPVALUE_LIMIT
        &&& self.locals@.len() <= LOCAL_LIMIT
    }

    /// A fresh context for the top-level script. Slot 0 is reserved for the
    /// running closure itself, under a name no identifier can have; slot 1
    /// predeclares the built-in `clock`, whose value the virtual machine
    /// provides at startup.
    pub fn new() -> (r: Resolver)
        ensures
            r.wf(),
            r.kind == FunctionType::Script,
            r.locals@.len() == 2,
            r.upvalues@.len() == 0,
            r.scope_depth == 0,
            r.func.chunk.code@.len() == 0,
            r.func.chunk.constants@.len() == 0,
            r.func.upvalue_count == 0,
            r.func.arity == 0,
            r.func.name@ == "<script>".spec_bytes(),
    {
        let mut locals: Vec<Local> = Vec::new();
        locals.push(Local { name: Vec::new(), depth: Some(0), is_captured: false });
        locals.push(Local { name: text_bytes("clock"), depth: Some(0), is_captured: false });
        Resolver {
            locals,
            upvalues: Vec::new(),
            scope_depth: 0,
            kind: FunctionType::Script,
            func: Function::new(0, text_bytes("<script>")),
        }
    }

    /// A fresh context for a function literal with the given name.
    pub fn for_function(name: Vec<u8>) -> (r: Resolver)
        ensures
            r.wf(),
            r.kind == FunctionType::Function,
            r.locals@.len() == 1,
            r.upvalues@.len() == 0,
            r.scope_depth == 0,
            r.func.chunk.code@.len() == 0,
            r.func.chunk.constants@.len() == 0,
    {
        let mut locals: Vec<Local> = Vec::new();
        locals.push(Local { name: Vec::new(), depth: Some(0), is_captured: false });
        Resolver {
            locals,
            upvalues: Vec::new(),
            scope_depth: 0,
            kind: FunctionType::Function,
            func: Function::new(0, name),
        }
    }

    /// Open a scope. Refused only when the depth counter would overflow.
    pub fn begin_scope(&mut self) -> (ok: bool)
        ensures
            final(self).locals == old(self).locals,
            final(self).upvalues == old(self).upvalues,
            final(self).kind == old(self).kind,
            final(self).func == old(self).func,
            ok == (old(self).scope_depth < u32::MAX),
            ok ==> final(self).scope_depth == old(self).scope_depth + 1,
            !ok ==> *final(self) == *old(self),
    {
        if self.scope_depth < u32::MAX {
            self.scope_depth = self.scope_depth + 1;
            true
        } else {
            false
        }
    }

    /// Close the innermost scope, dropping exactly the locals declared
    /// deeper than the new depth, and return how many were dropped (each
    /// needs a `Pop` at runtime).
    pub fn end_scope(&mut self) -> (npop: usize)
        requires
            old(self).wf(),
        ensures
            final(self).wf(),
            final(self).upvalues == old(self).upvalues,
            final(self).kind == old(self).kind,
            final(self).func == old(self).func,
            final(self).scope_depth == (if old(self).scope_depth > 0 {
                (old(self).scope_depth - 1) as u32
            } else {
                0u32
            }),
            final(self).locals@ == old(self).locals@.take(
                retained_locals(old(self).locals@, final(self).scope_depth),
            ),
            final(self).locals@.len() + npop == old(self).locals@.len(),
    {
        if self.scope_depth > 0 {
            self.scope_depth = self.scope_depth - 1;
        }
        let depth = self.scope_depth;
        let mut npop: usize = 0;
        proof {
            assert(self.locals@.take(self.locals@.len() as int) =~= self.locals@);
        }
        loop
            invariant
                self.wf(),
                self.upvalues == old(self).upvalues,
                self.kind == old(self).kind,
                self.func == old(self).func,
                self.scope_depth == depth,
                self.locals@.len() + npop == old(self).locals@.len(),
                self.locals@.len() + npop <= LOCAL_LIMIT,
                self.locals@ == old(self).locals@.take(self.locals@.len() as int),
                retained_locals(old(self).locals@, depth) == retained_locals(self.locals@, depth),
            ensures
                self.wf(),
                self.upvalues == old(self).upvalues,
                self.kind == old(self).kind,
                self.func == old(self).func,
                self.scope_depth == depth,
                self.locals@.len() + npop == old(self).locals@.len(),
                self.locals@ == old(self).locals@.take(self.locals@.len() as int),
                retained_locals(old(self).locals@, depth) == self.locals@.len(),
            decreases self.locals@.len(),
        {
            let n = self.locals.len();
            if n == 0 {
                break;
            }
            let drop_it = match self.locals[n - 1].depth {
                Some(d) => d > self.scope_depth,
                None => false,
            };
            if !drop_it {
                break;
            }
            self.locals.pop();
            proof {
                assert(self.locals@ =~= old(self).locals@.take(self.locals@.len() as int));
            }
            npop = npop + 1;
        }
        npop
    }

    /// Whether `name` is already declared in the innermost scope.
    pub fn already_declared(&self, name: &Vec<u8>) -> (r: bool)
        ensures
            r == exists|j: int|
                0 <= j < self.locals@.len() && (#[trigger] self.locals@[j]).name@ == name@
                    && self.locals@[j].depth == Some(self.scope_depth),
    {
        let n = self.locals.len();
        let mut i: usize = n;
        while i > 0
            invariant
                i <= n,
                n == self.locals@.len(),
                forall|j: int|
                    i <= j < n ==> !((#[trigger] self.locals@[j]).name@ == name@
                        && self.locals@[j].depth == Some(self.scope_depth)),
            decreases i,
        {
            i = i - 1;
            let same_depth = match self.locals[i].depth {
                Some(d) => d == self.scope_depth,
                None => false,
            };
            if same_depth && bytes_equal(&self.locals[i].name, name) {
                return true;
            }
        }
        false
    }
}

/// How many locals survive closing a scope down to `depth`: the whole list
/// less the run at its end of locals declared deeper than `depth`.
pub open spec fn retained_locals(locals: Seq<Local>, depth: u32) -> int
    decreases locals.len(),
{
    if locals.len() == 0 {
        0
    } else if (match locals.last().depth {
        Some(d) => d > depth,
        None => false,
    }) {
        retained_locals(locals.drop_last(), depth)
    } else {
        locals.len() as int
    }
}

/// Closing a scope keeps between none and all of the locals.
pub proof fn lemma_retained_bounds(locals: Seq<Local>, depth: u32)
    ensures
        0 <= retained_locals(locals, depth) <= locals.len(),
    decreases locals.len(),
{
    if locals.len() > 0 && (match locals.last().depth {
        Some(d) => d > depth,
        None => false,
    }) {
        lemma_retained_bounds(locals.drop_last(), depth);
    }
}

/// The slot of the innermost local called `name`, if any.
pub open spec fn find_local(locals: Seq<Local>, name: Seq<u8>) -> Option<int>
    decreases locals.len(),
{
    if locals.len() == 0 {
        None
    } else if locals[locals.len() - 1].name@ == name {
        Some(locals.len() - 1)
    } else {
        find_local(locals.drop_last(), name)
    }
}

/// Resolve `name` against a context's locals: the innermost matching slot,
/// and whether that local is initialized (a local is uninitialized only
/// while its own initializer is being parsed).
pub fn resolve_local(ctx: &Resolver, name: &Vec<u8>) -> (r: Option<(u32, bool)>)
    requires
        ctx.wf(),
    ensures
        match r {
            Some(p) => {
                &&& find_local(ctx.locals@, name@) == Some(p.0 as int)
                &&& p.0 < ctx.locals@.len()
                &&& p.1 == (ctx.locals@[p.0 as int].depth is Some)
            },
            None => find_local(ctx.locals@, name@) is None,
        },
{
    let n = ctx.locals.len();
    let mut i: usize = n;
    proof {
        assert(ctx.locals@.take(n as int) =~= ctx.locals@);
    }
    while i > 0
        invariant
            i <= n,
            n == ctx.locals@.len(),
            n <= LOCAL_LIMIT,
            find_local(ctx.locals@, name@) == find_local(ctx.locals@.take(i as int), name@),
        decreases i,
    {
        i = i - 1;
        proof {
            assert(ctx.locals@.take(i + 1 as int).drop_last() =~= ctx.locals@.take(i as int));
            assert(ctx.locals@.take(i + 1 as int).last() == ctx.locals@[i as int]);
        }
        if bytes_equal(&ctx.locals[i].name, name) {
            let initialized = match ctx.locals[i].depth {
                Some(_) => true,
                None => false,
            };
            return Some((i as u32, initialized));
        }
    }
    proof {
        assert(ctx.locals@.take(0) =~= Seq::<Local>::empty());
    }
    None
}

/// The position of descriptor `d` in an upvalue list, if it is there.
pub open spec fn find_upvalue(ups: Seq<UpvalueRef>, d: UpvalueRef) -> Option<int>
    decreases ups.len(),
{
    if ups.len() == 0 {
        None
    } else if ups[0] == d {
        Some(0int)
    } else {
        match find_upvalue(ups.drop_first(), d) {
            Some(i) => Some(i + 1),
            None => None,
        }
    }
}

/// Name resolution is a pure function of the declared locals: it answers
/// with the innermost local of that name, or with nothing when no local
/// carries it. Two references to the same binding against the same scope
/// state therefore compile to the same slot.
pub proof fn lemma_find_local_innermost(locals: Seq<Local>, name: Seq<u8>)
    ensures
        match find_local(locals, name) {
            Some(i) => 0 <= i < locals.len() && locals[i].name@ == name && (forall|j: int|
                i < j < locals.len() ==> (#[trigger] locals[j]).name@ != name),
            None => forall|j: int| 0 <= j < locals.len() ==> (#[trigger] locals[j]).name@ != name,
        },
    decreases locals.len(),
{
    if locals.len() > 0 {
        if locals[locals.len() - 1].name@ == name {
        } else {
            lemma_find_local_innermost(locals.drop_last(), name);
            assert forall|j: int|
                0 <= j < locals.len() - 1 implies locals.drop_last()[j] == locals[j] by {}
        }
    }
}

/// Adding a descriptor that is already present finds it instead: the
/// deduplication `add_upvalue` performs, stated once and for all.
pub proof fn lemma_upvalue_dedup(ups: Seq<UpvalueRef>, d: UpvalueRef)
    requires
        find_upvalue(ups, d) is None,
    ensures
        find_upvalue(ups.push(d), d) == Some(ups.len() as int),
    decreases ups.len(),
{
    if ups.len() == 0 {
        assert(ups.push(d)[0] == d);
    } else {
        assert(ups.push(d)[0] == ups[0]);
        assert(ups.push(d).drop_first() =~= ups.drop_first().push(d));
        lemma_upvalue_dedup(ups.drop_first(), d);
    }
}

/// Resolving the same captured binding twice yields one upvalue index:
/// whatever index the first reference settled on — an existing entry, or
/// the descriptor it appended — a second lookup of the same descriptor
/// against the resulting table answers with exactly that index and changes
/// nothing. With the determinism of local resolution this makes identifier
/// resolution idempotent: two references to one binding in one scope
/// compile to the same operand.
pub proof fn lemma_upvalue_resolution_idempotent(ups: Seq<UpvalueRef>, d: UpvalueRef)
    ensures
        ({
            let after = match find_upvalue(ups, d) {
                Some(_) => ups,
                None => ups.push(d),
            };
            let first = match find_upvalue(ups, d) {
                Some(i) => i,
                None => ups.len() as int,
            };
            find_upvalue(after, d) == Some(first)
        }),
{
    match find_upvalue(ups, d) {
        Some(_) => {},
        None => {
            lemma_upvalue_dedup(ups, d);
        },
    }
}

/// The expression-nesting precedence ladder, weakest first.
#[derive(Clone, Copy, PartialEq, Eq, Structural, Debug)]
pub enum Precedence {
    Lowest,
    Assignment,
    Or,
    And,
    Equality,
    Comparison,
    Term,
    Factor,
    Unary,
    Call,
    Primary,
}

/// The height of a precedence on the ladder.
pub open spec fn prec_level(p: Precedence) -> int {
    match p {
        Precedence::Lowest => 0,
        Precedence::Assignment => 1,
        Precedence::Or => 2,
        Precedence::And => 3,
        Precedence::Equality => 4,
        Precedence::Comparison => 5,
        Precedence::Term => 6,
        Precedence::Factor => 7,
        Precedence::Unary => 8,
        Precedence::Call => 9,
        Precedence::Primary => 10,
    }
}

impl Precedence {
    pub fn level(self) -> (r: u8)
        ensures
            r == prec_level(self),
    {
        match self {
            Precedence::Lowest => 0,
            Precedence::Assignment => 1,
            Precedence::Or => 2,
            Precedence::And => 3,
            Precedence::Equality => 4,
            Precedence::Comparison => 5,
            Precedence::Term => 6,
            Precedence::Factor => 7,
            Precedence::Unary => 8,
            Precedence::Call => 9,
            Precedence::Primary => 10,
        }
    }

    /// The next-tighter precedence.
    pub fn next(self) -> (r: Precedence)
        requires
            self != Precedence::Primary,
        ensures
            prec_level(r) == prec_level(self) + 1,
    {
        match self {
            Precedence::Lowest => Precedence::Assignment,
            Precedence::Assignment => Precedence::Or,
            Precedence::Or => Precedence::And,
            Precedence::And => Precedence::Equality,
            Precedence::Equality => Precedence::Comparison,
            Precedence::Comparison => Precedence::Term,
            Precedence::Term => Precedence::Factor,
            Precedence::Factor => Precedence::Unary,
            Precedence::Unary => Precedence::Call,
            Precedence::Call => Precedence::Primary,
            Precedence::Primary => Precedence::Primary,
        }
    }
}

/// The prefix role a token can play in an expression.
#[derive(Clone, Copy, PartialEq, Eq, Structural, Debug)]
pub enum Prefix {
    Unused,
    Variable,
    Grouping,
    Unary,
    Number,
    Literal,
    Text,
}

/// The infix role a token can play in an expression.
#[derive(Clone, Copy, PartialEq, Eq, Structural, Debug)]
pub enum Infix {
    Unused,
    Binary,
    Or,
    And,
    Call,
}

/// One row of the Pratt table: how a token parses as a prefix, how it parses
/// as an infix, and how tightly it binds as an infix.
#[derive(Clone, Copy, PartialEq, Eq, Structural, Debug)]
pub struct Rule {
    pub prefix: Prefix,
    pub infix: Infix,
    pub precedence: Precedence,
}

impl Rule {
    pub fn init(prefix: Prefix, infix: Infix, precedence: Precedence) -> (r: Rule)
        ensures
            r.prefix == prefix,
            r.infix == infix,
            r.precedence == precedence,
    {
        Rule { prefix, infix, precedence }
    }
}

/// The Pratt table.
pub open spec fn spec_rule(kind: TokenType) -> Rule {
    match kind {
        TokenType::LeftParen => Rule { prefix: Prefix::Grouping, infix: Infix::Call, precedence: Precedence::Call },
        TokenType::Minus => Rule { prefix: Prefix::Unary, infix: Infix::Binary, precedence: Precedence::Term },
        TokenType::Plus => Rule { prefix: Prefix::Unused, infix: Infix::Binary, precedence: Precedence::Term },
        TokenType::Slash => Rule { prefix: Prefix::Unused, infix: Infix::Binary, precedence: Precedence::Factor },
        TokenType::Star => Rule { prefix: Prefix::Unused, infix: Infix::Binary, precedence: Precedence::Factor },
        TokenType::Bang => Rule { prefix: Prefix::Unary, infix: Infix::Unused, precedence: Precedence::Lowest },
        TokenType::BangEqual => Rule { prefix: Prefix::Unused, infix: Infix::Binary, precedence: Precedence::Equality },
        TokenType::EqualEqual => Rule { prefix: Prefix::Unused, infix: Infix::Binary, precedence: Precedence::Equality },
        TokenType::Greater => Rule { prefix: Prefix::Unused, infix: Infix::Binary, precedence: Precedence::Comparison },
        TokenType::GreaterEqual => Rule { prefix: Prefix::Unused, infix: Infix::Binary, precedence: Precedence::Comparison },
        TokenType::Less => Rule { prefix: Prefix::Unused, infix: Infix::Binary, precedence: Precedence::Comparison },
        TokenType::LessEqual => Rule { prefix: Prefix::Unused, infix: Infix::Binary, precedence: Precedence::Comparison },
        TokenType::Identifier => Rule { prefix: Prefix::Variable, infix: Infix::Unused, precedence: Precedence::Lowest },
        TokenType::String => Rule { prefix: Prefix::Text, infix: Infix::Unused, precedence: Precedence::Lowest },
        TokenType::Number => Rule { prefix: Prefix::Number, infix: Infix::Unused, precedence: Precedence::Lowest },
        TokenType::And => Rule { prefix: Prefix::Unused, infix: Infix::And, precedence: Precedence::And },
        TokenType::False => Rule { prefix: Prefix::Literal, infix: Infix::Unused, precedence: Precedence::Lowest },
        TokenType::Nil => Rule { prefix: Prefix::Literal, infix: Infix::Unused, precedence: Precedence::Lowest },
        TokenType::Or => Rule { prefix: Prefix::Unused, infix: Infix::Or, precedence: Precedence::Or },
        TokenType::True => Rule { prefix: Prefix::Literal, infix: Infix::Unused, precedence: Precedence::Lowest },
        _ => Rule { prefix: Prefix::Unused, infix: Infix::Unused, precedence: Precedence::Lowest },
    }
}

/// Look up the Pratt table row for a token kind.
pub fn get_rule(kind: TokenType) -> (r: Rule)
    ensures
        r == spec_rule(kind),
{
    match kind {
        TokenType::LeftParen => Rule::init(Prefix::Grouping, Infix::Call, Precedence::Call),
        TokenType::Minus => Rule::init(Prefix::Unary, Infix::Binary, Precedence::Term),
        TokenType::Plus => Rule::init(Prefix::Unused, Infix::Binary, Precedence::Term),
        TokenType::Slash => Rule::init(Prefix::Unused, Infix::Binary, Precedence::Factor),
        TokenType::Star => Rule::init(Prefix::Unused, Infix::Binary, Precedence::Factor),
        TokenType::Bang => Rule::init(Prefix::Unary, Infix::Unused, Precedence::Lowest),
        TokenType::BangEqual => Rule::init(Prefix::Unused, Infix::Binary, Precedence::Equality),
        TokenType::EqualEqual => Rule::init(Prefix::Unused, Infix::Binary, Precedence::Equality),
        TokenType::Greater => Rule::init(Prefix::Unused, Infix::Binary, Precedence::Comparison),
        TokenType::GreaterEqual => Rule::init(Prefix::Unused, Infix::Binary, Precedence::Comparison),
        TokenType::Less => Rule::init(Prefix::Unused, Infix::Binary, Precedence::Comparison),
        TokenType::LessEqual => Rule::init(Prefix::Unused, Infix::Binary, Precedence::Comparison),
        TokenType::Identifier => Rule::init(Prefix::Variable, Infix::Unused, Precedence::Lowest),
        TokenType::String => Rule::init(Prefix::Text, Infix::Unused, Precedence::Lowest),
        TokenType::Number => Rule::init(Prefix::Number, Infix::Unused, Precedence::Lowest),
        TokenType::And => Rule::init(Prefix::Unused, Infix::And, Precedence::And),
        TokenType::False => Rule::init(Prefix::Literal, Infix::Unused, Precedence::Lowest),
        TokenType::Nil => Rule::init(Prefix::Literal, Infix::Unused, Precedence::Lowest),
        TokenType::Or => Rule::init(Prefix::Unused, Infix::Or, Precedence::Or),
        TokenType::True => Rule::init(Prefix::Literal, Infix::Unused, Precedence::Lowest),
        _ => Rule::init(Prefix::Unused, Infix::Unused, Precedence::Lowest),
    }
}

/// One compile-time complaint: the line it points at, whether it points at
/// the end of the source, the lexeme it points at (empty for a lexical
/// error), and its message.
#[derive(Debug)]
pub struct Diagnostic {
    pub line: u32,
    pub at_end: bool,
    pub lexeme: Vec<u8>,
    pub message: Vec<u8>,
}

/// The position part of a rendered diagnostic: ` at end` at the end of the
/// source, ` at 'lexeme'` at a lexeme, nothing for a lexical error.
pub open spec fn spec_position_part(at_end: bool, lexeme: Seq<u8>) -> Seq<u8> {
    if at_end {
        " at end".spec_bytes()
    } else if lexeme.len() > 0 {
        " at '".spec_bytes() + lexeme + "'".spec_bytes()
    } else {
        Seq::empty()
    }
}

impl Diagnostic {
    /// The usual rendering: `[line N] Error at 'lexeme': message`, with the
    /// position part left out for a lexical error and `at end` for the end
    /// of the source.
    pub fn render(&self) -> (r: Vec<u8>)
        ensures
            r@ == "[line ".spec_bytes() + dec_digits(self.line as nat) + "] Error".spec_bytes()
                + spec_position_part(self.at_end, self.lexeme@) + ": ".spec_bytes()
                + self.message@,
    {
        let mut out = text_bytes("[line ");
        let mut ln = dec_of_u64(self.line as u64);
        out.append(&mut ln);
        let mut rest = text_bytes("] Error");
        out.append(&mut rest);
        if self.at_end {
            let mut part = text_bytes(" at end");
            out.append(&mut part);
        } else if self.lexeme.len() > 0 {
            let mut part = text_bytes(" at '");
            out.append(&mut part);
            let mut lex = copy_range(&self.lexeme, 0, self.lexeme.len());
            out.append(&mut lex);
            let mut close = text_bytes("'");
            out.append(&mut close);
        }
        let mut colon = text_bytes(": ");
        out.append(&mut colon);
        let mut msg = copy_range(&self.message, 0, self.message.len());
        out.append(&mut msg);
        proof {
            assert(out@ =~= "[line ".spec_bytes() + dec_digits(self.line as nat)
                + "] Error".spec_bytes() + spec_position_part(self.at_end, self.lexeme@)
                + ": ".spec_bytes() + self.message@);
        }
        out
    }
}

/// The compiler state: the token list with a cursor and the usual previous
/// and current tokens, the stack of function contexts, the tables of
/// finished functions and interned strings, and the error state.
pub struct Parser {
    pub tokens: Vec<Token>,
    pub pos: usize,
    pub prev: Token,
    pub cur: Token,
    pub contexts: Vec<Resolver>,
    pub funcs: Vec<Function>,
    pub strings: Vec<Vec<u8>>,
    pub diagnostics: Vec<Diagnostic>,
    pub had_error: bool,
    pub panic_mode: bool,
}

/// The code size of the chunk being emitted into.
/// The innermost compilation context.
pub open spec fn top_ctx(p: Parser) -> Resolver {
    p.contexts@[p.contexts@.len() - 1]
}

/// The chunk being emitted into: the innermost context's.
pub open spec fn top_chunk(p: Parser) -> crate::chunk::Chunk {
    p.contexts@[p.contexts@.len() - 1].func.chunk
}

pub open spec fn top_code_len(p: Parser) -> int {
    p.contexts@[p.contexts@.len() - 1].func.chunk.code@.len() as int
}

/// What every parsing and emitting step preserves or grows: the token list
/// is fixed, the cursor and the tables only move forward, the context stack
/// keeps its depth, the current chunk only grows, and a raised error stays
/// raised.
pub open spec fn parse_frame(pre: Parser, post: Parser) -> bool {
    &&& post.tokens == pre.tokens
    &&& post.pos >= pre.pos
    &&& post.contexts@.len() == pre.contexts@.len()
    &&& post.funcs@.len() >= pre.funcs@.len()
    &&& post.strings@.len() >= pre.strings@.len()
    &&& top_code_len(post) >= top_code_len(pre)
    &&& forall|c: int|
        0 <= c < pre.contexts@.len() - 1 ==> (#[trigger] post.contexts@[c]).func.chunk
            == pre.contexts@[c].func.chunk
    &&& (pre.had_error ==> post.had_error)
}

impl Parser {
    pub open spec fn wf(self) -> bool {
        &&& self.tokens@.len() >= 1
        &&& self.tokens@[self.tokens@.len() - 1].kind == TokenType::Eof
        &&& forall|i: int| 0 <= i < self.tokens@.len() ==> token_ok(#[trigger] self.tokens@[i])
        &&& self.pos <= self.tokens@.len()
        &&& (self.pos == self.tokens@.len() ==> self.cur.kind == TokenType::Eof)
        &&& self.cur.kind != TokenType::Error
        &&& token_ok(self.cur)
        &&& token_ok(self.prev)
        &&& self.contexts@.len() >= 1
        &&& forall|c: int| 0 <= c < self.contexts@.len() ==> (#[trigger] self.contexts@[c]).wf()
        &&& forall|c: int|
            0 <= c < self.contexts@.len() ==> chunk_ok(
                (#[trigger] self.contexts@[c]).func.chunk,
                self.funcs@.len() as int,
                self.strings@.len() as int,
            )
        &&& forall|f: int|
            0 <= f < self.funcs@.len() ==> chunk_ok(
                (#[trigger] self.funcs@[f]).chunk,
                self.funcs@.len() as int,
                self.strings@.len() as int,
            )
        &&& self.contexts@[0].upvalues@.len() == 0
        &&& self.contexts@[0].func.arity == 0
        &&& self.contexts@[0].func.name@ == "<script>".spec_bytes()
        &&& (self.had_error ==> self.diagnostics@.len() >= 1)
        &&& (self.panic_mode ==> self.had_error)
    }

    /// Scan the source and stand ready to compile it: the token list is the
    /// scan of the source, each token of its kind's lexeme shape, ending in
    /// exactly one end-of-source token.
    pub fn init(source: Vec<u8>) -> (r: Parser)
        ensures
            r.wf(),
            !r.had_error,
            r.pos == 0,
            r.contexts@.len() == 1,
            r.funcs@.len() == 0,
            r.tokens@[r.tokens@.len() - 1].kind == TokenType::Eof,
            forall|i: int|
                0 <= i < r.tokens@.len() - 1 ==> (#[trigger] r.tokens@[i]).kind != TokenType::Eof,
            forall|i: int|
                0 <= i < r.tokens@.len() ==> ((#[trigger] r.tokens@[i]).kind != TokenType::Error
                    ==> crate::scanner::token_shape(r.tokens@[i].kind, r.tokens@[i].lexeme@)),
    {
        let mut scanner = Scanner::new(source);
        let tokens = scanner.scan_tokens();
        let mut contexts: Vec<Resolver> = Vec::new();
        contexts.push(Resolver::new());
        Parser {
            tokens,
            pos: 0,
            prev: Token::new(TokenType::Eof, Vec::new(), 0),
            cur: Token::new(TokenType::Eof, Vec::new(), 0),
            contexts,
            funcs: Vec::new(),
            strings: Vec::new(),
            diagnostics: Vec::new(),
            had_error: false,
            panic_mode: false,
        }
    }

    /// Record an error against the current token, unless one is already
    /// being recovered from.
    fn error_at_cur(&mut self, message: Vec<u8>)
        requires
            old(self).wf(),
        ensures
            final(self).wf(),
            parse_frame(*old(self), *final(self)),
            final(self).pos == old(self).pos,
            final(self).cur == old(self).cur,
            final(self).prev == old(self).prev,
            final(self).contexts == old(self).contexts,
            final(self).funcs == old(self).funcs,
            final(self).strings == old(self).strings,
            final(self).had_error,
            final(self).panic_mode,
            old(self).panic_mode ==> final(self).diagnostics == old(self).diagnostics,
            !old(self).panic_mode ==> final(self).diagnostics@.len() == old(
            self).diagnostics@.len() + 1 && final(self).diagnostics@.last().message == message
                && final(self).diagnostics@.last().line == old(self).cur.line && final(
            self).diagnostics@.last().at_end == (old(self).cur.kind == TokenType::Eof),
    {
        if self.panic_mode {
            return;
        }
        self.panic_mode = true;
        self.had_error = true;
        let at_end = matches!(self.cur.kind, TokenType::Eof);
        let lexeme = if at_end {
            Vec::new()
        } else {
            self.cur.duplicate().lexeme
        };
        self.diagnostics.push(Diagnostic { line: self.cur.line, at_end, lexeme, message });
    }

    /// Record an error with a fixed message text.
    fn error_str(&mut self, message: &str)
        requires
            old(self).wf(),
        ensures
            final(self).wf(),
            parse_frame(*old(self), *final(self)),
            final(self).pos == old(self).pos,
            final(self).cur == old(self).cur,
            final(self).prev == old(self).prev,
            final(self).contexts == old(self).contexts,
            final(self).funcs == old(self).funcs,
            final(self).strings == old(self).strings,
            final(self).had_error,
            final(self).panic_mode,
            old(self).panic_mode ==> final(self).diagnostics == old(self).diagnostics,
            !old(self).panic_mode ==> final(self).diagnostics@.len() == old(
            self).diagnostics@.len() + 1 && final(self).diagnostics@.last().message@
                == message.spec_bytes() && final(self).diagnostics@.last().line == old(
            self).cur.line && final(self).diagnostics@.last().at_end == (old(self).cur.kind
                == TokenType::Eof),
    {
        let msg = text_bytes(message);
        self.error_at_cur(msg);
    }

    /// Record a lexical error: the scanner's message rides in the error
    /// token's lexeme, and no source lexeme is pointed at.
    fn scan_error(&mut self, line: u32, message: Vec<u8>)
        requires
            old(self).wf(),
        ensures
            final(self).wf(),
            parse_frame(*old(self), *final(self)),
            final(self).pos == old(self).pos,
            final(self).cur == old(self).cur,
            final(self).prev == old(self).prev,
            final(self).contexts == old(self).contexts,
            final(self).funcs == old(self).funcs,
            final(self).strings == old(self).strings,
            final(self).panic_mode,
            old(self).panic_mode ==> final(self).diagnostics == old(self).diagnostics,
            !old(self).panic_mode ==> final(self).diagnostics@.len() == old(
            self).diagnostics@.len() + 1 && final(self).diagnostics@.last().message == message
                && final(self).diagnostics@.last().line == line && !final(
            self).diagnostics@.last().at_end && final(self).had_error,
    {
        if self.panic_mode {
            return;
        }
        self.panic_mode = true;
        self.had_error = true;
        self.diagnostics.push(Diagnostic { line, at_end: false, lexeme: Vec::new(), message });
    }

    /// Step to the next token, surfacing every error token on the way as a
    /// lexical error.
    fn advance(&mut self)
        requires
            old(self).wf(),
        ensures
            final(self).wf(),
            parse_frame(*old(self), *final(self)),
            final(self).contexts == old(self).contexts,
            final(self).funcs == old(self).funcs,
            final(self).strings == old(self).strings,
            old(self).pos < old(self).tokens@.len() ==> final(self).pos > old(self).pos,
            final(self).prev.kind == old(self).cur.kind,
            final(self).prev.lexeme@ == old(self).cur.lexeme@,
            final(self).prev.line == old(self).cur.line,
            (old(self).pos == old(self).tokens@.len() || old(self).tokens@[old(
            self).pos as int].kind != TokenType::Error) ==> final(self).diagnostics == old(
            self).diagnostics && final(self).panic_mode == old(self).panic_mode && final(
            self).had_error == old(self).had_error,
    {
        self.prev = self.cur.duplicate();
        loop
            invariant_except_break
                self.wf(),
                self.tokens == old(self).tokens,
                self.contexts == old(self).contexts,
                self.funcs == old(self).funcs,
                self.strings == old(self).strings,
                self.pos >= old(self).pos,
                old(self).had_error ==> self.had_error,
                old(self).pos < old(self).tokens@.len() ==> self.pos > old(self).pos || self.pos
                    == old(self).pos,
                self.prev.kind == old(self).cur.kind,
                self.prev.lexeme@ == old(self).cur.lexeme@,
                self.prev.line == old(self).cur.line,
                (old(self).pos == old(self).tokens@.len() || old(self).tokens@[old(
                self).pos as int].kind != TokenType::Error) ==> self.pos == old(self).pos
                    && self.diagnostics == old(self).diagnostics && self.panic_mode == old(
                self).panic_mode && self.had_error == old(self).had_error,
            ensures
                self.wf(),
                self.tokens == old(self).tokens,
                self.contexts == old(self).contexts,
                self.funcs == old(self).funcs,
                self.strings == old(self).strings,
                self.pos >= old(self).pos,
                old(self).had_error ==> self.had_error,
                old(self).pos < old(self).tokens@.len() ==> self.pos > old(self).pos,
                self.prev.kind == old(self).cur.kind,
                self.prev.lexeme@ == old(self).cur.lexeme@,
                self.prev.line == old(self).cur.line,
                (old(self).pos == old(self).tokens@.len() || old(self).tokens@[old(
                self).pos as int].kind != TokenType::Error) ==> self.diagnostics == old(
                self).diagnostics && self.panic_mode == old(self).panic_mode && self.had_error
                    == old(self).had_error,
            decreases self.tokens@.len() - self.pos,
        {
            if self.pos >= self.tokens.len() {
                break;
            }
            let t = self.tokens[self.pos].duplicate();
            self.pos = self.pos + 1;
            if matches!(t.kind, TokenType::Error) {
                self.scan_error(t.line, t.lexeme);
            } else {
                self.cur = t;
                break;
            }
        }
    }

    /// Whether the current token has the given kind.
    fn check(&self, kind: TokenType) -> (r: bool)
        ensures
            r == (self.cur.kind == kind),
    {
        self.cur.kind == kind
    }

    /// Consume the current token when it has the given kind.
    fn match_token(&mut self, kind: TokenType) -> (r: bool)
        requires
            old(self).wf(),
        ensures
            final(self).wf(),
            parse_frame(*old(self), *final(self)),
            final(self).contexts == old(self).contexts,
            final(self).funcs == old(self).funcs,
            final(self).strings == old(self).strings,
            r == (old(self).cur.kind == kind),
            r && kind != TokenType::Eof ==> final(self).pos > old(self).pos,
            r ==> final(self).prev.kind == kind
                && final(self).prev.lexeme@ == old(self).cur.lexeme@
                && final(self).prev.line == old(self).cur.line,
            !r ==> *final(self) == *old(self),
    {
        if self.cur.kind == kind {
            self.advance();
            true
        } else {
            false
        }
    }

    /// Consume the current token when it has the given kind; complain at it
    /// otherwise.
    fn consume(&mut self, kind: TokenType, message: &str)
        requires
            old(self).wf(),
        ensures
            final(self).wf(),
            parse_frame(*old(self), *final(self)),
            final(self).contexts == old(self).contexts,
            final(self).funcs == old(self).funcs,
            final(self).strings == old(self).strings,
            old(self).cur.kind == kind && kind != TokenType::Eof ==> final(self).pos > old(
                self).pos,
            old(self).cur.kind == kind ==> final(self).prev.kind == kind
                && final(self).prev.lexeme@ == old(self).cur.lexeme@
                && final(self).prev.line == old(self).cur.line,
    {
        if self.cur.kind == kind {
            self.advance();
        } else {
            self.error_str(message);
        }
    }

    /// Skip to a statement boundary after an error, so that parsing can go
    /// on and surface further errors.
    fn synchronize(&mut self)
        requires
            old(self).wf(),
        ensures
            final(self).wf(),
            parse_frame(*old(self), *final(self)),
            final(self).contexts == old(self).contexts,
            final(self).funcs == old(self).funcs,
            final(self).strings == old(self).strings,
    {
        self.panic_mode = false;
        while self.cur.kind != TokenType::Eof
            invariant
                self.wf(),
                self.tokens == old(self).tokens,
                self.contexts == old(self).contexts,
                self.funcs == old(self).funcs,
                self.strings == old(self).strings,
                self.pos >= old(self).pos,
                old(self).had_error ==> self.had_error,
            decreases self.tokens@.len() - self.pos,
        {
            if matches!(self.prev.kind, TokenType::Semicolon) {
                return;
            }
            match self.cur.kind {
                TokenType::Class => return,
                TokenType::Fun => return,
                TokenType::For => return,
                TokenType::If => return,
                TokenType::While => return,
                TokenType::Var => return,
                TokenType::Print => return,
                TokenType::Return => return,
                _ => {},
            }
            self.advance();
        }
    }

    /// The size of the chunk being emitted into.
    fn top_size(&self) -> (r: usize)
        requires
            self.wf(),
        ensures
            r == top_code_len(*self),
    {
        let n = self.contexts.len();
        self.contexts[n - 1].func.chunk.size()
    }

    /// Emit one opcode into the current chunk, at the line of the token just
    /// consumed. A full chunk raises a compile error instead of emitting.
    fn emit_op(&mut self, op: OpCode)
        requires
            old(self).wf(),
        ensures
            final(self).wf(),
            parse_frame(*old(self), *final(self)),
            final(self).pos == old(self).pos,
            final(self).cur == old(self).cur,
            final(self).prev == old(self).prev,
            final(self).funcs == old(self).funcs,
            final(self).strings == old(self).strings,
            top_code_len(*old(self)) + 1 <= CODE_LIMIT ==> top_chunk(*final(self)).code@
                == top_chunk(*old(self)).code@.push(crate::chunk::opcode_byte(op)) && top_chunk(
                *final(self),
            ).constants == top_chunk(*old(self)).constants && final(self).had_error == old(
            self).had_error,
            top_code_len(*old(self)) + 1 > CODE_LIMIT ==> top_chunk(*final(self)).code@
                == top_chunk(*old(self)).code@ && final(self).had_error,
            top_ctx(*final(self)).locals == top_ctx(*old(self)).locals,
            top_ctx(*final(self)).scope_depth == top_ctx(*old(self)).scope_depth,
    {
        let line = self.prev.line;
        let n = self.contexts.len();
        let ghost pre = *self;
        let ctx = &mut self.contexts[n - 1];
        let ok = ctx.func.chunk.write_chunk(op, line);
        proof {
            assert forall|c: int| 0 <= c < self.contexts@.len() implies (
            #[trigger] self.contexts@[c]).wf() by {
                if c != n - 1 {
                    assert(self.contexts@[c] == pre.contexts@[c]);
                }
            }
            assert forall|c: int| 0 <= c < self.contexts@.len() implies chunk_ok(
                (#[trigger] self.contexts@[c]).func.chunk,
                self.funcs@.len() as int,
                self.strings@.len() as int,
            ) by {
                if c != n - 1 {
                    assert(self.contexts@[c] == pre.contexts@[c]);
                }
            }
        }
        if !ok {
            self.error_str("Source code too long.");
        }
    }

    /// Emit a 32-bit big-endian operand into the current chunk.
    fn emit_u32(&mut self, x: u32)
        requires
            old(self).wf(),
        ensures
            final(self).wf(),
            parse_frame(*old(self), *final(self)),
            final(self).pos == old(self).pos,
            final(self).cur == old(self).cur,
            final(self).prev == old(self).prev,
            final(self).funcs == old(self).funcs,
            final(self).strings == old(self).strings,
            top_code_len(*old(self)) + 4 <= CODE_LIMIT ==> top_chunk(*final(self)).code@
                == top_chunk(*old(self)).code@ + crate::chunk::be_bytes(x) && top_chunk(
                *final(self),
            ).constants == top_chunk(*old(self)).constants && final(self).had_error == old(
            self).had_error,
            top_code_len(*old(self)) + 4 > CODE_LIMIT ==> top_chunk(*final(self)).code@
                == top_chunk(*old(self)).code@ && final(self).had_error,
    {
        let line = self.prev.line;
        let n = self.contexts.len();
        let ghost pre = *self;
        let ctx = &mut self.contexts[n - 1];
        let ok = ctx.func.chunk.write_u32(x, line);
        proof {
            assert forall|c: int| 0 <= c < self.contexts@.len() implies (
            #[trigger] self.contexts@[c]).wf() by {
                if c != n - 1 {
                    assert(self.contexts@[c] == pre.contexts@[c]);
                }
            }
            assert forall|c: int| 0 <= c < self.contexts@.len() implies chunk_ok(
                (#[trigger] self.contexts@[c]).func.chunk,
                self.funcs@.len() as int,
                self.strings@.len() as int,
            ) by {
                if c != n - 1 {
                    assert(self.contexts@[c] == pre.contexts@[c]);
                }
            }
        }
        if !ok {
            self.error_str("Source code too long.");
        }
    }

    /// Emit one raw byte into the current chunk: the `is_local` flag of an
    /// upvalue descriptor.
    fn emit_flag(&mut self, b: u8)
        requires
            old(self).wf(),
        ensures
            final(self).wf(),
            parse_frame(*old(self), *final(self)),
            final(self).pos == old(self).pos,
            final(self).cur == old(self).cur,
            final(self).prev == old(self).prev,
            final(self).funcs == old(self).funcs,
            final(self).strings == old(self).strings,
            top_code_len(*old(self)) + 1 <= CODE_LIMIT ==> top_chunk(*final(self)).code@
                == top_chunk(*old(self)).code@.push(b) && top_chunk(
                *final(self),
            ).constants == top_chunk(*old(self)).constants && final(self).had_error == old(
            self).had_error,
    {
        let line = self.prev.line;
        let n = self.contexts.len();
        let ghost pre = *self;
        let ctx = &mut self.contexts[n - 1];
        let ok = ctx.func.chunk.write_u8(b, line);
        proof {
            assert forall|c: int| 0 <= c < self.contexts@.len() implies (
            #[trigger] self.contexts@[c]).wf() by {
                if c != n - 1 {
                    assert(self.contexts@[c] == pre.contexts@[c]);
                }
            }
            assert forall|c: int| 0 <= c < self.contexts@.len() implies chunk_ok(
                (#[trigger] self.contexts@[c]).func.chunk,
                self.funcs@.len() as int,
                self.strings@.len() as int,
            ) by {
                if c != n - 1 {
                    assert(self.contexts@[c] == pre.contexts@[c]);
                }
            }
        }
        if !ok {
            self.error_str("Source code too long.");
        }
    }

    /// Add `v` to the current constant pool and emit `Constant` with its
    /// index.
    fn emit_constant(&mut self, v: Value)
        requires
            old(self).wf(),
            crate::chunk::const_ok(v, old(self).funcs@.len() as int, old(self).strings@.len() as int),
        ensures
            final(self).wf(),
            parse_frame(*old(self), *final(self)),
            final(self).pos == old(self).pos,
            final(self).cur == old(self).cur,
            final(self).prev == old(self).prev,
            final(self).funcs == old(self).funcs,
            final(self).strings == old(self).strings,
    {
        let line = self.prev.line;
        let n = self.contexts.len();
        let ghost pre = *self;
        let mut full = false;
        let mut index: u32 = 0;
        let mut have = false;
        {
            let ctx = &mut self.contexts[n - 1];
            match ctx.func.chunk.add_constant(v) {
                Some(i) => {
                    index = i;
                    have = true;
                },
                None => {
                    full = true;
                },
            }
        }
        proof {
            assert forall|c: int| 0 <= c < self.contexts@.len() implies (
            #[trigger] self.contexts@[c]).wf() by {
                if c != n - 1 {
                    assert(self.contexts@[c] == pre.contexts@[c]);
                }
            }
            assert forall|c: int| 0 <= c < self.contexts@.len() implies chunk_ok(
                (#[trigger] self.contexts@[c]).func.chunk,
                self.funcs@.len() as int,
                self.strings@.len() as int,
            ) by {
                if c != n - 1 {
                    assert(self.contexts@[c] == pre.contexts@[c]);
                }
            }
        }
        if full {
            self.error_str("Too many constants in one chunk.");
            return;
        }
        if have {
            self.emit_op(OpCode::Constant);
            self.emit_u32(index);
        }
    }

    /// Emit a forward jump with a placeholder operand and return the
    /// operand's offset, to be patched once the target is known.
    fn emit_jump(&mut self, op: OpCode) -> (r: u32)
        requires
            old(self).wf(),
        ensures
            final(self).wf(),
            parse_frame(*old(self), *final(self)),
            final(self).pos == old(self).pos,
            final(self).cur == old(self).cur,
            final(self).prev == old(self).prev,
            final(self).funcs == old(self).funcs,
            final(self).strings == old(self).strings,
            top_code_len(*old(self)) + 5 <= CODE_LIMIT ==> top_chunk(*final(self)).code@
                == top_chunk(*old(self)).code@.push(crate::chunk::opcode_byte(op))
                + crate::chunk::be_bytes(u32::MAX) && r as int == top_code_len(*old(self)) + 1
                && final(self).had_error == old(self).had_error,
    {
        self.emit_op(op);
        self.emit_u32(u32::MAX);
        let sz = self.top_size();
        if sz >= 4 {
            (sz - 4) as u32
        } else {
            // the operand was refused because the chunk is full; the error
            // is already recorded and the returned offset is never patched
            0
        }
    }

    /// Patch a forward jump's operand with the distance from the byte after
    /// the operand to the current end of the chunk.
    fn patch_jump(&mut self, offset: u32)
        requires
            old(self).wf(),
        ensures
            final(self).wf(),
            parse_frame(*old(self), *final(self)),
            final(self).pos == old(self).pos,
            final(self).cur == old(self).cur,
            final(self).prev == old(self).prev,
            final(self).funcs == old(self).funcs,
            final(self).strings == old(self).strings,
            final(self).had_error == old(self).had_error,
            offset + 4 <= top_code_len(*old(self)) ==> ({
                let d = crate::chunk::be_bytes(((top_code_len(*old(self)) - offset - 4) as u32));
                top_chunk(*final(self)).code@ == top_chunk(*old(self)).code@.update(
                    offset as int,
                    d[0],
                ).update(offset + 1, d[1]).update(offset + 2, d[2]).update(offset + 3, d[3])
                    && top_chunk(*final(self)).constants == top_chunk(*old(self)).constants
            }),
            offset + 4 > top_code_len(*old(self)) ==> final(self).contexts@ == old(
            self).contexts@,
    {
        let n = self.contexts.len();
        let ghost pre = *self;
        let at = offset as usize;
        {
            let ctx = &mut self.contexts[n - 1];
            let sz = ctx.func.chunk.size();
            if at <= sz && sz - at >= 4 {
                let jump = (sz - at - 4) as u32;
                ctx.func.chunk.patch_u32(at, jump);
            }
            // an offset past the end can only come from an emit the chunk
            // refused; that compile error is already recorded
        }
        proof {
            assert forall|c: int| 0 <= c < self.contexts@.len() implies (
            #[trigger] self.contexts@[c]).wf() by {
                if c != n - 1 {
                    assert(self.contexts@[c] == pre.contexts@[c]);
                }
            }
            assert forall|c: int| 0 <= c < self.contexts@.len() implies chunk_ok(
                (#[trigger] self.contexts@[c]).func.chunk,
                self.funcs@.len() as int,
                self.strings@.len() as int,
            ) by {
                if c != n - 1 {
                    assert(self.contexts@[c] == pre.contexts@[c]);
                }
            }
            if offset + 4 > top_code_len(pre) {
                assert(self.contexts@ =~= pre.contexts@);
            }
        }
    }

    /// Emit a backward jump to `loop_start`, measured from the byte after
    /// the operand.
    fn emit_loop(&mut self, loop_start: usize)
        requires
            old(self).wf(),
        ensures
            final(self).wf(),
            parse_frame(*old(self), *final(self)),
            final(self).pos == old(self).pos,
            final(self).cur == old(self).cur,
            final(self).prev == old(self).prev,
            final(self).funcs == old(self).funcs,
            final(self).strings == old(self).strings,
            top_code_len(*old(self)) + 5 <= CODE_LIMIT && loop_start <= top_code_len(*old(self))
                + 1 ==> top_chunk(*final(self)).code@ == top_chunk(*old(self)).code@.push(
                crate::chunk::opcode_byte(OpCode::Loop),
            ) + crate::chunk::be_bytes(((top_code_len(*old(self)) + 5 - loop_start) as u32))
                && final(self).had_error == old(self).had_error,
    {
        self.emit_op(OpCode::Loop);
        let sz = self.top_size();
        if loop_start <= sz {
            proof {
                assert(top_code_len(*self) <= CODE_LIMIT);
            }
            let jump = sz + 4 - loop_start;
            self.emit_u32(jump as u32);
        } else {
            // the loop head was recorded in this same chunk, so this can
            // only follow an emit the chunk refused and reported
            self.error_str("Loop body too large.");
        }
    }

    /// Emit the implicit epilogue of every function body: `Nil` then
    /// `Return`.
    fn emit_return(&mut self)
        requires
            old(self).wf(),
        ensures
            final(self).wf(),
            parse_frame(*old(self), *final(self)),
            final(self).pos == old(self).pos,
            final(self).cur == old(self).cur,
            final(self).prev == old(self).prev,
            final(self).funcs == old(self).funcs,
            final(self).strings == old(self).strings,
    {
        self.emit_op(OpCode::Nil);
        self.emit_op(OpCode::Return);
    }

    /// Find `d` in the upvalue list from position `i` on.
    fn find_upvalue_from(ups: &Vec<UpvalueRef>, d: UpvalueRef, i: usize) -> (r: Option<u32>)
        requires
            i <= ups@.len(),
            ups@.len() <= UPVALUE_LIMIT,
        ensures
            r == (match find_upvalue(ups@.skip(i as int), d) {
                Some(k) => Some((k + i) as u32),
                None => None::<u32>,
            }),
        decreases ups@.len() - i,
    {
        if i == ups.len() {
            proof {
                assert(ups@.skip(i as int) =~= Seq::<UpvalueRef>::empty());
            }
            None
        } else if ups[i] == d {
            proof {
                assert(ups@.skip(i as int)[0] == ups@[i as int]);
            }
            Some(i as u32)
        } else {
            proof {
                assert(ups@.skip(i as int)[0] == ups@[i as int]);
                assert(ups@.skip(i as int).drop_first() =~= ups@.skip(i + 1 as int));
            }
            Self::find_upvalue_from(ups, d, i + 1)
        }
    }

    /// Record that context `c` reaches a captured variable through `d`,
    /// deduplicating: an identical descriptor already recorded answers with
    /// its existing index.
    fn add_upvalue(&mut self, c: usize, d: UpvalueRef) -> (r: Option<u32>)
        requires
            old(self).wf(),
            1 <= c < old(self).contexts@.len(),
        ensures
            final(self).wf(),
            parse_frame(*old(self), *final(self)),
            final(self).pos == old(self).pos,
            final(self).cur == old(self).cur,
            final(self).prev == old(self).prev,
            final(self).funcs == old(self).funcs,
            final(self).strings == old(self).strings,
            ({
                let ups = old(self).contexts@[c as int].upvalues@;
                match find_upvalue(ups, d) {
                    Some(i) => r == Some(i as u32) && final(self).contexts == old(self).contexts,
                    None => {
                        if ups.len() < UPVALUE_LIMIT {
                            r == Some(ups.len() as u32)
                                && final(self).contexts@[c as int].upvalues@ == ups.push(d)
                        } else {
                            r is None
                        }
                    },
                }
            }),
    {
        let ghost pre = *self;
        let n0 = self.contexts[c].upvalues.len();
        proof {
            assert(self.contexts@[c as int].upvalues@.skip(0) =~= self.contexts@[
            c as int].upvalues@);
        }
        match Self::find_upvalue_from(&self.contexts[c].upvalues, d, 0) {
            Some(i) => Some(i),
            None => {
                if n0 < UPVALUE_LIMIT {
                    let ctx = &mut self.contexts[c];
                    ctx.upvalues.push(d);
                    ctx.func.upvalue_count = ctx.upvalues.len() as u32;
                    proof {
                        assert forall|k: int| 0 <= k < self.contexts@.len() implies (
                        #[trigger] self.contexts@[k]).wf() by {
                            if k != c {
                                assert(self.contexts@[k] == pre.contexts@[k]);
                            }
                        }
                        assert forall|k: int| 0 <= k < self.contexts@.len() implies chunk_ok(
                            (#[trigger] self.contexts@[k]).func.chunk,
                            self.funcs@.len() as int,
                            self.strings@.len() as int,
                        ) by {
                            if k != c {
                                assert(self.contexts@[k] == pre.contexts@[k]);
                            }
                        }
                        assert(top_code_len(*self) == top_code_len(pre));
                    }
                    Some(n0 as u32)
                } else {
                    self.error_str("Too many closure variables in function.");
                    None
                }
            },
        }
    }

    /// Resolve `name` as a variable captured from a context enclosing `c`,
    /// per the closure-conversion plan: mark the owning local captured, and
    /// thread an upvalue descriptor through every context between the owner
    /// and `c`.
    fn resolve_upvalue(&mut self, c: usize, name: &Vec<u8>) -> (r: Option<u32>)
        requires
            old(self).wf(),
            c < old(self).contexts@.len(),
        ensures
            final(self).wf(),
            parse_frame(*old(self), *final(self)),
            final(self).pos == old(self).pos,
            final(self).cur == old(self).cur,
            final(self).prev == old(self).prev,
            final(self).funcs == old(self).funcs,
            final(self).strings == old(self).strings,
            final(self).contexts@.len() == old(self).contexts@.len(),
        decreases c,
    {
        if c == 0 {
            return None;
        }
        let ghost pre = *self;
        let r = resolve_local(&self.contexts[c - 1], name);
        match r {
            Some((slot, _initialized)) => {
                {
                    let ctx = &mut self.contexts[c - 1];
                    let li = slot as usize;
                    ctx.locals[li].is_captured = true;
                }
                proof {
                    assert forall|k: int| 0 <= k < self.contexts@.len() implies (
                    #[trigger] self.contexts@[k]).wf() by {
                        if k != c - 1 {
                            assert(self.contexts@[k] == pre.contexts@[k]);
                        }
                    }
                    assert forall|k: int| 0 <= k < self.contexts@.len() implies chunk_ok(
                        (#[trigger] self.contexts@[k]).func.chunk,
                        self.funcs@.len() as int,
                        self.strings@.len() as int,
                    ) by {
                        if k != c - 1 {
                            assert(self.contexts@[k] == pre.contexts@[k]);
                        }
                    }
                    assert(top_code_len(*self) == top_code_len(pre));
                }
                self.add_upvalue(c, UpvalueRef { is_local: true, index: slot })
            },
            None => {
                match self.resolve_upvalue(c - 1, name) {
                    Some(up) => self.add_upvalue(c, UpvalueRef { is_local: false, index: up }),
                    None => None,
                }
            },
        }
    }

    /// Add `v` to the current constant pool and return its index, emitting
    /// nothing.
    fn make_constant(&mut self, v: Value) -> (r: Option<u32>)
        requires
            old(self).wf(),
            crate::chunk::const_ok(v, old(self).funcs@.len() as int, old(self).strings@.len() as int),
        ensures
            final(self).wf(),
            parse_frame(*old(self), *final(self)),
            final(self).pos == old(self).pos,
            final(self).cur == old(self).cur,
            final(self).prev == old(self).prev,
            final(self).funcs == old(self).funcs,
            final(self).strings == old(self).strings,
    {
        let n = self.contexts.len();
        let ghost pre = *self;
        let r = {
            let ctx = &mut self.contexts[n - 1];
            ctx.func.chunk.add_constant(v)
        };
        proof {
            assert forall|c: int| 0 <= c < self.contexts@.len() implies (
            #[trigger] self.contexts@[c]).wf() by {
                if c != n - 1 {
                    assert(self.contexts@[c] == pre.contexts@[c]);
                }
            }
            assert forall|c: int| 0 <= c < self.contexts@.len() implies chunk_ok(
                (#[trigger] self.contexts@[c]).func.chunk,
                self.funcs@.len() as int,
                self.strings@.len() as int,
            ) by {
                if c != n - 1 {
                    assert(self.contexts@[c] == pre.contexts@[c]);
                }
            }
        }
        if matches!(r, None) {
            self.error_str("Too many constants in one chunk.");
        }
        r
    }

    /// Parse a number literal; its token was just consumed.
    fn number_lit(&mut self)
        requires
            old(self).wf(),
            old(self).prev.kind == TokenType::Number,
        ensures
            final(self).wf(),
            parse_frame(*old(self), *final(self)),
        decreases old(self).tokens@.len() - old(self).pos, 2int,
    {
        let bits = num_of_decimal(&self.prev.lexeme);
        self.emit_constant(Value::Number(bits));
    }

    /// Parse a string literal; its token was just consumed. The quotes are
    /// stripped and the contents interned.
    fn string_lit(&mut self)
        requires
            old(self).wf(),
            old(self).prev.kind == TokenType::String,
        ensures
            final(self).wf(),
            parse_frame(*old(self), *final(self)),
        decreases old(self).tokens@.len() - old(self).pos, 2int,
    {
        let len = self.prev.lexeme.len();
        let content = copy_range(&self.prev.lexeme, 1, len - 1);
        let idx = self.strings.len();
        let ghost pre = *self;
        self.strings.push(content);
        proof {
            assert forall|c: int| 0 <= c < self.contexts@.len() implies chunk_ok(
                (#[trigger] self.contexts@[c]).func.chunk,
                self.funcs@.len() as int,
                self.strings@.len() as int,
            ) by {
                crate::chunk::lemma_chunk_ok_grow(
                    self.contexts@[c].func.chunk,
                    pre.funcs@.len() as int,
                    pre.strings@.len() as int,
                    self.funcs@.len() as int,
                    self.strings@.len() as int,
                );
            }
            assert forall|f: int| 0 <= f < self.funcs@.len() implies chunk_ok(
                (#[trigger] self.funcs@[f]).chunk,
                self.funcs@.len() as int,
                self.strings@.len() as int,
            ) by {
                crate::chunk::lemma_chunk_ok_grow(
                    self.funcs@[f].chunk,
                    pre.funcs@.len() as int,
                    pre.strings@.len() as int,
                    self.funcs@.len() as int,
                    self.strings@.len() as int,
                );
            }
        }
        self.emit_constant(Value::Str(idx));
    }

    /// Parse `true`, `false` or `nil`; its token was just consumed.
    fn literal(&mut self)
        requires
            old(self).wf(),
        ensures
            final(self).wf(),
            parse_frame(*old(self), *final(self)),
        decreases old(self).tokens@.len() - old(self).pos, 2int,
    {
        match self.prev.kind {
            TokenType::True => self.emit_constant(Value::Bool(true)),
            TokenType::False => self.emit_constant(Value::Bool(false)),
            TokenType::Nil => self.emit_constant(Value::Nil),
            _ => {},
        }
    }

    /// Parse a parenthesized expression; the `(` was just consumed.
    fn grouping(&mut self)
        requires
            old(self).wf(),
        ensures
            final(self).wf(),
            parse_frame(*old(self), *final(self)),
        decreases old(self).tokens@.len() - old(self).pos, 2int,
    {
        self.expression();
        self.consume(TokenType::RightParen, "Expect ')' after expression.");
    }

    /// Parse a unary operator application; the operator was just consumed.
    fn unary(&mut self)
        requires
            old(self).wf(),
        ensures
            final(self).wf(),
            parse_frame(*old(self), *final(self)),
        decreases old(self).tokens@.len() - old(self).pos, 2int,
    {
        let op_kind = self.prev.kind;
        self.parse_precedence(Precedence::Unary);
        match op_kind {
            TokenType::Minus => self.emit_op(OpCode::Negate),
            TokenType::Bang => self.emit_op(OpCode::Not),
            _ => {},
        }
    }

    /// Parse the right operand of a binary operator and emit the operator;
    /// the operator token was just consumed.
    fn binary(&mut self)
        requires
            old(self).wf(),
        ensures
            final(self).wf(),
            parse_frame(*old(self), *final(self)),
        decreases old(self).tokens@.len() - old(self).pos, 2int,
    {
        let op_kind = self.prev.kind;
        let rule = get_rule(op_kind);
        proof {
            assert(spec_rule(op_kind).precedence != Precedence::Primary);
        }
        self.parse_precedence(rule.precedence.next());
        match op_kind {
            TokenType::Plus => self.emit_op(OpCode::Add),
            TokenType::Minus => self.emit_op(OpCode::Substract),
            TokenType::Star => self.emit_op(OpCode::Multiply),
            TokenType::Slash => self.emit_op(OpCode::Divide),
            TokenType::BangEqual => {
                self.emit_op(OpCode::Equal);
                self.emit_op(OpCode::Not);
            },
            TokenType::EqualEqual => self.emit_op(OpCode::Equal),
            TokenType::Less => self.emit_op(OpCode::Less),
            TokenType::LessEqual => {
                self.emit_op(OpCode::Greater);
                self.emit_op(OpCode::Not);
            },
            TokenType::Greater => self.emit_op(OpCode::Greater),
            TokenType::GreaterEqual => {
                self.emit_op(OpCode::Less);
                self.emit_op(OpCode::Not);
            },
            _ => {},
        }
    }

    /// Short-circuit `and`: when the left side is falsy, jump over the right
    /// side, which otherwise replaces it.
    fn and_expr(&mut self)
        requires
            old(self).wf(),
        ensures
            final(self).wf(),
            parse_frame(*old(self), *final(self)),
        decreases old(self).tokens@.len() - old(self).pos, 2int,
    {
        let end_jump = self.emit_jump(OpCode::JumpIfFalse);
        self.emit_op(OpCode::Pop);
        self.parse_precedence(Precedence::And);
        self.patch_jump(end_jump);
    }

    /// Short-circuit `or`: when the left side is truthy, jump over the right
    /// side, which otherwise replaces it.
    fn or_expr(&mut self)
        requires
            old(self).wf(),
        ensures
            final(self).wf(),
            parse_frame(*old(self), *final(self)),
        decreases old(self).tokens@.len() - old(self).pos, 2int,
    {
        let else_jump = self.emit_jump(OpCode::JumpIfFalse);
        let end_jump = self.emit_jump(OpCode::Jump);
        self.patch_jump(else_jump);
        self.emit_op(OpCode::Pop);
        self.parse_precedence(Precedence::Or);
        self.patch_jump(end_jump);
    }

    /// Parse a variable reference or assignment; the identifier was just
    /// consumed. Resolution is wholly static: the innermost local, else an
    /// upvalue captured from an enclosing function, else an error.
    fn variable(&mut self, can_assign: bool)
        requires
            old(self).wf(),
        ensures
            final(self).wf(),
            parse_frame(*old(self), *final(self)),
        decreases old(self).tokens@.len() - old(self).pos, 2int,
    {
        let name = self.prev.duplicate().lexeme;
        let n = self.contexts.len();
        let r = resolve_local(&self.contexts[n - 1], &name);
        match r {
            Some((slot, initialized)) => {
                if !initialized {
                    self.error_str("Can't read local variable in its own initializer.");
                }
                if can_assign && self.match_token(TokenType::Equal) {
                    self.expression();
                    self.emit_op(OpCode::SetLocal);
                    self.emit_u32(slot);
                } else {
                    self.emit_op(OpCode::GetLocal);
                    self.emit_u32(slot);
                }
            },
            None => {
                match self.resolve_upvalue(n - 1, &name) {
                    Some(up) => {
                        if can_assign && self.match_token(TokenType::Equal) {
                            self.expression();
                            self.emit_op(OpCode::SetUpvalue);
                            self.emit_u32(up);
                        } else {
                            self.emit_op(OpCode::GetUpvalue);
                            self.emit_u32(up);
                        }
                    },
                    None => {
                        let head = text_bytes("Unknown variable '");
                        let with_name = concat_bytes(&head, &name);
                        let msg = concat_bytes(&with_name, &text_bytes("'."));
                        self.error_at_cur(msg);
                    },
                }
            },
        }
    }

    /// Parse a call's argument list; the `(` was just consumed. Returns the
    /// argument count.
    fn argument_list(&mut self) -> (r: u32)
        requires
            old(self).wf(),
        ensures
            final(self).wf(),
            parse_frame(*old(self), *final(self)),
        decreases old(self).tokens@.len() - old(self).pos, 2int,
    {
        let mut argc: u32 = 0;
        if !self.check(TokenType::RightParen) {
            loop
                invariant
                    self.wf(),
                    parse_frame(*old(self), *self),
                decreases self.tokens@.len() - self.pos,
            {
                self.expression();
                if argc == u32::MAX {
                    self.error_str("Too many arguments.");
                } else {
                    argc = argc + 1;
                }
                if !self.match_token(TokenType::Comma) {
                    break;
                }
            }
        }
        self.consume(TokenType::RightParen, "Expect ')' after arguments.");
        argc
    }

    /// Parse a call; the `(` following the callee was just consumed.
    fn call_expr(&mut self)
        requires
            old(self).wf(),
        ensures
            final(self).wf(),
            parse_frame(*old(self), *final(self)),
        decreases old(self).tokens@.len() - old(self).pos, 3int,
    {
        let argc = self.argument_list();
        self.emit_op(OpCode::Call);
        self.emit_u32(argc);
    }

    /// The heart of the Pratt parser: consume a prefix expression for the
    /// current token, then keep consuming infix operators that bind at
    /// least as tightly as `prec`. A `=` that no prefix handler consumed is
    /// an invalid assignment target.
    fn parse_precedence(&mut self, prec: Precedence)
        requires
            old(self).wf(),
            prec_level(prec) >= 1,
        ensures
            final(self).wf(),
            parse_frame(*old(self), *final(self)),
            old(self).cur.kind != TokenType::Eof ==> final(self).pos > old(self).pos,
            spec_rule(old(self).cur.kind).prefix == Prefix::Unused ==> final(self).had_error
                && top_code_len(*final(self)) == top_code_len(*old(self)) && (!old(
            self).panic_mode && (old(self).pos == old(self).tokens@.len() || old(self).tokens@[old(
            self).pos as int].kind != TokenType::Error) ==> final(self).diagnostics@.len() == old(
            self).diagnostics@.len() + 1 && final(self).diagnostics@.last().message@
                == "Expect expression.".spec_bytes()),
        decreases old(self).tokens@.len() - old(self).pos, 0int,
    {
        self.advance();
        let can_assign = prec.level() <= 1;
        let rule = get_rule(self.prev.kind);
        match rule.prefix {
            Prefix::Unused => {
                self.error_str("Expect expression.");
                return;
            },
            Prefix::Variable => {
                self.variable(can_assign);
            },
            Prefix::Grouping => {
                self.grouping();
            },
            Prefix::Unary => {
                self.unary();
            },
            Prefix::Number => {
                proof {
                    assert(self.prev.kind == TokenType::Number);
                }
                self.number_lit();
            },
            Prefix::Literal => {
                self.literal();
            },
            Prefix::Text => {
                proof {
                    assert(self.prev.kind == TokenType::String);
                }
                self.string_lit();
            },
        }
        loop
            invariant
                self.wf(),
                parse_frame(*old(self), *self),
                old(self).cur.kind != TokenType::Eof ==> self.pos > old(self).pos,
                prec_level(prec) >= 1,
            decreases self.tokens@.len() - self.pos,
        {
            let rl = get_rule(self.cur.kind);
            let keep_going = prec.level() <= rl.precedence.level();
            if !keep_going {
                break;
            }
            proof {
                assert(self.cur.kind != TokenType::Eof);
            }
            self.advance();
            let infix_rule = get_rule(self.prev.kind).infix;
            match infix_rule {
                Infix::Unused => {},
                Infix::Binary => {
                    self.binary();
                },
                Infix::And => {
                    self.and_expr();
                },
                Infix::Or => {
                    self.or_expr();
                },
                Infix::Call => {
                    self.call_expr();
                },
            }
        }
        if can_assign && self.match_token(TokenType::Equal) {
            self.error_str("Invalid assignment target.");
        }
    }

    /// Parse one expression.
    fn expression(&mut self)
        requires
            old(self).wf(),
        ensures
            final(self).wf(),
            parse_frame(*old(self), *final(self)),
            old(self).cur.kind != TokenType::Eof ==> final(self).pos > old(self).pos,
        decreases old(self).tokens@.len() - old(self).pos, 1int,
    {
        self.parse_precedence(Precedence::Assignment);
    }

    /// Open a scope in the current context.
    fn open_scope(&mut self)
        requires
            old(self).wf(),
        ensures
            final(self).wf(),
            parse_frame(*old(self), *final(self)),
            final(self).pos == old(self).pos,
            final(self).cur == old(self).cur,
            final(self).prev == old(self).prev,
            final(self).funcs == old(self).funcs,
            final(self).strings == old(self).strings,
    {
        let n = self.contexts.len();
        let ghost pre = *self;
        let ok = {
            let ctx = &mut self.contexts[n - 1];
            ctx.begin_scope()
        };
        proof {
            assert forall|c: int| 0 <= c < self.contexts@.len() implies (
            #[trigger] self.contexts@[c]).wf() by {
                if c != n - 1 {
                    assert(self.contexts@[c] == pre.contexts@[c]);
                }
            }
            assert forall|c: int| 0 <= c < self.contexts@.len() implies chunk_ok(
                (#[trigger] self.contexts@[c]).func.chunk,
                self.funcs@.len() as int,
                self.strings@.len() as int,
            ) by {
                if c != n - 1 {
                    assert(self.contexts@[c] == pre.contexts@[c]);
                }
            }
        }
        if !ok {
            self.error_str("Too many nested scopes.");
        }
    }

    /// Close the innermost scope of the current context and emit one `Pop`
    /// for each local that leaves the stack with it.
    fn close_scope(&mut self)
        requires
            old(self).wf(),
        ensures
            final(self).wf(),
            parse_frame(*old(self), *final(self)),
            final(self).pos == old(self).pos,
            final(self).cur == old(self).cur,
            final(self).prev == old(self).prev,
            final(self).funcs == old(self).funcs,
            final(self).strings == old(self).strings,
            ({
                let ctx0 = top_ctx(*old(self));
                let newd = (if ctx0.scope_depth > 0 {
                    (ctx0.scope_depth - 1) as u32
                } else {
                    0u32
                });
                let keep = retained_locals(ctx0.locals@, newd);
                let dropped = ctx0.locals@.len() - keep;
                &&& top_ctx(*final(self)).scope_depth == newd
                &&& top_ctx(*final(self)).locals@ == ctx0.locals@.take(keep)
                &&& (top_code_len(*old(self)) + dropped <= CODE_LIMIT ==> top_code_len(
                    *final(self),
                ) == top_code_len(*old(self)) + dropped && (forall|i: int|
                    top_code_len(*old(self)) <= i < top_code_len(*final(self))
                        ==> top_chunk(*final(self)).code@[i] == crate::chunk::opcode_byte(
                        OpCode::Pop,
                    )))
            }),
    {
        let n = self.contexts.len();
        let ghost pre = *self;
        let npop = {
            let ctx = &mut self.contexts[n - 1];
            ctx.end_scope()
        };
        proof {
            assert forall|c: int| 0 <= c < self.contexts@.len() implies (
            #[trigger] self.contexts@[c]).wf() by {
                if c != n - 1 {
                    assert(self.contexts@[c] == pre.contexts@[c]);
                }
            }
            assert forall|c: int| 0 <= c < self.contexts@.len() implies chunk_ok(
                (#[trigger] self.contexts@[c]).func.chunk,
                self.funcs@.len() as int,
                self.strings@.len() as int,
            ) by {
                if c != n - 1 {
                    assert(self.contexts@[c] == pre.contexts@[c]);
                }
            }
        }
        let ghost mid = *self;
        proof {
            lemma_retained_bounds(
                top_ctx(pre).locals@,
                (if top_ctx(pre).scope_depth > 0 {
                    (top_ctx(pre).scope_depth - 1) as u32
                } else {
                    0u32
                }),
            );
            assert(top_chunk(mid) == top_chunk(pre));
        }
        let mut k: usize = 0;
        while k < npop
            invariant
                self.wf(),
                parse_frame(*old(self), *self),
                self.pos == old(self).pos,
                self.cur == old(self).cur,
                self.prev == old(self).prev,
                self.funcs == old(self).funcs,
                self.strings == old(self).strings,
                k <= npop,
                top_ctx(*self).locals == top_ctx(mid).locals,
                top_ctx(*self).scope_depth == top_ctx(mid).scope_depth,
                top_code_len(mid) + npop <= CODE_LIMIT ==> top_code_len(*self) == top_code_len(mid)
                    + k && (forall|i: int|
                    top_code_len(mid) <= i < top_code_len(*self) ==> top_chunk(*self).code@[i]
                        == crate::chunk::opcode_byte(OpCode::Pop)),
            decreases npop - k,
        {
            self.emit_op(OpCode::Pop);
            k = k + 1;
        }
    }

    /// Declare the local named by the token just consumed, uninitialized. A
    /// second declaration under the same name in the same scope is an error.
    fn declare_variable(&mut self)
        requires
            old(self).wf(),
        ensures
            final(self).wf(),
            parse_frame(*old(self), *final(self)),
            final(self).pos == old(self).pos,
            final(self).cur == old(self).cur,
            final(self).prev == old(self).prev,
            final(self).funcs == old(self).funcs,
            final(self).strings == old(self).strings,
            ({
                let locals0 = top_ctx(*old(self)).locals@;
                let dup = exists|j: int|
                    0 <= j < locals0.len() && (#[trigger] locals0[j]).name@ == old(
                    self).prev.lexeme@ && locals0[j].depth == Some(
                        top_ctx(*old(self)).scope_depth,
                    );
                &&& (dup && !old(self).panic_mode ==> final(self).had_error
                    && final(self).diagnostics@.len() == old(self).diagnostics@.len() + 1
                    && final(self).diagnostics@.last().message@
                    == "Already a variable with this name in this scope.".spec_bytes())
                &&& (!dup && locals0.len() < LOCAL_LIMIT ==> ({
                    let locals1 = top_ctx(*final(self)).locals@;
                    &&& locals1.len() == locals0.len() + 1
                    &&& locals1.last().name@ == old(self).prev.lexeme@
                    &&& locals1.last().depth is None
                    &&& !locals1.last().is_captured
                    &&& (forall|j: int| 0 <= j < locals0.len() ==> locals1[j] == locals0[j])
                }))
            }),
    {
        let name = self.prev.duplicate().lexeme;
        let n = self.contexts.len();
        let duplicate_name = self.contexts[n - 1].already_declared(&name);
        proof {
            assert(duplicate_name == (exists|j: int|
                0 <= j < top_ctx(*self).locals@.len() && (#[trigger] top_ctx(
                    *self,
                ).locals@[j]).name@ == old(self).prev.lexeme@ && top_ctx(*self).locals@[j].depth
                    == Some(top_ctx(*self).scope_depth)));
        }
        if duplicate_name {
            self.error_str("Already a variable with this name in this scope.");
        }
        let nloc = self.contexts[n - 1].locals.len();
        if nloc < LOCAL_LIMIT {
            let ghost pre = *self;
            {
                let ctx = &mut self.contexts[n - 1];
                ctx.locals.push(Local { name, depth: None, is_captured: false });
            }
            proof {
                assert forall|c: int| 0 <= c < self.contexts@.len() implies (
                #[trigger] self.contexts@[c]).wf() by {
                    if c != n - 1 {
                        assert(self.contexts@[c] == pre.contexts@[c]);
                    }
                }
                assert forall|c: int| 0 <= c < self.contexts@.len() implies chunk_ok(
                    (#[trigger] self.contexts@[c]).func.chunk,
                    self.funcs@.len() as int,
                    self.strings@.len() as int,
                ) by {
                    if c != n - 1 {
                        assert(self.contexts@[c] == pre.contexts@[c]);
                    }
                }
            }
        } else {
            self.error_str("Too many local variables in function.");
        }
    }

    /// Consume an identifier under the given complaint and declare it.
    fn parse_variable(&mut self, message: &str)
        requires
            old(self).wf(),
        ensures
            final(self).wf(),
            parse_frame(*old(self), *final(self)),
            final(self).funcs == old(self).funcs,
            final(self).strings == old(self).strings,
    {
        self.consume(TokenType::Identifier, message);
        self.declare_variable();
    }

    /// Give the newest local its depth, ending the window in which reading
    /// it is an error.
    fn mark_initialized(&mut self)
        requires
            old(self).wf(),
        ensures
            final(self).wf(),
            parse_frame(*old(self), *final(self)),
            final(self).pos == old(self).pos,
            final(self).cur == old(self).cur,
            final(self).prev == old(self).prev,
            final(self).funcs == old(self).funcs,
            final(self).strings == old(self).strings,
            ({
                let locals0 = top_ctx(*old(self)).locals@;
                locals0.len() >= 1 ==> ({
                    let locals1 = top_ctx(*final(self)).locals@;
                    &&& locals1.len() == locals0.len()
                    &&& locals1.last().name@ == locals0.last().name@
                    &&& locals1.last().depth == Some(top_ctx(*old(self)).scope_depth)
                    &&& locals1.last().is_captured == locals0.last().is_captured
                    &&& (forall|j: int| 0 <= j < locals0.len() - 1 ==> locals1[j] == locals0[j])
                })
            }),
    {
        let n = self.contexts.len();
        let ghost pre = *self;
        {
            let ctx = &mut self.contexts[n - 1];
            let d = ctx.scope_depth;
            match ctx.locals.pop() {
                Some(l) => {
                    let mut l = l;
                    l.depth = Some(d);
                    ctx.locals.push(l);
                },
                None => {},
            }
        }
        proof {
            assert forall|c: int| 0 <= c < self.contexts@.len() implies (
            #[trigger] self.contexts@[c]).wf() by {
                if c != n - 1 {
                    assert(self.contexts@[c] == pre.contexts@[c]);
                }
            }
            assert forall|c: int| 0 <= c < self.contexts@.len() implies chunk_ok(
                (#[trigger] self.contexts@[c]).func.chunk,
                self.funcs@.len() as int,
                self.strings@.len() as int,
            ) by {
                if c != n - 1 {
                    assert(self.contexts@[c] == pre.contexts@[c]);
                }
            }
        }
    }

    /// Parse a `var` declaration; the `var` was just consumed.
    fn var_declaration(&mut self)
        requires
            old(self).wf(),
        ensures
            final(self).wf(),
            parse_frame(*old(self), *final(self)),
        decreases old(self).tokens@.len() - old(self).pos, 5int,
    {
        self.parse_variable("Expect variable name.");
        if self.match_token(TokenType::Equal) {
            self.expression();
        } else {
            self.emit_op(OpCode::Nil);
        }
        self.mark_initialized();
        self.consume(TokenType::Semicolon, "Expect ';' after variable declaration.");
    }

    /// Compile a function literal; its name token was just consumed. A new
    /// context is opened for it; when the body ends, the finished function
    /// joins the function table and the enclosing chunk gets a `Closure`
    /// instruction trailed by one `(is_local, index)` pair per upvalue.
    fn function(&mut self)
        requires
            old(self).wf(),
        ensures
            final(self).wf(),
            parse_frame(*old(self), *final(self)),
        decreases old(self).tokens@.len() - old(self).pos, 6int,
    {
        let name = self.prev.duplicate().lexeme;
        let ghost pre = *self;
        self.contexts.push(Resolver::for_function(name));
        proof {
            assert forall|c: int| 0 <= c < self.contexts@.len() implies (
            #[trigger] self.contexts@[c]).wf() by {
                if c < pre.contexts@.len() {
                    assert(self.contexts@[c] == pre.contexts@[c]);
                }
            }
            assert forall|c: int| 0 <= c < self.contexts@.len() implies chunk_ok(
                (#[trigger] self.contexts@[c]).func.chunk,
                self.funcs@.len() as int,
                self.strings@.len() as int,
            ) by {
                if c < pre.contexts@.len() {
                    assert(self.contexts@[c] == pre.contexts@[c]);
                }
            }
            assert forall|c: int|
                0 <= c < pre.contexts@.len() implies (#[trigger] self.contexts@[c]).func.chunk
                    == pre.contexts@[c].func.chunk by {
                assert(self.contexts@[c] == pre.contexts@[c]);
            }
        }
        self.open_scope();
        self.consume(TokenType::LeftParen, "Expect '(' after function name.");
        let mut arity: u32 = 0;
        if !self.check(TokenType::RightParen) {
            loop
                invariant
                    self.wf(),
                    self.tokens == pre.tokens,
                    self.pos >= pre.pos,
                    self.contexts@.len() == pre.contexts@.len() + 1,
                    self.funcs@.len() >= pre.funcs@.len(),
                    self.strings@.len() >= pre.strings@.len(),
                    pre.had_error ==> self.had_error,
                    forall|c: int|
                        0 <= c < pre.contexts@.len() ==> (
                        #[trigger] self.contexts@[c]).func.chunk == pre.contexts@[c].func.chunk,
                decreases self.tokens@.len() - self.pos,
            {
                if arity == u32::MAX {
                    self.error_str("Too many parameters.");
                } else {
                    arity = arity + 1;
                }
                self.parse_variable("Expect parameter name.");
                self.mark_initialized();
                if !self.match_token(TokenType::Comma) {
                    break;
                }
            }
        }
        {
            let ghost mid = *self;
            let n = self.contexts.len();
            {
                let ctx = &mut self.contexts[n - 1];
                ctx.func.arity = arity;
            }
            proof {
                assert forall|c: int| 0 <= c < self.contexts@.len() implies (
                #[trigger] self.contexts@[c]).wf() by {
                    if c != n - 1 {
                        assert(self.contexts@[c] == mid.contexts@[c]);
                    }
                }
                assert forall|c: int| 0 <= c < self.contexts@.len() implies chunk_ok(
                    (#[trigger] self.contexts@[c]).func.chunk,
                    self.funcs@.len() as int,
                    self.strings@.len() as int,
                ) by {
                    if c != n - 1 {
                        assert(self.contexts@[c] == mid.contexts@[c]);
                    }
                }
            }
        }
        self.consume(TokenType::RightParen, "Expect ')' after parameters.");
        self.consume(TokenType::LeftBrace, "Expect '{' before function body.");
        self.block();
        self.emit_return();
        let ctx = match self.contexts.pop() {
            Some(c) => c,
            None => {
                proof {
                    assert(false);
                }
                Resolver::new()
            },
        };
        let ghost popped = *self;
        let fidx = self.funcs.len();
        self.funcs.push(ctx.func);
        proof {
            assert forall|c: int| 0 <= c < self.contexts@.len() implies chunk_ok(
                (#[trigger] self.contexts@[c]).func.chunk,
                self.funcs@.len() as int,
                self.strings@.len() as int,
            ) by {
                crate::chunk::lemma_chunk_ok_grow(
                    self.contexts@[c].func.chunk,
                    popped.funcs@.len() as int,
                    popped.strings@.len() as int,
                    self.funcs@.len() as int,
                    self.strings@.len() as int,
                );
            }
            assert forall|f: int| 0 <= f < self.funcs@.len() implies chunk_ok(
                (#[trigger] self.funcs@[f]).chunk,
                self.funcs@.len() as int,
                self.strings@.len() as int,
            ) by {
                crate::chunk::lemma_chunk_ok_grow(
                    self.funcs@[f].chunk,
                    popped.funcs@.len() as int,
                    popped.strings@.len() as int,
                    self.funcs@.len() as int,
                    self.strings@.len() as int,
                );
            }
        }
        match self.make_constant(Value::Fun(fidx)) {
            Some(idx) => {
                self.emit_op(OpCode::Closure);
                self.emit_u32(idx);
            },
            None => {},
        }
        let ups = ctx.upvalues;
        let nups = ups.len();
        let mut k: usize = 0;
        while k < nups
            invariant
                self.wf(),
                nups == ups@.len(),
                self.tokens == pre.tokens,
                self.pos >= pre.pos,
                self.contexts@.len() == pre.contexts@.len(),
                self.funcs@.len() >= pre.funcs@.len(),
                self.strings@.len() >= pre.strings@.len(),
                top_code_len(*self) >= top_code_len(pre),
                forall|c: int|
                    0 <= c < pre.contexts@.len() - 1 ==> (#[trigger] self.contexts@[c]).func.chunk
                        == pre.contexts@[c].func.chunk,
                pre.had_error ==> self.had_error,
            decreases nups - k,
        {
            let d = ups[k];
            self.emit_flag(if d.is_local { 1 } else { 0 });
            self.emit_u32(d.index);
            k = k + 1;
        }
    }

    /// Parse a `fun` declaration; the `fun` was just consumed. The name is
    /// initialized before the body is compiled, so the function can call
    /// itself.
    fn fun_declaration(&mut self)
        requires
            old(self).wf(),
        ensures
            final(self).wf(),
            parse_frame(*old(self), *final(self)),
        decreases old(self).tokens@.len() - old(self).pos, 7int,
    {
        self.parse_variable("Expect function name.");
        self.mark_initialized();
        self.function();
    }

    /// Parse an expression statement: the expression's value is dropped.
    fn expression_statement(&mut self)
        requires
            old(self).wf(),
        ensures
            final(self).wf(),
            parse_frame(*old(self), *final(self)),
            old(self).cur.kind != TokenType::Eof ==> final(self).pos > old(self).pos,
        decreases old(self).tokens@.len() - old(self).pos, 2int,
    {
        self.expression();
        self.consume(TokenType::Semicolon, "Expect ';' after expression.");
        self.emit_op(OpCode::Pop);
    }

    /// Parse a `print` statement; the `print` was just consumed.
    fn print_statement(&mut self)
        requires
            old(self).wf(),
        ensures
            final(self).wf(),
            parse_frame(*old(self), *final(self)),
        decreases old(self).tokens@.len() - old(self).pos, 4int,
    {
        self.expression();
        self.consume(TokenType::Semicolon, "Expect ';' after value.");
        self.emit_op(OpCode::Print);
    }

    /// Parse a block; the `{` was just consumed.
    fn block(&mut self)
        requires
            old(self).wf(),
        ensures
            final(self).wf(),
            parse_frame(*old(self), *final(self)),
        decreases old(self).tokens@.len() - old(self).pos, 5int,
    {
        self.open_scope();
        while self.cur.kind != TokenType::RightBrace && self.cur.kind != TokenType::Eof
            invariant
                self.wf(),
                parse_frame(*old(self), *self),
            decreases self.tokens@.len() - self.pos,
        {
            self.declaration();
        }
        self.consume(TokenType::RightBrace, "Expect '}' after block.");
        self.close_scope();
    }

    /// Parse an `if` statement; the `if` was just consumed.
    fn if_statement(&mut self)
        requires
            old(self).wf(),
        ensures
            final(self).wf(),
            parse_frame(*old(self), *final(self)),
        decreases old(self).tokens@.len() - old(self).pos, 4int,
    {
        self.consume(TokenType::LeftParen, "Expect '(' after 'if'.");
        self.expression();
        self.consume(TokenType::RightParen, "Expect ')' after condition.");
        let then_jump = self.emit_jump(OpCode::JumpIfFalse);
        self.emit_op(OpCode::Pop);
        self.statement();
        let else_jump = self.emit_jump(OpCode::Jump);
        self.patch_jump(then_jump);
        self.emit_op(OpCode::Pop);
        if self.match_token(TokenType::Else) {
            self.statement();
        }
        self.patch_jump(else_jump);
    }

    /// Parse a `while` statement; the `while` was just consumed.
    fn while_statement(&mut self)
        requires
            old(self).wf(),
        ensures
            final(self).wf(),
            parse_frame(*old(self), *final(self)),
        decreases old(self).tokens@.len() - old(self).pos, 4int,
    {
        let loop_start = self.top_size();
        self.consume(TokenType::LeftParen, "Expect '(' after 'while'.");
        self.expression();
        self.consume(TokenType::RightParen, "Expect ')' after condition.");
        let exit_jump = self.emit_jump(OpCode::JumpIfFalse);
        self.emit_op(OpCode::Pop);
        self.statement();
        self.emit_loop(loop_start);
        self.patch_jump(exit_jump);
        self.emit_op(OpCode::Pop);
    }

    /// Parse a `for` statement; the `for` was just consumed. It is lowered
    /// into a scope of its own holding the initializer, with the increment
    /// threaded in via a forward jump over the body and a backward jump to
    /// the increment. An absent condition counts as true.
    #[verifier::rlimit(50)]
    fn for_statement(&mut self)
        requires
            old(self).wf(),
        ensures
            final(self).wf(),
            parse_frame(*old(self), *final(self)),
        decreases old(self).tokens@.len() - old(self).pos, 4int,
    {
        self.open_scope();
        self.consume(TokenType::LeftParen, "Expect '(' after 'for'.");
        if self.match_token(TokenType::Semicolon) {
            // no initializer
        } else if self.match_token(TokenType::Var) {
            self.var_declaration();
        } else {
            self.expression_statement();
        }
        let mut loop_start = self.top_size();
        let mut exit_jump: Option<u32> = None;
        if !self.match_token(TokenType::Semicolon) {
            self.expression();
            self.consume(TokenType::Semicolon, "Expect ';' after loop condition.");
            exit_jump = Some(self.emit_jump(OpCode::JumpIfFalse));
            self.emit_op(OpCode::Pop);
        }
        if !self.match_token(TokenType::RightParen) {
            let body_jump = self.emit_jump(OpCode::Jump);
            let increment_start = self.top_size();
            self.expression();
            self.emit_op(OpCode::Pop);
            self.consume(TokenType::RightParen, "Expect ')' after for clauses.");
            self.emit_loop(loop_start);
            loop_start = increment_start;
            self.patch_jump(body_jump);
        }
        self.statement();
        self.emit_loop(loop_start);
        match exit_jump {
            Some(j) => {
                self.patch_jump(j);
                self.emit_op(OpCode::Pop);
            },
            None => {},
        }
        self.close_scope();
    }

    /// Parse a `return` statement; the `return` was just consumed. The
    /// top-level script cannot return; a bare `return` returns nil.
    fn return_statement(&mut self)
        requires
            old(self).wf(),
        ensures
            final(self).wf(),
            parse_frame(*old(self), *final(self)),
        decreases old(self).tokens@.len() - old(self).pos, 4int,
    {
        let n = self.contexts.len();
        let top_kind = self.contexts[n - 1].kind;
        if matches!(top_kind, FunctionType::Script) {
            self.error_str("Can't return from top-level code.");
        }
        if self.match_token(TokenType::Semicolon) {
            self.emit_return();
        } else {
            self.expression();
            self.consume(TokenType::Semicolon, "Expect ';' after return value.");
            self.emit_op(OpCode::Return);
        }
    }

    /// Parse one statement.
    fn statement(&mut self)
        requires
            old(self).wf(),
        ensures
            final(self).wf(),
            parse_frame(*old(self), *final(self)),
            old(self).cur.kind != TokenType::Eof ==> final(self).pos > old(self).pos,
        decreases old(self).tokens@.len() - old(self).pos, 3int,
    {
        if self.match_token(TokenType::Print) {
            self.print_statement();
        } else if self.match_token(TokenType::LeftBrace) {
            self.block();
        } else if self.match_token(TokenType::If) {
            self.if_statement();
        } else if self.match_token(TokenType::While) {
            self.while_statement();
        } else if self.match_token(TokenType::For) {
            self.for_statement();
        } else if self.match_token(TokenType::Return) {
            self.return_statement();
        } else {
            self.expression_statement();
        }
    }

    /// Parse one declaration, synchronizing to the next statement boundary
    /// after an error.
    fn declaration(&mut self)
        requires
            old(self).wf(),
        ensures
            final(self).wf(),
            parse_frame(*old(self), *final(self)),
            old(self).cur.kind != TokenType::Eof ==> final(self).pos > old(self).pos,
        decreases old(self).tokens@.len() - old(self).pos, 4int,
    {
        if self.match_token(TokenType::Var) {
            self.var_declaration();
        } else if self.match_token(TokenType::Fun) {
            self.fun_declaration();
        } else {
            self.statement();
        }
        if self.panic_mode {
            self.synchronize();
        }
    }

    /// Compile the whole token stream into a program. On success the
    /// program is well-formed — every chunk's line table runs in parallel
    /// with its code, and every constant-pool entry points into the
    /// program's own tables — and its script function is named `<script>`,
    /// takes no arguments and captures nothing. On failure at least one
    /// diagnostic says why; a parser that has already recorded an error can
    /// only fail.
    pub fn compile(self) -> (r: Result<Program, Vec<Diagnostic>>)
        requires
            self.wf(),
            self.contexts@.len() == 1,
        ensures
            r is Ok ==> r->Ok_0.wf(),
            r is Ok ==> r->Ok_0.funcs@[r->Ok_0.script as int].upvalue_count == 0,
            r is Ok ==> r->Ok_0.funcs@[r->Ok_0.script as int].arity == 0,
            r is Ok ==> r->Ok_0.funcs@[r->Ok_0.script as int].name@ == "<script>".spec_bytes(),
            self.had_error ==> r is Err,
            r is Err ==> r->Err_0@.len() >= 1,
    {
        let ghost pre_had_error = self.had_error;
        let mut p = self;
        p.advance();
        loop
            invariant
                p.wf(),
                p.contexts@.len() == 1,
                pre_had_error ==> p.had_error,
            decreases p.tokens@.len() - p.pos,
        {
            if p.match_token(TokenType::Eof) {
                break;
            }
            p.declaration();
        }
        p.consume(TokenType::Eof, "Expect end of expression.");
        p.emit_return();
        let ctx = match p.contexts.pop() {
            Some(c) => c,
            None => {
                proof {
                    assert(false);
                }
                Resolver::new()
            },
        };
        let ghost popped = p;
        let fidx = p.funcs.len();
        p.funcs.push(ctx.func);
        proof {
            assert forall|f: int| 0 <= f < p.funcs@.len() implies chunk_ok(
                (#[trigger] p.funcs@[f]).chunk,
                p.funcs@.len() as int,
                p.strings@.len() as int,
            ) by {
                crate::chunk::lemma_chunk_ok_grow(
                    p.funcs@[f].chunk,
                    popped.funcs@.len() as int,
                    popped.strings@.len() as int,
                    p.funcs@.len() as int,
                    p.strings@.len() as int,
                );
            }
        }
        if p.had_error {
            Err(p.diagnostics)
        } else {
            Ok(Program { funcs: p.funcs, strings: p.strings, script: fidx })
        }
    }
}

/// Compile source text into a program, or the list of what was wrong with
/// it.
pub fn compile_source(source: Vec<u8>) -> (r: Result<Program, Vec<Diagnostic>>)
    ensures
        r is Ok ==> r->Ok_0.wf(),
        r is Ok ==> r->Ok_0.funcs@[r->Ok_0.script as int].upvalue_count == 0,
        r is Ok ==> r->Ok_0.funcs@[r->Ok_0.script as int].arity == 0,
        r is Ok ==> r->Ok_0.funcs@[r->Ok_0.script as int].name@ == "<script>".spec_bytes(),
        r is Err ==> r->Err_0@.len() >= 1,
{
    let parser = Parser::init(source);
    parser.compile()
}

} // verus!
