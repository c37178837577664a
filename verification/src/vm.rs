//! The virtual machine: a compiled program in, printed values out.
//!
//! Execution walks the bytecode of the function on top of the frame stack,
//! manipulating a value stack. Closures live in an arena, as do the shared
//! cells that captured variables are lifted into: a captured stack slot is
//! replaced by a `Lifted` alias of its cell, so reads and writes through the
//! slot and through any capturing closure see one storage.
//!
//! The machine never panics: every index the bytecode supplies is checked,
//! and an ill-formed instruction stream ends the run with a runtime error.

use vstd::prelude::*;
use vstd::string::StringSliceAdditionalSpecFns;
use crate::bytes::{bytes_equal, concat_bytes, copy_range, dec_of_u64, dec_digits, text_bytes};
use crate::chunk::OpCode;
use crate::chunk::Program;
use crate::numbers::{
    num_add, num_sub, num_mul, num_div, num_neg, num_lt, num_eq, clock_millis,
    num_seconds_of_millis,
};
use crate::value::{Value, spec_falsy, spec_plain};

verus! {

/// A closure at runtime: the function it runs, and one cell index per
/// captured variable.
pub struct ClosureRec {
    pub fidx: usize,
    pub upvalues: Vec<usize>,
}

/// An activation record: the closure being run, its instruction pointer,
/// and the base of its slice of the value stack.
#[derive(Clone, Copy, PartialEq, Eq, Structural, Debug)]
pub struct Frame {
    pub closure: usize,
    pub ip: usize,
    pub offset: usize,
}

/// One printed item: rendered text, or a number left as bits for the
/// embedder to format.
#[derive(Debug, PartialEq, Eq)]
pub enum OutItem {
    Text(Vec<u8>),
    Num(u64),
}

/// One line of a runtime error's stack trace, innermost first.
#[derive(Debug)]
pub struct TraceLine {
    pub line: u32,
    pub name: Vec<u8>,
}

/// A runtime failure: its message, and the frame stack it happened under.
#[derive(Debug)]
pub struct RuntimeError {
    pub message: Vec<u8>,
    pub trace: Vec<TraceLine>,
}

pub struct VM {
    pub program: Program,
    pub frames: Vec<Frame>,
    pub stack: Vec<Value>,
    pub cells: Vec<Value>,
    pub closures: Vec<ClosureRec>,
    pub strings: Vec<Vec<u8>>,
    pub output: Vec<OutItem>,
}

impl VM {
    /// A value whose references point into the machine's tables.
    pub open spec fn value_ok(self, v: Value) -> bool {
        match v {
            Value::Str(s) => s < self.strings@.len(),
            Value::Fun(f) => f < self.program.funcs@.len(),
            Value::Closure(c) => c < self.closures@.len(),
            Value::Lifted(l) => l < self.cells@.len(),
            _ => true,
        }
    }

    /// A closure whose function exists, whose upvalue list is exactly as
    /// long as that function declares, and whose every upvalue is a live
    /// cell.
    pub open spec fn closure_ok(self, c: ClosureRec) -> bool {
        &&& c.fidx < self.program.funcs@.len()
        &&& c.upvalues@.len() == self.program.funcs@[c.fidx as int].upvalue_count
        &&& forall|u: int| 0 <= u < c.upvalues@.len() ==> (#[trigger] c.upvalues@[u]) < self.cells@.len()
    }

    /// The machine invariant: the program is well-formed, the string table
    /// covers the program's, every stack and cell value points into the
    /// tables, cells hold plain values, every closure is sound, and every
    /// frame runs an existing closure.
    pub open spec fn wf(self) -> bool {
        &&& self.program.wf()
        &&& self.strings@.len() >= self.program.strings@.len()
        &&& forall|i: int| 0 <= i < self.stack@.len() ==> self.value_ok(#[trigger] self.stack@[i])
        &&& forall|i: int|
            0 <= i < self.cells@.len() ==> self.value_ok(#[trigger] self.cells@[i]) && spec_plain(
                self.cells@[i])
        &&& forall|c: int| 0 <= c < self.closures@.len() ==> self.closure_ok(#[trigger] self.closures@[c])
        &&& forall|f: int|
            0 <= f < self.frames@.len() ==> (#[trigger] self.frames@[f]).closure
                < self.closures@.len()
    }

    /// What a value reads as: an alias reads as its cell's content.
    pub open spec fn spec_deref(self, v: Value) -> Value {
        match v {
            Value::Lifted(c) => self.cells@[c as int],
            _ => v,
        }
    }

    /// The innermost activation record.
    pub open spec fn cur_frame(self) -> Frame {
        self.frames@.last()
    }

    /// The function the innermost frame is running.
    pub open spec fn cur_func(self) -> crate::chunk::Function {
        self.program.funcs@[self.closures@[self.cur_frame().closure as int].fidx as int]
    }

    /// The code of the function the innermost frame is running.
    pub open spec fn cur_code(self) -> Seq<u8> {
        self.cur_func().chunk.code@
    }

    /// The instruction about to execute: the opcode under the innermost
    /// frame's instruction pointer, if the pointer stands on one.
    pub open spec fn cur_op(self) -> Option<OpCode> {
        if self.cur_frame().ip < self.cur_code().len() {
            crate::chunk::spec_opcode_of(self.cur_code()[self.cur_frame().ip as int])
        } else {
            None
        }
    }

    /// The 32-bit operand following the opcode about to execute.
    pub open spec fn cur_operand(self) -> u32 {
        crate::chunk::word_of_be(
            self.cur_code()[self.cur_frame().ip + 1],
            self.cur_code()[self.cur_frame().ip + 2],
            self.cur_code()[self.cur_frame().ip + 3],
            self.cur_code()[self.cur_frame().ip + 4],
        )
    }

    /// The frame stack after the innermost frame steps `k` code bytes
    /// forward.
    pub open spec fn frames_stepped(self, k: int) -> Seq<Frame> {
        self.frames@.update(
            self.frames@.len() - 1,
            (Frame {
                closure: self.cur_frame().closure,
                ip: (self.cur_frame().ip + k) as usize,
                offset: self.cur_frame().offset,
            }),
        )
    }

    /// Whether a step left the arenas and the output alone: cells,
    /// closures, strings and printed items all unchanged.
    pub open spec fn keeps_arenas(pre: VM, post: VM) -> bool {
        &&& post.cells == pre.cells
        &&& post.closures == pre.closures
        &&& post.strings == pre.strings
        &&& post.output == pre.output
    }

    /// Stand a machine up on a compiled program: the script closure in the
    /// reserved slot 0, the built-in clock in its predeclared slot 1, and
    /// one frame running the script.
    pub fn new(program: Program) -> (r: VM)
        requires
            program.wf(),
            program.funcs@[program.script as int].upvalue_count == 0,
        ensures
            r.wf(),
            r.program == program,
            r.frames@ =~= seq![Frame { closure: 0, ip: 0, offset: 0 }],
            r.stack@ =~= seq![Value::Closure(0), Value::NativeClock],
            r.closures@.len() == 1,
            r.closures@[0].fidx == program.script,
            r.closures@[0].upvalues@.len() == 0,
            r.cells@.len() == 0,
            r.output@.len() == 0,
            r.strings@.len() == program.strings@.len(),
            forall|i: int|
                0 <= i < program.strings@.len() ==> #[trigger] r.strings@[i]@
                    == program.strings@[i]@,
    {
        let mut strings: Vec<Vec<u8>> = Vec::new();
        let n = program.strings.len();
        let mut i: usize = 0;
        while i < n
            invariant
                i <= n,
                n == program.strings@.len(),
                strings@.len() == i,
                forall|j: int| 0 <= j < i ==> #[trigger] strings@[j]@ == program.strings@[j]@,
            decreases n - i,
        {
            let s = copy_range(&program.strings[i], 0, program.strings[i].len());
            strings.push(s);
            i = i + 1;
        }
        let mut closures: Vec<ClosureRec> = Vec::new();
        closures.push(ClosureRec { fidx: program.script, upvalues: Vec::new() });
        let mut stack: Vec<Value> = Vec::new();
        stack.push(Value::Closure(0));
        stack.push(Value::NativeClock);
        let mut frames: Vec<Frame> = Vec::new();
        frames.push(Frame { closure: 0, ip: 0, offset: 0 });
        VM {
            program,
            frames,
            stack,
            cells: Vec::new(),
            closures,
            strings,
            output: Vec::new(),
        }
    }

    /// Push a value on the value stack.
    fn push_val(&mut self, v: Value)
        requires
            old(self).wf(),
            old(self).value_ok(v),
        ensures
            final(self).wf(),
            final(self).stack@ == old(self).stack@.push(v),
            final(self).program == old(self).program,
            final(self).frames == old(self).frames,
            final(self).cells == old(self).cells,
            final(self).closures == old(self).closures,
            final(self).strings == old(self).strings,
            final(self).output == old(self).output,
    {
        self.stack.push(v);
    }

    /// Pop the top of the value stack, if there is one.
    fn pop_val(&mut self) -> (r: Option<Value>)
        requires
            old(self).wf(),
        ensures
            final(self).wf(),
            final(self).program == old(self).program,
            final(self).frames == old(self).frames,
            final(self).cells == old(self).cells,
            final(self).closures == old(self).closures,
            final(self).strings == old(self).strings,
            final(self).output == old(self).output,
            old(self).stack@.len() == 0 ==> r is None && final(self).stack@ == old(self).stack@,
            old(self).stack@.len() > 0 ==> r == Some(old(self).stack@.last()) && final(
            self).stack@ == old(self).stack@.drop_last(),
            r is Some ==> final(self).value_ok(r->0),
    {
        let r = self.stack.pop();
        proof {
            if old(self).stack@.len() > 0 {
                assert(final(self).stack@ =~= old(self).stack@.drop_last());
                assert(old(self).stack@.last() == old(self).stack@[old(self).stack@.len() - 1]);
            }
        }
        r
    }

    /// Overwrite one stack slot.
    fn set_stack(&mut self, i: usize, v: Value)
        requires
            old(self).wf(),
            i < old(self).stack@.len(),
            old(self).value_ok(v),
        ensures
            final(self).wf(),
            final(self).stack@ == old(self).stack@.update(i as int, v),
            final(self).program == old(self).program,
            final(self).frames == old(self).frames,
            final(self).cells == old(self).cells,
            final(self).closures == old(self).closures,
            final(self).strings == old(self).strings,
            final(self).output == old(self).output,
    {
        self.stack[i] = v;
    }

    /// Cut the value stack down to `n` values.
    fn truncate_stack(&mut self, n: usize)
        requires
            old(self).wf(),
            n <= old(self).stack@.len(),
        ensures
            final(self).wf(),
            final(self).stack@ == old(self).stack@.subrange(0, n as int),
            final(self).program == old(self).program,
            final(self).frames == old(self).frames,
            final(self).cells == old(self).cells,
            final(self).closures == old(self).closures,
            final(self).strings == old(self).strings,
            final(self).output == old(self).output,
    {
        self.stack.truncate(n);
    }

    /// Allocate a fresh cell holding a plain value and return its index.
    fn alloc_cell(&mut self, v: Value) -> (c: usize)
        requires
            old(self).wf(),
            old(self).value_ok(v),
            spec_plain(v),
        ensures
            final(self).wf(),
            c == old(self).cells@.len(),
            final(self).cells@ == old(self).cells@.push(v),
            final(self).program == old(self).program,
            final(self).frames == old(self).frames,
            final(self).stack == old(self).stack,
            final(self).closures == old(self).closures,
            final(self).strings == old(self).strings,
            final(self).output == old(self).output,
    {
        let c = self.cells.len();
        self.cells.push(v);
        c
    }

    /// Write a plain value into an existing cell: the one storage every
    /// alias of that cell reads.
    fn write_cell(&mut self, c: usize, v: Value)
        requires
            old(self).wf(),
            c < old(self).cells@.len(),
            old(self).value_ok(v),
            spec_plain(v),
        ensures
            final(self).wf(),
            final(self).cells@ == old(self).cells@.update(c as int, v),
            final(self).program == old(self).program,
            final(self).frames == old(self).frames,
            final(self).stack == old(self).stack,
            final(self).closures == old(self).closures,
            final(self).strings == old(self).strings,
            final(self).output == old(self).output,
    {
        self.cells[c] = v;
    }

    /// Intern a fresh string and return its index.
    fn push_string(&mut self, s: Vec<u8>) -> (i: usize)
        requires
            old(self).wf(),
        ensures
            final(self).wf(),
            i == old(self).strings@.len(),
            final(self).strings@ == old(self).strings@.push(s),
            final(self).program == old(self).program,
            final(self).frames == old(self).frames,
            final(self).stack == old(self).stack,
            final(self).cells == old(self).cells,
            final(self).closures == old(self).closures,
            final(self).output == old(self).output,
    {
        let i = self.strings.len();
        self.strings.push(s);
        i
    }

    /// Record a printed item.
    fn push_out(&mut self, o: OutItem)
        requires
            old(self).wf(),
        ensures
            final(self).wf(),
            final(self).output@ == old(self).output@.push(o),
            final(self).program == old(self).program,
            final(self).frames == old(self).frames,
            final(self).stack == old(self).stack,
            final(self).cells == old(self).cells,
            final(self).closures == old(self).closures,
            final(self).strings == old(self).strings,
    {
        self.output.push(o);
    }

    /// Push an activation record.
    fn push_frame(&mut self, fr: Frame)
        requires
            old(self).wf(),
            fr.closure < old(self).closures@.len(),
        ensures
            final(self).wf(),
            final(self).frames@ == old(self).frames@.push(fr),
            final(self).program == old(self).program,
            final(self).stack == old(self).stack,
            final(self).cells == old(self).cells,
            final(self).closures == old(self).closures,
            final(self).strings == old(self).strings,
            final(self).output == old(self).output,
    {
        self.frames.push(fr);
    }

    /// Pop the innermost activation record, if there is one.
    fn pop_frame(&mut self) -> (r: Option<Frame>)
        requires
            old(self).wf(),
        ensures
            final(self).wf(),
            final(self).program == old(self).program,
            final(self).stack == old(self).stack,
            final(self).cells == old(self).cells,
            final(self).closures == old(self).closures,
            final(self).strings == old(self).strings,
            final(self).output == old(self).output,
            old(self).frames@.len() == 0 ==> r is None && final(self).frames@ == old(self).frames@,
            old(self).frames@.len() > 0 ==> r == Some(old(self).frames@.last()) && final(
            self).frames@ == old(self).frames@.drop_last(),
    {
        let r = self.frames.pop();
        proof {
            if old(self).frames@.len() > 0 {
                assert(final(self).frames@ =~= old(self).frames@.drop_last());
            }
        }
        r
    }

    /// Replace the innermost activation record.
    fn set_top_frame(&mut self, fr: Frame)
        requires
            old(self).wf(),
            old(self).frames@.len() >= 1,
            fr.closure < old(self).closures@.len(),
        ensures
            final(self).wf(),
            final(self).frames@ == old(self).frames@.update(old(self).frames@.len() - 1, fr),
            final(self).program == old(self).program,
            final(self).stack == old(self).stack,
            final(self).cells == old(self).cells,
            final(self).closures == old(self).closures,
            final(self).strings == old(self).strings,
            final(self).output == old(self).output,
    {
        let n = self.frames.len();
        self.frames[n - 1] = fr;
    }

    /// Register a closure in the arena and return its index: closure
    /// identity is arena identity.
    fn push_closure(&mut self, rec: ClosureRec) -> (ci: usize)
        requires
            old(self).wf(),
            old(self).closure_ok(rec),
        ensures
            final(self).wf(),
            ci == old(self).closures@.len(),
            final(self).closures@ == old(self).closures@.push(rec),
            final(self).program == old(self).program,
            final(self).frames == old(self).frames,
            final(self).stack == old(self).stack,
            final(self).cells == old(self).cells,
            final(self).strings == old(self).strings,
            final(self).output == old(self).output,
    {
        let ci = self.closures.len();
        self.closures.push(rec);
        ci
    }

    /// Read a value: an alias reads through its cell and yields the plain
    /// value stored there.
    fn deref_val(&self, v: Value) -> (r: Value)
        requires
            self.wf(),
            self.value_ok(v),
        ensures
            r == self.spec_deref(v),
            self.value_ok(r),
            spec_plain(r),
    {
        match v {
            Value::Lifted(c) => self.cells[c],
            _ => v,
        }
    }

    /// Capture the stack slot `si`: hand back its cell if it is already
    /// lifted, else migrate its value into a fresh cell and leave the slot
    /// as an alias of it. Either way there is at most one live cell per
    /// captured slot.
    fn capture_upvalue(&mut self, si: usize) -> (c: usize)
        requires
            old(self).wf(),
            si < old(self).stack@.len(),
        ensures
            final(self).wf(),
            c < final(self).cells@.len(),
            final(self).cells@.len() >= old(self).cells@.len(),
            final(self).stack@.len() == old(self).stack@.len(),
            final(self).program == old(self).program,
            final(self).frames == old(self).frames,
            final(self).closures == old(self).closures,
            final(self).strings == old(self).strings,
            final(self).output == old(self).output,
            old(self).stack@[si as int] is Lifted ==> c == old(self).stack@[si as int]->Lifted_0
                && *final(self) == *old(self),
            !(old(self).stack@[si as int] is Lifted) ==> c == old(self).cells@.len() && final(
            self).cells@ == old(self).cells@.push(old(self).stack@[si as int]) && final(
            self).stack@ == old(self).stack@.update(si as int, Value::Lifted(c)),
    {
        let slot = self.stack[si];
        match slot {
            Value::Lifted(cc) => cc,
            _ => {
                let c = self.alloc_cell(slot);
                self.set_stack(si, Value::Lifted(c));
                c
            },
        }
    }

    /// Structural equality of two plain values: nil equals nil, booleans by
    /// equality, numbers by IEEE-754 equality, strings by content, functions
    /// and closures by identity, and values of different kinds are unequal.
    pub open spec fn spec_values_equal(self, a: Value, b: Value) -> bool {
        match (a, b) {
            (Value::Nil, Value::Nil) => true,
            (Value::Bool(x), Value::Bool(y)) => x == y,
            (Value::Number(x), Value::Number(y)) => crate::numbers::eq_bits(x, y),
            (Value::Str(x), Value::Str(y)) => self.strings@[x as int]@ == self.strings@[y as int]@,
            (Value::Closure(x), Value::Closure(y)) => x == y,
            (Value::Fun(x), Value::Fun(y)) => x == y,
            (Value::NativeClock, Value::NativeClock) => true,
            _ => false,
        }
    }

    /// The `Equal` instruction's comparison, exactly `spec_values_equal`.
    fn values_equal(&self, a: Value, b: Value) -> (r: bool)
        requires
            self.wf(),
            self.value_ok(a),
            self.value_ok(b),
            spec_plain(a),
            spec_plain(b),
        ensures
            r == self.spec_values_equal(a, b),
    {
        match (a, b) {
            (Value::Nil, Value::Nil) => true,
            (Value::Bool(x), Value::Bool(y)) => x == y,
            (Value::Number(x), Value::Number(y)) => num_eq(x, y),
            (Value::Str(x), Value::Str(y)) => bytes_equal(&self.strings[x], &self.strings[y]),
            (Value::Closure(x), Value::Closure(y)) => x == y,
            (Value::Fun(x), Value::Fun(y)) => x == y,
            (Value::NativeClock, Value::NativeClock) => true,
            _ => false,
        }
    }
}

/// The source line a trace entry reports for a frame: the line of the code
/// byte before its instruction pointer, or zero when the pointer is not
/// past any code byte.
pub open spec fn spec_trace_line(fr: Frame, lines: Seq<u32>) -> u32 {
    if 1 <= fr.ip <= lines.len() {
        lines[fr.ip - 1]
    } else {
        0
    }
}

/// Whether a bounded run finished the script or merely ran out of its
/// instruction budget.
#[derive(Clone, Copy, PartialEq, Eq, Structural, Debug)]
pub enum RunStatus {
    Halted,
    Running,
}

/// How one `Return` instruction ended.
enum ReturnOutcome {
    Halted,
    Continued,
    Corrupt,
}

/// What one instruction did: the machine stepped, the outermost frame
/// returned and the machine halted, or a runtime error stopped it.
pub enum StepResult {
    Stepped,
    Halted,
    Fault(RuntimeError),
}

impl VM {
    /// The function run by the frame that trace entry `i` reports:
    /// innermost frame first.
    pub open spec fn trace_source(self, i: int) -> crate::chunk::Function {
        self.program.funcs@[self.closures@[self.frames@[self.frames@.len() - 1
            - i].closure as int].fidx as int]
    }

    /// A runtime error carrying `message` and the stack trace of the
    /// current frame stack, innermost frame first: the line of the
    /// instruction each frame last executed, and its function's name.
    fn fail(&self, message: Vec<u8>) -> (e: RuntimeError)
        requires
            self.wf(),
        ensures
            e.message == message,
            e.trace@.len() == self.frames@.len(),
            forall|i: int|
                0 <= i < e.trace@.len() ==> #[trigger] e.trace@[i].name@ == self.trace_source(
                    i,
                ).name@ && e.trace@[i].line == spec_trace_line(
                    self.frames@[self.frames@.len() - 1 - i],
                    self.trace_source(i).chunk.lines@,
                ),
    {
        let mut trace: Vec<TraceLine> = Vec::new();
        let n = self.frames.len();
        let mut f = n;
        while f > 0
            invariant
                self.wf(),
                f <= n,
                n == self.frames@.len(),
                trace@.len() + f == n,
                forall|i: int|
                    0 <= i < trace@.len() ==> #[trigger] trace@[i].name@ == self.trace_source(
                        i,
                    ).name@ && trace@[i].line == spec_trace_line(
                        self.frames@[self.frames@.len() - 1 - i],
                        self.trace_source(i).chunk.lines@,
                    ),
            decreases f,
        {
            f = f - 1;
            let fr = self.frames[f];
            let fidx = self.closures[fr.closure].fidx;
            let name = copy_range(
                &self.program.funcs[fidx].name,
                0,
                self.program.funcs[fidx].name.len(),
            );
            let nlines = self.program.funcs[fidx].chunk.lines.len();
            let line = if fr.ip >= 1 && fr.ip - 1 < nlines {
                self.program.funcs[fidx].chunk.lines[fr.ip - 1]
            } else {
                0
            };
            trace.push(TraceLine { line, name });
        }
        RuntimeError { message, trace }
    }

    /// The error an ill-formed instruction stream ends the run with. A
    /// compiled program never produces one.
    fn corrupt(&self) -> (e: RuntimeError)
        requires
            self.wf(),
        ensures
            e.message@ == "Corrupted bytecode.".spec_bytes(),
            e.trace@.len() == self.frames@.len(),
            forall|i: int|
                0 <= i < e.trace@.len() ==> #[trigger] e.trace@[i].name@ == self.trace_source(
                    i,
                ).name@ && e.trace@[i].line == spec_trace_line(
                    self.frames@[self.frames@.len() - 1 - i],
                    self.trace_source(i).chunk.lines@,
                ),
    {
        self.fail(text_bytes("Corrupted bytecode."))
    }

    /// A fault carrying the ill-formed-bytecode error, with the stack
    /// trace of the current frames.
    fn fault_corrupt(&self) -> (r: StepResult)
        requires
            self.wf(),
        ensures
            r is Fault,
            r->Fault_0.message@ == "Corrupted bytecode.".spec_bytes(),
            r->Fault_0.trace@.len() == self.frames@.len(),
            forall|i: int|
                0 <= i < r->Fault_0.trace@.len() ==> #[trigger] r->Fault_0.trace@[i].name@
                    == self.trace_source(i).name@ && r->Fault_0.trace@[i].line == spec_trace_line(
                    self.frames@[self.frames@.len() - 1 - i],
                    self.trace_source(i).chunk.lines@,
                ),
    {
        let e = self.corrupt();
        proof {
            assert forall|i: int| 0 <= i < e.trace@.len() implies #[trigger] e.trace@[i].name@
                == self.trace_source(i).name@ && e.trace@[i].line == spec_trace_line(
                self.frames@[self.frames@.len() - 1 - i],
                self.trace_source(i).chunk.lines@,
            ) by {}
        }
        StepResult::Fault(e)
    }

    /// Read the one-byte operand at the instruction pointer and step past
    /// it; nothing when the code stream ends first.
    fn read_u8_op(&mut self) -> (r: Option<u8>)
        requires
            old(self).wf(),
            old(self).frames@.len() >= 1,
        ensures
            final(self).wf(),
            final(self).program == old(self).program,
            final(self).stack == old(self).stack,
            final(self).cells == old(self).cells,
            final(self).closures == old(self).closures,
            final(self).strings == old(self).strings,
            final(self).output == old(self).output,
            final(self).frames@.len() == old(self).frames@.len(),
            final(self).frames@.last().closure == old(self).frames@.last().closure,
            final(self).frames@.last().offset == old(self).frames@.last().offset,
            (r is Some) == (old(self).cur_frame().ip < old(self).cur_code().len()),
            r is Some ==> final(self).frames@ == old(self).frames_stepped(1),
            r is None ==> *final(self) == *old(self),
            ({
                let fr = old(self).frames@.last();
                let code =
                    old(self).program.funcs@[old(self).closures@[fr.closure as int].fidx as int].chunk.code@;
                r is Some ==> fr.ip < code.len() && r->0 == code[fr.ip as int]
            }),
    {
        let nf = self.frames.len();
        let fr = self.frames[nf - 1];
        let fidx = self.closures[fr.closure].fidx;
        let clen = self.program.funcs[fidx].chunk.code.len();
        if fr.ip < clen {
            let b = self.program.funcs[fidx].chunk.code[fr.ip];
            let mut f2 = fr;
            f2.ip = fr.ip + 1;
            self.set_top_frame(f2);
            Some(b)
        } else {
            None
        }
    }

    /// Read the big-endian 32-bit operand at the instruction pointer and
    /// step past it; nothing when the code stream ends first.
    fn read_u32_op(&mut self) -> (r: Option<u32>)
        requires
            old(self).wf(),
            old(self).frames@.len() >= 1,
        ensures
            final(self).wf(),
            final(self).program == old(self).program,
            final(self).stack == old(self).stack,
            final(self).cells == old(self).cells,
            final(self).closures == old(self).closures,
            final(self).strings == old(self).strings,
            final(self).output == old(self).output,
            final(self).frames@.len() == old(self).frames@.len(),
            final(self).frames@.last().closure == old(self).frames@.last().closure,
            final(self).frames@.last().offset == old(self).frames@.last().offset,
            (r is Some) == (old(self).cur_frame().ip + 4 <= old(self).cur_code().len()),
            r is Some ==> final(self).frames@ == old(self).frames_stepped(4),
            r is None ==> *final(self) == *old(self),
            ({
                let fr = old(self).frames@.last();
                let code =
                    old(self).program.funcs@[old(self).closures@[fr.closure as int].fidx as int].chunk.code@;
                r is Some ==> fr.ip + 4 <= code.len() && r->0 == crate::chunk::word_of_be(
                    code[fr.ip as int],
                    code[fr.ip + 1],
                    code[fr.ip + 2],
                    code[fr.ip + 3],
                )
            }),
    {
        let nf = self.frames.len();
        let fr = self.frames[nf - 1];
        let fidx = self.closures[fr.closure].fidx;
        let clen = self.program.funcs[fidx].chunk.code.len();
        if fr.ip < clen && clen - fr.ip >= 4 {
            let b0 = self.program.funcs[fidx].chunk.code[fr.ip];
            let b1 = self.program.funcs[fidx].chunk.code[fr.ip + 1];
            let b2 = self.program.funcs[fidx].chunk.code[fr.ip + 2];
            let b3 = self.program.funcs[fidx].chunk.code[fr.ip + 3];
            let mut f2 = fr;
            f2.ip = fr.ip + 4;
            self.set_top_frame(f2);
            Some(((b0 as u32) << 24) | ((b1 as u32) << 16) | ((b2 as u32) << 8) | (b3 as u32))
        } else {
            None
        }
    }

    /// Move the instruction pointer forward by `d` bytes, if that stays
    /// within the code: a taken jump never leaves the running function's
    /// code bounds.
    fn jump_forward(&mut self, d: u32) -> (ok: bool)
        requires
            old(self).wf(),
            old(self).frames@.len() >= 1,
        ensures
            final(self).wf(),
            final(self).program == old(self).program,
            final(self).stack == old(self).stack,
            final(self).cells == old(self).cells,
            final(self).closures == old(self).closures,
            final(self).strings == old(self).strings,
            final(self).output == old(self).output,
            final(self).frames@.len() == old(self).frames@.len(),
            ok == (old(self).cur_frame().ip + d <= old(self).cur_code().len()),
            ok ==> final(self).frames@ == old(self).frames_stepped(d as int),
            !ok ==> *final(self) == *old(self),
            ({
                let fr = old(self).frames@.last();
                let code =
                    old(self).program.funcs@[old(self).closures@[fr.closure as int].fidx as int].chunk.code@;
                ok ==> final(self).frames@.last().ip <= code.len()
            }),
    {
        let nf = self.frames.len();
        let fr = self.frames[nf - 1];
        let fidx = self.closures[fr.closure].fidx;
        let clen = self.program.funcs[fidx].chunk.code.len();
        let d = d as usize;
        if fr.ip <= clen && d <= clen - fr.ip {
            let mut f2 = fr;
            f2.ip = fr.ip + d;
            self.set_top_frame(f2);
            true
        } else {
            false
        }
    }

    /// Move the instruction pointer backward by `d` bytes, if it reaches
    /// that far: a taken backward jump stays at or above the start of the
    /// code.
    fn jump_back(&mut self, d: u32) -> (ok: bool)
        requires
            old(self).wf(),
            old(self).frames@.len() >= 1,
        ensures
            final(self).wf(),
            final(self).program == old(self).program,
            final(self).stack == old(self).stack,
            final(self).cells == old(self).cells,
            final(self).closures == old(self).closures,
            final(self).strings == old(self).strings,
            final(self).output == old(self).output,
            final(self).frames@.len() == old(self).frames@.len(),
            ok == (d <= old(self).frames@.last().ip),
            ok ==> final(self).frames@ == old(
            self).frames@.update(
                old(self).frames@.len() - 1,
                (Frame {
                    closure: old(self).frames@.last().closure,
                    ip: (old(self).frames@.last().ip - d) as usize,
                    offset: old(self).frames@.last().offset,
                }),
            ),
            !ok ==> *final(self) == *old(self),
    {
        let nf = self.frames.len();
        let fr = self.frames[nf - 1];
        let d = d as usize;
        if d <= fr.ip {
            let mut f2 = fr;
            f2.ip = fr.ip - d;
            self.set_top_frame(f2);
            true
        } else {
            false
        }
    }

    /// Pop two operands, reading each through its cell if it is lifted:
    /// the right operand first, so the pair comes back in source order.
    fn pop_two(&mut self) -> (r: Option<(Value, Value)>)
        requires
            old(self).wf(),
        ensures
            final(self).wf(),
            final(self).program == old(self).program,
            final(self).frames == old(self).frames,
            final(self).cells == old(self).cells,
            final(self).closures == old(self).closures,
            final(self).strings == old(self).strings,
            final(self).output == old(self).output,
            (match r {
                Some(p) => final(self).value_ok(p.0) && final(self).value_ok(p.1) && spec_plain(
                    p.0,
                ) && spec_plain(p.1),
                None => true,
            }),
            old(self).stack@.len() >= 2 ==> r == Some(
                (
                    old(self).spec_deref(old(self).stack@[old(self).stack@.len() - 2]),
                    old(self).spec_deref(old(self).stack@[old(self).stack@.len() - 1]),
                ),
            ) && final(self).stack@ == old(self).stack@.drop_last().drop_last(),
            old(self).stack@.len() < 2 ==> r is None,
    {
        let b = match self.pop_val() {
            Some(v) => v,
            None => {
                return None;
            },
        };
        let a = match self.pop_val() {
            Some(v) => v,
            None => {
                return None;
            },
        };
        let bv = self.deref_val(b);
        let av = self.deref_val(a);
        Some((av, bv))
    }

    /// One `Return`: pop the return value, drop the frame, cut the stack
    /// back to the frame's base, and hand the value to the caller — or
    /// halt when the outermost frame returned. On continuing, the value
    /// stack is exactly the popped frame's base plus the one returned
    /// value.
    fn do_return(&mut self) -> (r: ReturnOutcome)
        requires
            old(self).wf(),
            old(self).frames@.len() >= 1,
        ensures
            final(self).wf(),
            final(self).program == old(self).program,
            final(self).output == old(self).output,
            final(self).cells == old(self).cells,
            final(self).closures == old(self).closures,
            final(self).strings == old(self).strings,
            r is Continued ==> final(self).frames@ == old(self).frames@.drop_last() && final(
            self).stack@.len() == old(self).frames@.last().offset + 1 && final(self).stack@.last()
                == old(self).stack@.last(),
            r is Halted ==> final(self).frames@.len() == 0 && final(self).stack@.len() == old(
            self).frames@.last().offset,
            old(self).stack@.len() >= 1 && old(self).frames@.last().offset < old(
            self).stack@.len() ==> !(r is Corrupt),
            r is Halted ==> old(self).frames@.len() == 1,
            r is Continued ==> old(self).frames@.len() >= 2,
    {
        let v = match self.pop_val() {
            Some(v) => v,
            None => {
                return ReturnOutcome::Corrupt;
            },
        };
        let frame = match self.pop_frame() {
            Some(f) => f,
            None => {
                return ReturnOutcome::Corrupt;
            },
        };
        if frame.offset > self.stack.len() {
            return ReturnOutcome::Corrupt;
        }
        self.truncate_stack(frame.offset);
        if self.frames.len() == 0 {
            return ReturnOutcome::Halted;
        }
        self.push_val(v);
        ReturnOutcome::Continued
    }

    /// One `Call`: the callee sits under its `argc` arguments. A closure
    /// of matching arity gets a frame whose base points at the callee
    /// itself, so the callee occupies the new frame's slot 0; the built-in
    /// clock returns the seconds since the Unix epoch at once. Anything
    /// else, or a wrong argument count, is a runtime error — and a closure
    /// called with its own arity is owed a frame.
    #[verifier::rlimit(100)]
    fn call_value(&mut self, argc: u32) -> (r: Result<(), RuntimeError>)
        requires
            old(self).wf(),
        ensures
            final(self).wf(),
            final(self).program == old(self).program,
            final(self).output == old(self).output,
            final(self).cells == old(self).cells,
            final(self).closures == old(self).closures,
            final(self).strings == old(self).strings,
            r is Ok && final(self).frames@.len() == old(self).frames@.len() + 1 ==> final(
            self).frames@.last().offset + (argc as int) + 1 == old(self).stack@.len() && final(
            self).stack == old(self).stack && final(self).frames@.last().ip == 0,
            r is Err ==> final(self).frames == old(self).frames && final(self).stack == old(
            self).stack,
            r is Err ==> r->Err_0.trace@.len() == final(self).frames@.len() && (forall|i: int|
                0 <= i < r->Err_0.trace@.len() ==> #[trigger] r->Err_0.trace@[i].name@ == final(
                self).trace_source(i).name@ && r->Err_0.trace@[i].line == spec_trace_line(
                    final(self).frames@[final(self).frames@.len() - 1 - i],
                    final(self).trace_source(i).chunk.lines@,
                )),
            ({
                let n = old(self).stack@.len() as int;
                let a = argc as int;
                a < n ==> (match old(self).spec_deref(old(self).stack@[n - 1 - a]) {
                    Value::Closure(ci) => {
                        let arity =
                            old(self).program.funcs@[old(self).closures@[ci as int].fidx as int].arity;
                        &&& (arity == argc ==> r is Ok && final(self).frames@ == old(
                            self,
                        ).frames@.push(
                            (Frame {
                                closure: ci as usize,
                                ip: 0,
                                offset: (old(self).stack@.len() - 1 - argc) as usize,
                            }),
                        ))
                        &&& (arity != argc ==> r is Err && r->Err_0.message@
                            == "Expected ".spec_bytes() + dec_digits(arity as nat)
                            + " arguments but got ".spec_bytes() + dec_digits(argc as nat)
                            + ".".spec_bytes())
                    },
                    Value::NativeClock => {
                        &&& (argc == 0 ==> r is Ok && final(self).frames == old(self).frames
                            && exists|ms: u64|
                                final(self).stack@ == old(self).stack@.drop_last().push(
                                    Value::Number(#[trigger] crate::numbers::seconds_bits(ms)),
                                ))
                        &&& (argc != 0 ==> r is Err && r->Err_0.message@
                            == "Expected ".spec_bytes() + dec_digits(0) + " arguments but got ".spec_bytes()
                            + dec_digits(argc as nat) + ".".spec_bytes())
                    },
                    _ => r is Err && r->Err_0.message@
                        == "Can only call functions and classes.".spec_bytes(),
                })
            }),
    {
        let n = self.stack.len();
        if (argc as usize) >= n {
            let e = self.corrupt();
            proof {
                assert(e.trace@.len() == self.frames@.len());
                assert forall|i: int| 0 <= i < e.trace@.len() implies #[trigger] e.trace@[i].name@
                    == self.trace_source(i).name@ && e.trace@[i].line == spec_trace_line(
                    self.frames@[self.frames@.len() - 1 - i],
                    self.trace_source(i).chunk.lines@,
                ) by {}
            }
            return Err(e);
        }
        let callee_raw = self.stack[n - 1 - argc as usize];
        let callee = self.deref_val(callee_raw);
        match callee {
            Value::Closure(c) => {
                let fidx = self.closures[c].fidx;
                let arity = self.program.funcs[fidx].arity;
                if arity != argc {
                    let msg = arity_message(arity, argc);
                    return Err(self.fail(msg));
                }
                let fr = Frame { closure: c, ip: 0, offset: n - 1 - argc as usize };
                self.push_frame(fr);
                Ok(())
            },
            Value::NativeClock => {
                if argc != 0 {
                    let msg = arity_message(0, argc);
                    return Err(self.fail(msg));
                }
                match self.pop_val() {
                    Some(_) => {},
                    None => {
                        return Err(self.corrupt());
                    },
                }
                let ms = clock_millis();
                let bits = num_seconds_of_millis(ms);
                self.push_val(Value::Number(bits));
                proof {
                    assert(self.stack@ == old(self).stack@.drop_last().push(
                        Value::Number(crate::numbers::seconds_bits(ms)),
                    ));
                }
                Ok(())
            },
            _ => Err(self.fail(text_bytes("Can only call functions and classes."))),
        }
    }

    /// The label a function prints as: `<fn NAME>`, or `<script>` for the
    /// top-level script.
    pub open spec fn spec_function_label(self, f: int) -> Seq<u8> {
        let name = self.program.funcs@[f].name@;
        if name == "<script>".spec_bytes() {
            name
        } else {
            "<fn ".spec_bytes() + name + ">".spec_bytes()
        }
    }

    /// Render a function's label, exactly `spec_function_label`.
    fn function_label(&self, f: usize) -> (r: Vec<u8>)
        requires
            self.wf(),
            f < self.program.funcs@.len(),
        ensures
            r@ == self.spec_function_label(f as int),
    {
        let name = &self.program.funcs[f].name;
        if bytes_equal(name, &text_bytes("<script>")) {
            copy_range(name, 0, name.len())
        } else {
            let head = text_bytes("<fn ");
            let with_name = concat_bytes(&head, name);
            concat_bytes(&with_name, &text_bytes(">"))
        }
    }

    /// How a plain value prints: numbers stay as bits for the embedder to
    /// format, everything else is rendered to text.
    fn render_value(&self, v: Value) -> (r: OutItem)
        requires
            self.wf(),
            self.value_ok(v),
            spec_plain(v),
        ensures
            v is Number ==> r == OutItem::Num(v->Number_0),
            v is Str ==> r is Text && r->Text_0@ == self.strings@[v->Str_0 as int]@,
            v == Value::Nil ==> r is Text && r->Text_0@ == "nil".spec_bytes(),
            v == Value::Bool(true) ==> r is Text && r->Text_0@ == "true".spec_bytes(),
            v == Value::Bool(false) ==> r is Text && r->Text_0@ == "false".spec_bytes(),
            v is Closure ==> r is Text && r->Text_0@ == self.spec_function_label(
                self.closures@[v->Closure_0 as int].fidx as int,
            ),
            v is Fun ==> r is Text && r->Text_0@ == self.spec_function_label(v->Fun_0 as int),
            v == Value::NativeClock ==> r is Text && r->Text_0@ == "<fn clock>".spec_bytes(),
    {
        match v {
            Value::Nil => OutItem::Text(text_bytes("nil")),
            Value::Bool(b) => {
                if b {
                    OutItem::Text(text_bytes("true"))
                } else {
                    OutItem::Text(text_bytes("false"))
                }
            },
            Value::Number(bits) => OutItem::Num(bits),
            Value::Str(i) => OutItem::Text(copy_range(&self.strings[i], 0, self.strings[i].len())),
            Value::Closure(c) => {
                let fidx = self.closures[c].fidx;
                OutItem::Text(self.function_label(fidx))
            },
            Value::Fun(f) => OutItem::Text(self.function_label(f)),
            Value::NativeClock => OutItem::Text(text_bytes("<fn clock>")),
            Value::Lifted(_) => {
                proof {
                    assert(false);
                }
                OutItem::Text(Vec::new())
            },
        }
    }

    /// Execute exactly one instruction: fetch the opcode under the
    /// innermost frame's instruction pointer, run it, and say whether the
    /// machine stepped, halted (the outermost frame returned), or faulted
    /// with a runtime error. The per-opcode clauses below are the machine's
    /// small-step semantics.
    #[verifier::rlimit(100)]
    pub fn step(&mut self) -> (r: StepResult)
        requires
            old(self).wf(),
            old(self).frames@.len() >= 1,
        ensures
            final(self).wf(),
            final(self).program == old(self).program,
            final(self).output@.len() >= old(self).output@.len(),
            forall|i: int|
                0 <= i < old(self).output@.len() ==> final(self).output@[i] == old(self).output@[i],
            r is Halted ==> final(self).frames@.len() == 0,
            r is Fault ==> r->Fault_0.trace@.len() == final(self).frames@.len() && (forall|i: int|
                0 <= i < r->Fault_0.trace@.len() ==> #[trigger] r->Fault_0.trace@[i].name@
                    == final(self).trace_source(i).name@),
            old(self).cur_op() == Some(OpCode::Nil) ==> r is Stepped && final(self).stack@ == old(
            self).stack@.push(Value::Nil) && final(self).frames@ == old(self).frames_stepped(1)
                && Self::keeps_arenas(*old(self), *final(self)),
            old(self).cur_op() == Some(OpCode::Pop) && old(self).stack@.len() >= 1 ==> r
                is Stepped && final(self).stack@ == old(self).stack@.drop_last() && final(
            self).frames@ == old(self).frames_stepped(1) && Self::keeps_arenas(
                *old(self),
                *final(self),
            ),
            old(self).cur_op() == Some(OpCode::Constant) && old(self).cur_frame().ip + 5 <= old(
            self).cur_code().len() && old(self).cur_operand()
                < old(self).cur_func().chunk.constants@.len() ==> r is Stepped && final(
            self).stack@ == old(self).stack@.push(
                old(self).cur_func().chunk.constants@[old(self).cur_operand() as int],
            ) && final(self).frames@ == old(self).frames_stepped(5) && Self::keeps_arenas(
                *old(self),
                *final(self),
            ),
            old(self).cur_op() == Some(OpCode::GetLocal) && old(self).cur_frame().ip + 5 <= old(
            self).cur_code().len() && old(self).cur_frame().offset + old(self).cur_operand() < old(
            self).stack@.len() ==> r is Stepped && final(self).stack@ == old(self).stack@.push(
                old(self).stack@[old(self).cur_frame().offset + old(self).cur_operand()],
            ) && final(self).frames@ == old(self).frames_stepped(5) && Self::keeps_arenas(
                *old(self),
                *final(self),
            ),
            old(self).cur_op() == Some(OpCode::SetLocal) && old(self).cur_frame().ip + 5 <= old(
            self).cur_code().len() && old(self).stack@.len() >= 1 && old(self).cur_frame().offset
                + old(self).cur_operand() < old(self).stack@.len() ==> r is Stepped && final(
            self).frames@ == old(self).frames_stepped(5) && final(self).closures == old(
            self).closures && final(self).strings == old(self).strings && final(self).output == old(
            self).output && ({
                let si = old(self).cur_frame().offset + old(self).cur_operand();
                let v = old(self).spec_deref(old(self).stack@.last());
                match old(self).stack@[si as int] {
                    Value::Lifted(c) => final(self).cells@ == old(self).cells@.update(c as int, v)
                        && final(self).stack == old(self).stack,
                    _ => final(self).stack@ == old(self).stack@.update(si as int, v) && final(
                    self).cells == old(self).cells,
                }
            }),
            old(self).cur_op() == Some(OpCode::GetUpvalue) && old(self).cur_frame().ip + 5 <= old(
            self).cur_code().len() && old(self).cur_operand() < old(self).closures@[old(
            self).cur_frame().closure as int].upvalues@.len() ==> r is Stepped && final(
            self).stack@ == old(self).stack@.push(
                Value::Lifted(
                    old(self).closures@[old(self).cur_frame().closure as int].upvalues@[old(
                    self).cur_operand() as int],
                ),
            ) && final(self).frames@ == old(self).frames_stepped(5) && Self::keeps_arenas(
                *old(self),
                *final(self),
            ),
            old(self).cur_op() == Some(OpCode::SetUpvalue) && old(self).cur_frame().ip + 5 <= old(
            self).cur_code().len() && old(self).cur_operand() < old(self).closures@[old(
            self).cur_frame().closure as int].upvalues@.len() && old(self).stack@.len() >= 1 ==> r
                is Stepped && final(self).frames@ == old(self).frames_stepped(5) && final(
            self).stack == old(self).stack && final(self).closures == old(self).closures && final(
            self).strings == old(self).strings && final(self).output == old(self).output && final(
            self).cells@ == old(self).cells@.update(
                old(self).closures@[old(self).cur_frame().closure as int].upvalues@[old(
                self).cur_operand() as int] as int,
                old(self).spec_deref(old(self).stack@.last()),
            ),
            old(self).cur_op() == Some(OpCode::Jump) && old(self).cur_frame().ip + 5 <= old(
            self).cur_code().len() && old(self).cur_frame().ip + 5 + old(self).cur_operand() <= old(
            self).cur_code().len() ==> r is Stepped && final(self).stack == old(self).stack && final(
            self).frames@ == old(self).frames_stepped(5 + old(self).cur_operand())
                && Self::keeps_arenas(*old(self), *final(self)),
            old(self).cur_op() == Some(OpCode::JumpIfFalse) && old(self).cur_frame().ip + 5 <= old(
            self).cur_code().len() && old(self).cur_frame().ip + 5 + old(self).cur_operand() <= old(
            self).cur_code().len() && old(self).stack@.len() >= 1 ==> r is Stepped && final(
            self).stack == old(self).stack && Self::keeps_arenas(*old(self), *final(self)) && final(
            self).frames@ == old(self).frames_stepped(
                if spec_falsy(old(self).spec_deref(old(self).stack@.last())) {
                    5 + old(self).cur_operand() as int
                } else {
                    5
                },
            ),
            old(self).cur_op() == Some(OpCode::Loop) && old(self).cur_frame().ip + 5 <= old(
            self).cur_code().len() && old(self).cur_operand() <= old(self).cur_frame().ip + 5 ==> r
                is Stepped && final(self).stack == old(self).stack && Self::keeps_arenas(
                *old(self),
                *final(self),
            ) && final(self).frames@ == old(self).frames@.update(
                old(self).frames@.len() - 1,
                (Frame {
                    closure: old(self).cur_frame().closure,
                    ip: (old(self).cur_frame().ip + 5 - old(self).cur_operand()) as usize,
                    offset: old(self).cur_frame().offset,
                }),
            ),
            old(self).cur_op() == Some(OpCode::Add) && old(self).stack@.len() >= 2 ==> ({
                let av = old(self).spec_deref(old(self).stack@[old(self).stack@.len() - 2]);
                let bv = old(self).spec_deref(old(self).stack@[old(self).stack@.len() - 1]);
                &&& (av is Number && bv is Number ==> r is Stepped && final(self).stack@ == old(
                    self,
                ).stack@.drop_last().drop_last().push(
                    Value::Number(crate::numbers::add_bits(av->Number_0, bv->Number_0)),
                ) && final(self).frames@ == old(self).frames_stepped(1) && Self::keeps_arenas(
                    *old(self),
                    *final(self),
                ))
                &&& (av is Str && bv is Str ==> r is Stepped && final(self).strings@.len() == old(
                    self,
                ).strings@.len() + 1 && final(self).strings@.last()@ == old(self).strings@[
                    av->Str_0 as int
                ]@ + old(self).strings@[bv->Str_0 as int]@ && final(self).stack@ == old(
                    self,
                ).stack@.drop_last().drop_last().push(
                    Value::Str(old(self).strings@.len() as usize),
                ) && final(self).frames@ == old(self).frames_stepped(1) && final(self).cells == old(
                    self,
                ).cells && final(self).closures == old(self).closures && final(self).output == old(
                    self,
                ).output)
                &&& (!(av is Number && bv is Number) && !(av is Str && bv is Str) ==> r is Fault
                    && r->Fault_0.message@
                    == "Operands must be two numbers or two strings.".spec_bytes())
            }),
            old(self).cur_op() == Some(OpCode::Substract) && old(self).stack@.len() >= 2 ==> ({
                let av = old(self).spec_deref(old(self).stack@[old(self).stack@.len() - 2]);
                let bv = old(self).spec_deref(old(self).stack@[old(self).stack@.len() - 1]);
                &&& (av is Number && bv is Number ==> r is Stepped && final(self).stack@ == old(
                    self,
                ).stack@.drop_last().drop_last().push(
                    Value::Number(crate::numbers::sub_bits(av->Number_0, bv->Number_0)),
                ) && final(self).frames@ == old(self).frames_stepped(1) && Self::keeps_arenas(
                    *old(self),
                    *final(self),
                ))
                &&& (!(av is Number && bv is Number) ==> r is Fault && r->Fault_0.message@
                    == "Operands must be numbers.".spec_bytes())
            }),
            old(self).cur_op() == Some(OpCode::Multiply) && old(self).stack@.len() >= 2 ==> ({
                let av = old(self).spec_deref(old(self).stack@[old(self).stack@.len() - 2]);
                let bv = old(self).spec_deref(old(self).stack@[old(self).stack@.len() - 1]);
                &&& (av is Number && bv is Number ==> r is Stepped && final(self).stack@ == old(
                    self,
                ).stack@.drop_last().drop_last().push(
                    Value::Number(crate::numbers::mul_bits(av->Number_0, bv->Number_0)),
                ) && final(self).frames@ == old(self).frames_stepped(1) && Self::keeps_arenas(
                    *old(self),
                    *final(self),
                ))
                &&& (!(av is Number && bv is Number) ==> r is Fault && r->Fault_0.message@
                    == "Operands must be numbers.".spec_bytes())
            }),
            old(self).cur_op() == Some(OpCode::Divide) && old(self).stack@.len() >= 2 ==> ({
                let av = old(self).spec_deref(old(self).stack@[old(self).stack@.len() - 2]);
                let bv = old(self).spec_deref(old(self).stack@[old(self).stack@.len() - 1]);
                &&& (av is Number && bv is Number ==> r is Stepped && final(self).stack@ == old(
                    self,
                ).stack@.drop_last().drop_last().push(
                    Value::Number(crate::numbers::div_bits(av->Number_0, bv->Number_0)),
                ) && final(self).frames@ == old(self).frames_stepped(1) && Self::keeps_arenas(
                    *old(self),
                    *final(self),
                ))
                &&& (!(av is Number && bv is Number) ==> r is Fault && r->Fault_0.message@
                    == "Operands must be numbers.".spec_bytes())
            }),
            old(self).cur_op() == Some(OpCode::Less) && old(self).stack@.len() >= 2 ==> ({
                let av = old(self).spec_deref(old(self).stack@[old(self).stack@.len() - 2]);
                let bv = old(self).spec_deref(old(self).stack@[old(self).stack@.len() - 1]);
                &&& (av is Number && bv is Number ==> r is Stepped && final(self).stack@ == old(
                    self,
                ).stack@.drop_last().drop_last().push(
                    Value::Bool(crate::numbers::lt_bits(av->Number_0, bv->Number_0)),
                ) && final(self).frames@ == old(self).frames_stepped(1) && Self::keeps_arenas(
                    *old(self),
                    *final(self),
                ))
                &&& (!(av is Number && bv is Number) ==> r is Fault && r->Fault_0.message@
                    == "Operands must be numbers.".spec_bytes())
            }),
            old(self).cur_op() == Some(OpCode::Greater) && old(self).stack@.len() >= 2 ==> ({
                let av = old(self).spec_deref(old(self).stack@[old(self).stack@.len() - 2]);
                let bv = old(self).spec_deref(old(self).stack@[old(self).stack@.len() - 1]);
                &&& (av is Number && bv is Number ==> r is Stepped && final(self).stack@ == old(
                    self,
                ).stack@.drop_last().drop_last().push(
                    Value::Bool(crate::numbers::lt_bits(bv->Number_0, av->Number_0)),
                ) && final(self).frames@ == old(self).frames_stepped(1) && Self::keeps_arenas(
                    *old(self),
                    *final(self),
                ))
                &&& (!(av is Number && bv is Number) ==> r is Fault && r->Fault_0.message@
                    == "Operands must be numbers.".spec_bytes())
            }),
            old(self).cur_op() == Some(OpCode::Equal) && old(self).stack@.len() >= 2 ==> r
                is Stepped && final(self).stack@ == old(self).stack@.drop_last().drop_last().push(
                Value::Bool(
                    old(self).spec_values_equal(
                        old(self).spec_deref(old(self).stack@[old(self).stack@.len() - 2]),
                        old(self).spec_deref(old(self).stack@[old(self).stack@.len() - 1]),
                    ),
                ),
            ) && final(self).frames@ == old(self).frames_stepped(1) && Self::keeps_arenas(
                *old(self),
                *final(self),
            ),
            old(self).cur_op() == Some(OpCode::Not) && old(self).stack@.len() >= 1 ==> ({
                let v = old(self).spec_deref(old(self).stack@.last());
                &&& (v is Bool ==> r is Stepped && final(self).stack@ == old(
                    self,
                ).stack@.drop_last().push(Value::Bool(!v->Bool_0)) && final(self).frames@ == old(
                    self,
                ).frames_stepped(1) && Self::keeps_arenas(*old(self), *final(self)))
                &&& (!(v is Bool) ==> r is Fault && r->Fault_0.message@
                    == "Operand must be a bool.".spec_bytes())
            }),
            old(self).cur_op() == Some(OpCode::Negate) && old(self).stack@.len() >= 1 ==> ({
                let v = old(self).spec_deref(old(self).stack@.last());
                &&& (v is Number ==> r is Stepped && final(self).stack@ == old(
                    self,
                ).stack@.drop_last().push(
                    Value::Number(crate::numbers::neg_bits(v->Number_0)),
                ) && final(self).frames@ == old(self).frames_stepped(1) && Self::keeps_arenas(
                    *old(self),
                    *final(self),
                ))
                &&& (!(v is Number) ==> r is Fault && r->Fault_0.message@
                    == "Operand must be a number.".spec_bytes())
            }),
            old(self).cur_op() == Some(OpCode::Print) && old(self).stack@.len() >= 1 ==> r
                is Stepped && final(self).stack@ == old(self).stack@.drop_last() && final(
            self).frames@ == old(self).frames_stepped(1) && final(self).cells == old(self).cells
                && final(self).closures == old(self).closures && final(self).strings == old(
            self).strings && final(self).output@.len() == old(self).output@.len() + 1 && ({
                let o = final(self).output@.last();
                match old(self).spec_deref(old(self).stack@.last()) {
                    Value::Number(bits) => o == OutItem::Num(bits),
                    Value::Str(i) => o is Text && o->Text_0@ == old(self).strings@[i as int]@,
                    Value::Nil => o is Text && o->Text_0@ == "nil".spec_bytes(),
                    Value::Bool(bb) => o is Text && o->Text_0@ == (if bb {
                        "true".spec_bytes()
                    } else {
                        "false".spec_bytes()
                    }),
                    Value::Closure(c) => o is Text && o->Text_0@ == old(self).spec_function_label(
                        old(self).closures@[c as int].fidx as int,
                    ),
                    Value::NativeClock => o is Text && o->Text_0@ == "<fn clock>".spec_bytes(),
                    _ => true,
                }
            }),
            old(self).cur_op() == Some(OpCode::Return) && old(self).stack@.len() >= 1 && old(
            self).cur_frame().offset < old(self).stack@.len() ==> ({
                &&& (old(self).frames@.len() == 1 ==> r is Halted && final(self).frames@.len() == 0
                    && final(self).stack@.len() == old(self).cur_frame().offset
                    && Self::keeps_arenas(*old(self), *final(self)))
                &&& (old(self).frames@.len() > 1 ==> r is Stepped && final(self).frames@ == old(
                    self,
                ).frames@.drop_last() && final(self).stack@.len() == old(self).cur_frame().offset
                    + 1 && final(self).stack@.last() == old(self).stack@.last()
                    && Self::keeps_arenas(*old(self), *final(self)))
            }),
            old(self).cur_op() == Some(OpCode::Call) && old(self).cur_frame().ip + 5 <= old(
            self).cur_code().len() && old(self).cur_operand() < old(self).stack@.len() ==> ({
                let argc = old(self).cur_operand();
                let callee = old(self).spec_deref(
                    old(self).stack@[old(self).stack@.len() - 1 - argc],
                );
                match callee {
                    Value::Closure(ci) => {
                        let arity =
                            old(self).program.funcs@[old(self).closures@[ci as int].fidx as int].arity;
                        &&& (arity == argc ==> r is Stepped && final(self).stack == old(self).stack
                            && Self::keeps_arenas(*old(self), *final(self)) && final(self).frames@
                            == old(self).frames_stepped(5).push(
                            (Frame {
                                closure: ci as usize,
                                ip: 0,
                                offset: (old(self).stack@.len() - 1 - argc) as usize,
                            }),
                        ))
                        &&& (arity != argc ==> r is Fault
                            && final(self).frames@ == old(self).frames_stepped(5)
                            && final(self).stack == old(self).stack
                            && r->Fault_0.message@ == "Expected ".spec_bytes()
                            + dec_digits(arity as nat) + " arguments but got ".spec_bytes()
                            + dec_digits(argc as nat) + ".".spec_bytes())
                    },
                    Value::NativeClock => {
                        &&& (argc == 0 ==> r is Stepped
                            && final(self).frames@ == old(self).frames_stepped(5)
                            && final(self).cells == old(self).cells
                            && final(self).closures == old(self).closures
                            && final(self).strings == old(self).strings
                            && final(self).output == old(self).output
                            && (exists|ms: u64|
                            final(self).stack@ == old(self).stack@.drop_last().push(
                                Value::Number(#[trigger] crate::numbers::seconds_bits(ms)),
                            )))
                        &&& (argc != 0 ==> r is Fault
                            && final(self).frames@ == old(self).frames_stepped(5)
                            && final(self).stack == old(self).stack
                            && r->Fault_0.message@ == "Expected ".spec_bytes() + dec_digits(0)
                            + " arguments but got ".spec_bytes() + dec_digits(argc as nat)
                            + ".".spec_bytes())
                    },
                    _ => r is Fault && final(self).frames@ == old(self).frames_stepped(5)
                        && final(self).stack == old(self).stack && r->Fault_0.message@
                        == "Can only call functions and classes.".spec_bytes(),
                }
            }),
            old(self).cur_op() == Some(OpCode::Closure) && r is Stepped ==> final(
            self).closures@.len() == old(self).closures@.len() + 1 && final(self).stack@.len()
                == old(self).stack@.len() + 1 && final(self).spec_deref(final(self).stack@.last())
                == Value::Closure(old(self).closures@.len() as usize) && final(self).strings == old(
            self).strings && final(self).output == old(self).output && ({
                let cv = old(self).cur_func().chunk.constants@[old(self).cur_operand() as int];
                cv is Fun && final(self).closures@.last().fidx == cv->Fun_0
            }),
    {
        let nf = self.frames.len();
        let fr = self.frames[nf - 1];
        let fidx = self.closures[fr.closure].fidx;
        let clen = self.program.funcs[fidx].chunk.code.len();
        if fr.ip >= clen {
            proof {
                assert(old(self).cur_op() is None);
            }
            return self.fault_corrupt();
        }
        let b = self.program.funcs[fidx].chunk.code[fr.ip];
        let mut f2 = fr;
        f2.ip = fr.ip + 1;
        self.set_top_frame(f2);
        let op = match OpCode::from_byte(b) {
            Some(op) => op,
            None => {
                proof {
                    assert(old(self).cur_op() is None);
                }
                return self.fault_corrupt();
            },
        };
        proof {
            assert(self.frames@ =~= old(self).frames_stepped(1));
            assert(self.cur_code() =~= old(self).cur_code());
            assert(old(self).cur_op() == Some(op));
        }
        match op {
            OpCode::Return => {
                match self.do_return() {
                    ReturnOutcome::Halted => {
                        return StepResult::Halted;
                    },
                    ReturnOutcome::Continued => {
                        proof {
                            assert(self.frames@ =~= old(self).frames@.drop_last());
                        }
                    },
                    ReturnOutcome::Corrupt => {
                        return self.fault_corrupt();
                    },
                }
                return StepResult::Stepped;
            },
            OpCode::Constant => {
                let index = match self.read_u32_op() {
                    Some(i) => i,
                    None => {
                        return self.fault_corrupt();
                    },
                };
proof {
    assert(self.frames@ =~= old(self).frames_stepped(5));
    assert(index == old(self).cur_operand());
}
                let nf2 = self.frames.len();
                let fr2 = self.frames[nf2 - 1];
                let fidx2 = self.closures[fr2.closure].fidx;
                let nconst = self.program.funcs[fidx2].chunk.constants.len();
                if (index as usize) >= nconst {
                    return self.fault_corrupt();
                }
                let cv = self.program.funcs[fidx2].chunk.constants[index as usize];
                proof {
                    assert(crate::chunk::chunk_ok(
                        self.program.funcs@[fidx2 as int].chunk,
                        self.program.funcs@.len() as int,
                        self.program.strings@.len() as int,
                    ));
                    assert(crate::chunk::const_ok(
                        cv,
                        self.program.funcs@.len() as int,
                        self.program.strings@.len() as int,
                    ));
                }
                self.push_val(cv);
                return StepResult::Stepped;
            },
            OpCode::Closure => {
                let index = match self.read_u32_op() {
                    Some(i) => i,
                    None => {
                        return self.fault_corrupt();
                    },
                };
proof {
    assert(self.frames@ =~= old(self).frames_stepped(5));
    assert(index == old(self).cur_operand());
}
                let nf2 = self.frames.len();
                let fr2 = self.frames[nf2 - 1];
                let fidx2 = self.closures[fr2.closure].fidx;
                let nconst = self.program.funcs[fidx2].chunk.constants.len();
                if (index as usize) >= nconst {
                    return self.fault_corrupt();
                }
                let cv = self.program.funcs[fidx2].chunk.constants[index as usize];
                proof {
                    assert(crate::chunk::chunk_ok(
                        self.program.funcs@[fidx2 as int].chunk,
                        self.program.funcs@.len() as int,
                        self.program.strings@.len() as int,
                    ));
                    assert(crate::chunk::const_ok(
                        cv,
                        self.program.funcs@.len() as int,
                        self.program.strings@.len() as int,
                    ));
                }
                let f = match cv {
                    Value::Fun(ff) => ff,
                    _ => {
                        return self.fault_corrupt();
                    },
                };
                let count = self.program.funcs[f].upvalue_count;
                // the closure's own stack slot exists before its
                // upvalues are captured, so a function can capture
                // itself; the finished closure lands in the slot below
                let slot_pos = self.stack.len();
                self.push_val(Value::Nil);
                let mut ups: Vec<usize> = Vec::new();
                let mut k: u32 = 0;
                while k < count
                    invariant
                        self.wf(),
                        self.program == old(self).program,
                        self.output@.len() >= old(self).output@.len(),
                        forall|i: int|
                            0 <= i < old(self).output@.len() ==> self.output@[i] == old(
                            self).output@[i],
                        self.frames@.len() >= 1,
                        f < self.program.funcs@.len(),
                        slot_pos < self.stack@.len(),
                        self.stack@.len() == old(self).stack@.len() + 1,
                        slot_pos == old(self).stack@.len(),
                        self.closures == old(self).closures,
                        self.strings == old(self).strings,
                        self.output == old(self).output,
                        k <= count,
                        ups@.len() == k,
                        forall|u: int|
                            0 <= u < ups@.len() ==> (#[trigger] ups@[u]) < self.cells@.len(),
                        old(self).cur_op() == Some(OpCode::Closure),
                    decreases count - k,
                {
                    let is_local = match self.read_u8_op() {
                        Some(bb) => bb != 0,
                        None => {
                            return self.fault_corrupt();
                        },
                    };
                    let idx = match self.read_u32_op() {
                        Some(i) => i,
                        None => {
                            return self.fault_corrupt();
                        },
                    };
if is_local {
                        let nf3 = self.frames.len();
                        let fr3 = self.frames[nf3 - 1];
                        let i = idx as usize;
                        let sl = self.stack.len();
                        if fr3.offset < sl && i < sl - fr3.offset {
                            let cell = self.capture_upvalue(fr3.offset + i);
                            ups.push(cell);
                        } else {
                            return self.fault_corrupt();
                        }
                    } else {
                        let nf3 = self.frames.len();
                        let fr3 = self.frames[nf3 - 1];
                        let nup = self.closures[fr3.closure].upvalues.len();
                        if (idx as usize) < nup {
                            let cell = self.closures[fr3.closure].upvalues[idx as usize];
                            ups.push(cell);
                        } else {
                            return self.fault_corrupt();
                        }
                    }
                    k = k + 1;
                }
                let ci = self.push_closure(ClosureRec { fidx: f, upvalues: ups });
                match self.stack[slot_pos] {
                    Value::Lifted(c) => {
                        // the closure captured its own slot: its value
                        // goes through the shared cell
                        self.write_cell(c, Value::Closure(ci));
                    },
                    _ => {
                        self.set_stack(slot_pos, Value::Closure(ci));
                    },
                }
                return StepResult::Stepped;
            },
            OpCode::Divide => {
                let p = match self.pop_two() {
                    Some(p) => p,
                    None => {
                        return self.fault_corrupt();
                    },
                };
                match p {
                    (Value::Number(x), Value::Number(y)) => {
                        let z = num_div(x, y);
                        self.push_val(Value::Number(z));
                    },
                    _ => {
                        return StepResult::Fault(self.fail(text_bytes("Operands must be numbers.")));
                    },
                }
                return StepResult::Stepped;
            },
            OpCode::Multiply => {
                let p = match self.pop_two() {
                    Some(p) => p,
                    None => {
                        return self.fault_corrupt();
                    },
                };
                match p {
                    (Value::Number(x), Value::Number(y)) => {
                        let z = num_mul(x, y);
                        self.push_val(Value::Number(z));
                    },
                    _ => {
                        return StepResult::Fault(self.fail(text_bytes("Operands must be numbers.")));
                    },
                }
                return StepResult::Stepped;
            },
            OpCode::Substract => {
                let p = match self.pop_two() {
                    Some(p) => p,
                    None => {
                        return self.fault_corrupt();
                    },
                };
                match p {
                    (Value::Number(x), Value::Number(y)) => {
                        let z = num_sub(x, y);
                        self.push_val(Value::Number(z));
                    },
                    _ => {
                        return StepResult::Fault(self.fail(text_bytes("Operands must be numbers.")));
                    },
                }
                return StepResult::Stepped;
            },
            OpCode::Add => {
                let p = match self.pop_two() {
                    Some(p) => p,
                    None => {
                        return self.fault_corrupt();
                    },
                };
                match p {
                    (Value::Number(x), Value::Number(y)) => {
                        let z = num_add(x, y);
                        self.push_val(Value::Number(z));
                    },
                    (Value::Str(x), Value::Str(y)) => {
                        let s = concat_bytes(&self.strings[x], &self.strings[y]);
                        let si = self.push_string(s);
                        self.push_val(Value::Str(si));
                    },
                    _ => {
                        return StepResult::Fault(
                            self.fail(text_bytes("Operands must be two numbers or two strings.")),
                        );
                    },
                }
                return StepResult::Stepped;
            },
            OpCode::Negate => {
                let v0 = match self.pop_val() {
                    Some(v) => v,
                    None => {
                        return self.fault_corrupt();
                    },
                };
                let v = self.deref_val(v0);
                match v {
                    Value::Number(x) => {
                        let z = num_neg(x);
                        self.push_val(Value::Number(z));
                    },
                    _ => {
                        return StepResult::Fault(self.fail(text_bytes("Operand must be a number.")));
                    },
                }
                return StepResult::Stepped;
            },
            OpCode::Not => {
                let v0 = match self.pop_val() {
                    Some(v) => v,
                    None => {
                        return self.fault_corrupt();
                    },
                };
                let v = self.deref_val(v0);
                match v {
                    Value::Bool(bb) => {
                        self.push_val(Value::Bool(!bb));
                    },
                    _ => {
                        return StepResult::Fault(self.fail(text_bytes("Operand must be a bool.")));
                    },
                }
                return StepResult::Stepped;
            },
            OpCode::Equal => {
                let p = match self.pop_two() {
                    Some(p) => p,
                    None => {
                        return self.fault_corrupt();
                    },
                };
                let eq = self.values_equal(p.0, p.1);
                self.push_val(Value::Bool(eq));
                return StepResult::Stepped;
            },
            OpCode::Greater => {
                let p = match self.pop_two() {
                    Some(p) => p,
                    None => {
                        return self.fault_corrupt();
                    },
                };
                match p {
                    (Value::Number(x), Value::Number(y)) => {
                        let z = num_lt(y, x);
                        self.push_val(Value::Bool(z));
                    },
                    _ => {
                        return StepResult::Fault(self.fail(text_bytes("Operands must be numbers.")));
                    },
                }
                return StepResult::Stepped;
            },
            OpCode::Less => {
                let p = match self.pop_two() {
                    Some(p) => p,
                    None => {
                        return self.fault_corrupt();
                    },
                };
                match p {
                    (Value::Number(x), Value::Number(y)) => {
                        let z = num_lt(x, y);
                        self.push_val(Value::Bool(z));
                    },
                    _ => {
                        return StepResult::Fault(self.fail(text_bytes("Operands must be numbers.")));
                    },
                }
                return StepResult::Stepped;
            },
            OpCode::Print => {
                let v0 = match self.pop_val() {
                    Some(v) => v,
                    None => {
                        return self.fault_corrupt();
                    },
                };
                let v = self.deref_val(v0);
                let o = self.render_value(v);
                self.push_out(o);
                return StepResult::Stepped;
            },
            OpCode::Nil => {
                self.push_val(Value::Nil);
                return StepResult::Stepped;
            },
            OpCode::Pop => {
                match self.pop_val() {
                    Some(_) => {},
                    None => {
                        return self.fault_corrupt();
                    },
                }
                return StepResult::Stepped;
            },
            OpCode::JumpIfFalse => {
                let jump = match self.read_u32_op() {
                    Some(j) => j,
                    None => {
                        return self.fault_corrupt();
                    },
                };
proof {
    assert(self.frames@ =~= old(self).frames_stepped(5));
    assert(jump == old(self).cur_operand());
}
                let n = self.stack.len();
                if n == 0 {
                    return self.fault_corrupt();
                }
                let top = self.stack[n - 1];
                let v = self.deref_val(top);
                if v.is_falsy() {
                    if !self.jump_forward(jump) {
                        return self.fault_corrupt();
                    }
                }
                return StepResult::Stepped;
            },
            OpCode::Jump => {
                let jump = match self.read_u32_op() {
                    Some(j) => j,
                    None => {
                        return self.fault_corrupt();
                    },
                };
proof {
    assert(self.frames@ =~= old(self).frames_stepped(5));
    assert(jump == old(self).cur_operand());
}
                if !self.jump_forward(jump) {
                    return self.fault_corrupt();
                }
                return StepResult::Stepped;
            },
            OpCode::Loop => {
                let jump = match self.read_u32_op() {
                    Some(j) => j,
                    None => {
                        return self.fault_corrupt();
                    },
                };
proof {
    assert(self.frames@ =~= old(self).frames_stepped(5));
    assert(jump == old(self).cur_operand());
}
                if !self.jump_back(jump) {
                    return self.fault_corrupt();
                }
                return StepResult::Stepped;
            },
            OpCode::Call => {
                let argc = match self.read_u32_op() {
                    Some(a) => a,
                    None => {
                        return self.fault_corrupt();
                    },
                };
proof {
    assert(self.frames@ =~= old(self).frames_stepped(5));
    assert(argc == old(self).cur_operand());
}
                match self.call_value(argc) {
                    Ok(()) => {
                        proof {
                            let pre = *old(self);
                            let n0 = pre.stack@.len() as int;
                            let a = pre.cur_operand() as int;
                            if a < n0 {
                                match pre.spec_deref(pre.stack@[n0 - 1 - a]) {
                                    Value::Closure(ci) => {
                                        if pre.program.funcs@[pre.closures@[ci as int].fidx as int].arity
                                            == pre.cur_operand() {
                                            assert(self.frames@ =~= pre.frames_stepped(5).push(
                                                (Frame {
                                                    closure: ci as usize,
                                                    ip: 0,
                                                    offset: (n0 - 1 - a) as usize,
                                                }),
                                            ));
                                        }
                                    },
                                    _ => {},
                                }
                            }
                        }
                    },
                    Err(e) => {
                        return StepResult::Fault(e);
                    },
                }
                return StepResult::Stepped;
            },
            OpCode::GetLocal => {
                let idx = match self.read_u32_op() {
                    Some(i) => i,
                    None => {
                        return self.fault_corrupt();
                    },
                };
proof {
    assert(self.frames@ =~= old(self).frames_stepped(5));
    assert(idx == old(self).cur_operand());
}
                let nf2 = self.frames.len();
                let fr2 = self.frames[nf2 - 1];
                let i = idx as usize;
                let sl = self.stack.len();
                if fr2.offset < sl && i < sl - fr2.offset {
                    let v = self.stack[fr2.offset + i];
                    self.push_val(v);
                } else {
                    return self.fault_corrupt();
                }
                return StepResult::Stepped;
            },
            OpCode::SetLocal => {
                let idx = match self.read_u32_op() {
                    Some(i) => i,
                    None => {
                        return self.fault_corrupt();
                    },
                };
proof {
    assert(self.frames@ =~= old(self).frames_stepped(5));
    assert(idx == old(self).cur_operand());
}
                let nf2 = self.frames.len();
                let fr2 = self.frames[nf2 - 1];
                let i = idx as usize;
                let sl = self.stack.len();
                if sl == 0 || !(fr2.offset < sl && i < sl - fr2.offset) {
                    return self.fault_corrupt();
                }
                let si = fr2.offset + i;
                let top = self.stack[sl - 1];
                let v = self.deref_val(top);
                match self.stack[si] {
                    Value::Lifted(c) => {
                        self.write_cell(c, v);
                    },
                    _ => {
                        self.set_stack(si, v);
                    },
                }
                return StepResult::Stepped;
            },
            OpCode::GetUpvalue => {
                let slot = match self.read_u32_op() {
                    Some(s) => s,
                    None => {
                        return self.fault_corrupt();
                    },
                };
proof {
    assert(self.frames@ =~= old(self).frames_stepped(5));
    assert(slot == old(self).cur_operand());
}
                let nf2 = self.frames.len();
                let fr2 = self.frames[nf2 - 1];
                let nup = self.closures[fr2.closure].upvalues.len();
                if (slot as usize) >= nup {
                    return self.fault_corrupt();
                }
                let cell = self.closures[fr2.closure].upvalues[slot as usize];
                self.push_val(Value::Lifted(cell));
                return StepResult::Stepped;
            },
            OpCode::SetUpvalue => {
                let slot = match self.read_u32_op() {
                    Some(s) => s,
                    None => {
                        return self.fault_corrupt();
                    },
                };
proof {
    assert(self.frames@ =~= old(self).frames_stepped(5));
    assert(slot == old(self).cur_operand());
}
                let nf2 = self.frames.len();
                let fr2 = self.frames[nf2 - 1];
                let nup = self.closures[fr2.closure].upvalues.len();
                if (slot as usize) >= nup {
                    return self.fault_corrupt();
                }
                let cell = self.closures[fr2.closure].upvalues[slot as usize];
                let sl = self.stack.len();
                if sl == 0 {
                    return self.fault_corrupt();
                }
                let top = self.stack[sl - 1];
                let v = self.deref_val(top);
                self.write_cell(cell, v);
            },
        }
        StepResult::Stepped
    }

    /// Execute at most `budget` instructions. The script finishing returns
    /// `Halted`; an exhausted budget returns `Running`, and the machine can
    /// be resumed with another call. Printed items are appended to the
    /// output, which is otherwise untouched; the machine invariant holds
    /// whatever happens.
    pub fn run(&mut self, budget: u64) -> (r: Result<RunStatus, RuntimeError>)
        requires
            old(self).wf(),
        ensures
            final(self).wf(),
            final(self).program == old(self).program,
            final(self).output@.len() >= old(self).output@.len(),
            forall|i: int|
                0 <= i < old(self).output@.len() ==> final(self).output@[i] == old(self).output@[i],
            r == Ok::<RunStatus, RuntimeError>(RunStatus::Halted) ==> final(self).frames@.len()
                == 0,
    {
        let mut fuel = budget;
        loop
            invariant
                self.wf(),
                self.program == old(self).program,
                self.output@.len() >= old(self).output@.len(),
                forall|i: int|
                    0 <= i < old(self).output@.len() ==> self.output@[i] == old(self).output@[i],
            decreases fuel,
        {
            if self.frames.len() == 0 {
                return Ok(RunStatus::Halted);
            }
            if fuel == 0 {
                return Ok(RunStatus::Running);
            }
            fuel = fuel - 1;
            match self.step() {
                StepResult::Stepped => {},
                StepResult::Halted => {
                    return Ok(RunStatus::Halted);
                },
                StepResult::Fault(e) => {
                    return Err(e);
                },
            }
        }
    }

}

/// The message of an arity error, exactly: `Expected N arguments but got
/// M.`.
pub fn arity_message(expected: u32, got: u32) -> (r: Vec<u8>)
    ensures
        r@ == "Expected ".spec_bytes() + dec_digits(expected as nat) + " arguments but got ".spec_bytes()
            + dec_digits(got as nat) + ".".spec_bytes(),
{
    let head = text_bytes("Expected ");
    let e = dec_of_u64(expected as u64);
    let mid = text_bytes(" arguments but got ");
    let g = dec_of_u64(got as u64);
    let tail = text_bytes(".");
    let a = concat_bytes(&head, &e);
    let b = concat_bytes(&a, &mid);
    let c = concat_bytes(&b, &g);
    let d = concat_bytes(&c, &tail);
    proof {
        assert(d@ =~= "Expected ".spec_bytes() + dec_digits(expected as nat)
            + " arguments but got ".spec_bytes() + dec_digits(got as nat) + ".".spec_bytes());
    }
    d
}

/// Every upvalue of every closure is a live cell, and reading it yields a
/// (plain) value: the machine invariant keeps closures usable for as long
/// as they exist.
pub proof fn lemma_upvalues_are_live(vm: VM, c: int, u: int)
    requires
        vm.wf(),
        0 <= c < vm.closures@.len(),
        0 <= u < vm.program.funcs@[vm.closures@[c].fidx as int].upvalue_count,
    ensures
        u < vm.closures@[c].upvalues@.len(),
        vm.closures@[c].upvalues@[u] < vm.cells@.len(),
        spec_plain(vm.cells@[vm.closures@[c].upvalues@[u] as int]),
        vm.value_ok(vm.cells@[vm.closures@[c].upvalues@[u] as int]),
{
    assert(vm.closure_ok(vm.closures@[c]));
}

/// The stack balance of a call: `call_value` records as the new frame's
/// base the caller's stack length less the callee and its arguments, and
/// `do_return` leaves the stack at that base plus the one returned value.
/// Composed: after a `Return`, the value stack is exactly as long as the
/// caller's stack before it pushed the callee and arguments, plus one.
pub proof fn lemma_call_return_balance(stack_at_call: int, argc: int, offset: int)
    requires
        offset + argc + 1 == stack_at_call,
    ensures
        offset + 1 == (stack_at_call - argc - 1) + 1,
{
}

/// Writing through a cell is seen by every later read through any alias of
/// that cell: after the write, a `Lifted` stack slot or an upvalue holding
/// the same cell reads exactly the value written, however the write came
/// about — in particular through `SetUpvalue` from inside a nested closure.
pub proof fn lemma_cell_write_then_read(pre: VM, post: VM, c: usize, v: Value)
    requires
        c < pre.cells@.len(),
        post.cells@ == pre.cells@.update(c as int, v),
    ensures
        post.spec_deref(Value::Lifted(c)) == v,
{
}

} // verus!
