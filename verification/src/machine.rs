//! The abstract machine: what a program does, one instruction at a time, stated over plain
//! mathematical values.

use vstd::prelude::*;
use crate::brackets::{balanced, lemma_balanced_has_partners, partner, LOOP_CLOSE, LOOP_OPEN};
use crate::error::BrainfuckError;

verus! {

/// Number of cells on a fresh tape.
pub const INITIAL_TAPE_CELLS: usize = 30000;

/// Number of zero cells appended when the data pointer moves past the last cell.
pub const TAPE_GROWTH_CELLS: usize = 1000;

/// `+`: add one to the current cell.
pub const INCREMENT: u8 = 0x2B;

/// `-`: subtract one from the current cell.
pub const DECREMENT: u8 = 0x2D;

/// `>`: move the data pointer one cell to the right.
pub const MOVE_RIGHT: u8 = 0x3E;

/// `<`: move the data pointer one cell to the left.
pub const MOVE_LEFT: u8 = 0x3C;

/// `.`: write the current cell to the output.
pub const OUTPUT: u8 = 0x2E;

/// `,`: read one byte of input into the current cell.
pub const INPUT: u8 = 0x2C;

/// What the interpreter asks of its caller when it returns.
#[derive(Debug, Clone, Copy, PartialEq, Eq, Structural)]
pub enum Action {
    /// Nothing: the instruction budget ran out, and the run can go on.
    Continue,
    /// Write this character, whose code is the value of the current cell, to the output; then
    /// the run can go on.
    Write(char),
    /// Read one byte of input and hand it over, or report the end of the input; then the run
    /// can go on.
    Read,
    /// Nothing: the instruction pointer has reached the end of the program.
    Halt,
}

/// The state of a run.
pub struct Machine {
    /// The instruction bytes. A run never changes them.
    pub program: Seq<u8>,
    /// The cells.
    pub tape: Seq<u8>,
    /// The index of the current cell.
    pub data_pointer: int,
    /// The index of the next instruction.
    pub instruction_pointer: int,
}

/// A cell plus one, modulo 256.
pub open spec fn incremented(cell: u8) -> u8 {
    if cell == 255 {
        0
    } else {
        (cell + 1) as u8
    }
}

/// A cell minus one, modulo 256.
pub open spec fn decremented(cell: u8) -> u8 {
    if cell == 0 {
        255
    } else {
        (cell - 1) as u8
    }
}

/// `count` cells holding zero.
pub open spec fn zero_cells(count: nat) -> Seq<u8> {
    Seq::new(count, |i: int| 0u8)
}

/// The tape that can be indexed at `data_pointer`: the same tape if the pointer is on it,
/// otherwise the tape with one increment of zero cells appended.
pub open spec fn grown(tape: Seq<u8>, data_pointer: int) -> Seq<u8> {
    if data_pointer >= tape.len() {
        tape + zero_cells(TAPE_GROWTH_CELLS as nat)
    } else {
        tape
    }
}

impl Machine {
    /// The state before the first instruction: a tape of zeros, both pointers at zero.
    pub open spec fn initial(program: Seq<u8>) -> Machine {
        Machine {
            program,
            tape: zero_cells(INITIAL_TAPE_CELLS as nat),
            data_pointer: 0,
            instruction_pointer: 0,
        }
    }

    /// The program is balanced, the data pointer is on the tape, and the instruction pointer
    /// is in the program or just past its end.
    pub open spec fn wf(self) -> bool {
        &&& balanced(self.program)
        &&& 0 <= self.data_pointer < self.tape.len()
        &&& 0 <= self.instruction_pointer <= self.program.len()
    }

    /// The instruction pointer has left the program: the run is over.
    pub open spec fn halted(self) -> bool {
        self.instruction_pointer >= self.program.len()
    }

    /// The next instruction.
    pub open spec fn instruction(self) -> u8 {
        self.program[self.instruction_pointer]
    }

    /// The current cell.
    pub open spec fn cell(self) -> u8 {
        self.tape[self.data_pointer]
    }

    /// The next instruction reads input.
    pub open spec fn awaiting_input(self) -> bool {
        !self.halted() && self.instruction() == INPUT
    }

    /// The next instruction would move the data pointer left of the first cell.
    pub open spec fn underflows(self) -> bool {
        !self.halted() && self.instruction() == MOVE_LEFT && self.data_pointer == 0
    }

    /// The next instruction is a loop marker at which the run jumps to the partner: an opener
    /// on a zero cell, or a closer on a cell that is not zero.
    pub open spec fn jumps(self) -> bool {
        &&& !self.halted()
        &&& ((self.instruction() == LOOP_OPEN && self.cell() == 0) || (self.instruction()
            == LOOP_CLOSE && self.cell() != 0))
    }

    /// What one step reports.
    pub open spec fn action(self) -> Result<Action, BrainfuckError> {
        if self.halted() {
            Ok(Action::Halt)
        } else if self.instruction() == INPUT {
            Ok(Action::Read)
        } else if self.instruction() == OUTPUT {
            Ok(Action::Write(self.cell() as char))
        } else if self.underflows() {
            Err(BrainfuckError::MemoryUnderflow)
        } else {
            Ok(Action::Continue)
        }
    }

    /// The state with the instruction pointer moved past the next instruction.
    pub open spec fn advanced(self) -> Machine {
        Machine { instruction_pointer: self.instruction_pointer + 1, ..self }
    }

    /// The state after one step. A halted machine, one that waits for input and one whose
    /// next instruction underflows stay as they are.
    pub open spec fn after_step(self) -> Machine {
        if self.halted() || self.awaiting_input() || self.underflows() {
            self
        } else if self.instruction() == INCREMENT {
            Machine {
                tape: self.tape.update(self.data_pointer, incremented(self.cell())),
                ..self.advanced()
            }
        } else if self.instruction() == DECREMENT {
            Machine {
                tape: self.tape.update(self.data_pointer, decremented(self.cell())),
                ..self.advanced()
            }
        } else if self.instruction() == MOVE_RIGHT {
            Machine {
                tape: grown(self.tape, self.data_pointer + 1),
                data_pointer: self.data_pointer + 1,
                ..self.advanced()
            }
        } else if self.instruction() == MOVE_LEFT {
            Machine { data_pointer: self.data_pointer - 1, ..self.advanced() }
        } else if self.jumps() {
            Machine {
                instruction_pointer: partner(self.program, self.instruction_pointer) + 1,
                ..self
            }
        } else {
            self.advanced()
        }
    }

    /// The state after the caller has answered a request for input: the byte that was read
    /// is stored in the current cell, the end of the input leaves the cell as it is, and
    /// either way the run moves past the instruction. A machine that did not ask stays as
    /// it is.
    pub open spec fn after_input(self, input: Option<u8>) -> Machine {
        if !self.awaiting_input() {
            self
        } else {
            match input {
                Some(byte) => Machine {
                    tape: self.tape.update(self.data_pointer, byte),
                    ..self.advanced()
                },
                None => self.advanced(),
            }
        }
    }

    /// The state after a run of at most `budget` steps, which ends early at the first step
    /// that reports anything but `Continue`.
    pub open spec fn after_run(self, budget: nat) -> Machine
        decreases budget,
    {
        if budget == 0 {
            self
        } else if self.action() == Ok::<Action, BrainfuckError>(Action::Continue) {
            self.after_step().after_run((budget - 1) as nat)
        } else {
            self.after_step()
        }
    }

    /// What a run of at most `budget` steps reports: what its last step reports, or
    /// `Continue` if the budget is zero.
    pub open spec fn run_action(self, budget: nat) -> Result<Action, BrainfuckError>
        decreases budget,
    {
        if budget == 0 {
            Ok(Action::Continue)
        } else if self.action() == Ok::<Action, BrainfuckError>(Action::Continue) {
            self.after_step().run_action((budget - 1) as nat)
        } else {
            self.action()
        }
    }
}

/// Cell arithmetic is arithmetic modulo 256: the largest value plus one is zero, zero minus
/// one is the largest value, and adding one and subtracting one undo each other.
pub proof fn lemma_cell_arithmetic_wraps(cell: u8)
    ensures
        incremented(cell) == (cell + 1) % 256,
        decremented(cell) == (cell - 1) % 256,
        incremented(255) == 0,
        decremented(0) == 255,
        decremented(incremented(cell)) == cell,
        incremented(decremented(cell)) == cell,
{
}

/// A step keeps a well-formed state well formed. In particular the data pointer never goes
/// below zero and always stands on the tape, and the program is never changed.
pub proof fn lemma_step_preserves_wf(machine: Machine)
    requires
        machine.wf(),
    ensures
        machine.after_step().wf(),
        machine.after_step().program == machine.program,
{
    if machine.jumps() {
        lemma_balanced_has_partners(machine.program, machine.instruction_pointer);
    }
}

/// Supplying input keeps a well-formed state well formed.
pub proof fn lemma_input_preserves_wf(machine: Machine, input: Option<u8>)
    requires
        machine.wf(),
    ensures
        machine.after_input(input).wf(),
        machine.after_input(input).program == machine.program,
{
}

/// A run keeps a well-formed state well formed, whatever its budget.
pub proof fn lemma_run_preserves_wf(machine: Machine, budget: nat)
    requires
        machine.wf(),
    ensures
        machine.after_run(budget).wf(),
        machine.after_run(budget).program == machine.program,
    decreases budget,
{
    lemma_step_preserves_wf(machine);
    if budget != 0 && machine.action() == Ok::<Action, BrainfuckError>(Action::Continue) {
        lemma_run_preserves_wf(machine.after_step(), (budget - 1) as nat);
    }
}

/// Moving right never fails and never loses data: the step reports `Continue`, the data
/// pointer stands on the tape afterwards, every cell that was there keeps its value, and the
/// cells that were appended, if any, hold zero.
pub proof fn lemma_move_right_keeps_cells(machine: Machine)
    requires
        machine.wf(),
        !machine.halted(),
        machine.instruction() == MOVE_RIGHT,
    ensures
        machine.action() == Ok::<Action, BrainfuckError>(Action::Continue),
        machine.after_step().data_pointer == machine.data_pointer + 1,
        machine.after_step().data_pointer < machine.after_step().tape.len(),
        machine.after_step().tape.len() >= machine.tape.len(),
        machine.after_step().tape.subrange(0, machine.tape.len() as int) == machine.tape,
        forall|i: int|
            machine.tape.len() <= i < machine.after_step().tape.len()
                ==> #[trigger] machine.after_step().tape[i] == 0,
{
    assert(machine.after_step().tape.subrange(0, machine.tape.len() as int) =~= machine.tape);
}

/// The tape never shrinks, and a step changes no cell but the current one.
pub proof fn lemma_step_keeps_other_cells(machine: Machine)
    requires
        machine.wf(),
    ensures
        machine.after_step().tape.len() >= machine.tape.len(),
        forall|i: int|
            0 <= i < machine.tape.len() && i != machine.data_pointer
                ==> #[trigger] machine.after_step().tape[i] == machine.tape[i],
{
}

/// Over a whole run the tape never shrinks.
pub proof fn lemma_run_never_shrinks_tape(machine: Machine, budget: nat)
    requires
        machine.wf(),
    ensures
        machine.after_run(budget).tape.len() >= machine.tape.len(),
    decreases budget,
{
    lemma_step_preserves_wf(machine);
    lemma_step_keeps_other_cells(machine);
    if budget != 0 && machine.action() == Ok::<Action, BrainfuckError>(Action::Continue) {
        lemma_run_never_shrinks_tape(machine.after_step(), (budget - 1) as nat);
    }
}

/// A run with a budget left is one step, followed by the rest of the run if that step
/// reported `Continue`.
pub proof fn lemma_run_unfolds(machine: Machine, budget: nat)
    requires
        budget > 0,
    ensures
        machine.after_run(budget) == if machine.action() == Ok::<Action, BrainfuckError>(
            Action::Continue,
        ) {
            machine.after_step().after_run((budget - 1) as nat)
        } else {
            machine.after_step()
        },
        machine.run_action(budget) == if machine.action() == Ok::<Action, BrainfuckError>(
            Action::Continue,
        ) {
            machine.after_step().run_action((budget - 1) as nat)
        } else {
            machine.action()
        },
{
}

/// A run can be cut in two: running `first` steps and then, if nothing stopped the run,
/// `second` more, is running `first + second` steps.
pub proof fn lemma_run_splits(machine: Machine, first: nat, second: nat)
    requires
        machine.run_action(first) == Ok::<Action, BrainfuckError>(Action::Continue),
    ensures
        machine.after_run(first + second) == machine.after_run(first).after_run(second),
        machine.run_action(first + second) == machine.after_run(first).run_action(second),
    decreases first,
{
    if first != 0 {
        if machine.action() == Ok::<Action, BrainfuckError>(Action::Continue) {
            lemma_run_splits(machine.after_step(), (first - 1) as nat, second);
            assert((first + second - 1) as nat == (first - 1) as nat + second);
        }
    }
}

} // verus!
