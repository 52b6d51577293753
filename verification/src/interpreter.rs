//! The interpreter: a loaded program, its jump table, the tape and the two pointers.

use std::collections::HashMap;
use vstd::prelude::*;
use crate::brackets::{
    are_partners, balanced, depth, depth_change, is_dangling_open, is_first_unmatched,
    is_jump_table, is_loop, is_loop_marker, is_stray_close, lemma_jump_table_involution,
    lemma_unmatched_not_balanced, never_negative, partner, LOOP_CLOSE, LOOP_OPEN,
};
use crate::error::BrainfuckError;
use crate::machine::{
    grown, lemma_run_unfolds, zero_cells, Action, Machine, DECREMENT, INCREMENT,
    INITIAL_TAPE_CELLS, INPUT, MOVE_LEFT, MOVE_RIGHT, OUTPUT, TAPE_GROWTH_CELLS,
};
use vstd::string::StrSliceExecFns;
use vstd::utf8::encode_utf8;

verus! {

broadcast use vstd::std_specs::hash::group_hash_axioms;

/// A program ready to run, together with the state of its run.
pub struct BrainfuckInterpreter {
    memory: Vec<u8>,
    data_pointer: usize,
    instruction_pointer: usize,
    source: Vec<u8>,
    bracket_map: HashMap<usize, usize>,
    debug: bool,
}

impl View for BrainfuckInterpreter {
    type V = Machine;

    closed spec fn view(&self) -> Machine {
        Machine {
            program: self.source@,
            tape: self.memory@,
            data_pointer: self.data_pointer as int,
            instruction_pointer: self.instruction_pointer as int,
        }
    }
}

impl BrainfuckInterpreter {
    /// The jump table that was built when the program was loaded.
    pub closed spec fn jump_table(&self) -> Map<usize, usize> {
        self.bracket_map@
    }

    /// Whether tracing was asked for when the interpreter was made.
    pub closed spec fn debug_enabled(&self) -> bool {
        self.debug
    }

    /// The state is well formed and the jump table is that of the program.
    pub open spec fn wf(&self) -> bool {
        &&& self@.wf()
        &&& is_jump_table(self@.program, self.jump_table())
    }

    /// Loads a program: takes the bytes of `source` as its instructions, matches its loop
    /// markers, and sets up a fresh tape.
    ///
    /// A program that is not balanced is refused with the position of the offending marker.
    /// `debug` is only recorded, for the caller's tracing.
    pub fn new(source: String, debug: bool) -> (result: Result<Self, BrainfuckError>)
        ensures
            result is Ok <==> balanced(encode_utf8(source@)),
            match result {
                Ok(interpreter) => {
                    &&& interpreter.wf()
                    &&& interpreter@ == Machine::initial(encode_utf8(source@))
                    &&& interpreter.debug_enabled() == debug
                },
                Err(BrainfuckError::UnmatchedBracket(position)) => is_first_unmatched(
                    encode_utf8(source@),
                    position as int,
                ),
                Err(_) => false,
            },
    {
        let source_bytes = source.as_str().as_bytes_vec();
        let bracket_map = Self::build_bracket_map(source_bytes.as_slice())?;
        let memory: Vec<u8> = vec![0u8; INITIAL_TAPE_CELLS];
        proof {
            assert(memory@ =~= zero_cells(INITIAL_TAPE_CELLS as nat));
        }
        Ok(
            BrainfuckInterpreter {
                memory,
                data_pointer: 0,
                instruction_pointer: 0,
                source: source_bytes,
                bracket_map,
                debug,
            },
        )
    }

    /// Matches the loop markers of `source` in one pass from left to right.
    ///
    /// A balanced program gets its jump table. Any other program is refused with the position
    /// of the first closer that has no opener or, if there is none, of the outermost opener
    /// that is never closed.
    pub fn build_bracket_map(source: &[u8]) -> (result: Result<
        HashMap<usize, usize>,
        BrainfuckError,
    >)
        ensures
            result is Ok <==> balanced(source@),
            match result {
                Ok(table) => {
                    &&& is_jump_table(source@, table@)
                    &&& forall|i: usize| #[trigger]
                        table@.contains_key(i) ==> table@.contains_key(table@[i])
                            && table@[table@[i]] == i
                },
                Err(BrainfuckError::UnmatchedBracket(position)) => is_first_unmatched(
                    source@,
                    position as int,
                ),
                Err(_) => false,
            },
    {
        let mut bracket_map: HashMap<usize, usize> = HashMap::new();
        let mut stack: Vec<usize> = Vec::new();
        let mut i: usize = 0;
        while i < source.len()
            invariant
                0 <= i <= source.len(),
                never_negative(source@, i as int),
                stack.len() == depth(source@, i as int),
                forall|d: int|
                    0 <= d < stack.len() ==> {
                        &&& (#[trigger] stack[d]) < i
                        &&& source[stack[d] as int] == LOOP_OPEN
                        &&& depth(source@, stack[d] as int) == d
                        &&& forall|k: int|
                            stack[d] < k <= i ==> #[trigger] depth(source@, k) > d
                    },
                forall|k: usize| #[trigger]
                    bracket_map@.contains_key(k) ==> {
                        &&& k < i
                        &&& bracket_map@[k] < i
                        &&& are_partners(source@, k as int, bracket_map@[k] as int)
                    },
                forall|k: usize|
                    k < i && source[k as int] == LOOP_CLOSE ==> #[trigger] bracket_map@.contains_key(
                        k,
                    ),
                forall|k: usize|
                    k < i && source[k as int] == LOOP_OPEN && !(#[trigger] bracket_map@.contains_key(
                        k,
                    )) ==> {
                        &&& 0 <= depth(source@, k as int) < stack.len()
                        &&& stack[depth(source@, k as int)] == k
                    },
            decreases source.len() - i,
        {
            let ch = source[i];
            proof {
                assert(depth(source@, i + 1) == depth(source@, i as int) + depth_change(ch));
            }
            if ch == LOOP_OPEN {
                stack.push(i);
            } else if ch == LOOP_CLOSE {
                let ghost before = stack@;
                match stack.pop() {
                    Some(start) => {
                        proof {
                            assert(start == before[before.len() - 1]);
                            assert(is_loop(source@, start as int, i as int));
                        }
                        bracket_map.insert(start, i);
                        bracket_map.insert(i, start);
                    },
                    None => {
                        proof {
                            assert(is_stray_close(source@, i as int));
                            lemma_unmatched_not_balanced(source@, i as int);
                        }
                        return Err(BrainfuckError::UnmatchedBracket(i));
                    },
                }
            }
            i += 1;
        }
        if stack.len() != 0 {
            let position = stack[0];
            proof {
                assert(is_dangling_open(source@, position as int));
                lemma_unmatched_not_balanced(source@, position as int);
            }
            return Err(BrainfuckError::UnmatchedBracket(position));
        }
        proof {
            assert(source@.len() == i);
            assert forall|k: usize| #[trigger]
                bracket_map@.contains_key(k) implies k < source@.len() && is_loop_marker(
                source@[k as int],
            ) by {
                assert(are_partners(source@, k as int, bracket_map@[k] as int));
            }
            lemma_jump_table_involution(source@, bracket_map@);
        }
        Ok(bracket_map)
    }

    /// Makes sure that the tape can be indexed at the data pointer: appends one increment of
    /// zero cells if the pointer stands past the last cell, and does nothing otherwise.
    pub fn ensure_memory_capacity(&mut self)
        requires
            old(self)@.data_pointer >= old(self)@.tape.len() ==> old(self)@.tape.len()
                + TAPE_GROWTH_CELLS <= usize::MAX,
        ensures
            final(self)@ == (Machine {
                tape: grown(old(self)@.tape, old(self)@.data_pointer),
                ..old(self)@
            }),
            final(self).jump_table() == old(self).jump_table(),
            final(self).debug_enabled() == old(self).debug_enabled(),
    {
        if self.data_pointer >= self.memory.len() {
            let ghost before = self.memory@;
            let length = self.memory.len() + TAPE_GROWTH_CELLS;
            self.memory.resize(length, 0u8);
            proof {
                assert(self.memory@ =~= before + zero_cells(TAPE_GROWTH_CELLS as nat));
            }
        }
    }

    /// Runs one instruction.
    ///
    /// An instruction that touches neither stream is carried out, and the step reports
    /// `Continue`. An output instruction is passed over, and the step reports the
    /// character to write. An input instruction is left standing, and the step reports
    /// `Read`: the caller answers with `supply_input`. At the end of the program nothing
    /// changes and the step reports `Halt`. A move left of the first cell changes nothing
    /// and fails.
    pub fn step(&mut self) -> (result: Result<Action, BrainfuckError>)
        requires
            old(self).wf(),
            old(self)@.data_pointer + 1 + TAPE_GROWTH_CELLS <= usize::MAX,
        ensures
            final(self).wf(),
            final(self)@ == old(self)@.after_step(),
            result == old(self)@.action(),
            final(self).jump_table() == old(self).jump_table(),
            final(self).debug_enabled() == old(self).debug_enabled(),
    {
        if self.instruction_pointer >= self.source.len() {
            return Ok(Action::Halt);
        }
        let command = self.source[self.instruction_pointer];
        if command == INPUT {
            return Ok(Action::Read);
        }
        if command == OUTPUT {
            let cell = self.memory[self.data_pointer];
            self.instruction_pointer += 1;
            return Ok(Action::Write(cell as char));
        }
        if command == INCREMENT {
            let cell = self.memory[self.data_pointer];
            self.memory[self.data_pointer] = cell.wrapping_add(1);
        } else if command == DECREMENT {
            let cell = self.memory[self.data_pointer];
            self.memory[self.data_pointer] = cell.wrapping_sub(1);
        } else if command == MOVE_RIGHT {
            self.data_pointer += 1;
            self.ensure_memory_capacity();
        } else if command == MOVE_LEFT {
            if self.data_pointer == 0 {
                return Err(BrainfuckError::MemoryUnderflow);
            }
            self.data_pointer -= 1;
        } else if command == LOOP_OPEN {
            if self.memory[self.data_pointer] == 0 {
                self.jump();
            }
        } else if command == LOOP_CLOSE {
            if self.memory[self.data_pointer] != 0 {
                self.jump();
            }
        }
        self.instruction_pointer += 1;
        Ok(Action::Continue)
    }

    /// Answers a request for input, with the byte that was read or with `None` at the end of
    /// the input, and moves past the input instruction. The end of the input leaves the
    /// current cell as it is.
    ///
    /// Returns whether the interpreter was standing on an input instruction; if it was not,
    /// nothing changes.
    pub fn supply_input(&mut self, input: Option<u8>) -> (accepted: bool)
        requires
            old(self).wf(),
        ensures
            final(self).wf(),
            accepted == old(self)@.awaiting_input(),
            final(self)@ == old(self)@.after_input(input),
            final(self).jump_table() == old(self).jump_table(),
            final(self).debug_enabled() == old(self).debug_enabled(),
    {
        if self.instruction_pointer >= self.source.len() {
            return false;
        }
        if self.source[self.instruction_pointer] != INPUT {
            return false;
        }
        match input {
            Some(byte) => {
                self.memory[self.data_pointer] = byte;
            },
            None => {},
        }
        self.instruction_pointer += 1;
        true
    }

    /// Runs instructions until one of them needs the caller, the program ends, the run
    /// fails, or `budget` instructions have been run, whichever comes first.
    ///
    /// What comes back says what the caller is to do before calling again: write a
    /// character, supply input, nothing more because the program has ended, or simply call
    /// again because the budget ran out. After a failure the state is the one in which the
    /// failing instruction was met.
    pub fn execute(&mut self, budget: usize) -> (result: Result<Action, BrainfuckError>)
        requires
            old(self).wf(),
            old(self)@.data_pointer + budget + TAPE_GROWTH_CELLS <= usize::MAX,
        ensures
            final(self).wf(),
            final(self)@ == old(self)@.after_run(budget as nat),
            result == old(self)@.run_action(budget as nat),
            final(self).jump_table() == old(self).jump_table(),
            final(self).debug_enabled() == old(self).debug_enabled(),
    {
        let mut remaining: usize = budget;
        while remaining > 0
            invariant
                self.wf(),
                self@.data_pointer + remaining + TAPE_GROWTH_CELLS <= usize::MAX,
                self@.after_run(remaining as nat) == old(self)@.after_run(budget as nat),
                self@.run_action(remaining as nat) == old(self)@.run_action(budget as nat),
                self.jump_table() == old(self).jump_table(),
                self.debug_enabled() == old(self).debug_enabled(),
            decreases remaining,
        {
            let ghost before = self@;
            let outcome = self.step();
            proof {
                lemma_run_unfolds(before, remaining as nat);
            }
            match outcome {
                Ok(Action::Continue) => {
                    remaining -= 1;
                },
                other => {
                    return other;
                },
            }
        }
        Ok(Action::Continue)
    }

    /// The index of the current cell.
    pub fn data_pointer(&self) -> (index: usize)
        ensures
            index == self@.data_pointer,
    {
        self.data_pointer
    }

    /// The index of the next instruction; the length of the program once the run is over.
    pub fn instruction_pointer(&self) -> (index: usize)
        ensures
            index == self@.instruction_pointer,
    {
        self.instruction_pointer
    }

    /// The number of instruction bytes in the program.
    pub fn program_len(&self) -> (length: usize)
        ensures
            length == self@.program.len(),
    {
        self.source.len()
    }

    /// The number of cells on the tape.
    pub fn tape_len(&self) -> (length: usize)
        ensures
            length == self@.tape.len(),
    {
        self.memory.len()
    }

    /// The value of the cell at `index`, if the tape reaches that far.
    pub fn cell(&self, index: usize) -> (value: Option<u8>)
        ensures
            value == if index < self@.tape.len() {
                Some(self@.tape[index as int])
            } else {
                None
            },
    {
        if index < self.memory.len() {
            Some(self.memory[index])
        } else {
            None
        }
    }

    /// Where the run continues from after a jump at `position`: the position of the partner
    /// of the loop marker there, or `None` if no loop marker stands at `position`.
    pub fn jump_target(&self, position: usize) -> (target: Option<usize>)
        requires
            self.wf(),
        ensures
            target == if position < self@.program.len() && is_loop_marker(
                self@.program[position as int],
            ) {
                Some(partner(self@.program, position as int) as usize)
            } else {
                None
            },
    {
        proof {
            lemma_jump_table_involution(self@.program, self.jump_table());
        }
        match self.bracket_map.get(&position) {
            Some(target) => Some(*target),
            None => None,
        }
    }

    /// The number of loops in the program.
    pub fn bracket_pairs(&self) -> (pairs: usize)
        ensures
            pairs == self.jump_table().len() / 2,
    {
        self.bracket_map.len() / 2
    }

    /// Whether tracing was asked for when the interpreter was made.
    pub fn debug(&self) -> (enabled: bool)
        ensures
            enabled == self.debug_enabled(),
    {
        self.debug
    }

    /// Moves the instruction pointer from the loop marker it stands on to the partner of
    /// that marker.
    fn jump(&mut self)
        requires
            old(self).wf(),
            !old(self)@.halted(),
            is_loop_marker(old(self)@.instruction()),
        ensures
            final(self)@ == (Machine {
                instruction_pointer: partner(old(self)@.program, old(self)@.instruction_pointer),
                ..old(self)@
            }),
            0 <= final(self)@.instruction_pointer < final(self)@.program.len(),
            final(self).jump_table() == old(self).jump_table(),
            final(self).debug_enabled() == old(self).debug_enabled(),
    {
        proof {
            lemma_jump_table_involution(self@.program, self.jump_table());
            assert(self.jump_table().contains_key(self.instruction_pointer));
        }
        let target = self.bracket_map.get(&self.instruction_pointer);
        self.instruction_pointer = *target.unwrap();
    }
}

} // verus!
