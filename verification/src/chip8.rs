use crate::display::Display;
use crate::keyboard::{key_pressed, key_released, HostKey, Keyboard};
use crate::machine::{
    action_of, cycle, draws_random, execute, execute_arithmetic, execute_control, execute_draw,
    execute_load, execute_misc, execute_skip, fault_of, flag, opcode_at, registers_loaded,
    registers_stored, skip_if, tick_action, timers_ticked, well_formed, with_register,
    with_register_and_flag, Fault, HostAction, Machine,
};
use vstd::prelude::*;
use vstd::slice::slice_subrange;

verus! {

/// Most significant nibble of an opcode: the instruction family.
pub open spec fn op_d1(op: u16) -> u16 {
    op >> 12
}

/// Second nibble of an opcode: the register operand `x`.
pub open spec fn op_d2(op: u16) -> u16 {
    (op >> 8) & 0xF
}

/// Third nibble of an opcode: the register operand `y`.
pub open spec fn op_d3(op: u16) -> u16 {
    (op >> 4) & 0xF
}

/// Least significant nibble of an opcode: the operand `n`.
pub open spec fn op_d4(op: u16) -> u16 {
    op & 0xF
}

/// High byte of an opcode.
pub open spec fn op_xy(op: u16) -> u16 {
    op >> 8
}

/// Low byte of an opcode: the immediate operand `nn`.
pub open spec fn op_nn(op: u16) -> u16 {
    op & 0x00FF
}

/// Low twelve bits of an opcode: the address operand `nnn`.
pub open spec fn op_nnn(op: u16) -> u16 {
    op & 0x0FFF
}

/// Every field of an opcode stays within the width of its bit slice.
pub proof fn lemma_field_bounds(op: u16)
    ensures
        op_d1(op) < 16,
        op_d2(op) < 16,
        op_d3(op) < 16,
        op_d4(op) < 16,
        op_xy(op) < 256,
        op_nn(op) < 256,
        op_nnn(op) < 4096,
{
    assert(op >> 12 < 16 && (op >> 8) & 0xF < 16 && (op >> 4) & 0xF < 16 && op & 0xF < 16 && op >> 8
        < 256 && op & 0x00FF < 256 && op & 0x0FFF < 4096) by (bit_vector);
}

/// A decoded opcode, held as its four nibbles.
#[derive(Clone, Copy, PartialEq, Eq, Debug)]
pub struct Instruction {
    digit1: u16,
    digit2: u16,
    digit3: u16,
    digit4: u16,
}

impl View for Instruction {
    type V = u16;

    /// The 16-bit opcode that the four nibbles spell.
    closed spec fn view(&self) -> u16 {
        self.digit1 << 12 | self.digit2 << 8 | self.digit3 << 4 | self.digit4
    }
}

impl Instruction {
    #[verifier::type_invariant]
    spec fn nibbles(self) -> bool {
        &&& self.digit1 < 16
        &&& self.digit2 < 16
        &&& self.digit3 < 16
        &&& self.digit4 < 16
    }

    /// Decodes an opcode. Every opcode decodes; none is rejected.
    pub fn new(instruction: u16) -> (decoded: Self)
        ensures
            decoded@ == instruction,
    {
        let v: u16 = instruction;
        assert(((v & 0xF000) >> 12) < 16 && ((v & 0x0F00) >> 8) < 16 && ((v & 0x00F0) >> 4) < 16
            && (v & 0xF) < 16 && ((v & 0xF000) >> 12) << 12 | ((v & 0x0F00) >> 8) << 8 | ((v
            & 0x00F0) >> 4) << 4 | (v & 0xF) == v) by (bit_vector);
        Self {
            digit1: (instruction & 0xF000) >> 12,
            digit2: (instruction & 0x0F00) >> 8,
            digit3: (instruction & 0x00F0) >> 4,
            digit4: instruction & 0xF,
        }
    }

    /// Returns the first nibble of the instruction, left to right.
    pub fn d1(&self) -> (d: u16)
        ensures
            d == self@ >> 12,
            d < 16,
    {
        proof {
            use_type_invariant(self);
            let (a, b, c, e) = (self.digit1, self.digit2, self.digit3, self.digit4);
            assert((a << 12 | b << 8 | c << 4 | e) >> 12 == a) by (bit_vector)
                requires
                    a < 16,
                    b < 16,
                    c < 16,
                    e < 16,
            ;
        }
        self.digit1
    }

    /// Returns the second nibble of the instruction, left to right.
    pub fn d2(&self) -> (d: u16)
        ensures
            d == (self@ >> 8) & 0xF,
            d < 16,
    {
        proof {
            use_type_invariant(self);
            let (a, b, c, e) = (self.digit1, self.digit2, self.digit3, self.digit4);
            assert(((a << 12 | b << 8 | c << 4 | e) >> 8) & 0xF == b) by (bit_vector)
                requires
                    a < 16,
                    b < 16,
                    c < 16,
                    e < 16,
            ;
        }
        self.digit2
    }

    /// Returns the third nibble of the instruction, left to right.
    pub fn d3(&self) -> (d: u16)
        ensures
            d == (self@ >> 4) & 0xF,
            d < 16,
    {
        proof {
            use_type_invariant(self);
            let (a, b, c, e) = (self.digit1, self.digit2, self.digit3, self.digit4);
            assert(((a << 12 | b << 8 | c << 4 | e) >> 4) & 0xF == c) by (bit_vector)
                requires
                    a < 16,
                    b < 16,
                    c < 16,
                    e < 16,
            ;
        }
        self.digit3
    }

    /// Returns the fourth nibble of the instruction, left to right.
    pub fn d4(&self) -> (d: u16)
        ensures
            d == self@ & 0xF,
            d < 16,
    {
        proof {
            use_type_invariant(self);
            let (a, b, c, e) = (self.digit1, self.digit2, self.digit3, self.digit4);
            assert((a << 12 | b << 8 | c << 4 | e) & 0xF == e) by (bit_vector)
                requires
                    a < 16,
                    b < 16,
                    c < 16,
                    e < 16,
            ;
        }
        self.digit4
    }

    /// Returns the first and second nibbles of the instruction as one byte.
    pub fn xy(&self) -> (byte: u16)
        ensures
            byte == self@ >> 8,
            byte < 256,
    {
        proof {
            let op = self@;
            assert(((op >> 12) << 4 | ((op >> 8) & 0xF)) == op >> 8 && op >> 8 < 256)
                by (bit_vector);
        }
        self.d1() << 4 | self.d2()
    }

    /// Returns the third and fourth nibbles of the instruction as one byte.
    pub fn nn(&self) -> (byte: u16)
        ensures
            byte == self@ & 0x00FF,
            byte < 256,
    {
        proof {
            use_type_invariant(self);
            let (a, b, c, e) = (self.digit1, self.digit2, self.digit3, self.digit4);
            assert((a << 12 | b << 8 | c << 4 | e) & 0x00FF == c << 4 | e && (c << 4 | e) < 256)
                by (bit_vector)
                requires
                    a < 16,
                    b < 16,
                    c < 16,
                    e < 16,
            ;
        }
        self.digit3 << 4 | self.digit4
    }

    /// Returns the second, third and fourth nibbles of the instruction as a
    /// twelve-bit address.
    pub fn nnn(&self) -> (address: u16)
        ensures
            address == self@ & 0x0FFF,
            address < 4096,
    {
        proof {
            use_type_invariant(self);
            let (a, b, c, e) = (self.digit1, self.digit2, self.digit3, self.digit4);
            assert((a << 12 | b << 8 | c << 4 | e) & 0x0FFF == b << 8 | c << 4 | e && (b << 8 | c
                << 4 | e) < 4096) by (bit_vector)
                requires
                    a < 16,
                    b < 16,
                    c < 16,
                    e < 16,
            ;
        }
        self.digit2 << 8 | self.digit3 << 4 | self.digit4
    }
}

/// The built-in font: sixteen glyphs of five bytes each, for the hexadecimal
/// digits `0` to `F` in order. The glyph for digit `d` starts at `5 * d`.
pub const FONT: [u8; 80] = [
    0xF0, 0x90, 0x90, 0x90, 0xF0,
    0x20, 0x60, 0x20, 0x20, 0x70,
    0xF0, 0x10, 0xF0, 0x80, 0xF0,
    0xF0, 0x10, 0xF0, 0x10, 0xF0,
    0x90, 0x90, 0xF0, 0x10, 0x10,
    0xF0, 0x80, 0xF0, 0x10, 0xF0,
    0xF0, 0x80, 0xF0, 0x90, 0xF0,
    0xF0, 0x10, 0x20, 0x40, 0x40,
    0xF0, 0x90, 0xF0, 0x90, 0xF0,
    0xF0, 0x90, 0xF0, 0x10, 0xF0,
    0xF0, 0x90, 0xF0, 0x90, 0x90,
    0xE0, 0x90, 0xE0, 0x90, 0xE0,
    0xF0, 0x80, 0x80, 0x80, 0xF0,
    0xE0, 0x90, 0x90, 0x90, 0xE0,
    0xF0, 0x80, 0xF0, 0x80, 0xF0,
    0xF0, 0x80, 0xF0, 0x80, 0x80,
];

/// The state of the machine when it is switched on: the font at the bottom
/// of memory, everything else zero, the frame blank, no key held, and PC at
/// `0x200`, where programs are loaded.
pub open spec fn power_on() -> Machine {
    Machine {
        ram: Seq::new(
            4096,
            |a: int|
                if a < 80 {
                    FONT@[a]
                } else {
                    0u8
                },
        ),
        registers: Seq::new(16, |i: int| 0u8),
        i_register: 0,
        delay_timer: 0,
        sound_timer: 0,
        pc: 0x200,
        stack: Seq::empty(),
        frame: crate::display::blank_frame(),
        keyboard: crate::keyboard::KeyboardView {
            keys_down: Set::empty(),
            awaiting_key_press: false,
            recieved_key_press: false,
            last_key_pressed: 0,
        },
        wait_register: 0,
        paused: false,
    }
}

/// Memory after `program` has been copied to address `0x200` and up.
pub open spec fn program_loaded(ram: Seq<u8>, program: Seq<u8>) -> Seq<u8> {
    Seq::new(
        ram.len(),
        |a: int|
            if 0x200 <= a < 0x200 + program.len() {
                program[a - 0x200]
            } else {
                ram[a]
            },
    )
}

/// `rand::random::<u8>()`: a byte from the thread's random-number generator.
/// Nothing is claimed of its value.
#[verifier::external_body]
fn random_byte() -> (byte: u8) {
    rand::random::<u8>()
}

/// The virtual machine: memory, registers, call stack and timers, with the
/// frame buffer and the keypad that its instructions act on.
pub struct Chip8 {
    ram: [u8; 4096],
    registers: [u8; 16],
    i_register: u16,
    delay_timer: u8,
    sound_timer: u8,
    pc: u16,
    stack_ptr: usize,
    stack: [u16; 16],
    display: Display,
    keyboard: Keyboard,
    pub paused: bool,
    wait_register: usize,
}

impl View for Chip8 {
    type V = Machine;

    closed spec fn view(&self) -> Machine {
        Machine {
            ram: self.ram@,
            registers: self.registers@,
            i_register: self.i_register,
            delay_timer: self.delay_timer,
            sound_timer: self.sound_timer,
            pc: self.pc,
            stack: self.stack@.take(self.stack_ptr as int),
            frame: self.display@,
            keyboard: self.keyboard@,
            wait_register: self.wait_register as nat,
            paused: self.paused,
        }
    }
}

impl Chip8 {
    /// The invariant of the machine: the stack pointer stays within the
    /// sixteen slots of the stack, and a wait for a key names a register.
    pub closed spec fn wf(&self) -> bool {
        &&& self.stack_ptr <= 16
        &&& self.wait_register < 16
    }

    /// The state of a machine that meets its invariant has the sizes of
    /// [`well_formed`].
    pub proof fn law_state_is_well_formed(&self)
        requires
            self.wf(),
        ensures
            well_formed(self@),
    {
        self.display.lemma_shape();
    }

    /// A machine that has just been switched on.
    pub fn new() -> (chip8: Self)
        ensures
            chip8.wf(),
            chip8@ == power_on(),
    {
        let mut chip8 = Chip8 {
            ram: [0; 4096],
            registers: [0; 0x10],
            i_register: 0,
            delay_timer: 0,
            sound_timer: 0,
            pc: 0x200,
            stack_ptr: 0,
            stack: [0; 16],
            display: Display::new(),
            keyboard: Keyboard::new(),
            paused: false,
            wait_register: 0,
        };

        chip8.load_sprites_into_memory();

        assert(chip8@ =~= power_on());
        chip8
    }

    /// Copies `program` into memory from address `0x200` on. A program has at
    /// most 3584 bytes, which is what memory holds above `0x200`.
    pub fn load_program(&mut self, program: Vec<u8>)
        requires
            old(self).wf(),
            program@.len() <= 3584,
        ensures
            final(self).wf(),
            final(self)@ == (Machine {
                ram: program_loaded(old(self)@.ram, program@),
                ..old(self)@
            }),
    {
        let mut i: usize = 0;
        while i < program.len()
            invariant
                i <= program@.len() <= 3584,
                self.wf(),
                self@ == (Machine { ram: self.ram@, ..old(self)@ }),
                forall|a: int| 0 <= a < 0x200 + i ==> self.ram@[a] == program_loaded(
                    old(self)@.ram,
                    program@,
                )[a],
                forall|a: int| 0x200 + i <= a < 4096 ==> self.ram@[a] == old(self)@.ram[a],
            decreases program.len() - i,
        {
            self.ram[0x200 + i] = program[i];
            i += 1;
        }
        assert(self.ram@ =~= program_loaded(old(self)@.ram, program@));
    }

    /// Copies the font to the bottom of memory.
    fn load_sprites_into_memory(&mut self)
        requires
            old(self).wf(),
        ensures
            final(self).wf(),
            final(self)@ == (Machine { ram: final(self)@.ram, ..old(self)@ }),
            forall|a: int| 0 <= a < 80 ==> final(self)@.ram[a] == FONT@[a],
            forall|a: int| 80 <= a < 4096 ==> final(self)@.ram[a] == old(self)@.ram[a],
    {
        let mut i: usize = 0;
        while i < 80
            invariant
                i <= 80,
                self.wf(),
                self@ == (Machine { ram: self.ram@, ..old(self)@ }),
                forall|a: int| 0 <= a < i ==> self.ram@[a] == FONT@[a],
                forall|a: int| i <= a < 4096 ==> self.ram@[a] == old(self)@.ram[a],
            decreases 80 - i,
        {
            self.ram[i] = FONT[i];
            i += 1;
        }
    }

    /// Reads the opcode at PC and decodes it. PC stays where it is. A fetch
    /// that would read past the end of memory is a fault.
    fn fetch_instruction(&self) -> (fetched: Result<Instruction, Fault>)
        ensures
            match fetched {
                Ok(instruction) => self@.pc + 1 < 4096 && instruction@ == opcode_at(
                    self@.ram,
                    self@.pc as int,
                ),
                Err(fault) => self@.pc + 1 >= 4096 && fault == Fault::OutOfBoundsMemoryAccess,
            },
    {
        if self.pc >= 4095 {
            return Err(Fault::OutOfBoundsMemoryAccess);
        }
        let first_byte: u16 = self.ram[self.pc as usize] as u16;
        let second_byte: u16 = self.ram[self.pc as usize + 1] as u16;
        let instruction: u16 = first_byte << 8 | second_byte;

        Ok(Instruction::new(instruction))
    }

    /// Goes to the next instruction (also used to skip over instructions).
    fn next_instruction(&mut self)
        requires
            old(self).wf(),
            old(self)@.pc + 2 <= u16::MAX,
        ensures
            final(self).wf(),
            final(self)@ == (Machine { pc: (old(self)@.pc + 2) as u16, ..old(self)@ }),
    {
        self.pc += 2;
    }

    /// Advances both timers by one tick of the 60 Hz clock. A timer at zero
    /// stays at zero. Tells the host to stop the tone when the sound timer
    /// goes from one to zero.
    pub fn tick_timers(&mut self) -> (action: HostAction)
        requires
            old(self).wf(),
        ensures
            final(self).wf(),
            final(self)@ == timers_ticked(old(self)@),
            action == tick_action(old(self)@),
    {
        let mut action = HostAction::Nothing;
        if self.delay_timer > 0 {
            self.delay_timer -= 1;
        }
        if self.sound_timer > 0 {
            self.sound_timer -= 1;

            if self.sound_timer == 0 {
                action = HostAction::StopSound;
            }
        }
        action
    }

    /// Records that a host key went down.
    pub fn on_key_down(&mut self, keycode: &HostKey)
        requires
            old(self).wf(),
        ensures
            final(self).wf(),
            final(self)@ == (Machine {
                keyboard: key_pressed(old(self)@.keyboard, *keycode),
                ..old(self)@
            }),
    {
        self.keyboard.on_key_down(keycode);
    }

    /// Records that a host key came up. If the machine is waiting for a key,
    /// the wait ends with this key, which the next turn of the engine
    /// delivers.
    pub fn on_key_up(&mut self, keycode: &HostKey)
        requires
            old(self).wf(),
        ensures
            final(self).wf(),
            final(self)@ == (Machine {
                keyboard: key_released(old(self)@.keyboard, *keycode),
                ..old(self)@
            }),
    {
        self.keyboard.on_key_up(keycode);
    }

    /// Delivers the key that ended a wait to the register that the wait
    /// named, and lets the machine run again.
    fn handle_await_keypress(&mut self)
        requires
            old(self).wf(),
            old(self)@.keyboard.recieved_key_press,
        ensures
            final(self).wf(),
            final(self)@ == crate::machine::resolve_key(old(self)@),
    {
        self.registers[self.wait_register] = self.keyboard.get_last_key_pressed();
        self.keyboard.awaiting_key_press = false;
        self.keyboard.recieved_key_press = false;
        assert(self@ =~= crate::machine::resolve_key(old(self)@));
    }

    /// The fault that stops `instruction` from being executed now, if any.
    fn check_instruction(&self, instruction: &Instruction) -> (fault: Option<Fault>)
        requires
            self.wf(),
        ensures
            fault == fault_of(self@, instruction@),
    {
        let i: usize = self.i_register as usize;
        match (instruction.d1(), instruction.d2(), instruction.d3(), instruction.d4()) {
            (0, 0, 0xE, 0xE) => {
                if self.stack_ptr == 0 {
                    Some(Fault::StackUnderflow)
                } else {
                    None
                }
            },
            (2, _, _, _) => {
                if self.stack_ptr >= 16 {
                    Some(Fault::StackOverflow)
                } else {
                    None
                }
            },
            (0xD, _, _, n) => {
                if i + n as usize > 4096 {
                    Some(Fault::OutOfBoundsMemoryAccess)
                } else {
                    None
                }
            },
            (0xF, _, 0x3, 0x3) => {
                if i + 2 >= 4096 {
                    Some(Fault::OutOfBoundsMemoryAccess)
                } else {
                    None
                }
            },
            (0xF, x, 0x5, 0x5) => {
                if i + x as usize >= 4096 {
                    Some(Fault::OutOfBoundsMemoryAccess)
                } else {
                    None
                }
            },
            (0xF, x, 0x6, 0x5) => {
                if i + x as usize >= 4096 {
                    Some(Fault::OutOfBoundsMemoryAccess)
                } else {
                    None
                }
            },
            _ => None,
        }
    }

    /// Sets register `x` to `value`.
    fn set_register(&mut self, x: u16, value: u8)
        requires
            old(self).wf(),
            x < 16,
        ensures
            final(self).wf(),
            final(self)@ == with_register(old(self)@, x as int, value),
    {
        self.registers[x as usize] = value;
    }

    /// Sets register `x` to `value`, and then VF to the flag.
    fn set_register_and_flag(&mut self, x: u16, value: u8, raised: bool)
        requires
            old(self).wf(),
            x < 16,
        ensures
            final(self).wf(),
            final(self)@ == with_register_and_flag(old(self)@, x as int, value, raised),
    {
        self.registers[x as usize] = value;
        self.registers[0xF] = if raised { 1 } else { 0 };
    }

    /// Skips the next instruction if `skip` holds.
    fn skip_if(&mut self, skip: bool)
        requires
            old(self).wf(),
            old(self)@.pc + 2 <= u16::MAX,
        ensures
            final(self).wf(),
            final(self)@ == skip_if(old(self)@, skip),
    {
        if skip {
            self.next_instruction()
        }
    }

    /// Returns from a subroutine: pops the return address into PC.
    fn return_from_subroutine(&mut self)
        requires
            old(self).wf(),
            old(self)@.stack.len() > 0,
        ensures
            final(self).wf(),
            final(self)@ == (Machine {
                pc: old(self)@.stack.last(),
                stack: old(self)@.stack.drop_last(),
                ..old(self)@
            }),
    {
        self.stack_ptr -= 1;
        self.pc = self.stack[self.stack_ptr];
        assert(self@.stack =~= old(self)@.stack.drop_last());
    }

    /// Calls the subroutine at `address`: pushes PC and jumps.
    fn call_subroutine(&mut self, address: u16)
        requires
            old(self).wf(),
            old(self)@.stack.len() < 16,
        ensures
            final(self).wf(),
            final(self)@ == (Machine {
                pc: address,
                stack: old(self)@.stack.push(old(self)@.pc),
                ..old(self)@
            }),
    {
        self.stack[self.stack_ptr] = self.pc;
        self.pc = address;
        self.stack_ptr += 1;
        assert(self@.stack =~= old(self)@.stack.push(old(self)@.pc));
    }

    /// Executes the draw instruction: draws the N bytes at I as a sprite at
    /// (VX, VY), and sets VF to whether a lit pixel was turned off.
    fn execute_draw(&mut self, instruction: &Instruction)
        requires
            old(self).wf(),
            old(self)@.i_register + op_d4(instruction@) <= 4096,
        ensures
            final(self).wf(),
            final(self)@ == execute_draw(old(self)@, instruction@),
    {
        let vx: u8 = self.registers[instruction.d2() as usize];
        let vy: u8 = self.registers[instruction.d3() as usize];
        let from: usize = self.i_register as usize;
        let to: usize = from + (instruction.d4() as usize);

        let collision = self.display.draw(vx, vy, slice_subrange(self.ram.as_slice(), from, to));
        self.registers[0xF] = if collision { 1 } else { 0 };
    }

    /// Adds `vx` to I, and sets VF to whether the sum lies past the end of
    /// memory.
    fn add_to_index(&mut self, vx: u8)
        requires
            old(self).wf(),
        ensures
            final(self).wf(),
            final(self)@ == (Machine {
                i_register: ((old(self)@.i_register + vx) % 0x1_0000) as u16,
                registers: old(self)@.registers.update(
                    0xF,
                    flag(old(self)@.i_register + vx > 0x0FFF),
                ),
                ..old(self)@
            }),
    {
        let past_memory = self.i_register as u32 + vx as u32 > 0x0FFF;
        self.i_register = self.i_register.wrapping_add(vx as u16);
        self.registers[0xF] = if past_memory { 1 } else { 0 };
    }

    /// Stores the hundreds, tens and ones digit of `num` at I, I+1 and I+2.
    fn store_digits(&mut self, num: u8)
        requires
            old(self).wf(),
            old(self)@.i_register + 2 < 4096,
        ensures
            final(self).wf(),
            final(self)@ == ({
                let m = old(self)@;
                let i = m.i_register as int;
                Machine {
                    ram: m.ram.update(i, num / 100).update(i + 1, (num / 10) % 10).update(
                        i + 2,
                        num % 10,
                    ),
                    ..m
                }
            }),
    {
        let at: usize = self.i_register as usize;

        // Integer division drops the digits to the right
        self.ram[at] = num / 100;  // The hundreds digit
        self.ram[at + 1] = (num / 10) % 10;  // The tens digit
        self.ram[at + 2] = num % 10;  // The ones digit
    }

    /// Stores registers V0 to V`x` in memory from I on.
    fn store_registers(&mut self, x: u16)
        requires
            old(self).wf(),
            x < 16,
            old(self)@.i_register + x < 4096,
        ensures
            final(self).wf(),
            final(self)@ == (Machine {
                ram: registers_stored(
                    old(self)@.ram,
                    old(self)@.registers,
                    old(self)@.i_register as int,
                    x as int,
                ),
                ..old(self)@
            }),
    {
        let at: usize = self.i_register as usize;
        let mut i: usize = 0;
        while i <= x as usize
            invariant
                x < 16,
                at + x < 4096,
                at == old(self)@.i_register,
                i <= x + 1,
                self.wf(),
                self@ == (Machine { ram: self.ram@, ..old(self)@ }),
                forall|a: int|
                    0 <= a < 4096 ==> self.ram@[a] == if at <= a < at + i {
                        old(self)@.registers[a - at]
                    } else {
                        old(self)@.ram[a]
                    },
            decreases x + 1 - i,
        {
            self.ram[at + i] = self.registers[i];
            i += 1;
        }
        assert(self.ram@ =~= registers_stored(
            old(self)@.ram,
            old(self)@.registers,
            at as int,
            x as int,
        ));
    }

    /// Loads registers V0 to V`x` from memory from I on.
    fn load_registers(&mut self, x: u16)
        requires
            old(self).wf(),
            x < 16,
            old(self)@.i_register + x < 4096,
        ensures
            final(self).wf(),
            final(self)@ == (Machine {
                registers: registers_loaded(
                    old(self)@.ram,
                    old(self)@.registers,
                    old(self)@.i_register as int,
                    x as int,
                ),
                ..old(self)@
            }),
    {
        let at: usize = self.i_register as usize;
        let mut i: usize = 0;
        while i <= x as usize
            invariant
                x < 16,
                at + x < 4096,
                at == old(self)@.i_register,
                i <= x + 1,
                self.wf(),
                self@ == (Machine { registers: self.registers@, ..old(self)@ }),
                forall|j: int|
                    0 <= j < 16 ==> self.registers@[j] == if j < i {
                        old(self)@.ram[at + j]
                    } else {
                        old(self)@.registers[j]
                    },
            decreases x + 1 - i,
        {
            self.registers[i] = self.ram[at + i];
            i += 1;
        }
        assert(self.registers@ =~= registers_loaded(
            old(self)@.ram,
            old(self)@.registers,
            at as int,
            x as int,
        ));
    }

    /// Executes an instruction of the families `0`, `1`, `2` and `B`: clear
    /// the screen, return, jump, call, jump with offset.
    fn execute_control(&mut self, instruction: &Instruction) -> (action: HostAction)
        requires
            old(self).wf(),
            fault_of(old(self)@, instruction@) is None,
            op_d1(instruction@) == 0 || op_d1(instruction@) == 1 || op_d1(instruction@) == 2
                || op_d1(instruction@) == 0xB,
        ensures
            final(self).wf(),
            final(self)@ == execute_control(old(self)@, instruction@),
            action == action_of(old(self)@, instruction@),
    {
        let mut action = HostAction::Nothing;
        let nnn: u16 = instruction.nnn();

        match (instruction.d1(), instruction.d2(), instruction.d3(), instruction.d4()) {
            (0, 0, 0xE, 0) => {
                // Clear screen
                self.display.clear_screen();
                action = HostAction::Redraw;
            },
            (0, 0, 0xE, 0xE) => {
                // Return execution to the stored address
                self.return_from_subroutine();
            },
            (1, _, _, _) => {
                // Jump program counter to nnn
                self.pc = nnn;
            },
            (2, _, _, _) => {
                // Same as above but store the address to later return to
                self.call_subroutine(nnn);
            },
            (0xB, _, _, _) => {
                // Set pc = nnn + v0
                self.pc = nnn + self.registers[0] as u16;
            },
            _ => {},
        }
        action
    }

    /// Executes an instruction of the families `3`, `4`, `5`, `9` and `E`:
    /// the conditional skips.
    fn execute_skip(&mut self, instruction: &Instruction)
        requires
            old(self).wf(),
            old(self)@.pc <= 4096,
        ensures
            final(self).wf(),
            final(self)@ == execute_skip(old(self)@, instruction@),
    {
        let nn: u8 = instruction.nn() as u8;
        let vx: u8 = self.registers[instruction.d2() as usize];
        let vy: u8 = self.registers[instruction.d3() as usize];

        match (instruction.d1(), instruction.d3(), instruction.d4()) {
            (3, _, _) => {
                // Skip instruction if vx == nn
                self.skip_if(vx == nn);
            },
            (4, _, _) => {
                // Skip instruction if vx != nn
                self.skip_if(vx != nn);
            },
            (5, _, 0) => {
                // Skip instruction if vx == vy
                self.skip_if(vx == vy);
            },
            (9, _, 0) => {
                // Skip instruction if vx != vy
                self.skip_if(vx != vy);
            },
            (0xE, 0x9, 0xE) => {
                // Skip instruction if the key vx is held
                let pressed = self.keyboard.is_pressed(vx);
                self.skip_if(pressed);
            },
            (0xE, 0xA, 0x1) => {
                // Skip instruction if the key vx is not held
                let pressed = self.keyboard.is_pressed(vx);
                self.skip_if(!pressed);
            },
            _ => {},
        }
    }

    /// Executes an instruction of the families `6`, `7`, `A` and `C`: load
    /// an immediate into a register or into I, add an immediate, load a
    /// masked random byte.
    fn execute_load(&mut self, instruction: &Instruction, random: u8)
        requires
            old(self).wf(),
        ensures
            final(self).wf(),
            final(self)@ == execute_load(old(self)@, instruction@, random),
    {
        let nn: u8 = instruction.nn() as u8;
        let x: u16 = instruction.d2();
        let vx: u8 = self.registers[x as usize];

        match instruction.d1() {
            6 => {
                // Set vx to nn
                self.set_register(x, nn);
            },
            7 => {
                // Add nn to vx
                self.set_register(x, vx.wrapping_add(nn));
            },
            0xA => {
                // i register = nnn
                self.i_register = instruction.nnn();
            },
            0xC => {
                // Set vx = random() & nn
                self.set_register(x, random & nn);
            },
            _ => {},
        }
    }

    /// Executes an instruction of family `8`: register-to-register moves,
    /// logic, arithmetic and shifts.
    fn execute_arithmetic(&mut self, instruction: &Instruction)
        requires
            old(self).wf(),
        ensures
            final(self).wf(),
            final(self)@ == execute_arithmetic(old(self)@, instruction@),
    {
        let x: u16 = instruction.d2();
        let vx: u8 = self.registers[x as usize];
        let vy: u8 = self.registers[instruction.d3() as usize];

        match instruction.d4() {
            0 => {
                // Set vx to vy
                self.set_register(x, vy);
            },
            1 => {
                // Set vx to vx | vy
                self.set_register(x, vx | vy);
            },
            2 => {
                // Set vx to vx & vy
                self.set_register(x, vx & vy);
            },
            3 => {
                // Set vx to vx ^ vy
                self.set_register(x, vx ^ vy);
            },
            4 => {
                // Add vy to vx. Carry flag (vf) = 1 if overflow happens
                let overflow = vx as u16 + vy as u16 > 255;
                self.set_register_and_flag(x, vx.wrapping_add(vy), overflow);
            },
            5 => {
                // vx -= vy. Carry flag (vf) = 1 if underflow doesn't happen
                self.set_register_and_flag(x, vx.wrapping_sub(vy), vx >= vy);
            },
            7 => {
                // vx = vy - vx. Carry flag (vf) = 1 if underflow doesn't happen
                self.set_register_and_flag(x, vy.wrapping_sub(vx), vy >= vx);
            },
            6 => {
                // Set vx to vy, vx >>= 1, vf = shifted out bit
                assert(vy >> 1 == vy / 2 && ((vy & 1 == 1) <==> vy % 2 == 1)) by (bit_vector);
                self.set_register_and_flag(x, vy >> 1, vy & 1 == 1);
            },
            0xE => {
                // Set vx to vy, vx <<= 1, vf = shifted out bit
                assert(vy << 1 == (vy * 2) % 256 && (((vy >> 7) & 1 == 1) <==> vy >= 128))
                    by (bit_vector);
                self.set_register_and_flag(x, vy << 1, (vy >> 7) & 1 == 1);
            },
            _ => {},
        }
    }

    /// Executes an instruction of family `F`: timers, the wait for a key,
    /// and the instructions that work on memory through I.
    fn execute_misc(&mut self, instruction: &Instruction) -> (action: HostAction)
        requires
            old(self).wf(),
            fault_of(old(self)@, instruction@) is None,
            op_d1(instruction@) == 0xF,
        ensures
            final(self).wf(),
            final(self)@ == execute_misc(old(self)@, instruction@),
            action == action_of(old(self)@, instruction@),
    {
        let mut action = HostAction::Nothing;
        let x: u16 = instruction.d2();
        let vx: u8 = self.registers[x as usize];

        match (instruction.d3(), instruction.d4()) {
            (0x0, 0x7) => {
                self.set_register(x, self.delay_timer);
            },
            (0x1, 0x5) => {
                self.delay_timer = vx;
            },
            (0x1, 0x8) => {
                let was_on = self.sound_timer > 0;
                self.sound_timer = vx;
                if self.sound_timer > 0 {
                    action = HostAction::StartSound;
                } else if was_on {
                    action = HostAction::StopSound;
                }
            },
            (0x1, 0xE) => {
                self.add_to_index(vx);
            },
            (0x0, 0xA) => {
                self.keyboard.awaiting_key_press = true;
                self.wait_register = x as usize;
            },
            (0x2, 0x9) => {
                self.i_register = vx as u16 * 5;
            },
            (0x3, 0x3) => {
                self.store_digits(vx);
            },
            (0x5, 0x5) => {
                self.store_registers(x);
            },
            (0x6, 0x5) => {
                self.load_registers(x);
            },
            _ => {},
        }
        action
    }

    /// Executes `instruction`, which was fetched from just below PC and does
    /// not fault. `random` is the byte that the random-number instruction
    /// draws. Returns what the host has to do.
    fn excecute_instruction(&mut self, instruction: &Instruction, random: u8) -> (action:
        HostAction)
        requires
            old(self).wf(),
            old(self)@.pc <= 4096,
            fault_of(old(self)@, instruction@) is None,
        ensures
            final(self).wf(),
            final(self)@ == execute(old(self)@, instruction@, random),
            action == action_of(old(self)@, instruction@),
    {
        match instruction.d1() {
            0x0 | 0x1 | 0x2 | 0xB => self.execute_control(instruction),
            0x3 | 0x4 | 0x5 | 0x9 | 0xE => {
                self.execute_skip(instruction);
                HostAction::Nothing
            },
            0x6 | 0x7 | 0xA | 0xC => {
                self.execute_load(instruction, random);
                HostAction::Nothing
            },
            0x8 => {
                self.execute_arithmetic(instruction);
                HostAction::Nothing
            },
            0xD => {
                self.execute_draw(instruction);
                HostAction::Redraw
            },
            _ => self.execute_misc(instruction),
        }
    }

    /// One turn of the engine, with `random` as the byte that the
    /// random-number instruction draws if this turn executes it.
    ///
    /// A paused machine does nothing. Otherwise a pending key is delivered;
    /// then, unless the machine is waiting for a key, the opcode at PC is
    /// fetched, PC moves behind it, and the opcode is executed. A fault is
    /// reported with the machine left at the faulting instruction, so every
    /// later turn reports it again: the machine has halted.
    pub fn cycle_with(&mut self, random: u8) -> (result: Result<HostAction, Fault>)
        requires
            old(self).wf(),
        ensures
            final(self).wf(),
            (final(self)@, result) == cycle(old(self)@, random),
    {
        if self.paused {
            return Ok(HostAction::Nothing);
        }
        if self.keyboard.recieved_key_press {
            self.handle_await_keypress();
        }
        if self.keyboard.awaiting_key_press {
            return Ok(HostAction::Nothing);
        }
        let instruction = match self.fetch_instruction() {
            Ok(instruction) => instruction,
            Err(fault) => {
                return Err(fault);
            },
        };
        match self.check_instruction(&instruction) {
            Some(fault) => {
                return Err(fault);
            },
            None => {},
        }
        let ghost resolved = self@;
        self.next_instruction();
        let action = self.excecute_instruction(&instruction, random);
        assert(action == action_of(resolved, instruction@));
        Ok(action)
    }

    /// One turn of the engine: [`Chip8::cycle_with`] a byte that is drawn at
    /// random if the turn executes the random-number instruction.
    pub fn cycle(&mut self) -> (result: Result<HostAction, Fault>)
        requires
            old(self).wf(),
        ensures
            final(self).wf(),
            exists|random: u8| (final(self)@, result) == #[trigger] cycle(old(self)@, random),
            !draws_random(old(self)@) ==> (final(self)@, result) == cycle(old(self)@, 0),
    {
        let random: u8 = if self.draws_random() {
            random_byte()
        } else {
            0
        };
        self.cycle_with(random)
    }

    /// Whether the next turn of the engine executes the random-number
    /// instruction.
    fn draws_random(&self) -> (draws: bool)
        ensures
            draws == draws_random(self@),
    {
        if self.paused || (self.keyboard.awaiting_key_press && !self.keyboard.recieved_key_press) {
            return false;
        }
        match self.fetch_instruction() {
            Ok(instruction) => instruction.d1() == 0xC,
            Err(_) => false,
        }
    }

    /// The program counter.
    pub fn pc(&self) -> (pc: u16)
        ensures
            pc == self@.pc,
    {
        self.pc
    }

    /// The index register I.
    pub fn i_register(&self) -> (i: u16)
        ensures
            i == self@.i_register,
    {
        self.i_register
    }

    /// The value of register V`x`.
    pub fn register(&self, x: usize) -> (value: u8)
        requires
            x < 16,
        ensures
            value == self@.registers[x as int],
    {
        self.registers[x]
    }

    /// The byte of memory at `address`.
    pub fn memory(&self, address: usize) -> (byte: u8)
        requires
            address < 4096,
        ensures
            byte == self@.ram[address as int],
    {
        self.ram[address]
    }

    /// The delay timer.
    pub fn delay_timer(&self) -> (timer: u8)
        ensures
            timer == self@.delay_timer,
    {
        self.delay_timer
    }

    /// The sound timer.
    pub fn sound_timer(&self) -> (timer: u8)
        ensures
            timer == self@.sound_timer,
    {
        self.sound_timer
    }

    /// The number of return addresses on the stack.
    pub fn stack_depth(&self) -> (depth: usize)
        requires
            self.wf(),
        ensures
            depth == self@.stack.len(),
            depth <= 16,
    {
        self.stack_ptr
    }

    /// The frame buffer.
    pub fn display(&self) -> (display: &Display)
        ensures
            display@ == self@.frame,
    {
        &self.display
    }

    /// The keypad.
    pub fn keyboard(&self) -> (keyboard: &Keyboard)
        ensures
            keyboard@ == self@.keyboard,
    {
        &self.keyboard
    }
}

} // verus!
