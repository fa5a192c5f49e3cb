use crate::chip8::{op_d1, op_d2, op_d3, op_d4, op_nn, op_nnn};
use crate::display::{blank_frame, collides, drawn, is_frame};
use crate::keyboard::{
    key_code, key_pressed, key_released, wait_phase, HostKey, KeyboardView, WaitPhase,
};
use vstd::prelude::*;

verus! {

/// Why the machine refused to execute an instruction. A fault halts the
/// machine at the faulting instruction: see [`run`].
#[derive(Clone, Copy, PartialEq, Eq, Debug)]
pub enum Fault {
    /// A call with sixteen return addresses already on the stack.
    StackOverflow,
    /// A return with no return address on the stack.
    StackUnderflow,
    /// A fetch, a sprite read or a block move that reaches past the last
    /// byte of memory.
    OutOfBoundsMemoryAccess,
}

/// What the host has to do after the machine has taken a step.
#[derive(Clone, Copy, PartialEq, Eq, Debug)]
pub enum HostAction {
    /// Nothing.
    Nothing,
    /// Present the frame buffer: it was cleared or drawn on.
    Redraw,
    /// Start the tone: the sound timer was set to a nonzero value.
    StartSound,
    /// Stop the tone: the sound timer has reached zero.
    StopSound,
}

/// The state of the machine.
#[verifier::ext_equal]
pub struct Machine {
    /// The 4096 bytes of memory.
    pub ram: Seq<u8>,
    /// The sixteen registers V0 to VF.
    pub registers: Seq<u8>,
    /// The index register I.
    pub i_register: u16,
    /// The delay timer.
    pub delay_timer: u8,
    /// The sound timer.
    pub sound_timer: u8,
    /// The program counter.
    pub pc: u16,
    /// The return addresses, oldest first.
    pub stack: Seq<u16>,
    /// The frame buffer, `frame[y][x]`.
    pub frame: Seq<Seq<bool>>,
    /// The keypad and the state of a pending wait for a key.
    pub keyboard: KeyboardView,
    /// The register that receives the key when a wait for a key ends.
    pub wait_register: nat,
    /// The host has paused the machine.
    pub paused: bool,
}

/// The sizes that every state of the machine has.
pub open spec fn well_formed(m: Machine) -> bool {
    &&& m.ram.len() == 4096
    &&& m.registers.len() == 16
    &&& m.stack.len() <= 16
    &&& is_frame(m.frame)
    &&& m.wait_register < 16
}

/// `1` for a raised flag, `0` for a lowered one.
pub open spec fn flag(raised: bool) -> u8 {
    if raised {
        1
    } else {
        0
    }
}

/// The machine with register `x` set to `value`.
pub open spec fn with_register(m: Machine, x: int, value: u8) -> Machine {
    Machine { registers: m.registers.update(x, value), ..m }
}

/// The machine with register `x` set to `value`, and then VF set to the
/// flag. Where `x` is VF itself, the flag is what stays.
pub open spec fn with_register_and_flag(m: Machine, x: int, value: u8, raised: bool) -> Machine {
    Machine { registers: m.registers.update(x, value).update(0xF, flag(raised)), ..m }
}

/// The machine with the next instruction skipped if `skip` holds.
pub open spec fn skip_if(m: Machine, skip: bool) -> Machine {
    if skip {
        Machine { pc: (m.pc + 2) as u16, ..m }
    } else {
        m
    }
}

/// The opcode that starts at address `pc`: two bytes, the high byte first.
pub open spec fn opcode_at(ram: Seq<u8>, pc: int) -> u16 {
    (ram[pc] as u16) << 8 | (ram[pc + 1] as u16)
}

/// Memory after registers V0 to V`x` have been stored from address `at` on.
pub open spec fn registers_stored(ram: Seq<u8>, registers: Seq<u8>, at: int, x: int) -> Seq<u8> {
    Seq::new(
        ram.len(),
        |a: int|
            if at <= a <= at + x {
                registers[a - at]
            } else {
                ram[a]
            },
    )
}

/// The registers after V0 to V`x` have been loaded from address `at` on.
pub open spec fn registers_loaded(ram: Seq<u8>, registers: Seq<u8>, at: int, x: int) -> Seq<u8> {
    Seq::new(
        registers.len(),
        |i: int|
            if i <= x {
                ram[at + i]
            } else {
                registers[i]
            },
    )
}

/// The fault that stops `op` from being executed in state `m`, if any.
///
/// A return needs a return address, a call needs room for one, and an
/// instruction that reads or writes memory through I needs every address that
/// it touches to lie inside memory. What a fault depends on (the stack's
/// depth, I and the opcode) is untouched by fetching the opcode.
pub open spec fn fault_of(m: Machine, op: u16) -> Option<Fault> {
    let x = op_d2(op) as int;
    let n = op_d4(op) as int;
    match (op_d1(op), op_d2(op), op_d3(op), op_d4(op)) {
        (0, 0, 0xE, 0xE) => if m.stack.len() == 0 {
            Some(Fault::StackUnderflow)
        } else {
            None
        },
        (2, _, _, _) => if m.stack.len() >= 16 {
            Some(Fault::StackOverflow)
        } else {
            None
        },
        (0xD, _, _, _) => if m.i_register + n > 4096 {
            Some(Fault::OutOfBoundsMemoryAccess)
        } else {
            None
        },
        (0xF, _, 0x3, 0x3) => if m.i_register + 2 >= 4096 {
            Some(Fault::OutOfBoundsMemoryAccess)
        } else {
            None
        },
        (0xF, _, 0x5, 0x5) => if m.i_register + x >= 4096 {
            Some(Fault::OutOfBoundsMemoryAccess)
        } else {
            None
        },
        (0xF, _, 0x6, 0x5) => if m.i_register + x >= 4096 {
            Some(Fault::OutOfBoundsMemoryAccess)
        } else {
            None
        },
        _ => None,
    }
}

/// What the instructions of the families `0`, `1`, `2` and `B` do. With NNN
/// the low twelve bits of the opcode:
///
/// | opcode | effect |
/// |---|---|
/// | `00E0` | clear the frame buffer |
/// | `00EE` | pop the return address into PC |
/// | `1NNN` | PC = NNN |
/// | `2NNN` | push PC, PC = NNN |
/// | `BNNN` | PC = NNN + V0 |
pub open spec fn execute_control(m: Machine, op: u16) -> Machine {
    let nnn = op_nnn(op);
    match (op_d1(op), op_d2(op), op_d3(op), op_d4(op)) {
        (0, 0, 0xE, 0) => Machine { frame: blank_frame(), ..m },
        (0, 0, 0xE, 0xE) => Machine { pc: m.stack.last(), stack: m.stack.drop_last(), ..m },
        (1, _, _, _) => Machine { pc: nnn, ..m },
        (2, _, _, _) => Machine { pc: nnn, stack: m.stack.push(m.pc), ..m },
        (0xB, _, _, _) => Machine { pc: (nnn + m.registers[0]) as u16, ..m },
        _ => m,
    }
}

/// What the instructions of the families `3`, `4`, `5`, `9` and `E` do: they
/// skip the next instruction on a condition. With X and Y the second and
/// third nibble and NN the low byte of the opcode:
///
/// | opcode | skips if |
/// |---|---|
/// | `3XNN` | VX == NN |
/// | `4XNN` | VX != NN |
/// | `5XY0` | VX == VY |
/// | `9XY0` | VX != VY |
/// | `EX9E` | the key with value VX is held |
/// | `EXA1` | the key with value VX is not held |
pub open spec fn execute_skip(m: Machine, op: u16) -> Machine {
    let nn = op_nn(op) as u8;
    let vx = m.registers[op_d2(op) as int];
    let vy = m.registers[op_d3(op) as int];
    match (op_d1(op), op_d3(op), op_d4(op)) {
        (3, _, _) => skip_if(m, vx == nn),
        (4, _, _) => skip_if(m, vx != nn),
        (5, _, 0) => skip_if(m, vx == vy),
        (9, _, 0) => skip_if(m, vx != vy),
        (0xE, 0x9, 0xE) => skip_if(m, m.keyboard.keys_down.contains(vx)),
        (0xE, 0xA, 0x1) => skip_if(m, !m.keyboard.keys_down.contains(vx)),
        _ => m,
    }
}

/// What the instructions of the families `6`, `7`, `A` and `C` do. With X
/// the second nibble, NN the low byte and NNN the low twelve bits of the
/// opcode:
///
/// | opcode | effect |
/// |---|---|
/// | `6XNN` | VX = NN |
/// | `7XNN` | VX = VX + NN modulo 256; VF is left alone |
/// | `ANNN` | I = NNN |
/// | `CXNN` | VX = random and NN |
pub open spec fn execute_load(m: Machine, op: u16, random: u8) -> Machine {
    let x = op_d2(op) as int;
    let nn = op_nn(op) as u8;
    let vx = m.registers[x];
    match op_d1(op) {
        6 => with_register(m, x, nn),
        7 => with_register(m, x, ((vx + nn) % 256) as u8),
        0xA => Machine { i_register: op_nnn(op), ..m },
        0xC => with_register(m, x, random & nn),
        _ => m,
    }
}

/// What the instructions of family `8` do. With X and Y the second and
/// third nibble of the opcode:
///
/// | opcode | effect |
/// |---|---|
/// | `8XY0` | VX = VY |
/// | `8XY1` | VX = VX or VY |
/// | `8XY2` | VX = VX and VY |
/// | `8XY3` | VX = VX xor VY |
/// | `8XY4` | VX = VX + VY modulo 256; VF = 1 if the sum exceeds 255, else 0 |
/// | `8XY5` | VX = VX - VY modulo 256; VF = 1 if VX >= VY, else 0 |
/// | `8XY7` | VX = VY - VX modulo 256; VF = 1 if VY >= VX, else 0 |
/// | `8XY6` | VX = VY shifted right by one; VF = the bit shifted out |
/// | `8XYE` | VX = VY shifted left by one; VF = the bit shifted out |
///
/// VF is written after VX: where X is F, the flag is what stays.
pub open spec fn execute_arithmetic(m: Machine, op: u16) -> Machine {
    let x = op_d2(op) as int;
    let vx = m.registers[x];
    let vy = m.registers[op_d3(op) as int];
    match op_d4(op) {
        0 => with_register(m, x, vy),
        1 => with_register(m, x, vx | vy),
        2 => with_register(m, x, vx & vy),
        3 => with_register(m, x, vx ^ vy),
        4 => with_register_and_flag(m, x, ((vx + vy) % 256) as u8, vx + vy > 255),
        5 => with_register_and_flag(m, x, ((vx - vy) % 256) as u8, vx >= vy),
        7 => with_register_and_flag(m, x, ((vy - vx) % 256) as u8, vy >= vx),
        6 => with_register_and_flag(m, x, vy / 2, vy % 2 == 1),
        0xE => with_register_and_flag(m, x, ((vy * 2) % 256) as u8, vy >= 128),
        _ => m,
    }
}

/// What `DXYN` does: the N bytes at I are drawn as a sprite at (VX, VY), and
/// VF is set to 1 if that turned a lit pixel off, else to 0.
pub open spec fn execute_draw(m: Machine, op: u16) -> Machine {
    let vx = m.registers[op_d2(op) as int];
    let vy = m.registers[op_d3(op) as int];
    let sprite = m.ram.subrange(m.i_register as int, m.i_register + op_d4(op));
    Machine {
        frame: drawn(m.frame, vx as int, vy as int, sprite),
        registers: m.registers.update(0xF, flag(collides(m.frame, vx as int, vy as int, sprite))),
        ..m
    }
}

/// What the instructions of family `F` do. With X the second nibble of the
/// opcode:
///
/// | opcode | effect |
/// |---|---|
/// | `FX07` | VX = delay timer |
/// | `FX15` | delay timer = VX |
/// | `FX18` | sound timer = VX |
/// | `FX1E` | I = I + VX modulo 65536; VF = 1 if the sum exceeds 0x0FFF, else 0 |
/// | `FX0A` | wait for a key; its value goes to VX |
/// | `FX29` | I = VX * 5, the address of the glyph for VX |
/// | `FX33` | store the hundreds, tens and ones digit of VX at I, I+1, I+2 |
/// | `FX55` | store V0 to VX at I and up; I is left alone |
/// | `FX65` | load V0 to VX from I and up; I is left alone |
pub open spec fn execute_misc(m: Machine, op: u16) -> Machine {
    let x = op_d2(op) as int;
    let vx = m.registers[x];
    let i = m.i_register as int;
    match (op_d3(op), op_d4(op)) {
        (0x0, 0x7) => with_register(m, x, m.delay_timer),
        (0x1, 0x5) => Machine { delay_timer: vx, ..m },
        (0x1, 0x8) => Machine { sound_timer: vx, ..m },
        (0x1, 0xE) => Machine {
            i_register: ((i + vx) % 0x1_0000) as u16,
            registers: m.registers.update(0xF, flag(i + vx > 0x0FFF)),
            ..m
        },
        (0x0, 0xA) => Machine {
            keyboard: KeyboardView { awaiting_key_press: true, ..m.keyboard },
            wait_register: x as nat,
            ..m
        },
        (0x2, 0x9) => Machine { i_register: (vx * 5) as u16, ..m },
        (0x3, 0x3) => Machine {
            ram: m.ram.update(i, vx / 100).update(i + 1, (vx / 10) % 10).update(i + 2, vx % 10),
            ..m
        },
        (0x5, 0x5) => Machine { ram: registers_stored(m.ram, m.registers, i, x), ..m },
        (0x6, 0x5) => Machine { registers: registers_loaded(m.ram, m.registers, i, x), ..m },
        _ => m,
    }
}

/// The state after `op` has been executed in state `m`, where `m` is the
/// state after the fetch: its program counter already points behind `op`.
/// `random` is the byte that the random-number instruction draws.
///
/// The first nibble of the opcode selects the family, and the family's
/// function says what each of its opcodes does. An opcode that matches no
/// pattern of its family changes nothing.
pub open spec fn execute(m: Machine, op: u16, random: u8) -> Machine {
    match op_d1(op) {
        0x0 | 0x1 | 0x2 | 0xB => execute_control(m, op),
        0x3 | 0x4 | 0x5 | 0x9 | 0xE => execute_skip(m, op),
        0x6 | 0x7 | 0xA | 0xC => execute_load(m, op, random),
        0x8 => execute_arithmetic(m, op),
        0xD => execute_draw(m, op),
        _ => execute_misc(m, op),
    }
}

/// What the host has to do once `op` has been executed in state `m`: present
/// the frame after a clear or a draw; start the tone when the sound timer is
/// set to a nonzero value, stop it when a running sound timer is set to zero.
pub open spec fn action_of(m: Machine, op: u16) -> HostAction {
    let vx = m.registers[op_d2(op) as int];
    match (op_d1(op), op_d2(op), op_d3(op), op_d4(op)) {
        (0, 0, 0xE, 0) => HostAction::Redraw,
        (0xD, _, _, _) => HostAction::Redraw,
        (0xF, _, 0x1, 0x8) => if vx > 0 {
            HostAction::StartSound
        } else if m.sound_timer > 0 {
            HostAction::StopSound
        } else {
            HostAction::Nothing
        },
        _ => HostAction::Nothing,
    }
}

/// The machine after a pending key has been delivered: the key that ended
/// the wait is in the register that the wait named, and the machine runs.
pub open spec fn resolve_key(m: Machine) -> Machine {
    if m.keyboard.recieved_key_press {
        Machine {
            registers: m.registers.update(m.wait_register as int, m.keyboard.last_key_pressed),
            keyboard: KeyboardView {
                awaiting_key_press: false,
                recieved_key_press: false,
                ..m.keyboard
            },
            ..m
        }
    } else {
        m
    }
}

/// One fetch and execute. The opcode at PC is fetched, PC moves behind it,
/// and the opcode is executed. Where the fetch would read past the end of
/// memory, or the opcode faults, the fault is reported and the state stays
/// exactly as it was, PC at the faulting instruction.
pub open spec fn run(m: Machine, random: u8) -> (Machine, Result<HostAction, Fault>) {
    if m.pc + 1 >= 4096 {
        (m, Err(Fault::OutOfBoundsMemoryAccess))
    } else {
        let op = opcode_at(m.ram, m.pc as int);
        match fault_of(m, op) {
            Some(fault) => (m, Err(fault)),
            None => (
                execute(Machine { pc: (m.pc + 2) as u16, ..m }, op, random),
                Ok(action_of(m, op)),
            ),
        }
    }
}

/// One turn of the engine. A paused machine does nothing. Otherwise a
/// pending key is delivered first; then, unless the machine is waiting for a
/// key, one instruction is fetched and executed.
pub open spec fn cycle(m: Machine, random: u8) -> (Machine, Result<HostAction, Fault>) {
    if m.paused {
        (m, Ok(HostAction::Nothing))
    } else {
        let resolved = resolve_key(m);
        if resolved.keyboard.awaiting_key_press {
            (resolved, Ok(HostAction::Nothing))
        } else {
            run(resolved, random)
        }
    }
}

/// Whether a turn of the engine in state `m` executes the random-number
/// instruction, and so draws a random byte.
pub open spec fn draws_random(m: Machine) -> bool {
    &&& !m.paused
    &&& m.keyboard.recieved_key_press || !m.keyboard.awaiting_key_press
    &&& m.pc + 1 < 4096
    &&& op_d1(opcode_at(m.ram, m.pc as int)) == 0xC
}

/// A timer after one tick: one less, and never below zero.
pub open spec fn ticked(timer: u8) -> u8 {
    if timer > 0 {
        (timer - 1) as u8
    } else {
        0
    }
}

/// The machine after one tick of the 60 Hz clock.
pub open spec fn timers_ticked(m: Machine) -> Machine {
    Machine { delay_timer: ticked(m.delay_timer), sound_timer: ticked(m.sound_timer), ..m }
}

/// What the host has to do after a tick in state `m`: stop the tone when the
/// sound timer goes from one to zero.
pub open spec fn tick_action(m: Machine) -> HostAction {
    if m.sound_timer == 1 {
        HostAction::StopSound
    } else {
        HostAction::Nothing
    }
}

/// Whether `op` matches the pattern of an instruction.
pub open spec fn is_instruction(op: u16) -> bool {
    match (op_d1(op), op_d2(op), op_d3(op), op_d4(op)) {
        (0, 0, 0xE, 0) | (0, 0, 0xE, 0xE) => true,
        (1, _, _, _) | (2, _, _, _) | (3, _, _, _) | (4, _, _, _) => true,
        (5, _, _, 0) | (9, _, _, 0) => true,
        (6, _, _, _) | (7, _, _, _) => true,
        (8, _, _, 0) | (8, _, _, 1) | (8, _, _, 2) | (8, _, _, 3) | (8, _, _, 4) => true,
        (8, _, _, 5) | (8, _, _, 6) | (8, _, _, 7) | (8, _, _, 0xE) => true,
        (0xA, _, _, _) | (0xB, _, _, _) | (0xC, _, _, _) | (0xD, _, _, _) => true,
        (0xE, _, 0x9, 0xE) | (0xE, _, 0xA, 0x1) => true,
        (0xF, _, 0x0, 0x7) | (0xF, _, 0x0, 0xA) => true,
        (0xF, _, 0x1, 0x5) | (0xF, _, 0x1, 0x8) | (0xF, _, 0x1, 0xE) => true,
        (0xF, _, 0x2, 0x9) | (0xF, _, 0x3, 0x3) => true,
        (0xF, _, 0x5, 0x5) | (0xF, _, 0x6, 0x5) => true,
        _ => false,
    }
}

/// An opcode that matches no instruction is no error: it never faults,
/// changes nothing and asks nothing of the host. A turn that fetches one
/// moves PC behind it and does no more.
pub proof fn law_unknown_opcode_is_a_no_op(m: Machine, op: u16, random: u8)
    requires
        !is_instruction(op),
    ensures
        fault_of(m, op) is None,
        execute(m, op, random) == m,
        action_of(m, op) == HostAction::Nothing,
        m.pc + 1 < 4096 && opcode_at(m.ram, m.pc as int) == op ==> run(m, random) == (
            Machine { pc: (m.pc + 2) as u16, ..m },
            Ok::<HostAction, Fault>(HostAction::Nothing),
        ),
{
    crate::chip8::lemma_field_bounds(op);
}

/// A jump `1NNN` sets PC to NNN, wherever PC was, and changes nothing else.
pub proof fn law_jump_sets_pc(m: Machine, random: u8)
    requires
        m.pc + 1 < 4096,
        op_d1(opcode_at(m.ram, m.pc as int)) == 1,
    ensures
        run(m, random) == (
            Machine { pc: op_nnn(opcode_at(m.ram, m.pc as int)), ..m },
            Ok::<HostAction, Fault>(HostAction::Nothing),
        ),
{
}

/// A turn that executes `3XNN` moves PC by four if VX equals NN, by two if
/// not, and changes nothing else.
pub proof fn law_skip_moves_pc_by_four(m: Machine, random: u8)
    requires
        m.pc + 1 < 4096,
        op_d1(opcode_at(m.ram, m.pc as int)) == 3,
    ensures
        ({
            let op = opcode_at(m.ram, m.pc as int);
            let taken = m.registers[op_d2(op) as int] == op_nn(op);
            run(m, random) == (
                Machine {
                    pc: if taken {
                        (m.pc + 4) as u16
                    } else {
                        (m.pc + 2) as u16
                    },
                    ..m
                },
                Ok::<HostAction, Fault>(HostAction::Nothing),
            )
        }),
{
    crate::chip8::lemma_field_bounds(opcode_at(m.ram, m.pc as int));
}

/// What `8XY4` and `8XY5` leave in VX and VF where X is not F: the sum or the
/// difference modulo 256, and the carry or the absence of a borrow.
pub proof fn law_add_and_subtract_set_the_flag(m: Machine, op: u16, random: u8)
    requires
        well_formed(m),
        op_d1(op) == 8,
        op_d4(op) == 4 || op_d4(op) == 5,
        op_d2(op) != 0xF,
    ensures
        ({
            let x = op_d2(op) as int;
            let vx = m.registers[x] as int;
            let vy = m.registers[op_d3(op) as int] as int;
            let after = execute(m, op, random).registers;
            &&& op_d4(op) == 4 ==> after[x] == (vx + vy) % 256 && after[0xF] == flag(vx + vy > 255)
            &&& op_d4(op) == 5 ==> after[x] == (vx - vy) % 256 && after[0xF] == flag(vx >= vy)
        }),
{
    crate::chip8::lemma_field_bounds(op);
}

/// A tick lowers a timer by at most one and never below zero.
pub proof fn law_tick_is_bounded(timer: u8)
    ensures
        0 <= ticked(timer) <= timer,
        timer - ticked(timer) <= 1,
        ticked(timer) == timer <==> timer == 0,
{
}

/// The host is told to stop the tone on exactly the tick that takes the
/// sound timer from nonzero to zero. The timer then rests at zero, so no
/// later tick repeats the signal.
pub proof fn law_stop_signal_once(m: Machine)
    ensures
        tick_action(m) == HostAction::StopSound <==> m.sound_timer > 0 && timers_ticked(
            m,
        ).sound_timer == 0,
        timers_ticked(m).sound_timer == 0 ==> tick_action(timers_ticked(m)) == HostAction::Nothing
            && timers_ticked(timers_ticked(m)).sound_timer == 0,
{
}

/// Every state that a turn of the engine leaves behind is well formed: the
/// stack never holds more than sixteen return addresses.
pub proof fn law_cycle_keeps_well_formed(m: Machine, random: u8)
    requires
        well_formed(m),
    ensures
        well_formed(cycle(m, random).0),
{
    let resolved = resolve_key(m);
    assert(well_formed(resolved));
    if !m.paused && !resolved.keyboard.awaiting_key_press && resolved.pc + 1 < 4096 {
        let op = opcode_at(resolved.ram, resolved.pc as int);
        if fault_of(resolved, op) is None {
            let fetched = Machine { pc: (resolved.pc + 2) as u16, ..resolved };
            crate::chip8::lemma_field_bounds(op);
            lemma_execute_keeps_well_formed(fetched, op, random);
        }
    }
}

/// An instruction that does not fault leaves a well-formed state well
/// formed.
pub proof fn lemma_execute_keeps_well_formed(m: Machine, op: u16, random: u8)
    requires
        well_formed(m),
        fault_of(m, op) is None,
    ensures
        well_formed(execute(m, op, random)),
{
    crate::chip8::lemma_field_bounds(op);
}

/// A turn of the engine depends on the random byte only if it executes the
/// random-number instruction.
pub proof fn law_random_byte_matters_only_when_drawn(m: Machine, r1: u8, r2: u8)
    requires
        !draws_random(m),
    ensures
        cycle(m, r1) == cycle(m, r2),
{
    let resolved = resolve_key(m);
    if !m.paused && !resolved.keyboard.awaiting_key_press && resolved.pc + 1 < 4096 {
        let op = opcode_at(resolved.ram, resolved.pc as int);
        assert(op == opcode_at(m.ram, m.pc as int));
        assert(op_d1(op) != 0xC);
    }
}

/// A fault halts the machine. A faulting turn changes nothing but to deliver
/// a pending key: PC stays at the faulting instruction. The state that it
/// leaves behind faults again on every later turn, in the same way, and does
/// not change any more.
pub proof fn law_fault_halts(m: Machine, r1: u8, r2: u8)
    requires
        cycle(m, r1).1 is Err,
    ensures
        cycle(m, r1).0 == resolve_key(m),
        cycle(m, r1).0.pc == m.pc,
        cycle(cycle(m, r1).0, r2) == cycle(m, r1),
{
    let resolved = resolve_key(m);
    assert(resolve_key(resolved) == resolved);
}

/// The wait instruction `FX0A` takes a running machine to the phase
/// `AwaitingKey`, and names VX as the register that the key goes to. Nothing
/// else changes.
pub proof fn law_wait_instruction_suspends(m: Machine, op: u16, random: u8)
    requires
        op_d1(op) == 0xF,
        op_d3(op) == 0x0,
        op_d4(op) == 0xA,
    ensures
        fault_of(m, op) is None,
        execute(m, op, random) == (Machine {
            keyboard: KeyboardView { awaiting_key_press: true, ..m.keyboard },
            wait_register: op_d2(op) as nat,
            ..m
        }),
        wait_phase(m.keyboard) == WaitPhase::Running ==> wait_phase(
            execute(m, op, random).keyboard,
        ) == WaitPhase::AwaitingKey,
{
}

/// In the phase `AwaitingKey` a turn of the engine changes nothing: PC, like
/// all the rest, stays as it is, however often the engine turns.
pub proof fn law_waiting_machine_rests(m: Machine, random: u8)
    requires
        wait_phase(m.keyboard) == WaitPhase::AwaitingKey,
    ensures
        cycle(m, random) == (m, Ok::<HostAction, Fault>(HostAction::Nothing)),
{
}

/// A key that goes down leaves the phase `AwaitingKey` as it is; the release
/// of a key of the keypad ends it with the phase `KeyResolved` and the key's
/// value on record. The turn after the release delivers the key and runs
/// exactly as a turn of a running machine whose wait register holds the
/// released key's value: the instruction behind the wait instruction is
/// fetched and executed, none is skipped and none is executed twice.
pub proof fn law_release_ends_wait(m: Machine, key: HostKey, random: u8)
    requires
        wait_phase(m.keyboard) == WaitPhase::AwaitingKey,
        !m.paused,
        key_code(key) is Some,
    ensures
        wait_phase(key_pressed(m.keyboard, key)) == WaitPhase::AwaitingKey,
        wait_phase(key_released(m.keyboard, key)) == WaitPhase::KeyResolved,
        key_released(m.keyboard, key).last_key_pressed == key_code(key)->0,
        ({
            let released = Machine { keyboard: key_released(m.keyboard, key), ..m };
            let resumed = Machine {
                registers: m.registers.update(m.wait_register as int, key_code(key)->0),
                keyboard: KeyboardView {
                    keys_down: m.keyboard.keys_down.remove(key_code(key)->0),
                    awaiting_key_press: false,
                    recieved_key_press: false,
                    last_key_pressed: key_code(key)->0,
                },
                ..m
            };
            &&& resolve_key(released) == resumed
            &&& wait_phase(resumed.keyboard) == WaitPhase::Running
            &&& cycle(released, random) == run(resumed, random)
            &&& cycle(resumed, random) == run(resumed, random)
        }),
{
    let released = Machine { keyboard: key_released(m.keyboard, key), ..m };
    let resumed = resolve_key(released);
    assert(resolve_key(resumed) == resumed);
}

/// A key of the host keyboard that is no key of the keypad changes nothing,
/// down or up.
pub proof fn law_other_keys_are_ignored(keyboard: KeyboardView, key: HostKey)
    requires
        key_code(key) is None,
    ensures
        key_pressed(keyboard, key) == keyboard,
        key_released(keyboard, key) == keyboard,
{
}

/// A return undoes a call: after `2NNN` and, wherever PC has got to since,
/// `00EE`, PC points behind the call and the stack is as it was before it.
pub proof fn law_return_undoes_call(m: Machine, call: u16, pc_at_return: u16, r1: u8, r2: u8)
    requires
        op_d1(call) == 2,
        m.stack.len() < 16,
    ensures
        fault_of(m, call) is None,
        ({
            let called = execute(m, call, r1);
            let returning = Machine { pc: pc_at_return, ..called };
            &&& called.pc == op_nnn(call)
            &&& called.stack.len() == m.stack.len() + 1
            &&& fault_of(returning, 0x00EE) is None
            &&& execute(returning, 0x00EE, r2) == m
        }),
{
    let called = execute(m, call, r1);
    let returning = Machine { pc: pc_at_return, ..called };
    assert(0x00EEu16 >> 12 == 0 && (0x00EEu16 >> 8) & 0xF == 0 && (0x00EEu16 >> 4) & 0xF == 0xE
        && 0x00EEu16 & 0xF == 0xE) by (bit_vector);
    assert(called.stack.drop_last() =~= m.stack);
    assert(execute(returning, 0x00EE, r2) =~= m);
}

} // verus!
