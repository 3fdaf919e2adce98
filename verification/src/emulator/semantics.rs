//! What each instruction does, as functions on the mathematical machine.
use vstd::prelude::*;
use crate::emulator::{CpuState, CpuView, Machine, Timer};
use crate::emulator::display::{DisplayView, blank, blit, collides};
use crate::emulator::fault::Fault;
use crate::emulator::instructions::{Instruction, decode_spec, lemma_encoding_inverts_decode};
use crate::emulator::keypad::{Event, first_press, key_is_down, mapped_key, quit_requested};

verus! {

/// The program counter one instruction further on. It wraps one byte short
/// of the end of memory, so that a two-byte fetch at the new value lies
/// within memory.
pub open spec fn advance(pc: u16) -> u16 {
    ((pc + 2) % 4095) as u16
}

/// The program counter after a skip: two further on, wrapping only where
/// its sixteen bits end.
pub open spec fn skipped(pc: u16) -> u16 {
    ((pc + 2) % 0x1_0000) as u16
}

/// `a + b` in eight bits.
pub open spec fn wrapping_sum(a: u8, b: u8) -> u8 {
    ((a + b) % 256) as u8
}

/// `a - b` in eight bits.
pub open spec fn wrapping_difference(a: u8, b: u8) -> u8 {
    ((a - b) % 256) as u8
}

/// 1 if `condition` holds and 0 if not: the value of a flag.
pub open spec fn flag(condition: bool) -> u8 {
    if condition {
        1
    } else {
        0
    }
}

/// The sprite that a draw of `rows` rows reads: the bytes of memory from
/// the address register on.
pub open spec fn sprite_at(m: Machine, rows: u8) -> Seq<u8> {
    m.memory.subrange(m.cpu.index as int, m.cpu.index + rows)
}

impl Machine {
    /// The state is one that the machine can be in: sixteen registers,
    /// sixteen stack slots, a stack pointer within the stack, 4096 bytes of
    /// memory and a display of 32 rows of 64 pixels.
    pub open spec fn well_formed(self) -> bool {
        &&& self.cpu.registers.len() == 16
        &&& self.cpu.stack.len() == 16
        &&& self.cpu.sp <= 15
        &&& (self.cpu.state matches CpuState::WaitingForKey { register } ==> register < 16)
        &&& self.memory.len() == 4096
        &&& self.screen.pixels.len() == 32
        &&& forall|row: int| 0 <= row < 32 ==> (#[trigger] self.screen.pixels[row]).len() == 64
    }

    /// The value of register `x`.
    pub open spec fn reg(self, x: u8) -> u8 {
        self.cpu.registers[x as int]
    }

    /// The state with `value` in register `x`.
    pub open spec fn set_reg(self, x: u8, value: u8) -> Machine {
        Machine {
            cpu: CpuView { registers: self.cpu.registers.update(x as int, value), ..self.cpu },
            ..self
        }
    }

    /// The state with `value` in register `x` and then `flag` in `VF`:
    /// where `x` is `VF` itself, the flag is what stays.
    pub open spec fn set_reg_and_flag(self, x: u8, value: u8, flag: u8) -> Machine {
        self.set_reg(x, value).set_reg(15, flag)
    }

    /// The state with the program counter at `pc`.
    pub open spec fn set_pc(self, pc: u16) -> Machine {
        Machine { cpu: CpuView { pc, ..self.cpu }, ..self }
    }

    /// The state with the address register at `index`.
    pub open spec fn set_index(self, index: u16) -> Machine {
        Machine { cpu: CpuView { index, ..self.cpu }, ..self }
    }

    /// The state with the next instruction skipped if `condition` holds.
    pub open spec fn skip_if(self, condition: bool) -> Machine {
        if condition {
            self.set_pc(skipped(self.cpu.pc))
        } else {
            self
        }
    }

    /// The state after a key press, if there is one among `events`, has
    /// gone to register `x`; with none, the processor waits for one.
    pub open spec fn take_key(self, x: u8, events: Seq<Event>) -> Machine {
        match first_press(events) {
            Some(key) => Machine {
                cpu: CpuView { state: CpuState::Running, ..self.set_reg(x, key).cpu },
                ..self
            },
            None => Machine {
                cpu: CpuView { state: CpuState::WaitingForKey { register: x }, ..self.cpu },
                ..self
            },
        }
    }
}

/// The fault, if any, that keeps `instruction` from being executed in
/// state `m`: a return with the stack empty, a call with the stack full,
/// or an access that would leave memory.
pub open spec fn fault_of(m: Machine, instruction: Instruction) -> Option<Fault> {
    match instruction {
        Instruction::Ret => if m.cpu.sp == 0 {
            Some(Fault::StackUnderflow)
        } else {
            None
        },
        Instruction::Call { addr } => if m.cpu.sp >= 15 {
            Some(Fault::StackOverflow)
        } else {
            None
        },
        Instruction::Drw { x, y, n } => if m.cpu.index + n > 4096 {
            Some(Fault::AddressOutOfRange)
        } else {
            None
        },
        Instruction::LdB { x } => if m.cpu.index + 3 > 4096 {
            Some(Fault::AddressOutOfRange)
        } else {
            None
        },
        Instruction::StoreRegs { x } => if m.cpu.index + x + 1 > 4096 {
            Some(Fault::AddressOutOfRange)
        } else {
            None
        },
        Instruction::LoadRegs { x } => if m.cpu.index + x + 1 > 4096 {
            Some(Fault::AddressOutOfRange)
        } else {
            None
        },
        _ => None,
    }
}

/// What executing `instruction` in state `m` reports: its fault, if it has
/// one.
pub open spec fn outcome(m: Machine, instruction: Instruction) -> Result<(), Fault> {
    match fault_of(m, instruction) {
        Some(fault) => Err(fault),
        None => Ok(()),
    }
}

/// The state after `instruction` has been executed in state `m`, with the
/// program counter already past the instruction. `events` are the input
/// events of this tick and `random` is the byte that a random draw gives.
/// An instruction that faults changes nothing.
pub open spec fn next_state(
    m: Machine,
    instruction: Instruction,
    events: Seq<Event>,
    random: u8,
) -> Machine {
    if fault_of(m, instruction) is Some {
        m
    } else {
        match instruction {
            Instruction::Sys { addr } => m,
            Instruction::Cls => Machine {
                screen: DisplayView { pixels: blank(), ..m.screen },
                ..m
            },
            Instruction::Ret => Machine {
                cpu: CpuView {
                    pc: m.cpu.stack[m.cpu.sp as int],
                    sp: (m.cpu.sp - 1) as u8,
                    ..m.cpu
                },
                ..m
            },
            Instruction::Jp { addr } => m.set_pc(addr),
            Instruction::Call { addr } => Machine {
                cpu: CpuView {
                    pc: addr,
                    sp: (m.cpu.sp + 1) as u8,
                    stack: m.cpu.stack.update(m.cpu.sp + 1, m.cpu.pc),
                    ..m.cpu
                },
                ..m
            },
            Instruction::SeByte { x, byte } => m.skip_if(m.reg(x) == byte),
            Instruction::SneByte { x, byte } => m.skip_if(m.reg(x) != byte),
            Instruction::SeReg { x, y } => m.skip_if(m.reg(x) == m.reg(y)),
            Instruction::LdByte { x, byte } => m.set_reg(x, byte),
            Instruction::AddByte { x, byte } => m.set_reg(x, wrapping_sum(m.reg(x), byte)),
            Instruction::LdReg { x, y } => m.set_reg(x, m.reg(y)),
            Instruction::Or { x, y } => m.set_reg(x, m.reg(x) | m.reg(y)),
            Instruction::And { x, y } => m.set_reg(x, m.reg(x) & m.reg(y)),
            Instruction::Xor { x, y } => m.set_reg(x, m.reg(x) ^ m.reg(y)),
            Instruction::AddReg { x, y } => m.set_reg_and_flag(
                x,
                wrapping_sum(m.reg(x), m.reg(y)),
                flag(m.reg(x) + m.reg(y) > 255),
            ),
            Instruction::Sub { x, y } => m.set_reg_and_flag(
                x,
                wrapping_difference(m.reg(x), m.reg(y)),
                flag(m.reg(x) > m.reg(y)),
            ),
            Instruction::Shr { x, y } => m.set_reg_and_flag(
                x,
                m.reg(x) / 2,
                flag(m.reg(x) % 2 == 1),
            ),
            Instruction::Subn { x, y } => m.set_reg_and_flag(
                x,
                wrapping_difference(m.reg(y), m.reg(x)),
                flag(m.reg(y) > m.reg(x)),
            ),
            Instruction::Shl { x, y } => m.set_reg_and_flag(
                x,
                wrapping_sum(m.reg(x), m.reg(x)),
                flag(m.reg(x) >= 128),
            ),
            Instruction::SneReg { x, y } => m.skip_if(m.reg(x) != m.reg(y)),
            Instruction::LdI { addr } => m.set_index(addr),
            Instruction::JpV0 { addr } => m.set_pc(((addr + m.reg(0)) % 0x1_0000) as u16),
            Instruction::Rnd { x, byte } => m.set_reg(x, random & byte),
            Instruction::Drw { x, y, n } => {
                let sprite = sprite_at(m, n);
                let column = m.reg(x) as int;
                let row = m.reg(y) as int;
                Machine {
                    screen: DisplayView {
                        pixels: blit(m.screen.pixels, sprite, column, row),
                        ..m.screen
                    },
                    ..m
                }.set_reg(15, flag(collides(m.screen.pixels, sprite, column, row)))
            },
            Instruction::Skp { x } => m.skip_if(key_is_down(events, mapped_key(m.reg(x)))),
            Instruction::Sknp { x } => m.skip_if(!key_is_down(events, mapped_key(m.reg(x)))),
            Instruction::LdVxDt { x } => m.set_reg(x, m.cpu.timer.DT),
            Instruction::LdKey { x } => m.take_key(x, events),
            Instruction::LdDtVx { x } => Machine {
                cpu: CpuView { timer: Timer { DT: m.reg(x), ..m.cpu.timer }, ..m.cpu },
                ..m
            },
            Instruction::LdStVx { x } => Machine {
                cpu: CpuView { timer: Timer { ST: m.reg(x), ..m.cpu.timer }, ..m.cpu },
                ..m
            },
            Instruction::AddI { x } => m.set_index(((m.cpu.index + m.reg(x)) % 0x1_0000) as u16),
            Instruction::LdF { x } => m.set_index((m.reg(x) * 5) as u16),
            Instruction::LdB { x } => {
                let value = m.reg(x);
                let at = m.cpu.index as int;
                Machine {
                    memory: m.memory.update(at, value / 100).update(
                        at + 1,
                        (value / 10) % 10,
                    ).update(at + 2, value % 10),
                    ..m
                }
            },
            Instruction::StoreRegs { x } => Machine {
                memory: Seq::new(
                    4096,
                    |addr: int|
                        if m.cpu.index <= addr <= m.cpu.index + x {
                            m.cpu.registers[addr - m.cpu.index]
                        } else {
                            m.memory[addr]
                        },
                ),
                ..m
            },
            Instruction::LoadRegs { x } => Machine {
                cpu: CpuView {
                    registers: Seq::new(
                        16,
                        |i: int|
                            if i <= x {
                                m.memory[m.cpu.index + i]
                            } else {
                                m.cpu.registers[i]
                            },
                    ),
                    ..m.cpu
                },
                ..m
            },
        }
    }
}

/// The instruction word at the program counter, high byte first, or a
/// fault where its two bytes do not both lie within memory.
pub open spec fn fetch_spec(m: Machine) -> Result<u16, Fault> {
    if m.cpu.pc + 1 < 4096 {
        Ok((m.memory[m.cpu.pc as int] * 256 + m.memory[m.cpu.pc + 1]) as u16)
    } else {
        Err(Fault::AddressOutOfRange)
    }
}

/// The state after the host's events have been looked at: a request to
/// stop clears `running`.
pub open spec fn after_events(m: Machine, events: Seq<Event>) -> Machine {
    Machine { running: m.running && !quit_requested(events), ..m }
}

/// The state with the program counter one instruction further on.
pub open spec fn advanced(m: Machine) -> Machine {
    m.set_pc(advance(m.cpu.pc))
}

/// The state after one step with the input events `events`, where `random`
/// is the byte that a random draw gives. A processor that waits for a key
/// takes the first key press and runs again, or goes on waiting. A running
/// processor fetches the word at the program counter, moves the counter
/// past it, and executes the word; a word that cannot be fetched or that is
/// no instruction changes nothing more.
pub open spec fn step_spec(m: Machine, events: Seq<Event>, random: u8) -> Machine {
    let m = after_events(m, events);
    match m.cpu.state {
        CpuState::WaitingForKey { register } => m.take_key(register, events),
        CpuState::Running => match fetch_spec(m) {
            Err(fault) => advanced(m),
            Ok(opcode) => match decode_spec(opcode) {
                None => advanced(m),
                Some(instruction) => next_state(advanced(m), instruction, events, random),
            },
        },
    }
}

/// What one step reports: nothing while the processor waits for a key, and
/// else the fault of the fetch, the word that is no instruction, or the
/// fault of the instruction.
pub open spec fn step_outcome(m: Machine, events: Seq<Event>) -> Result<(), Fault> {
    match m.cpu.state {
        CpuState::WaitingForKey { register } => Ok(()),
        CpuState::Running => match fetch_spec(m) {
            Err(fault) => Err(fault),
            Ok(opcode) => match decode_spec(opcode) {
                None => Err(Fault::UnknownOpcode(opcode)),
                Some(instruction) => outcome(advanced(after_events(m, events)), instruction),
            },
        },
    }
}

/// A timer one tick later: one less, and zero stays zero.
pub open spec fn counted_down(timer: u8) -> u8 {
    if timer > 0 {
        (timer - 1) as u8
    } else {
        0
    }
}

/// The state one timer tick later.
pub open spec fn ticked(m: Machine) -> Machine {
    Machine {
        cpu: CpuView {
            timer: Timer { DT: counted_down(m.cpu.timer.DT), ST: counted_down(m.cpu.timer.ST) },
            ..m.cpu
        },
        ..m
    }
}

/// The instruction that a step in state `m` executes, if it executes one:
/// the processor runs, and the word at the program counter can be fetched
/// and is an instruction.
pub open spec fn fetched_instruction(m: Machine) -> Option<Instruction> {
    match m.cpu.state {
        CpuState::WaitingForKey { register } => None,
        CpuState::Running => match fetch_spec(m) {
            Err(fault) => None,
            Ok(word) => decode_spec(word),
        },
    }
}

/// The state after `ticks` timer ticks.
pub open spec fn ticked_times(m: Machine, ticks: nat) -> Machine
    decreases ticks,
{
    if ticks == 0 {
        m
    } else {
        ticked(ticked_times(m, (ticks - 1) as nat))
    }
}

/// Addition wraps modulo 256, so that its result is a byte whatever the
/// operands. `7XNN` leaves every other register as it was, the flag
/// register too; `8XY4` leaves the carry in `VF`, and the sum in `Vx`
/// unless `Vx` is `VF`.
pub proof fn lemma_add_wraps(m: Machine, x: u8, y: u8, byte: u8, events: Seq<Event>, random: u8)
    requires
        m.well_formed(),
        x < 16,
        y < 16,
    ensures
        ({
            let added = next_state(m, Instruction::AddByte { x, byte }, events, random);
            let summed = next_state(m, Instruction::AddReg { x, y }, events, random);
            &&& added.reg(x) == (m.reg(x) + byte) % 256
            &&& 0 <= added.reg(x) <= 255
            &&& forall|other: u8| other < 16 && other != x ==> added.reg(other) == m.reg(other)
            &&& x != 15 ==> summed.reg(x) == (m.reg(x) + m.reg(y)) % 256
            &&& 0 <= summed.reg(x) <= 255
            &&& summed.reg(15) == 1 <==> m.reg(x) + m.reg(y) > 255
            &&& summed.reg(15) == 0 <==> m.reg(x) + m.reg(y) <= 255
        }),
{
}

/// The flag of a subtraction or a shift is 0 or 1 and is computed from the
/// registers as they were before the instruction, also where `Vx` is `VF`
/// itself: the flag is what `VF` holds afterwards.
pub proof fn lemma_flag_is_a_bit(m: Machine, x: u8, y: u8, events: Seq<Event>, random: u8)
    requires
        m.well_formed(),
        x < 16,
        y < 16,
    ensures
        ({
            let sub = next_state(m, Instruction::Sub { x, y }, events, random);
            let subn = next_state(m, Instruction::Subn { x, y }, events, random);
            let shr = next_state(m, Instruction::Shr { x, y }, events, random);
            let shl = next_state(m, Instruction::Shl { x, y }, events, random);
            &&& sub.reg(15) == 0 || sub.reg(15) == 1
            &&& subn.reg(15) == 0 || subn.reg(15) == 1
            &&& shr.reg(15) == 0 || shr.reg(15) == 1
            &&& shl.reg(15) == 0 || shl.reg(15) == 1
            &&& sub.reg(15) == 1 <==> m.reg(x) > m.reg(y)
            &&& subn.reg(15) == 1 <==> m.reg(y) > m.reg(x)
            &&& shr.reg(15) == m.reg(x) % 2
            &&& shl.reg(15) == m.reg(x) / 128
            &&& x != 15 ==> {
                &&& sub.reg(x) == (m.reg(x) - m.reg(y)) % 256
                &&& subn.reg(x) == (m.reg(y) - m.reg(x)) % 256
                &&& shr.reg(x) == m.reg(x) / 2
                &&& shl.reg(x) == (m.reg(x) * 2) % 256
            }
        }),
{
}

/// A return that follows a call goes back to where the call was made:
/// the program counter and the stack pointer are as they were before the
/// call.
pub proof fn lemma_call_then_return(m: Machine, addr: u16, events: Seq<Event>, random: u8)
    requires
        m.well_formed(),
        m.cpu.sp < 15,
    ensures
        ({
            let called = next_state(m, Instruction::Call { addr }, events, random);
            let returned = next_state(called, Instruction::Ret, events, random);
            &&& called.cpu.pc == addr
            &&& fault_of(called, Instruction::Ret) is None
            &&& returned.cpu.pc == m.cpu.pc
            &&& returned.cpu.sp == m.cpu.sp
        }),
{
}

/// Two steps, of which the first executes a call and the second, at the
/// address called, a return, leave the program counter at the instruction
/// that follows the call.
pub proof fn lemma_return_follows_call(
    m: Machine,
    addr: u16,
    first_events: Seq<Event>,
    second_events: Seq<Event>,
    first_random: u8,
    second_random: u8,
)
    requires
        m.well_formed(),
        m.cpu.state is Running,
        m.cpu.sp < 15,
        fetch_spec(m) matches Ok(word) && decode_spec(word) == Some(Instruction::Call { addr }),
        fetch_spec(m.set_pc(addr)) matches Ok(word) && decode_spec(word) == Some(Instruction::Ret),
    ensures
        step_spec(
            step_spec(m, first_events, first_random),
            second_events,
            second_random,
        ).cpu.pc == advance(m.cpu.pc),
{
    let before_call = advanced(after_events(m, first_events));
    let called = next_state(before_call, Instruction::Call { addr }, first_events, first_random);
    assert(step_spec(m, first_events, first_random) == called);
    assert(called.cpu.pc == addr && called.memory == m.memory);
}

/// A tick takes one from each timer that is not zero, and no timer goes
/// below zero.
pub proof fn lemma_tick_counts_down(m: Machine)
    ensures
        ticked(m).cpu.timer.DT == (if m.cpu.timer.DT > 0 {
            m.cpu.timer.DT - 1
        } else {
            0
        }),
        ticked(m).cpu.timer.ST == (if m.cpu.timer.ST > 0 {
            m.cpu.timer.ST - 1
        } else {
            0
        }),
        0 <= ticked(m).cpu.timer.DT <= m.cpu.timer.DT,
        0 <= ticked(m).cpu.timer.ST <= m.cpu.timer.ST,
{
}

/// After `ticks` ticks each timer has gone down by `ticks`, or to zero
/// where it held less.
pub proof fn lemma_ticks_count_down(m: Machine, ticks: nat)
    ensures
        ticked_times(m, ticks).cpu.timer.DT == (if m.cpu.timer.DT >= ticks {
            m.cpu.timer.DT - ticks
        } else {
            0
        }),
        ticked_times(m, ticks).cpu.timer.ST == (if m.cpu.timer.ST >= ticks {
            m.cpu.timer.ST - ticks
        } else {
            0
        }),
    decreases ticks,
{
    if ticks > 0 {
        lemma_ticks_count_down(m, (ticks - 1) as nat);
    }
}

/// No instruction counts a timer down: an instruction leaves each timer
/// as it was, but for the load of that timer.
pub proof fn lemma_instructions_keep_timers(
    m: Machine,
    instruction: Instruction,
    events: Seq<Event>,
    random: u8,
)
    ensures
        instruction !is LdDtVx ==> next_state(m, instruction, events, random).cpu.timer.DT
            == m.cpu.timer.DT,
        instruction !is LdStVx ==> next_state(m, instruction, events, random).cpu.timer.ST
            == m.cpu.timer.ST,
{
}

/// No step counts a timer down, however many steps are made between two
/// ticks: a step leaves each timer as it was, but where it executes the
/// load of that timer.
pub proof fn lemma_steps_keep_timers(m: Machine, events: Seq<Event>, random: u8)
    ensures
        !(fetched_instruction(m) matches Some(instruction) && instruction is LdDtVx) ==> step_spec(
            m,
            events,
            random,
        ).cpu.timer.DT == m.cpu.timer.DT,
        !(fetched_instruction(m) matches Some(instruction) && instruction is LdStVx) ==> step_spec(
            m,
            events,
            random,
        ).cpu.timer.ST == m.cpu.timer.ST,
{
    let seen = after_events(m, events);
    if seen.cpu.state is Running && fetch_spec(seen) is Ok {
        let word = fetch_spec(seen)->Ok_0;
        if decode_spec(word) is Some {
            lemma_instructions_keep_timers(
                advanced(seen),
                decode_spec(word)->Some_0,
                events,
                random,
            );
        }
    }
}

/// Whether `instruction` may set the program counter itself: a jump, a
/// call, a return or a conditional skip.
pub open spec fn sets_pc(instruction: Instruction) -> bool {
    ||| instruction is Jp
    ||| instruction is JpV0
    ||| instruction is Call
    ||| instruction is Ret
    ||| instruction is SeByte
    ||| instruction is SneByte
    ||| instruction is SeReg
    ||| instruction is SneReg
    ||| instruction is Skp
    ||| instruction is Sknp
}

/// An instruction that is no jump, call, return or skip leaves the
/// program counter alone, and so does every instruction that faults.
pub proof fn lemma_instructions_keep_pc(
    m: Machine,
    instruction: Instruction,
    events: Seq<Event>,
    random: u8,
)
    ensures
        !sets_pc(instruction) || fault_of(m, instruction) is Some ==> next_state(
            m,
            instruction,
            events,
            random,
        ).cpu.pc == m.cpu.pc,
{
}

/// A step of a running processor moves the program counter on by one
/// instruction, wrapping short of the end of memory, unless it executes a
/// jump, a call, a return or a skip without a fault. That holds also
/// where the word cannot be fetched or is no instruction.
pub proof fn lemma_step_advances(m: Machine, events: Seq<Event>, random: u8)
    requires
        m.cpu.state is Running,
    ensures
        !(fetched_instruction(m) matches Some(instruction) && sets_pc(instruction) && fault_of(
            advanced(m),
            instruction,
        ) is None) ==> step_spec(m, events, random).cpu.pc == advance(m.cpu.pc),
        advance(m.cpu.pc) + 1 < 4096,
{
    let seen = after_events(m, events);
    if fetched_instruction(m) is Some {
        let instruction = fetched_instruction(m)->Some_0;
        lemma_instructions_keep_pc(advanced(seen), instruction, events, random);
    }
}

/// A step that meets a word that is no instruction reports it and does
/// nothing but move the program counter on and look at the events.
pub proof fn lemma_unknown_opcode_only_advances(m: Machine, events: Seq<Event>, random: u8)
    requires
        m.cpu.state is Running,
        fetch_spec(m) matches Ok(word) && decode_spec(word) is None,
    ensures
        step_spec(m, events, random) == advanced(after_events(m, events)),
        step_outcome(m, events) == Err::<(), Fault>(Fault::UnknownOpcode(fetch_spec(m)->Ok_0)),
        step_spec(m, events, random).cpu.registers == m.cpu.registers,
        step_spec(m, events, random).memory == m.memory,
        step_spec(m, events, random).screen == m.screen,
{
}

/// Executing a well-formed instruction leaves a well-formed machine well
/// formed: in particular the stack pointer never exceeds 15.
pub proof fn lemma_instructions_keep_well_formed(
    m: Machine,
    instruction: Instruction,
    events: Seq<Event>,
    random: u8,
)
    requires
        m.well_formed(),
        instruction.well_formed(),
    ensures
        next_state(m, instruction, events, random).well_formed(),
{
    let after = next_state(m, instruction, events, random);
    assert forall|row: int| 0 <= row < 32 implies (#[trigger] after.screen.pixels[row]).len()
        == 64 by {}
}

/// A step leaves a well-formed machine well formed.
pub proof fn lemma_steps_keep_well_formed(m: Machine, events: Seq<Event>, random: u8)
    requires
        m.well_formed(),
    ensures
        step_spec(m, events, random).well_formed(),
{
    let seen = after_events(m, events);
    if fetched_instruction(seen) is Some {
        let instruction = fetched_instruction(seen)->Some_0;
        lemma_encoding_inverts_decode(fetch_spec(seen)->Ok_0);
        lemma_instructions_keep_well_formed(advanced(seen), instruction, events, random);
    }
}

} // verus!
