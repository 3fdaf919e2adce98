//! The machine as a whole: processor, memory and display.
pub mod display;
pub mod fault;
pub mod hex;
pub mod instructions;
pub mod keypad;
mod random;
pub mod semantics;

use vstd::prelude::*;
use crate::emulator::display::{Display, DisplayView, blank, layout};
use crate::emulator::fault::Fault;
use crate::emulator::instructions::{advance_pc, decode_spec};
use crate::emulator::keypad::{Event, is_quit_requested};
use crate::emulator::semantics::{
    fetch_spec, fetched_instruction, next_state, step_outcome, step_spec, ticked,
};

verus! {

/// Bytes of memory.
pub const MEMORY_SIZE: usize = 4096;

/// The address at which a program is loaded and started.
pub const PROGRAM_START: usize = 0x200;

/// The glyphs of the sixteen hexadecimal digits, five bytes each, as they
/// stand at the start of memory.
pub const FONT: [u8; 80] = [
    0xF0, 0x90, 0x90, 0x90, 0xF0,
    0x20, 0x60, 0x20, 0x20, 0x70,
    0xF0, 0x10, 0xF0, 0x80, 0xF0,
    0xF0, 0x10, 0xF0, 0x10, 0xF0,
    0x90, 0x90, 0xF0, 0x10, 0x10,
    0xF0, 0x80, 0xF0, 0x10, 0xF0,
    0xF0, 0x80, 0xF0, 0x90, 0xF0,
    0xF0, 0x10, 0x20, 0x40, 0x40,
    0xF0, 0x90, 0xF0, 0x90, 0xF0,
    0xF0, 0x90, 0xF0, 0x10, 0xF0,
    0xF0, 0x90, 0x90, 0x90, 0x90,
    0xE0, 0x90, 0xE0, 0x90, 0xE0,
    0xF0, 0x80, 0x80, 0x80, 0xF0,
    0xE0, 0x90, 0x90, 0x90, 0xE0,
    0xF0, 0x80, 0xF0, 0x80, 0xF0,
    0xF0, 0x80, 0xF0, 0x80, 0x80,
];

/// The two countdown timers: delay and sound.
#[allow(non_snake_case)]
#[derive(Clone, Copy, Debug, PartialEq, Eq, Structural)]
pub struct Timer {
    pub DT: u8,
    pub ST: u8,
}

/// Whether the processor runs or is parked on a wait for a key.
#[derive(Clone, Copy, Debug, PartialEq, Eq, Structural)]
pub enum CpuState {
    /// Instructions are fetched and executed.
    Running,
    /// No instruction is executed until a keypad key goes down; its value
    /// then goes to `register`.
    WaitingForKey { register: u8 },
}

/// The processor: sixteen 8-bit registers `V0` to `VF`, the address
/// register `VI`, the call stack with its pointer `SP` (0 when empty), the
/// timers and the program counter `PC`.
#[allow(non_snake_case)]
#[derive(Clone, Debug, PartialEq, Eq)]
pub struct CPU {
    pub registers: [u8; 16],
    pub VI: u16,
    pub stack: [u16; 16],
    pub timer: Timer,
    pub PC: u16,
    pub SP: u8,
    pub state: CpuState,
}

/// The processor as mathematics.
pub struct CpuView {
    pub registers: Seq<u8>,
    pub index: u16,
    pub stack: Seq<u16>,
    pub timer: Timer,
    pub pc: u16,
    pub sp: u8,
    pub state: CpuState,
}

impl View for CPU {
    type V = CpuView;

    open spec fn view(&self) -> CpuView {
        CpuView {
            registers: self.registers@,
            index: self.VI,
            stack: self.stack@,
            timer: self.timer,
            pc: self.PC,
            sp: self.SP,
            state: self.state,
        }
    }
}

/// The machine: processor, 4096 bytes of memory and the display.
/// `program_size` is the length of the program that was loaded last, and
/// `running` is cleared when the host asks the machine to stop.
#[derive(Clone, Debug, PartialEq, Eq)]
pub struct Emulator {
    pub cpu: CPU,
    pub memory: Vec<u8>,
    pub screen: Display,
    pub program_size: usize,
    pub running: bool,
}

/// The machine as mathematics.
pub struct Machine {
    pub cpu: CpuView,
    pub memory: Seq<u8>,
    pub screen: DisplayView,
    pub program_size: usize,
    pub running: bool,
}

impl View for Emulator {
    type V = Machine;

    open spec fn view(&self) -> Machine {
        Machine {
            cpu: self.cpu@,
            memory: self.memory@,
            screen: self.screen@,
            program_size: self.program_size,
            running: self.running,
        }
    }
}

/// The machine at power-on, with a display laid out for a window of
/// `width` by `height` host pixels: the glyphs at the start of memory and
/// zero after them, every register and timer zero, the stack empty, the
/// display dark, and the processor running from the program start.
pub open spec fn power_on(width: u32, height: u32) -> Machine {
    Machine {
        cpu: CpuView {
            registers: Seq::new(16, |i: int| 0u8),
            index: 0,
            stack: Seq::new(16, |i: int| 0u16),
            timer: Timer { DT: 0, ST: 0 },
            pc: 0x200,
            sp: 0,
            state: CpuState::Running,
        },
        memory: Seq::new(
            4096,
            |addr: int|
                if addr < 80 {
                    FONT@[addr]
                } else {
                    0u8
                },
        ),
        screen: DisplayView { cells: layout(width, height), pixels: blank() },
        program_size: 0,
        running: true,
    }
}

/// Memory after `program` has been loaded at the program start.
pub open spec fn loaded(memory: Seq<u8>, program: Seq<u8>) -> Seq<u8> {
    Seq::new(
        4096,
        |addr: int|
            if 0x200 <= addr < 0x200 + program.len() {
                program[addr - 0x200]
            } else {
                memory[addr]
            },
    )
}

impl Emulator {
    /// Memory has its 4096 bytes, the stack pointer is within the stack, a
    /// wait for a key names a register, and the display is well formed.
    pub open spec fn well_formed(&self) -> bool {
        &&& self.memory@.len() == 4096
        &&& self.cpu.SP <= 15
        &&& (self.cpu.state matches CpuState::WaitingForKey { register } ==> register < 16)
        &&& self.screen.well_formed()
    }

    /// The model of a well-formed machine is well formed.
    pub proof fn lemma_view_well_formed(&self)
        requires
            self.well_formed(),
        ensures
            self@.well_formed(),
    {
    }

    /// Tells whether the machine is well formed.
    pub fn is_well_formed(&self) -> (ok: bool)
        ensures
            ok == self.well_formed(),
    {
        let waits_well = match self.cpu.state {
            CpuState::WaitingForKey { register } => register < 16,
            CpuState::Running => true,
        };
        self.memory.len() == MEMORY_SIZE && self.cpu.SP <= 15 && waits_well
            && self.screen.is_well_formed()
    }

    /// The machine at power-on, with a display laid out for a window of
    /// `width` by `height` host pixels. The host's coordinates are signed
    /// 32-bit numbers, so neither may reach 2^31.
    pub fn new(width: u32, height: u32) -> (emulator: Emulator)
        requires
            width < 0x8000_0000,
            height < 0x8000_0000,
        ensures
            emulator.well_formed(),
            emulator@ == power_on(width, height),
    {
        let cpu = CPU {
            registers: [0; 16],
            VI: 0,
            stack: [0; 16],
            timer: Timer { DT: 0, ST: 0 },
            PC: PROGRAM_START as u16,
            SP: 0,
            state: CpuState::Running,
        };
        let mut memory: Vec<u8> = vec![0u8; MEMORY_SIZE];
        let mut addr: usize = 0;
        while addr < 80
            invariant
                addr <= 80,
                memory@.len() == 4096,
                forall|i: int|
                    0 <= i < 4096 ==> #[trigger] memory@[i] == if i < addr {
                        FONT@[i]
                    } else {
                        0u8
                    },
            decreases 80 - addr,
        {
            memory[addr] = FONT[addr];
            addr += 1;
        }
        let screen = Display::new(width, height);
        let emulator = Emulator { cpu, memory, screen, program_size: 0, running: true };
        assert(emulator@.memory =~= power_on(width, height).memory);
        assert(emulator@.cpu.registers =~= power_on(width, height).cpu.registers);
        assert(emulator@.cpu.stack =~= power_on(width, height).cpu.stack);
        emulator
    }

    /// Loads `program` at the program start. A program that does not fit
    /// between there and the end of memory is refused, and nothing is
    /// loaded.
    pub fn read_rom(&mut self, program: &mut Vec<u8>) -> (result: Result<(), Fault>)
        requires
            old(self).well_formed(),
        ensures
            final(self).well_formed(),
            *final(program) == *old(program),
            old(program)@.len() <= 4096 - 0x200 ==> result.is_ok() && final(self)@ == (Machine {
                memory: loaded(old(self)@.memory, old(program)@),
                program_size: old(program)@.len() as usize,
                ..old(self)@
            }),
            old(program)@.len() > 4096 - 0x200 ==> result == Err::<(), Fault>(
                Fault::AddressOutOfRange,
            ) && *final(self) == *old(self),
    {
        let size: usize = program.len();
        if size > MEMORY_SIZE - PROGRAM_START {
            return Err(Fault::AddressOutOfRange);
        }
        self.program_size = size;
        let mut idx: usize = 0;
        while idx < size
            invariant
                idx <= size <= 4096 - 0x200,
                size == program@.len(),
                *program == *old(program),
                self.well_formed(),
                self.cpu == old(self).cpu,
                self.screen == old(self).screen,
                self.running == old(self).running,
                self.program_size == size,
                forall|addr: int|
                    0 <= addr < 4096 ==> #[trigger] self.memory@[addr] == if 0x200 <= addr < 0x200
                        + idx {
                        program@[addr - 0x200]
                    } else {
                        old(self).memory@[addr]
                    },
            decreases size - idx,
        {
            self.memory[PROGRAM_START + idx] = program[idx];
            idx += 1;
        }
        assert(self@.memory =~= loaded(old(self)@.memory, old(program)@));
        Ok(())
    }

    /// The byte at `addr`, or a fault if `addr` is outside memory.
    pub fn read(&self, addr: usize) -> (result: Result<u8, Fault>)
        requires
            self.well_formed(),
        ensures
            result == if addr < 4096 {
                Ok::<u8, Fault>(self@.memory[addr as int])
            } else {
                Err::<u8, Fault>(Fault::AddressOutOfRange)
            },
    {
        if addr < self.memory.len() {
            Ok(self.memory[addr])
        } else {
            Err(Fault::AddressOutOfRange)
        }
    }

    /// Stores `value` at `addr`. Outside memory nothing is stored and a
    /// fault is returned.
    pub fn write(&mut self, addr: usize, value: u8) -> (result: Result<(), Fault>)
        requires
            old(self).well_formed(),
        ensures
            final(self).well_formed(),
            addr < 4096 ==> result.is_ok() && final(self)@ == (Machine {
                memory: old(self)@.memory.update(addr as int, value),
                ..old(self)@
            }),
            addr >= 4096 ==> result == Err::<(), Fault>(Fault::AddressOutOfRange) && *final(self)
                == *old(self),
    {
        if addr < self.memory.len() {
            self.memory[addr] = value;
            Ok(())
        } else {
            Err(Fault::AddressOutOfRange)
        }
    }

    /// The 16-bit word whose high byte is `b1` and whose low byte is `b2`.
    pub fn convert_to_opcode(&self, b1: u8, b2: u8) -> (opcode: u16)
        ensures
            opcode == b1 * 256 + b2,
    {
        let opcode: u16 = (b1 as u16) << 8 | b2 as u16;
        assert(((b1 as u16) << 8 | b2 as u16) == (b1 as u16) * 256 + (b2 as u16)) by (bit_vector);
        opcode
    }

    /// The instruction word at the program counter, or a fault where its
    /// two bytes do not both lie within memory.
    pub fn fetch(&self) -> (result: Result<u16, Fault>)
        requires
            self.well_formed(),
        ensures
            result == fetch_spec(self@),
    {
        let pc: usize = self.cpu.PC as usize;
        if pc + 1 < self.memory.len() {
            Ok(self.convert_to_opcode(self.memory[pc], self.memory[pc + 1]))
        } else {
            Err(Fault::AddressOutOfRange)
        }
    }

    /// One step of the machine with this tick's input events: looks at the
    /// events, and then either takes the key that the processor waits for,
    /// or fetches, decodes and executes one instruction. Faults are
    /// returned, and the machine goes on with the next instruction. The
    /// instruction `CXNN` draws a random byte; the state after the step is
    /// that of [`step_spec`] for some byte.
    pub fn step(&mut self, events: Vec<Event>) -> (result: Result<(), Fault>)
        requires
            old(self).well_formed(),
        ensures
            final(self).well_formed(),
            exists|random: u8| final(self)@ == #[trigger] step_spec(old(self)@, events@, random),
            !(fetched_instruction(old(self)@) matches Some(instruction) && instruction is Rnd)
                ==> final(self)@ == step_spec(old(self)@, events@, 0),
            result == step_outcome(old(self)@, events@),
    {
        if is_quit_requested(&events) {
            self.running = false;
        }
        match self.cpu.state {
            CpuState::WaitingForKey { register } => {
                self.take_key(register, &events);
                Ok(())
            },
            CpuState::Running => {
                let fetched = self.fetch();
                self.cpu.PC = advance_pc(self.cpu.PC);
                match fetched {
                    Err(fault) => Err(fault),
                    Ok(opcode) => {
                        let ghost before = self@;
                        let result = self.execute(opcode, events);
                        proof {
                            if decode_spec(opcode) is Some {
                                let instruction = decode_spec(opcode)->Some_0;
                                let random = choose|random: u8|
                                    self@ == #[trigger] next_state(
                                        before,
                                        instruction,
                                        events@,
                                        random,
                                    );
                                assert(self@ == step_spec(old(self)@, events@, random));
                            }
                        }
                        result
                    },
                }
            },
        }
    }

    /// One tick of the timers: each goes down by one, and a timer at zero
    /// stays there.
    pub fn tick(&mut self)
        requires
            old(self).well_formed(),
        ensures
            final(self).well_formed(),
            final(self)@ == ticked(old(self)@),
    {
        if self.cpu.timer.DT > 0 {
            self.cpu.timer.DT = self.cpu.timer.DT - 1;
        }
        if self.cpu.timer.ST > 0 {
            self.cpu.timer.ST = self.cpu.timer.ST - 1;
        }
    }
}

} // verus!
