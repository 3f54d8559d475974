//! The machine: memory, registers, stack, timers and the fetch, decode,
//! execute cycle.
use crate::entropy;
use crate::ops;
use crate::hardware::{blank, dims, released, Keyboard, Screen};
use vstd::prelude::*;

verus! {

/// Bytes of memory.
pub const MEMORY_SIZE: usize = 4096;

/// Where programs are loaded and where execution starts.
pub const START_ADDRESS: u16 = 0x200;

/// Where the small (8x5) font glyphs are stored.
pub const FONT_BASE: u16 = 0x50;

/// Where the large (8x10) font glyphs are stored.
pub const LARGE_FONT_BASE: u16 = 0xA0;

/// Number of RPL user flag registers.
pub const RPL_SLOTS: usize = 8;

/// Largest program that fits between `START_ADDRESS` and the end of memory.
pub const MAX_ROM_SIZE: usize = 3584;

/// The sixteen small hexadecimal glyphs, five rows each.
pub open spec fn small_font() -> Seq<u8> {
    seq![
        0xF0u8, 0x90, 0x90, 0x90, 0xF0, 0x20, 0x60, 0x20, 0x20, 0x70,
        0xF0, 0x10, 0xF0, 0x80, 0xF0, 0xF0, 0x10, 0xF0, 0x10, 0xF0,
        0x90, 0x90, 0xF0, 0x10, 0x10, 0xF0, 0x80, 0xF0, 0x10, 0xF0,
        0xF0, 0x80, 0xF0, 0x90, 0xF0, 0xF0, 0x10, 0x20, 0x40, 0x40,
        0xF0, 0x90, 0xF0, 0x90, 0xF0, 0xF0, 0x90, 0xF0, 0x10, 0xF0,
        0xF0, 0x90, 0xF0, 0x90, 0x90, 0xE0, 0x90, 0xE0, 0x90, 0xE0,
        0xF0, 0x80, 0x80, 0x80, 0xF0, 0xE0, 0x90, 0x90, 0x90, 0xE0,
        0xF0, 0x80, 0xF0, 0x80, 0xF0, 0xF0, 0x80, 0xF0, 0x80, 0x80,
    ]
}

/// The ten large decimal glyphs, ten rows each.
pub open spec fn large_font() -> Seq<u8> {
    seq![
        0x3Cu8, 0x7E, 0xE7, 0xC3, 0xC3, 0xC3, 0xC3, 0xE7, 0x7E, 0x3C,
        0x18, 0x38, 0x58, 0x18, 0x18, 0x18, 0x18, 0x18, 0x18, 0x3C,
        0x3E, 0x7F, 0xC3, 0x06, 0x0C, 0x18, 0x30, 0x60, 0xFF, 0xFF,
        0x3C, 0x7E, 0xC3, 0x03, 0x0E, 0x0E, 0x03, 0xC3, 0x7E, 0x3C,
        0x06, 0x0E, 0x1E, 0x36, 0x66, 0xC6, 0xFF, 0xFF, 0x06, 0x06,
        0xFF, 0xFF, 0xC0, 0xC0, 0xFC, 0xFE, 0x03, 0xC3, 0x7E, 0x3C,
        0x3E, 0x7C, 0xC0, 0xC0, 0xFC, 0xFE, 0xC3, 0xC3, 0x7E, 0x3C,
        0xFF, 0xFF, 0x03, 0x06, 0x0C, 0x18, 0x30, 0x60, 0x60, 0x60,
        0x3C, 0x7E, 0xC3, 0xC3, 0x7E, 0x7E, 0xC3, 0xC3, 0x7E, 0x3C,
        0x3C, 0x7E, 0xC3, 0xC3, 0x7F, 0x3F, 0x03, 0x03, 0x3E, 0x7C,
    ]
}

/// Memory at power-on: zero but for the two font tables.
pub open spec fn power_on_memory() -> Seq<u8> {
    Seq::new(
        MEMORY_SIZE as nat,
        |a: int|
            if FONT_BASE <= a < FONT_BASE + 80 {
                small_font()[a - FONT_BASE]
            } else if LARGE_FONT_BASE <= a < LARGE_FONT_BASE + 100 {
                large_font()[a - LARGE_FONT_BASE]
            } else {
                0u8
            },
    )
}

/// The advisory instruction rate of a display mode.
pub open spec fn rate_of(high_res: bool) -> u16 {
    if high_res {
        700
    } else {
        480
    }
}

/// Address `a + k`, wrapped to 12 bits.
pub open spec fn addr(a: int, k: int) -> int {
    (a + k) % 4096
}

/// Everything about the machine that its instructions read or write.
pub struct MachineView {
    pub rate: u16,
    pub memory: Seq<u8>,
    pub stack: Seq<u16>,
    pub v: Seq<u8>,
    pub pc: u16,
    pub rpl: Seq<u8>,
    pub i: u16,
    pub delay: u8,
    pub sound: u8,
    pub running: bool,
    pub high_res: bool,
    pub draw_flag: bool,
    pub screen: Seq<Seq<bool>>,
    pub keys: Seq<bool>,
}

/// The machine right after `reset`.
pub open spec fn power_on() -> MachineView {
    MachineView {
        rate: 480,
        memory: power_on_memory(),
        stack: Seq::empty(),
        v: Seq::new(16, |k: int| 0u8),
        pc: START_ADDRESS,
        rpl: Seq::new(RPL_SLOTS as nat, |k: int| 0u8),
        i: 0,
        delay: 0,
        sound: 0,
        running: true,
        high_res: false,
        draw_flag: false,
        screen: blank(32, 64),
        keys: released(),
    }
}

/// Memory with `rom` placed from `START_ADDRESS` on.
pub open spec fn with_rom(memory: Seq<u8>, rom: Seq<u8>) -> Seq<u8> {
    Seq::new(
        memory.len(),
        |a: int|
            if START_ADDRESS <= a < START_ADDRESS + rom.len() {
                rom[a - START_ADDRESS]
            } else {
                memory[a]
            },
    )
}

/// A timer one tick later: one less, but never below zero.
pub open spec fn tick(t: u8) -> u8 {
    if t > 0 {
        (t - 1) as u8
    } else {
        0
    }
}

/// The word stored at `pc`, high byte first.
pub open spec fn word_at(memory: Seq<u8>, pc: int) -> u16 {
    (memory[pc] * 256 + memory[addr(pc, 1)]) as u16
}

/// The instruction at the program counter.
pub open spec fn current(m: MachineView) -> Instruction {
    Instruction::decoded(word_at(m.memory, m.pc as int))
}

/// The machine once the program counter has moved past the instruction.
pub open spec fn fetched(m: MachineView) -> MachineView {
    MachineView { pc: addr(m.pc as int, 2) as u16, ..m }
}

/// The exit code that `ir` ends the program with, if it is 001N.
pub open spec fn exit_code(ir: Instruction) -> Option<u8> {
    if ir.opcode == 0x0000 && ir.y == 0x1 {
        Some(ir.n)
    } else {
        None
    }
}

/// The machine after executing `ir`, where `byte` is the random byte that
/// CXNN would draw. Words that name no instruction change nothing.
pub open spec fn execute_spec(m: MachineView, ir: Instruction, byte: u8) -> MachineView {
    if ir.opcode == 0x0000 {
        if ir.y == 0x1 {
            m
        } else if ir.y == 0xC {
            ops::s8_scd_n_spec(m, ir)
        } else if ir.kk == 0xE0 {
            ops::cls_spec(m)
        } else if ir.kk == 0xEE {
            ops::ret_spec(m)
        } else if ir.kk == 0xFB {
            ops::s8_scr_spec(m)
        } else if ir.kk == 0xFC {
            ops::s8_scl_spec(m)
        } else if ir.kk == 0xFD {
            ops::s8_exit_spec(m)
        } else if ir.kk == 0xFE {
            ops::s8_low_spec(m)
        } else if ir.kk == 0xFF {
            ops::s8_high_spec(m)
        } else {
            ops::call_nnn_spec(m)
        }
    } else if ir.opcode == 0x1000 {
        ops::jmp_nnn_spec(m, ir)
    } else if ir.opcode == 0x2000 {
        ops::call_nnn_2_spec(m, ir)
    } else if ir.opcode == 0x3000 {
        ops::se_vx_nn_spec(m, ir)
    } else if ir.opcode == 0x4000 {
        ops::sne_vx_nn_spec(m, ir)
    } else if ir.opcode == 0x5000 {
        ops::se_vx_vy_spec(m, ir)
    } else if ir.opcode == 0x6000 {
        ops::ld_vx_nn_spec(m, ir)
    } else if ir.opcode == 0x7000 {
        ops::add_vx_nn_spec(m, ir)
    } else if ir.opcode == 0x8000 {
        if ir.n == 0x0 {
            ops::ld_vx_vy_spec(m, ir)
        } else if ir.n == 0x1 {
            ops::or_vx_vy_spec(m, ir)
        } else if ir.n == 0x2 {
            ops::and_vx_vy_spec(m, ir)
        } else if ir.n == 0x3 {
            ops::xor_vx_vy_spec(m, ir)
        } else if ir.n == 0x4 {
            ops::add_vx_vy_spec(m, ir)
        } else if ir.n == 0x5 {
            ops::sub_vx_vy_spec(m, ir)
        } else if ir.n == 0x6 {
            ops::shr_vx_vy_spec(m, ir)
        } else if ir.n == 0x7 {
            ops::subn_vy_vx_spec(m, ir)
        } else if ir.n == 0xE {
            ops::shl_vx_vy_spec(m, ir)
        } else {
            m
        }
    } else if ir.opcode == 0x9000 {
        ops::sne_vx_vy_spec(m, ir)
    } else if ir.opcode == 0xA000 {
        ops::ld_i_nnn_spec(m, ir)
    } else if ir.opcode == 0xB000 {
        ops::jp_v0_nnn_spec(m, ir)
    } else if ir.opcode == 0xC000 {
        ops::rnd_vx_nn_spec(m, ir, byte)
    } else if ir.opcode == 0xD000 {
        if m.high_res && ir.n == 0 {
            ops::s8_drw_vx_vy_0_spec(m, ir)
        } else {
            ops::drw_vx_vy_n_spec(m, ir)
        }
    } else if ir.opcode == 0xE000 {
        if ir.kk == 0x9E {
            ops::skp_vx_spec(m, ir)
        } else if ir.kk == 0xA1 {
            ops::sknp_vx_spec(m, ir)
        } else {
            m
        }
    } else if ir.opcode == 0xF000 {
        if ir.kk == 0x07 {
            ops::ld_vx_dt_spec(m, ir)
        } else if ir.kk == 0x0A {
            ops::ld_vx_key_spec(m, ir)
        } else if ir.kk == 0x15 {
            ops::ld_dt_vx_spec(m, ir)
        } else if ir.kk == 0x18 {
            ops::ld_st_vx_spec(m, ir)
        } else if ir.kk == 0x1E {
            ops::add_i_vx_spec(m, ir)
        } else if ir.kk == 0x29 {
            ops::ld_i_font_vx_spec(m, ir)
        } else if ir.kk == 0x30 {
            ops::s8_ld_i_font_vx_spec(m, ir)
        } else if ir.kk == 0x33 {
            ops::bcd_vx_spec(m, ir)
        } else if ir.kk == 0x55 {
            ops::ld_i_vx_spec(m, ir)
        } else if ir.kk == 0x65 {
            ops::ld_vx_i_spec(m, ir)
        } else if ir.kk == 0x75 {
            ops::ld_r_vx_spec(m, ir)
        } else if ir.kk == 0x85 {
            ops::ld_vx_r_spec(m, ir)
        } else {
            m
        }
    } else {
        m
    }
}

/// One cycle: fetch the instruction at the program counter, move past it,
/// execute it (with `byte` as the random byte CXNN would draw).
pub open spec fn step(m: MachineView, byte: u8) -> MachineView {
    execute_spec(fetched(m), current(m), byte)
}

/// The condition under which 3XNN, 4XNN, 5XY0 and 9XY0 skip.
pub open spec fn skips(v: Seq<u8>, ir: Instruction) -> bool {
    if ir.opcode == 0x3000 {
        v[ir.x as int] == ir.kk
    } else if ir.opcode == 0x4000 {
        v[ir.x as int] != ir.kk
    } else if ir.opcode == 0x5000 {
        v[ir.x as int] == v[ir.y as int]
    } else {
        v[ir.x as int] != v[ir.y as int]
    }
}

/// A skip instruction moves the program counter 4 past itself when its
/// condition holds and 2 when it does not, and changes nothing else.
pub proof fn lemma_skip_advance(m: MachineView, byte: u8)
    requires
        m.pc + 4 < 0x1000,
        current(m).opcode == 0x3000 || current(m).opcode == 0x4000 || current(m).opcode == 0x5000
            || current(m).opcode == 0x9000,
    ensures
        step(m, byte).pc == if skips(m.v, current(m)) {
            m.pc + 4
        } else {
            m.pc + 2
        },
        step(m, byte) == (MachineView { pc: step(m, byte).pc, ..m }),
{
}

/// The CHIP-8 machine.
pub struct Chip8 {
    /// Advisory instructions per second.
    pub rate: u16,
    pub memory: Vec<u8>,
    /// Return addresses of the subroutine calls in progress.
    pub stack: Vec<u16>,
    /// General registers V0 to VF.
    pub r_v: Vec<u8>,
    pub r_pc: u16,
    /// RPL user flags.
    pub r_rpl: Vec<u8>,
    /// Index register.
    pub r_i: u16,
    pub d_timer: u8,
    pub s_timer: u8,
    pub running: bool,
    pub high_res: bool,
    /// Set whenever the framebuffer changes; the host clears it.
    pub draw_flag: bool,
    pub screen: Screen,
    pub keyboard: Keyboard,
    /// Source of the random instruction's bytes.
    pub rng: rand::rngs::ThreadRng,
}

impl View for Chip8 {
    type V = MachineView;

    open spec fn view(&self) -> MachineView {
        MachineView {
            rate: self.rate,
            memory: self.memory@,
            stack: self.stack@,
            v: self.r_v@,
            pc: self.r_pc,
            rpl: self.r_rpl@,
            i: self.r_i,
            delay: self.d_timer,
            sound: self.s_timer,
            running: self.running,
            high_res: self.high_res,
            draw_flag: self.draw_flag,
            screen: self.screen@,
            keys: self.keyboard@,
        }
    }
}

impl Chip8 {
    /// Sizes of memory and register banks; 12-bit program counter, index and
    /// return addresses; a rate that agrees with the mode.
    pub open spec fn wf(&self) -> bool {
        &&& self.wf_storage()
        &&& self.rate == rate_of(self.high_res)
    }

    /// Sizes of memory and register banks; 12-bit program counter, index and
    /// return addresses.
    pub open spec fn wf_storage(&self) -> bool {
        &&& self.memory@.len() == MEMORY_SIZE
        &&& self.r_v@.len() == 16
        &&& self.r_rpl@.len() == RPL_SLOTS
        &&& self.r_pc < 0x1000
        &&& self.r_i < 0x1000
        &&& forall|k: int| 0 <= k < self.stack@.len() ==> #[trigger] self.stack@[k] < 0x1000
        &&& self.screen.wf()
        &&& self.keyboard.wf()
    }

    fn new() -> (r: Self)
        ensures
            r.wf(),
    {
        Chip8 {
            rate: 480,
            memory: zeroed(MEMORY_SIZE),
            stack: Vec::new(),
            r_v: zeroed(16),
            r_pc: START_ADDRESS,
            r_rpl: zeroed(RPL_SLOTS),
            r_i: 0,
            d_timer: 0,
            s_timer: 0,
            running: true,
            high_res: false,
            draw_flag: false,
            screen: Screen::new(),
            keyboard: Keyboard::new(),
            rng: entropy::thread_rng(),
        }
    }

    /// A machine in its power-on state.
    pub fn create() -> (r: Self)
        ensures
            r.wf(),
            r@ == power_on(),
    {
        let mut c8 = Chip8::new();
        c8.reset();
        c8.change_mode(false);
        c8
    }

    /// Places `rom` in memory from `START_ADDRESS` on. A program longer than
    /// `MAX_ROM_SIZE` is refused, and then nothing changes.
    pub fn load_rom(&mut self, rom: &[u8]) -> (r: Result<(), String>)
        requires
            old(self).wf(),
        ensures
            final(self).wf(),
            r.is_ok() == (rom@.len() <= MAX_ROM_SIZE),
            r.is_ok() ==> final(self)@ == (MachineView {
                memory: with_rom(old(self)@.memory, rom@),
                ..old(self)@
            }),
            r.is_ok() ==> forall|k: int|
                0 <= k < rom@.len() ==> final(self)@.memory[START_ADDRESS + k] == rom@[k],
            r.is_err() ==> final(self)@ == old(self)@,
    {
        if rom.len() > MAX_ROM_SIZE {
            return Err("ROM is too large to load into memory".to_string());
        }
        let mut k: usize = 0;
        while k < rom.len()
            invariant
                self.wf(),
                rom@.len() <= MAX_ROM_SIZE,
                k <= rom@.len(),
                self@ == (MachineView { memory: self@.memory, ..old(self)@ }),
                forall|a: int|
                    0 <= a < MEMORY_SIZE ==> #[trigger] self.memory@[a] == if START_ADDRESS <= a
                        < START_ADDRESS + k {
                        rom@[a - START_ADDRESS]
                    } else {
                        old(self).memory@[a]
                    },
            decreases rom@.len() - k,
        {
            self.memory[k + START_ADDRESS as usize] = rom[k];
            k = k + 1;
        }
        assert(self.memory@ =~= with_rom(old(self)@.memory, rom@));
        Ok(())
    }

    /// Brings every part of the machine back to its power-on state.
    pub fn reset(&mut self)
        requires
            old(self).wf(),
        ensures
            final(self).wf(),
            final(self)@ == power_on(),
    {
        let mut memory = zeroed(MEMORY_SIZE);
        let small: [u8; 80] = [
            0xF0, 0x90, 0x90, 0x90, 0xF0, 0x20, 0x60, 0x20, 0x20, 0x70,
            0xF0, 0x10, 0xF0, 0x80, 0xF0, 0xF0, 0x10, 0xF0, 0x10, 0xF0,
            0x90, 0x90, 0xF0, 0x10, 0x10, 0xF0, 0x80, 0xF0, 0x10, 0xF0,
            0xF0, 0x80, 0xF0, 0x90, 0xF0, 0xF0, 0x10, 0x20, 0x40, 0x40,
            0xF0, 0x90, 0xF0, 0x90, 0xF0, 0xF0, 0x90, 0xF0, 0x10, 0xF0,
            0xF0, 0x90, 0xF0, 0x90, 0x90, 0xE0, 0x90, 0xE0, 0x90, 0xE0,
            0xF0, 0x80, 0x80, 0x80, 0xF0, 0xE0, 0x90, 0x90, 0x90, 0xE0,
            0xF0, 0x80, 0xF0, 0x80, 0xF0, 0xF0, 0x80, 0xF0, 0x80, 0x80,
        ];
        let large: [u8; 100] = [
            0x3C, 0x7E, 0xE7, 0xC3, 0xC3, 0xC3, 0xC3, 0xE7, 0x7E, 0x3C,
            0x18, 0x38, 0x58, 0x18, 0x18, 0x18, 0x18, 0x18, 0x18, 0x3C,
            0x3E, 0x7F, 0xC3, 0x06, 0x0C, 0x18, 0x30, 0x60, 0xFF, 0xFF,
            0x3C, 0x7E, 0xC3, 0x03, 0x0E, 0x0E, 0x03, 0xC3, 0x7E, 0x3C,
            0x06, 0x0E, 0x1E, 0x36, 0x66, 0xC6, 0xFF, 0xFF, 0x06, 0x06,
            0xFF, 0xFF, 0xC0, 0xC0, 0xFC, 0xFE, 0x03, 0xC3, 0x7E, 0x3C,
            0x3E, 0x7C, 0xC0, 0xC0, 0xFC, 0xFE, 0xC3, 0xC3, 0x7E, 0x3C,
            0xFF, 0xFF, 0x03, 0x06, 0x0C, 0x18, 0x30, 0x60, 0x60, 0x60,
            0x3C, 0x7E, 0xC3, 0xC3, 0x7E, 0x7E, 0xC3, 0xC3, 0x7E, 0x3C,
            0x3C, 0x7E, 0xC3, 0xC3, 0x7F, 0x3F, 0x03, 0x03, 0x3E, 0x7C,
        ];
        assert(small@ =~= small_font());
        assert(large@ =~= large_font());
        let mut k: usize = 0;
        while k < 80
            invariant
                self.wf(),
                memory@.len() == MEMORY_SIZE,
                small@ == small_font(),
                k <= 80,
                forall|a: int|
                    0 <= a < MEMORY_SIZE ==> #[trigger] memory@[a] == if FONT_BASE <= a
                        < FONT_BASE + k {
                        small_font()[a - FONT_BASE]
                    } else {
                        0u8
                    },
            decreases 80 - k,
        {
            memory[FONT_BASE as usize + k] = small[k];
            k = k + 1;
        }
        let mut k: usize = 0;
        while k < 100
            invariant
                self.wf(),
                memory@.len() == MEMORY_SIZE,
                large@ == large_font(),
                k <= 100,
                forall|a: int|
                    0 <= a < MEMORY_SIZE ==> #[trigger] memory@[a] == if FONT_BASE <= a
                        < FONT_BASE + 80 {
                        small_font()[a - FONT_BASE]
                    } else if LARGE_FONT_BASE <= a < LARGE_FONT_BASE + k {
                        large_font()[a - LARGE_FONT_BASE]
                    } else {
                        0u8
                    },
            decreases 100 - k,
        {
            memory[LARGE_FONT_BASE as usize + k] = large[k];
            k = k + 1;
        }
        assert(memory@ =~= power_on_memory());
        self.memory = memory;
        self.stack = Vec::new();
        self.r_v = zeroed(16);
        self.r_pc = START_ADDRESS;
        self.r_rpl = zeroed(RPL_SLOTS);
        self.r_i = 0;
        self.d_timer = 0;
        self.s_timer = 0;
        self.running = true;
        self.draw_flag = false;
        self.high_res = false;
        self.change_mode(false);
        self.screen.resize(false);
        self.keyboard.reset();
        assert(self.r_v@ =~= power_on().v);
        assert(self.r_rpl@ =~= power_on().rpl);
        assert(self.stack@ =~= power_on().stack);
    }

    /// Reads the word at the program counter and moves past it.
    fn fetch(&mut self) -> (r: u16)
        requires
            old(self).wf(),
        ensures
            final(self).wf(),
            final(self)@ == fetched(old(self)@),
            r == word_at(old(self)@.memory, old(self).r_pc as int),
    {
        let pc = self.r_pc as usize;
        let high = self.memory[pc] as u16;
        let low = self.memory[(pc + 1) % MEMORY_SIZE] as u16;
        self.r_pc = (self.r_pc + 2) % 0x1000;
        high * 256 + low
    }

    /// Runs one decoded instruction; returns the exit code of 001N. Words
    /// that name no instruction are passed over.
    fn execute(&mut self, ir: &Instruction) -> (r: Option<u8>)
        requires
            old(self).wf(),
            ir.wf(),
        ensures
            final(self).wf(),
            r == exit_code(*ir),
            exists|b: u8| b < 0xFF && final(self)@ == execute_spec(old(self)@, *ir, b),
    {
        let ghost mut byte: u8 = 0;
        let ghost pre = self@;
        match ir.opcode {
            0x0000 => match ir.y {
                0x1 => {
                    let code = ops::exit_n(self, ir);
                    assert(self@ == execute_spec(pre, *ir, byte));
                    return Some(code);
                },
                0xc => ops::s8_scd_n(self, ir),
                _ => match ir.kk {
                    0xe0 => ops::cls(self),
                    0xee => ops::ret(self),
                    0xfb => ops::s8_scr(self),
                    0xfc => ops::s8_scl(self),
                    0xfd => ops::s8_exit(self),
                    0xfe => ops::s8_low(self),
                    0xff => ops::s8_high(self),
                    _ => ops::call_nnn(self),
                },
            },
            0x1000 => ops::jmp_nnn(self, ir),
            0x2000 => ops::call_nnn_2(self, ir),
            0x3000 => ops::se_vx_nn(self, ir),
            0x4000 => ops::sne_vx_nn(self, ir),
            0x5000 => ops::se_vx_vy(self, ir),
            0x6000 => ops::ld_vx_nn(self, ir),
            0x7000 => ops::add_vx_nn(self, ir),
            0x8000 => match ir.n {
                0x0 => ops::ld_vx_vy(self, ir),
                0x1 => ops::or_vx_vy(self, ir),
                0x2 => ops::and_vx_vy(self, ir),
                0x3 => ops::xor_vx_vy(self, ir),
                0x4 => ops::add_vx_vy(self, ir),
                0x5 => ops::sub_vx_vy(self, ir),
                0x6 => ops::shr_vx_vy(self, ir),
                0x7 => ops::subn_vy_vx(self, ir),
                0xe => ops::shl_vx_vy(self, ir),
                _ => {},
            },
            0x9000 => ops::sne_vx_vy(self, ir),
            0xa000 => ops::ld_i_nnn(self, ir),
            0xb000 => ops::jp_v0_nnn(self, ir),
            0xc000 => {
                ops::rnd_vx_nn(self, ir);
                proof {
                    byte = choose|b: u8| b < 0xFF && self@ == ops::rnd_vx_nn_spec(pre, *ir, b);
                }
            },
            0xd000 => {
                if self.high_res && ir.n == 0 {
                    ops::s8_drw_vx_vy_0(self, ir);
                } else {
                    ops::drw_vx_vy_n(self, ir);
                }
            },
            0xe000 => match ir.kk {
                0x9e => ops::skp_vx(self, ir),
                0xa1 => ops::sknp_vx(self, ir),
                _ => {},
            },
            0xf000 => match ir.kk {
                0x07 => ops::ld_vx_dt(self, ir),
                0x0a => ops::ld_vx_key(self, ir),
                0x15 => ops::ld_dt_vx(self, ir),
                0x18 => ops::ld_st_vx(self, ir),
                0x1e => ops::add_i_vx(self, ir),
                0x29 => ops::ld_i_font_vx(self, ir),
                0x30 => ops::s8_ld_i_font_vx(self, ir),
                0x33 => ops::bcd_vx(self, ir),
                0x55 => ops::ld_i_vx(self, ir),
                0x65 => ops::ld_vx_i(self, ir),
                0x75 => ops::ld_r_vx(self, ir),
                0x85 => ops::ld_vx_r(self, ir),
                _ => {},
            },
            _ => {},
        }
        assert(byte < 0xFF && self@ == execute_spec(pre, *ir, byte));
        None
    }

    /// Fetches, decodes and executes one instruction. Returns the exit code
    /// when the instruction was 001N, which asks the host to end the program.
    pub fn cycle(&mut self) -> (r: Option<u8>)
        requires
            old(self).wf(),
        ensures
            final(self).wf(),
            r == exit_code(current(old(self)@)),
            exists|b: u8| b < 0xFF && final(self)@ == step(old(self)@, b),
    {
        let ir_code = self.fetch();
        let ghost mid = self@;
        let ir = Instruction::new(ir_code);
        let r = self.execute(&ir);
        proof {
            let b = choose|b: u8| b < 0xFF && self@ == execute_spec(mid, ir, b);
            assert(current(old(self)@) == ir);
            assert(self@ == step(old(self)@, b));
        }
        r
    }

    /// One timer tick: both timers count down by one, stopping at zero.
    pub fn ticker(&mut self)
        requires
            old(self).wf(),
        ensures
            final(self).wf(),
            final(self)@ == (MachineView {
                delay: tick(old(self).d_timer),
                sound: tick(old(self).s_timer),
                ..old(self)@
            }),
    {
        if self.d_timer > 0 {
            self.d_timer -= 1;
        }
        if self.s_timer > 0 {
            self.s_timer -= 1;
        }
    }

    /// Sets the display mode and its advisory rate (480 normal, 700 high
    /// resolution); the framebuffer keeps its size and contents.
    pub fn change_mode(&mut self, is_high_res: bool)
        ensures
            old(self).wf_storage() ==> final(self).wf(),
            final(self)@ == (MachineView {
                high_res: is_high_res,
                rate: rate_of(is_high_res),
                ..old(self)@
            }),
    {
        self.high_res = is_high_res;
        self.rate = if is_high_res {
            700
        } else {
            480
        };
    }
}

/// One decoded instruction word.
pub struct Instruction {
    pub ir_code: u16,
    /// Top four bits, in place: the instruction class.
    pub opcode: u16,
    /// Bits 8 to 11: a register index.
    pub x: u8,
    /// Bits 4 to 7: a register index.
    pub y: u8,
    /// Low four bits.
    pub n: u8,
    /// Low byte.
    pub kk: u8,
    /// Low twelve bits: an address.
    pub nnn: u16,
}

impl Instruction {
    /// The fields of `code`.
    pub open spec fn decoded(code: u16) -> Instruction {
        Instruction {
            ir_code: code,
            opcode: (code / 0x1000 * 0x1000) as u16,
            x: (code / 0x100 % 0x10) as u8,
            y: (code / 0x10 % 0x10) as u8,
            n: (code % 0x10) as u8,
            kk: (code % 0x100) as u8,
            nnn: (code % 0x1000) as u16,
        }
    }

    /// The fields agree with the word.
    pub open spec fn wf(&self) -> bool {
        *self == Self::decoded(self.ir_code)
    }

    /// Splits a word into its fields; every word decodes.
    pub fn new(ir_code: u16) -> (r: Instruction)
        ensures
            r == Self::decoded(ir_code),
            r.wf(),
    {
        Instruction {
            ir_code,
            opcode: ir_code / 0x1000 * 0x1000,
            x: (ir_code / 0x100 % 0x10) as u8,
            y: (ir_code / 0x10 % 0x10) as u8,
            n: (ir_code % 0x10) as u8,
            kk: (ir_code % 0x100) as u8,
            nnn: ir_code % 0x1000,
        }
    }
}

impl Default for Chip8 {
    /// A machine with zeroed memory and registers, before any reset.
    fn default() -> (r: Self)
        ensures
            r.wf(),
    {
        Self::new()
    }
}

/// `n` zero bytes.
fn zeroed(n: usize) -> (r: Vec<u8>)
    ensures
        r@ == Seq::new(n as nat, |k: int| 0u8),
{
    let mut r: Vec<u8> = Vec::new();
    while r.len() < n
        invariant
            r@.len() <= n,
            forall|k: int| 0 <= k < r@.len() ==> r@[k] == 0u8,
        decreases n - r@.len(),
    {
        r.push(0);
    }
    assert(r@ =~= Seq::new(n as nat, |k: int| 0u8));
    r
}

} // verus!
