//! What a host drives: one machine and the queries and events it exchanges
//! with the outside world.
use crate::hardware::Keyboard;
use crate::vm::{power_on, step, with_rom, Chip8, MachineView, MAX_ROM_SIZE};
use vstd::prelude::*;

verus! {

/// A machine as seen by its host.
pub struct Emulator {
    pub chip8: Chip8,
}

impl Emulator {
    pub open spec fn wf(&self) -> bool {
        self.chip8.wf()
    }

    /// A machine in its power-on state.
    pub fn new() -> (r: Self)
        ensures
            r.wf(),
            r.chip8@ == power_on(),
    {
        Emulator { chip8: Chip8::create() }
    }

    /// Whether the framebuffer changed since the flag was last cleared.
    pub fn is_draw_flag(&self) -> (r: bool)
        ensures
            r == self.chip8.draw_flag,
    {
        self.chip8.draw_flag
    }

    pub fn set_draw_flag(&mut self, flag: bool)
        requires
            old(self).wf(),
        ensures
            final(self).wf(),
            final(self).chip8@ == (MachineView { draw_flag: flag, ..old(self).chip8@ }),
    {
        self.chip8.draw_flag = flag;
    }

    pub fn get_columns(&self) -> (r: u8)
        ensures
            r == self.chip8.screen.columns,
    {
        self.chip8.screen.columns
    }

    pub fn get_rows(&self) -> (r: u8)
        ensures
            r == self.chip8.screen.rows,
    {
        self.chip8.screen.rows
    }

    pub fn get_high_res(&self) -> (r: bool)
        ensures
            r == self.chip8.high_res,
    {
        self.chip8.high_res
    }

    /// The pixel at column `x`, row `y`; off outside the framebuffer.
    pub fn get_pixel(&self, x: u8, y: u8) -> (r: bool)
        requires
            self.wf(),
        ensures
            r == (x < self.chip8.screen.columns && y < self.chip8.screen.rows
                && self.chip8@.screen[y as int][x as int]),
    {
        if x < self.chip8.screen.columns && y < self.chip8.screen.rows {
            self.chip8.screen.get_pixel(x, y)
        } else {
            false
        }
    }

    /// Advisory instructions per second.
    pub fn get_rate(&self) -> (r: u16)
        ensures
            r == self.chip8.rate,
    {
        self.chip8.rate
    }

    /// Runs one instruction; see `Chip8::cycle`.
    pub fn cycle(&mut self) -> (r: Option<u8>)
        requires
            old(self).wf(),
        ensures
            final(self).wf(),
            r == crate::vm::exit_code(crate::vm::current(old(self).chip8@)),
            exists|b: u8| b < 0xFF && final(self).chip8@ == step(old(self).chip8@, b),
    {
        self.chip8.cycle()
    }

    /// One tick of both timers.
    pub fn ticker(&mut self)
        requires
            old(self).wf(),
        ensures
            final(self).wf(),
            final(self).chip8@ == (MachineView {
                delay: crate::vm::tick(old(self).chip8.d_timer),
                sound: crate::vm::tick(old(self).chip8.s_timer),
                ..old(self).chip8@
            }),
    {
        self.chip8.ticker();
    }

    /// Presses the key for a host symbol; false when the layout has none.
    pub fn key_down(&mut self, key: char) -> (r: bool)
        requires
            old(self).wf(),
        ensures
            final(self).wf(),
            r == crate::hardware::key_code(key).is_some(),
            final(self).chip8@ == (MachineView {
                keys: Keyboard::with_key(old(self).chip8@.keys, key, true),
                ..old(self).chip8@
            }),
    {
        self.chip8.keyboard.key_down(key)
    }

    /// Releases the key for a host symbol; false when the layout has none.
    pub fn key_up(&mut self, key: char) -> (r: bool)
        requires
            old(self).wf(),
        ensures
            final(self).wf(),
            r == crate::hardware::key_code(key).is_some(),
            final(self).chip8@ == (MachineView {
                keys: Keyboard::with_key(old(self).chip8@.keys, key, false),
                ..old(self).chip8@
            }),
    {
        self.chip8.keyboard.key_up(key)
    }

    /// Back to the power-on state.
    pub fn reset(&mut self)
        requires
            old(self).wf(),
        ensures
            final(self).wf(),
            final(self).chip8@ == power_on(),
    {
        self.chip8.reset();
    }

    /// Loads a program; one that does not fit is ignored.
    pub fn load_rom(&mut self, rom: Vec<u8>)
        requires
            old(self).wf(),
        ensures
            final(self).wf(),
            final(self).chip8@ == if rom@.len() <= MAX_ROM_SIZE {
                MachineView { memory: with_rom(old(self).chip8@.memory, rom@), ..old(self).chip8@ }
            } else {
                old(self).chip8@
            },
    {
        let _ = self.chip8.load_rom(rom.as_slice());
    }

    /// Flips the running flag and returns its new value.
    pub fn toggle_running(&mut self) -> (r: bool)
        requires
            old(self).wf(),
        ensures
            final(self).wf(),
            r == !old(self).chip8.running,
            final(self).chip8@ == (MachineView { running: r, ..old(self).chip8@ }),
    {
        self.chip8.running = !self.chip8.running;
        self.chip8.running
    }

    /// Releases every key.
    pub fn reset_keys(&mut self)
        requires
            old(self).wf(),
        ensures
            final(self).wf(),
            final(self).chip8@ == (MachineView {
                keys: crate::hardware::released(),
                ..old(self).chip8@
            }),
    {
        self.chip8.keyboard.reset();
    }

    /// The sound timer; the host plays a tone while it is above zero.
    pub fn get_sound_timer(&self) -> (r: u8)
        ensures
            r == self.chip8.s_timer,
    {
        self.chip8.s_timer
    }
}

} // verus!
