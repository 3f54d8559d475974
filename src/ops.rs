//! The operation table: one handler per instruction, each stated as the
//! machine it leaves behind. Handlers run after the fetch has already moved
//! the program counter past the instruction.
use crate::entropy;
use crate::hardware::{blank, dims, shifted, Screen};
use crate::vm::{addr, rate_of, Chip8, Instruction, MachineView, LARGE_FONT_BASE, RPL_SLOTS};
use vstd::prelude::*;

verus! {

/// `m` with register `x` set to `val`.
pub open spec fn set_v(m: MachineView, x: int, val: u8) -> MachineView {
    MachineView { v: m.v.update(x, val), ..m }
}

/// `m` with the next instruction skipped when `cond` holds.
pub open spec fn skip_if(m: MachineView, cond: bool) -> MachineView {
    if cond {
        MachineView { pc: addr(m.pc as int, 2) as u16, ..m }
    } else {
        m
    }
}

/// Register `x` of `m`.
pub open spec fn vx(m: MachineView, ir: Instruction) -> u8 {
    m.v[ir.x as int]
}

/// Register `y` of `m`.
pub open spec fn vy(m: MachineView, ir: Instruction) -> u8 {
    m.v[ir.y as int]
}

/// The machine is well formed and the instruction's fields agree with its word.
pub open spec fn ready(vm: &Chip8, ir: &Instruction) -> bool {
    vm.wf() && ir.wf()
}

/// 001N: the exit code that ends the program.
pub fn exit_n(_vm: &Chip8, ir: &Instruction) -> (r: u8)
    ensures
        r == ir.n,
{
    ir.n
}

/// The machine after 00E0.
pub open spec fn cls_spec(m: MachineView) -> MachineView {
    MachineView {
        screen: blank(dims(m.high_res).0 as nat, dims(m.high_res).1 as nat),
        draw_flag: true,
        ..m
    }
}

/// 00E0: clears the framebuffer, which takes the size of the current mode.
pub fn cls(vm: &mut Chip8)
    requires
        old(vm).wf(),
    ensures
        final(vm).wf(),
        (final(vm).screen.rows, final(vm).screen.columns) == dims(old(vm).high_res),
        final(vm)@ == cls_spec(old(vm)@),
{
    vm.screen.resize(vm.high_res);
    vm.draw_flag = true;
}

/// The machine after 00EE.
pub open spec fn ret_spec(m: MachineView) -> MachineView {
    if m.stack.len() > 0 {
        MachineView {
            pc: m.stack.last(),
            stack: m.stack.drop_last(),
            ..m
        }
    } else {
        m
    }
}

/// 00EE: returns from a subroutine; nothing happens on an empty stack.
pub fn ret(vm: &mut Chip8)
    requires
        old(vm).wf(),
    ensures
        final(vm).wf(),
        final(vm)@ == ret_spec(old(vm)@),
{
    if let Some(res) = vm.stack.pop() {
        vm.r_pc = res;
    }
    proof {
        assert(old(vm)@.stack.len() > 0 ==> old(vm)@.stack.last() == old(vm)@.stack[old(vm)@.stack.len() - 1]);
    }
}

/// The machine after 00FD.
pub open spec fn s8_exit_spec(m: MachineView) -> MachineView {
    MachineView { running: false, ..m }
}

/// 00FD: stops the machine.
pub fn s8_exit(vm: &mut Chip8)
    requires
        old(vm).wf(),
    ensures
        final(vm).wf(),
        final(vm)@ == s8_exit_spec(old(vm)@),
{
    vm.running = false;
}

/// The machine after 00FE.
pub open spec fn s8_low_spec(m: MachineView) -> MachineView {
    MachineView { high_res: false, rate: rate_of(false), ..m }
}

/// 00FE: normal resolution (64x32).
pub fn s8_low(vm: &mut Chip8)
    requires
        old(vm).wf(),
    ensures
        final(vm).wf(),
        final(vm)@ == s8_low_spec(old(vm)@),
{
    vm.change_mode(false);
}

/// The machine after 00FF.
pub open spec fn s8_high_spec(m: MachineView) -> MachineView {
    MachineView { high_res: true, rate: rate_of(true), ..m }
}

/// 00FF: high resolution (128x64).
pub fn s8_high(vm: &mut Chip8)
    requires
        old(vm).wf(),
    ensures
        final(vm).wf(),
        final(vm)@ == s8_high_spec(old(vm)@),
{
    vm.change_mode(true);
}

/// The machine after 0NNN.
pub open spec fn call_nnn_spec(m: MachineView) -> MachineView {
    MachineView { pc: addr(m.pc as int, 2) as u16, ..m }
}

/// 0NNN: a machine-language routine; none is run, the next instruction is
/// passed over.
pub fn call_nnn(vm: &mut Chip8)
    requires
        old(vm).wf(),
    ensures
        final(vm).wf(),
        final(vm)@ == call_nnn_spec(old(vm)@),
{
    vm.r_pc = (vm.r_pc + 2) % 0x1000;
}

/// The machine after 1NNN.
pub open spec fn jmp_nnn_spec(m: MachineView, ir: Instruction) -> MachineView {
    MachineView { pc: ir.nnn, ..m }
}

/// 1NNN: jumps to NNN.
pub fn jmp_nnn(vm: &mut Chip8, ir: &Instruction)
    requires
        ready(old(vm), ir),
    ensures
        final(vm).wf(),
        final(vm)@ == jmp_nnn_spec(old(vm)@, *ir),
{
    vm.r_pc = ir.nnn;
}

/// The machine after 2NNN.
pub open spec fn call_nnn_2_spec(m: MachineView, ir: Instruction) -> MachineView {
    MachineView {
        stack: m.stack.push(m.pc),
        pc: ir.nnn,
        ..m
    }
}

/// 2NNN: calls the subroutine at NNN.
pub fn call_nnn_2(vm: &mut Chip8, ir: &Instruction)
    requires
        ready(old(vm), ir),
    ensures
        final(vm).wf(),
        final(vm)@ == call_nnn_2_spec(old(vm)@, *ir),
{
    vm.stack.push(vm.r_pc);
    vm.r_pc = ir.nnn;
}

/// The machine after 3XNN.
pub open spec fn se_vx_nn_spec(m: MachineView, ir: Instruction) -> MachineView {
    skip_if(m, vx(m, ir) == ir.kk)
}

/// 3XNN: skips the next instruction when VX equals NN.
pub fn se_vx_nn(vm: &mut Chip8, ir: &Instruction)
    requires
        ready(old(vm), ir),
    ensures
        final(vm).wf(),
        final(vm)@ == se_vx_nn_spec(old(vm)@, *ir),
{
    if vm.r_v[ir.x as usize] == ir.kk {
        vm.r_pc = (vm.r_pc + 2) % 0x1000;
    }
}

/// The machine after 4XNN.
pub open spec fn sne_vx_nn_spec(m: MachineView, ir: Instruction) -> MachineView {
    skip_if(m, vx(m, ir) != ir.kk)
}

/// 4XNN: skips the next instruction when VX differs from NN.
pub fn sne_vx_nn(vm: &mut Chip8, ir: &Instruction)
    requires
        ready(old(vm), ir),
    ensures
        final(vm).wf(),
        final(vm)@ == sne_vx_nn_spec(old(vm)@, *ir),
{
    if vm.r_v[ir.x as usize] != ir.kk {
        vm.r_pc = (vm.r_pc + 2) % 0x1000;
    }
}

/// The machine after 5XY0.
pub open spec fn se_vx_vy_spec(m: MachineView, ir: Instruction) -> MachineView {
    skip_if(m, vx(m, ir) == vy(m, ir))
}

/// 5XY0: skips the next instruction when VX equals VY.
pub fn se_vx_vy(vm: &mut Chip8, ir: &Instruction)
    requires
        ready(old(vm), ir),
    ensures
        final(vm).wf(),
        final(vm)@ == se_vx_vy_spec(old(vm)@, *ir),
{
    if vm.r_v[ir.x as usize] == vm.r_v[ir.y as usize] {
        vm.r_pc = (vm.r_pc + 2) % 0x1000;
    }
}

/// The machine after 6XNN.
pub open spec fn ld_vx_nn_spec(m: MachineView, ir: Instruction) -> MachineView {
    set_v(m, ir.x as int, ir.kk)
}

/// 6XNN: VX = NN.
pub fn ld_vx_nn(vm: &mut Chip8, ir: &Instruction)
    requires
        ready(old(vm), ir),
    ensures
        final(vm).wf(),
        final(vm)@ == ld_vx_nn_spec(old(vm)@, *ir),
{
    vm.r_v[ir.x as usize] = ir.kk;
}

/// The machine after 7XNN.
pub open spec fn add_vx_nn_spec(m: MachineView, ir: Instruction) -> MachineView {
    set_v(m, ir.x as int, ((vx(m, ir) + ir.kk) % 256) as u8)
}

/// 7XNN: VX = VX + NN, wrapping; VF is left alone.
pub fn add_vx_nn(vm: &mut Chip8, ir: &Instruction)
    requires
        ready(old(vm), ir),
    ensures
        final(vm).wf(),
        final(vm)@ == add_vx_nn_spec(old(vm)@, *ir),
{
    let x = ir.x as usize;
    vm.r_v[x] = vm.r_v[x].wrapping_add(ir.kk);
}

/// The machine after 8XY0.
pub open spec fn ld_vx_vy_spec(m: MachineView, ir: Instruction) -> MachineView {
    set_v(m, ir.x as int, vy(m, ir))
}

/// 8XY0: VX = VY.
pub fn ld_vx_vy(vm: &mut Chip8, ir: &Instruction)
    requires
        ready(old(vm), ir),
    ensures
        final(vm).wf(),
        final(vm)@ == ld_vx_vy_spec(old(vm)@, *ir),
{
    vm.r_v[ir.x as usize] = vm.r_v[ir.y as usize];
}

/// The machine after 8XY1.
pub open spec fn or_vx_vy_spec(m: MachineView, ir: Instruction) -> MachineView {
    set_v(m, ir.x as int, vx(m, ir) | vy(m, ir))
}

/// 8XY1: VX = VX | VY.
pub fn or_vx_vy(vm: &mut Chip8, ir: &Instruction)
    requires
        ready(old(vm), ir),
    ensures
        final(vm).wf(),
        final(vm)@ == or_vx_vy_spec(old(vm)@, *ir),
{
    let v = vm.r_v[ir.x as usize] | vm.r_v[ir.y as usize];
    vm.r_v[ir.x as usize] = v;
}

/// The machine after 8XY2.
pub open spec fn and_vx_vy_spec(m: MachineView, ir: Instruction) -> MachineView {
    set_v(m, ir.x as int, vx(m, ir) & vy(m, ir))
}

/// 8XY2: VX = VX & VY.
pub fn and_vx_vy(vm: &mut Chip8, ir: &Instruction)
    requires
        ready(old(vm), ir),
    ensures
        final(vm).wf(),
        final(vm)@ == and_vx_vy_spec(old(vm)@, *ir),
{
    let v = vm.r_v[ir.x as usize] & vm.r_v[ir.y as usize];
    vm.r_v[ir.x as usize] = v;
}

/// The machine after 8XY3.
pub open spec fn xor_vx_vy_spec(m: MachineView, ir: Instruction) -> MachineView {
    set_v(m, ir.x as int, vx(m, ir) ^ vy(m, ir))
}

/// 8XY3: VX = VX ^ VY.
pub fn xor_vx_vy(vm: &mut Chip8, ir: &Instruction)
    requires
        ready(old(vm), ir),
    ensures
        final(vm).wf(),
        final(vm)@ == xor_vx_vy_spec(old(vm)@, *ir),
{
    let v = vm.r_v[ir.x as usize] ^ vm.r_v[ir.y as usize];
    vm.r_v[ir.x as usize] = v;
}

/// 8XY4: the machine after `VX = VX + VY`, wrapping, with VF = 1 on a carry
/// and 0 otherwise.
pub open spec fn add_vx_vy_spec(m: MachineView, ir: Instruction) -> MachineView {
    let sum = vx(m, ir) + vy(m, ir);
    set_v(
        set_v(m, ir.x as int, (sum % 256) as u8),
        15,
        if sum > 255 {
            1u8
        } else {
            0u8
        },
    )
}

/// 8XY4: VX = VX + VY, VF = carry.
pub fn add_vx_vy(vm: &mut Chip8, ir: &Instruction)
    requires
        ready(old(vm), ir),
    ensures
        final(vm).wf(),
        final(vm)@ == add_vx_vy_spec(old(vm)@, *ir),
{
    let x = ir.x as usize;
    let y = ir.y as usize;
    let (vx, vy) = (vm.r_v[x], vm.r_v[y]);
    let total = vx as u16 + vy as u16;
    vm.r_v[x] = (total % 256) as u8;
    vm.r_v[0xF] = if total > 0xFF {
        1
    } else {
        0
    };
}

/// 8XY5: the machine after `VX = VX - VY`, wrapping, with VF = 0 on a borrow
/// and 1 otherwise.
pub open spec fn sub_vx_vy_spec(m: MachineView, ir: Instruction) -> MachineView {
    set_v(
        set_v(m, ir.x as int, ((vx(m, ir) - vy(m, ir) + 256) % 256) as u8),
        15,
        if vx(m, ir) < vy(m, ir) {
            0u8
        } else {
            1u8
        },
    )
}

/// 8XY5: VX = VX - VY, VF = no borrow.
pub fn sub_vx_vy(vm: &mut Chip8, ir: &Instruction)
    requires
        ready(old(vm), ir),
    ensures
        final(vm).wf(),
        final(vm)@ == sub_vx_vy_spec(old(vm)@, *ir),
{
    let x = ir.x as usize;
    let y = ir.y as usize;
    let (vx, vy) = (vm.r_v[x], vm.r_v[y]);
    vm.r_v[x] = vx.wrapping_sub(vy);
    vm.r_v[0xF] = if vx < vy {
        0
    } else {
        1
    };
}

/// The machine after 8XY6.
pub open spec fn shr_vx_vy_spec(m: MachineView, ir: Instruction) -> MachineView {
    let m = set_v(m, 15, vx(m, ir) % 2);
    set_v(m, ir.x as int, vx(m, ir) / 2)
}

/// 8XY6: VF = low bit of VX, then VX = VX >> 1.
pub fn shr_vx_vy(vm: &mut Chip8, ir: &Instruction)
    requires
        ready(old(vm), ir),
    ensures
        final(vm).wf(),
        final(vm)@ == shr_vx_vy_spec(old(vm)@, *ir),
{
    let x = ir.x as usize;
    vm.r_v[0xF] = vm.r_v[x] % 2;
    let v = vm.r_v[x] / 2;
    vm.r_v[x] = v;
}

/// The machine after 8XY7.
pub open spec fn subn_vy_vx_spec(m: MachineView, ir: Instruction) -> MachineView {
    set_v(
        set_v(
            m,
            ir.x as int,
            ((vy(m, ir) - vx(m, ir) + 256) % 256) as u8,
        ),
        15,
        if vy(m, ir) > vx(m, ir) {
            1u8
        } else {
            0u8
        },
    )
}

/// 8XY7: VX = VY - VX, wrapping; VF = 1 when VY > VX, else 0.
pub fn subn_vy_vx(vm: &mut Chip8, ir: &Instruction)
    requires
        ready(old(vm), ir),
    ensures
        final(vm).wf(),
        final(vm)@ == subn_vy_vx_spec(old(vm)@, *ir),
{
    let x = ir.x as usize;
    let y = ir.y as usize;
    let (vx, vy) = (vm.r_v[x], vm.r_v[y]);
    vm.r_v[x] = vy.wrapping_sub(vx);
    vm.r_v[0xF] = if vy > vx {
        1
    } else {
        0
    };
}

/// The machine after 8XYE.
pub open spec fn shl_vx_vy_spec(m: MachineView, ir: Instruction) -> MachineView {
    let m = set_v(m, 15, vx(m, ir) / 128);
    set_v(m, ir.x as int, ((vx(m, ir) * 2) % 256) as u8)
}

/// 8XYE: VF = high bit of VX, then VX = VX << 1, kept to eight bits.
pub fn shl_vx_vy(vm: &mut Chip8, ir: &Instruction)
    requires
        ready(old(vm), ir),
    ensures
        final(vm).wf(),
        final(vm)@ == shl_vx_vy_spec(old(vm)@, *ir),
{
    let x = ir.x as usize;
    vm.r_v[0xF] = vm.r_v[x] / 128;
    let v = ((vm.r_v[x] as u16 * 2) % 256) as u8;
    vm.r_v[x] = v;
}

/// The machine after 9XY0.
pub open spec fn sne_vx_vy_spec(m: MachineView, ir: Instruction) -> MachineView {
    skip_if(m, vx(m, ir) != vy(m, ir))
}

/// 9XY0: skips the next instruction when VX differs from VY.
pub fn sne_vx_vy(vm: &mut Chip8, ir: &Instruction)
    requires
        ready(old(vm), ir),
    ensures
        final(vm).wf(),
        final(vm)@ == sne_vx_vy_spec(old(vm)@, *ir),
{
    let x = ir.x as usize;
    let y = ir.y as usize;
    if vm.r_v[x] != vm.r_v[y] {
        vm.r_pc = (vm.r_pc + 2) % 0x1000;
    }
}

/// The machine after ANNN.
pub open spec fn ld_i_nnn_spec(m: MachineView, ir: Instruction) -> MachineView {
    MachineView { i: ir.nnn, ..m }
}

/// ANNN: I = NNN.
pub fn ld_i_nnn(vm: &mut Chip8, ir: &Instruction)
    requires
        ready(old(vm), ir),
    ensures
        final(vm).wf(),
        final(vm)@ == ld_i_nnn_spec(old(vm)@, *ir),
{
    vm.r_i = ir.nnn;
}

/// The machine after BNNN.
pub open spec fn jp_v0_nnn_spec(m: MachineView, ir: Instruction) -> MachineView {
    MachineView {
        pc: addr(ir.nnn as int, m.v[0] as int) as u16,
        ..m
    }
}

/// BNNN: jumps to NNN + V0, wrapped to 12 bits.
pub fn jp_v0_nnn(vm: &mut Chip8, ir: &Instruction)
    requires
        ready(old(vm), ir),
    ensures
        final(vm).wf(),
        final(vm)@ == jp_v0_nnn_spec(old(vm)@, *ir),
{
    vm.r_pc = (ir.nnn + vm.r_v[0x0] as u16) % 0x1000;
}

/// The machine after CXNN when the random byte drawn is `byte`.
pub open spec fn rnd_vx_nn_spec(m: MachineView, ir: Instruction, byte: u8) -> MachineView {
    set_v(m, ir.x as int, byte & ir.kk)
}

/// CXNN with the random byte `byte` drawn: VX = byte & NN.
pub fn rnd_vx_nn_with(vm: &mut Chip8, ir: &Instruction, byte: u8)
    requires
        ready(old(vm), ir),
    ensures
        final(vm).wf(),
        final(vm)@ == rnd_vx_nn_spec(old(vm)@, *ir, byte),
{
    vm.r_v[ir.x as usize] = byte & ir.kk;
}

/// CXNN: VX = a random byte below 0xFF, masked with NN.
pub fn rnd_vx_nn(vm: &mut Chip8, ir: &Instruction)
    requires
        ready(old(vm), ir),
    ensures
        final(vm).wf(),
        exists|b: u8| b < 0xFF && final(vm)@ == rnd_vx_nn_spec(old(vm)@, *ir, b),
{
    let byte = entropy::gen_byte(&mut vm.rng);
    rnd_vx_nn_with(vm, ir, byte);
    assert(vm@ == rnd_vx_nn_spec(old(vm)@, *ir, byte));
}

/// The machine after EX9E.
pub open spec fn skp_vx_spec(m: MachineView, ir: Instruction) -> MachineView {
    skip_if(m, m.keys[vx(m, ir) as int % 16])
}

/// EX9E: skips the next instruction when the key numbered by the low four
/// bits of VX is down.
pub fn skp_vx(vm: &mut Chip8, ir: &Instruction)
    requires
        ready(old(vm), ir),
    ensures
        final(vm).wf(),
        final(vm)@ == skp_vx_spec(old(vm)@, *ir),
{
    let i = (vm.r_v[ir.x as usize] % 16) as usize;
    if vm.keyboard.keys[i] {
        vm.r_pc = (vm.r_pc + 2) % 0x1000;
    }
}

/// The machine after EXA1.
pub open spec fn sknp_vx_spec(m: MachineView, ir: Instruction) -> MachineView {
    skip_if(m, !m.keys[vx(m, ir) as int % 16])
}

/// EXA1: skips the next instruction when the key numbered by the low four
/// bits of VX is up.
pub fn sknp_vx(vm: &mut Chip8, ir: &Instruction)
    requires
        ready(old(vm), ir),
    ensures
        final(vm).wf(),
        final(vm)@ == sknp_vx_spec(old(vm)@, *ir),
{
    let i = (vm.r_v[ir.x as usize] % 16) as usize;
    if !vm.keyboard.keys[i] {
        vm.r_pc = (vm.r_pc + 2) % 0x1000;
    }
}

/// The machine after FX07.
pub open spec fn ld_vx_dt_spec(m: MachineView, ir: Instruction) -> MachineView {
    set_v(m, ir.x as int, m.delay)
}

/// FX07: VX = delay timer.
pub fn ld_vx_dt(vm: &mut Chip8, ir: &Instruction)
    requires
        ready(old(vm), ir),
    ensures
        final(vm).wf(),
        final(vm)@ == ld_vx_dt_spec(old(vm)@, *ir),
{
    vm.r_v[ir.x as usize] = vm.d_timer;
}

/// The machine after FX15.
pub open spec fn ld_dt_vx_spec(m: MachineView, ir: Instruction) -> MachineView {
    MachineView { delay: vx(m, ir), ..m }
}

/// FX15: delay timer = VX.
pub fn ld_dt_vx(vm: &mut Chip8, ir: &Instruction)
    requires
        ready(old(vm), ir),
    ensures
        final(vm).wf(),
        final(vm)@ == ld_dt_vx_spec(old(vm)@, *ir),
{
    vm.d_timer = vm.r_v[ir.x as usize];
}

/// The machine after FX18.
pub open spec fn ld_st_vx_spec(m: MachineView, ir: Instruction) -> MachineView {
    MachineView { sound: vx(m, ir), ..m }
}

/// FX18: sound timer = VX.
pub fn ld_st_vx(vm: &mut Chip8, ir: &Instruction)
    requires
        ready(old(vm), ir),
    ensures
        final(vm).wf(),
        final(vm)@ == ld_st_vx_spec(old(vm)@, *ir),
{
    vm.s_timer = vm.r_v[ir.x as usize];
}

/// The machine after FX1E.
pub open spec fn add_i_vx_spec(m: MachineView, ir: Instruction) -> MachineView {
    let sum = m.i + vx(m, ir);
    MachineView {
        i: (sum % 0x1000) as u16,
        ..set_v(
            m,
            15,
            if sum > 0xFFF {
                1u8
            } else {
                0u8
            },
        )
    }
}

/// FX1E: I = I + VX kept to 12 bits; VF = 1 when the sum passed 0xFFF, else 0.
pub fn add_i_vx(vm: &mut Chip8, ir: &Instruction)
    requires
        ready(old(vm), ir),
    ensures
        final(vm).wf(),
        final(vm)@ == add_i_vx_spec(old(vm)@, *ir),
{
    let vx = vm.r_v[ir.x as usize];
    let i = vm.r_i;
    let i_plus_vx = i + vx as u16;
    vm.r_v[0xF] = if i_plus_vx > 0x0FFF {
        1
    } else {
        0
    };
    vm.r_i = i_plus_vx % 0x1000;
}

/// The machine after FX29.
pub open spec fn ld_i_font_vx_spec(m: MachineView, ir: Instruction) -> MachineView {
    MachineView { i: (vx(m, ir) * 5) as u16, ..m }
}

/// FX29: I = VX * 5, the small glyph of VX.
pub fn ld_i_font_vx(vm: &mut Chip8, ir: &Instruction)
    requires
        ready(old(vm), ir),
    ensures
        final(vm).wf(),
        final(vm)@ == ld_i_font_vx_spec(old(vm)@, *ir),
{
    vm.r_i = vm.r_v[ir.x as usize] as u16 * 5;
}

/// The machine after FX30.
pub open spec fn s8_ld_i_font_vx_spec(m: MachineView, ir: Instruction) -> MachineView {
    MachineView { i: addr(LARGE_FONT_BASE as int, vx(m, ir) * 10) as u16, ..m }
}

/// FX30: I = the large glyph of VX, at `LARGE_FONT_BASE + VX * 10` kept to
/// 12 bits.
pub fn s8_ld_i_font_vx(vm: &mut Chip8, ir: &Instruction)
    requires
        ready(old(vm), ir),
    ensures
        final(vm).wf(),
        final(vm)@ == s8_ld_i_font_vx_spec(old(vm)@, *ir),
{
    let val = vm.r_v[ir.x as usize] as u16 * 10;
    vm.r_i = (LARGE_FONT_BASE + val) % 0x1000;
}

/// The machine after FX33.
pub open spec fn bcd_vx_spec(m: MachineView, ir: Instruction) -> MachineView {
    let v = vx(m, ir);
    let i = m.i as int;
    MachineView {
        memory: m.memory.update(addr(i, 0), v / 100).update(addr(i, 1), (v % 100) / 10).update(
            addr(i, 2),
            v % 10,
        ),
        ..m
    }
}

/// FX33: writes the hundreds, tens and units digits of VX at I, I+1, I+2.
pub fn bcd_vx(vm: &mut Chip8, ir: &Instruction)
    requires
        ready(old(vm), ir),
    ensures
        final(vm).wf(),
        final(vm)@ == bcd_vx_spec(old(vm)@, *ir),
{
    let vx = vm.r_v[ir.x as usize];
    let i = vm.r_i as usize;
    vm.memory[i] = vx / 100;
    vm.memory[(i + 1) % 0x1000] = (vx % 100) / 10;
    vm.memory[(i + 2) % 0x1000] = vx % 100 % 10;
}

/// The lowest code of a key that is down, if any key is.
pub open spec fn first_pressed(keys: Seq<bool>) -> Option<int> {
    if exists|k: int| 0 <= k < 16 && #[trigger] keys[k] {
        Some(choose|k: int| 0 <= k < 16 && keys[k] && forall|j: int| 0 <= j < k ==> !keys[j])
    } else {
        None
    }
}

/// The machine after FX0A.
pub open spec fn ld_vx_key_spec(m: MachineView, ir: Instruction) -> MachineView {
    match first_pressed(m.keys) {
        Some(k) => skip_if(set_v(m, ir.x as int, k as u8), true),
        None => m,
    }
}

/// FX0A: when a key is down, VX = the lowest such key code and the next
/// instruction is skipped; otherwise nothing happens.
pub fn ld_vx_key(vm: &mut Chip8, ir: &Instruction)
    requires
        ready(old(vm), ir),
    ensures
        final(vm).wf(),
        final(vm)@ == ld_vx_key_spec(old(vm)@, *ir),
{
    let ghost keys = old(vm)@.keys;
    let mut found: Option<u8> = None;
    let mut i: usize = 0;
    while i < 16
        invariant_except_break
            found.is_none(),
        invariant
            vm.wf(),
            vm@ == old(vm)@,
            keys == old(vm)@.keys,
            i <= 16,
            forall|j: int| 0 <= j < i ==> !keys[j],
        ensures
            vm.wf(),
            vm@ == old(vm)@,
            found.is_none() ==> forall|j: int| 0 <= j < 16 ==> !keys[j],
            found.is_some() ==> ({
                let k = found.unwrap() as int;
                &&& 0 <= k < 16
                &&& keys[k]
                &&& forall|j: int| 0 <= j < k ==> !keys[j]
            }),
        decreases 16 - i,
    {
        if vm.keyboard.keys[i] {
            found = Some(i as u8);
            break;
        }
        i = i + 1;
    }
    match found {
        Some(k) => {
            proof {
                let c = choose|c: int| 0 <= c < 16 && keys[c] && forall|j: int| 0 <= j < c ==> !keys[j];
                assert(0 <= k < 16 && keys[k as int]);
                if c < k {
                    assert(!keys[c]);
                }
                if k < c {
                    assert(!keys[k as int]);
                }
                assert(first_pressed(keys) == Some(k as int));
            }
            vm.r_v[ir.x as usize] = k;
            vm.r_pc = (vm.r_pc + 2) % 0x1000;
        },
        None => {
            assert(first_pressed(keys) == None::<int>);
        },
    }
}

/// Memory with `count` registers of `regs` stored from address `i` on,
/// wrapping at the end of memory.
pub open spec fn stored(memory: Seq<u8>, i: int, regs: Seq<u8>, count: int) -> Seq<u8> {
    Seq::new(
        memory.len(),
        |a: int|
            if offset(a, i) < count {
                regs[offset(a, i)]
            } else {
                memory[a]
            },
    )
}

/// How far address `a` lies past address `i`, going round the end of memory.
pub open spec fn offset(a: int, i: int) -> int {
    if a >= i {
        a - i
    } else {
        a + 4096 - i
    }
}

/// The machine after FX55.
pub open spec fn ld_i_vx_spec(m: MachineView, ir: Instruction) -> MachineView {
    MachineView {
        memory: stored(m.memory, m.i as int, m.v, ir.x + 1),
        ..m
    }
}

/// FX55: stores V0 to VX in memory from I on; I does not change.
pub fn ld_i_vx(vm: &mut Chip8, ir: &Instruction)
    requires
        ready(old(vm), ir),
    ensures
        final(vm).wf(),
        final(vm)@ == ld_i_vx_spec(old(vm)@, *ir),
{
    let base = vm.r_i as usize;
    let mut k: usize = 0;
    assert(vm.memory@ =~= stored(old(vm)@.memory, base as int, old(vm)@.v, 0));
    while k <= ir.x as usize
        invariant
            vm.wf(),
            ir.wf(),
            base == old(vm).r_i,
            k <= ir.x + 1,
            vm@ == (MachineView {
                memory: stored(old(vm)@.memory, base as int, old(vm)@.v, k as int),
                ..old(vm)@
            }),
        decreases ir.x + 1 - k,
    {
        let a = (base + k) % 0x1000;
        assert(a == if base + k < 4096 { base + k } else { base + k - 4096 });
        assert(offset(a as int, base as int) == k);
        vm.memory[a] = vm.r_v[k];
        assert(vm.memory@ =~= stored(old(vm)@.memory, base as int, old(vm)@.v, k + 1));
        k = k + 1;
    }
}

/// The machine after FX65.
pub open spec fn ld_vx_i_spec(m: MachineView, ir: Instruction) -> MachineView {
    MachineView {
        v: Seq::new(
            16,
            |k: int|
                if k <= ir.x {
                    m.memory[addr(m.i as int, k)]
                } else {
                    m.v[k]
                },
        ),
        ..m
    }
}

/// FX65: loads V0 to VX from memory from I on; I does not change.
pub fn ld_vx_i(vm: &mut Chip8, ir: &Instruction)
    requires
        ready(old(vm), ir),
    ensures
        final(vm).wf(),
        final(vm)@ == ld_vx_i_spec(old(vm)@, *ir),
{
    let base = vm.r_i as usize;
    let mut k: usize = 0;
    assert(vm.r_v@ =~= Seq::new(
        16,
        |j: int|
            if j < 0 {
                old(vm)@.memory[addr(base as int, j)]
            } else {
                old(vm)@.v[j]
            },
    ));
    while k <= ir.x as usize
        invariant
            vm.wf(),
            ir.wf(),
            base == old(vm).r_i,
            k <= ir.x + 1,
            vm@ == (MachineView {
                v: Seq::new(
                    16,
                    |j: int|
                        if j < k {
                            old(vm)@.memory[addr(base as int, j)]
                        } else {
                            old(vm)@.v[j]
                        },
                ),
                ..old(vm)@
            }),
        decreases ir.x + 1 - k,
    {
        let b = vm.memory[(base + k) % 0x1000];
        vm.r_v[k] = b;
        k = k + 1;
        assert(vm.r_v@ =~= Seq::new(
            16,
            |j: int|
                if j < k {
                    old(vm)@.memory[addr(base as int, j)]
                } else {
                    old(vm)@.v[j]
                },
        ));
    }
    assert(vm.r_v@ =~= Seq::new(
        16,
        |j: int|
            if j <= ir.x {
                old(vm)@.memory[addr(base as int, j)]
            } else {
                old(vm)@.v[j]
            },
    ));
}

/// The machine after FX75.
pub open spec fn ld_r_vx_spec(m: MachineView, ir: Instruction) -> MachineView {
    MachineView {
        rpl: Seq::new(
            RPL_SLOTS as nat,
            |k: int|
                if k <= ir.x {
                    m.v[k]
                } else {
                    m.rpl[k]
                },
        ),
        ..m
    }
}

/// FX75: saves V0 to VX in the RPL flags; registers past the last flag
/// are not saved.
pub fn ld_r_vx(vm: &mut Chip8, ir: &Instruction)
    requires
        ready(old(vm), ir),
    ensures
        final(vm).wf(),
        final(vm)@ == ld_r_vx_spec(old(vm)@, *ir),
{
    let mut k: usize = 0;
    assert(vm.r_rpl@ =~= Seq::new(
        RPL_SLOTS as nat,
        |j: int|
            if j < 0 {
                old(vm)@.v[j]
            } else {
                old(vm)@.rpl[j]
            },
    ));
    while k <= ir.x as usize && k < RPL_SLOTS
        invariant
            vm.wf(),
            ir.wf(),
            k <= ir.x + 1,
            k <= RPL_SLOTS,
            vm@ == (MachineView {
                rpl: Seq::new(
                    RPL_SLOTS as nat,
                    |j: int|
                        if j < k {
                            old(vm)@.v[j]
                        } else {
                            old(vm)@.rpl[j]
                        },
                ),
                ..old(vm)@
            }),
        decreases RPL_SLOTS - k,
    {
        let b = vm.r_v[k];
        vm.r_rpl[k] = b;
        k = k + 1;
        assert(vm.r_rpl@ =~= Seq::new(
            RPL_SLOTS as nat,
            |j: int|
                if j < k {
                    old(vm)@.v[j]
                } else {
                    old(vm)@.rpl[j]
                },
        ));
    }
    assert(vm.r_rpl@ =~= Seq::new(
        RPL_SLOTS as nat,
        |j: int|
            if j <= ir.x {
                old(vm)@.v[j]
            } else {
                old(vm)@.rpl[j]
            },
    ));
}

/// The machine after FX85.
pub open spec fn ld_vx_r_spec(m: MachineView, ir: Instruction) -> MachineView {
    MachineView {
        v: Seq::new(
            16,
            |k: int|
                if k <= ir.x && k < RPL_SLOTS {
                    m.rpl[k]
                } else {
                    m.v[k]
                },
        ),
        ..m
    }
}

/// FX85: restores V0 to VX from the RPL flags; registers past the last
/// flag keep their values.
pub fn ld_vx_r(vm: &mut Chip8, ir: &Instruction)
    requires
        ready(old(vm), ir),
    ensures
        final(vm).wf(),
        final(vm)@ == ld_vx_r_spec(old(vm)@, *ir),
{
    let mut k: usize = 0;
    assert(vm.r_v@ =~= Seq::new(
        16,
        |j: int|
            if j < 0 {
                old(vm)@.rpl[j]
            } else {
                old(vm)@.v[j]
            },
    ));
    while k <= ir.x as usize && k < RPL_SLOTS
        invariant
            vm.wf(),
            ir.wf(),
            k <= ir.x + 1,
            k <= RPL_SLOTS,
            vm@ == (MachineView {
                v: Seq::new(
                    16,
                    |j: int|
                        if j < k {
                            old(vm)@.rpl[j]
                        } else {
                            old(vm)@.v[j]
                        },
                ),
                ..old(vm)@
            }),
        decreases RPL_SLOTS - k,
    {
        let b = vm.r_rpl[k];
        vm.r_v[k] = b;
        k = k + 1;
        assert(vm.r_v@ =~= Seq::new(
            16,
            |j: int|
                if j < k {
                    old(vm)@.rpl[j]
                } else {
                    old(vm)@.v[j]
                },
        ));
    }
    assert(vm.r_v@ =~= Seq::new(
        16,
        |j: int|
            if j <= ir.x && j < RPL_SLOTS {
                old(vm)@.rpl[j]
            } else {
                old(vm)@.v[j]
            },
    ));
}

/// The machine after 00CN.
pub open spec fn s8_scd_n_spec(m: MachineView, ir: Instruction) -> MachineView {
    MachineView {
        screen: shifted(m.screen, 0, ir.n as int),
        draw_flag: true,
        ..m
    }
}

/// 00CN: scrolls the framebuffer N rows down; the top N rows are cleared.
pub fn s8_scd_n(vm: &mut Chip8, ir: &Instruction)
    requires
        ready(old(vm), ir),
    ensures
        final(vm).wf(),
        final(vm)@ == s8_scd_n_spec(old(vm)@, *ir),
{
    vm.screen.shift(0, ir.n as i8);
    vm.draw_flag = true;
}

/// The machine after 00FB.
pub open spec fn s8_scr_spec(m: MachineView) -> MachineView {
    MachineView {
        screen: shifted(m.screen, 4, 0),
        draw_flag: true,
        ..m
    }
}

/// 00FB: scrolls the framebuffer 4 pixels right; the left 4 columns are
/// cleared.
pub fn s8_scr(vm: &mut Chip8)
    requires
        old(vm).wf(),
    ensures
        final(vm).wf(),
        final(vm)@ == s8_scr_spec(old(vm)@),
{
    vm.screen.shift(4, 0);
    vm.draw_flag = true;
}

/// The machine after 00FC.
pub open spec fn s8_scl_spec(m: MachineView) -> MachineView {
    MachineView {
        screen: shifted(m.screen, -4, 0),
        draw_flag: true,
        ..m
    }
}

/// 00FC: scrolls the framebuffer 4 pixels left; the right 4 columns are
/// cleared.
pub fn s8_scl(vm: &mut Chip8)
    requires
        old(vm).wf(),
    ensures
        final(vm).wf(),
        final(vm)@ == s8_scl_spec(old(vm)@),
{
    vm.screen.shift(-4, 0);
    vm.draw_flag = true;
}

/// Bit `k` of `b`, counting from the least significant.
pub open spec fn bit(b: u8, k: u8) -> bool {
    (b >> k) & 1u8 == 1u8
}

/// Whether the sprite stored at `i`, `height` rows of 8 pixels (one byte a
/// row) or of 16 pixels (two bytes a row, when `wide`), placed with its
/// top-left corner at (vx, vy), sets the pixel at column `x`, row `y`.
pub open spec fn sprite_bit(
    memory: Seq<u8>,
    i: int,
    wide: bool,
    height: int,
    vx: int,
    vy: int,
    x: int,
    y: int,
) -> bool {
    let r = y - vy;
    let c = x - vx;
    &&& 0 <= c < (if wide { 16int } else { 8int })
    &&& 0 <= r < height
    &&& bit(
        memory[addr(
            i,
            if wide {
                2 * r + c / 8
            } else {
                r
            },
        )],
        (7 - c % 8) as u8,
    )
}

/// The grid with the sprite's set pixels toggled; the parts of the sprite
/// that fall outside the grid are dropped.
pub open spec fn drawn(
    g: Seq<Seq<bool>>,
    memory: Seq<u8>,
    i: int,
    wide: bool,
    height: int,
    vx: int,
    vy: int,
) -> Seq<Seq<bool>> {
    Seq::new(
        g.len(),
        |y: int|
            Seq::new(g[y].len(), |x: int| g[y][x] != sprite_bit(memory, i, wide, height, vx, vy, x, y)),
    )
}

/// The sprite turns off the pixel at column `x`, row `y` of the grid.
pub open spec fn collision_at(
    g: Seq<Seq<bool>>,
    memory: Seq<u8>,
    i: int,
    wide: bool,
    height: int,
    vx: int,
    vy: int,
    x: int,
    y: int,
) -> bool {
    &&& 0 <= y < g.len()
    &&& 0 <= x < g[y].len()
    &&& g[y][x]
    &&& sprite_bit(memory, i, wide, height, vx, vy, x, y)
}

/// The sprite turns off some pixel of the grid.
pub open spec fn collides(
    g: Seq<Seq<bool>>,
    memory: Seq<u8>,
    i: int,
    wide: bool,
    height: int,
    vx: int,
    vy: int,
) -> bool {
    exists|x: int, y: int| #[trigger] collision_at(g, memory, i, wide, height, vx, vy, x, y)
}

/// Sprite rows `0..r`, and columns `0..c` of row `r`, come before (x, y).
pub open spec fn before(vx: int, vy: int, r: int, c: int, x: int, y: int) -> bool {
    y - vy < r || (y - vy == r && x - vx < c)
}

/// Toggles the pixels that the sprite sets, within the grid; returns
/// whether that turned any pixel off.
fn xor_sprite(screen: &mut Screen, memory: &Vec<u8>, i: u16, wide: bool, height: u8, vx: u8, vy: u8) -> (collided: bool)
    requires
        old(screen).wf(),
        memory@.len() == 4096,
        i < 0x1000,
        height <= 16,
    ensures
        final(screen).wf(),
        final(screen).rows == old(screen).rows,
        final(screen).columns == old(screen).columns,
        final(screen)@ == drawn(old(screen)@, memory@, i as int, wide, height as int, vx as int, vy as int),
        collided == collides(old(screen)@, memory@, i as int, wide, height as int, vx as int, vy as int),
{
    let ghost g = old(screen)@;
    let ghost mem = memory@;
    let ghost (gi, gh, gx, gy) = (i as int, height as int, vx as int, vy as int);
    let width: u16 = if wide {
        16
    } else {
        8
    };
    let rows = screen.rows;
    let columns = screen.columns;
    let mut collided = false;
    let mut r: u16 = 0;
    while r < height as u16
        invariant
            screen.wf(),
            memory@.len() == 4096,
            mem == memory@,
            g == old(screen)@,
            gi == i,
            gh == height,
            gx == vx,
            gy == vy,
            width == if wide { 16u16 } else { 8u16 },
            rows == screen.rows == old(screen).rows,
            columns == screen.columns == old(screen).columns,
            r <= height,
            forall|yy: int, xx: int|
                0 <= yy < rows && 0 <= xx < columns ==> #[trigger] screen@[yy][xx] == (g[yy][xx] != (
                sprite_bit(mem, gi, wide, gh, gx, gy, xx, yy) && before(gx, gy, r as int, 0, xx, yy))),
            collided == exists|xx: int, yy: int|
                #[trigger] collision_at(g, mem, gi, wide, gh, gx, gy, xx, yy) && before(
                    gx,
                    gy,
                    r as int,
                    0,
                    xx,
                    yy,
                ),
        decreases height - r,
    {
        let mut c: u16 = 0;
        while c < width
            invariant
                screen.wf(),
                memory@.len() == 4096,
                mem == memory@,
                g == old(screen)@,
                gi == i,
                gh == height,
                gx == vx,
                gy == vy,
                width == if wide { 16u16 } else { 8u16 },
                rows == screen.rows == old(screen).rows,
                columns == screen.columns == old(screen).columns,
                r < height,
                c <= width,
                forall|yy: int, xx: int|
                    0 <= yy < rows && 0 <= xx < columns ==> #[trigger] screen@[yy][xx] == (g[yy][xx]
                        != (sprite_bit(mem, gi, wide, gh, gx, gy, xx, yy) && before(
                        gx,
                        gy,
                        r as int,
                        c as int,
                        xx,
                        yy,
                    ))),
                collided == exists|xx: int, yy: int|
                    #[trigger] collision_at(g, mem, gi, wide, gh, gx, gy, xx, yy) && before(
                        gx,
                        gy,
                        r as int,
                        c as int,
                        xx,
                        yy,
                    ),
            decreases width - c,
        {
            let x = vx as u16 + c;
            let y = vy as u16 + r;
            let ghost (px, py) = (x as int, y as int);
            let ghost was = collided;
            if x < columns as u16 && y < rows as u16 {
                let offset = if wide {
                    2 * r + c / 8
                } else {
                    r
                };
                let byte = memory[(i as usize + offset as usize) % 0x1000];
                let set = (byte >> ((7 - c % 8) as u8)) & 1 == 1;
                assert(set == sprite_bit(mem, gi, wide, gh, gx, gy, px, py));
                if set {
                    let p = screen.get_pixel(x as u8, y as u8);
                    if p {
                        collided = true;
                    }
                    screen.set_pixel(x as u8, y as u8, !p);
                }
            }
            proof {
                if collision_at(g, mem, gi, wide, gh, gx, gy, px, py) {
                    assert(collided);
                    assert(before(gx, gy, r as int, c + 1, px, py));
                } else {
                    assert(collided == was);
                }
                assert forall|xx: int, yy: int|
                    #[trigger] collision_at(g, mem, gi, wide, gh, gx, gy, xx, yy) && before(
                        gx,
                        gy,
                        r as int,
                        c + 1,
                        xx,
                        yy,
                    ) && !(xx == px && yy == py) implies before(
                    gx,
                    gy,
                    r as int,
                    c as int,
                    xx,
                    yy,
                ) by {}
            }
            c = c + 1;
        }
        proof {
            assert forall|xx: int, yy: int|
                sprite_bit(mem, gi, wide, gh, gx, gy, xx, yy) implies before(gx, gy, r as int, width as int, xx, yy)
                == before(gx, gy, r + 1, 0, xx, yy) by {}
        }
        r = r + 1;
    }
    proof {
        assert forall|xx: int, yy: int|
            sprite_bit(mem, gi, wide, gh, gx, gy, xx, yy) implies before(gx, gy, gh, 0, xx, yy) by {}
    }
    assert(screen@ =~~= drawn(g, mem, gi, wide, gh, gx, gy));
    collided
}

/// The machine after DXYN.
pub open spec fn drw_vx_vy_n_spec(m: MachineView, ir: Instruction) -> MachineView {
    let m = m;
    let (i, h, x, y) = (m.i as int, ir.n as int, vx(m, ir) as int, vy(m, ir) as int);
    MachineView {
        screen: drawn(m.screen, m.memory, i, false, h, x, y),
        draw_flag: true,
        ..set_v(
            m,
            15,
            if collides(m.screen, m.memory, i, false, h, x, y) {
                1u8
            } else {
                0u8
            },
        )
    }
}

/// Drawing a one-row sprite whose byte is 0xFF onto eight pixels of a row
/// that lie inside the framebuffer: when all eight were on, they all go off
/// and VF = 1; when all eight were off, they all go on and VF = 0.
pub proof fn lemma_full_byte_draw(m: MachineView, ir: Instruction)
    requires
        ir.wf(),
        ir.opcode == 0xD000,
        ir.n == 1,
        m.v.len() == 16,
        m.memory.len() == 4096,
        m.i < 0x1000,
        m.memory[m.i as int] == 0xFF,
        vy(m, ir) < m.screen.len(),
        vx(m, ir) + 8 <= m.screen[vy(m, ir) as int].len(),
    ensures
        (forall|k: int| 0 <= k < 8 ==> #[trigger] m.screen[vy(m, ir) as int][vx(m, ir) + k]) ==> {
            &&& forall|k: int|
                0 <= k < 8 ==> !#[trigger] drw_vx_vy_n_spec(m, ir).screen[vy(m, ir) as int][vx(m, ir) + k]
            &&& drw_vx_vy_n_spec(m, ir).v[15] == 1
        },
        (forall|k: int| 0 <= k < 8 ==> !#[trigger] m.screen[vy(m, ir) as int][vx(m, ir) + k]) ==> {
            &&& forall|k: int|
                0 <= k < 8 ==> #[trigger] drw_vx_vy_n_spec(m, ir).screen[vy(m, ir) as int][vx(m, ir) + k]
            &&& drw_vx_vy_n_spec(m, ir).v[15] == 0
        },
{
    let (i, x0, y0) = (m.i as int, vx(m, ir) as int, vy(m, ir) as int);
    assert(forall|k: u8| k < 8 ==> #[trigger] bit(0xFF, k)) by {
        assert(forall|k: u8| k < 8 ==> (0xFFu8 >> k) & 1u8 == 1u8) by (bit_vector);
    }
    assert(addr(i, 0) == i);
    assert forall|k: int| 0 <= k < 8 implies #[trigger] sprite_bit(m.memory, i, false, 1, x0, y0, x0 + k, y0) by {
        assert(bit(0xFF, (7 - k % 8) as u8));
    }
    if forall|k: int| 0 <= k < 8 ==> #[trigger] m.screen[y0][x0 + k] {
        assert(m.screen[y0][x0 + 0]);
        assert(sprite_bit(m.memory, i, false, 1, x0, y0, x0 + 0, y0));
        assert(collision_at(m.screen, m.memory, i, false, 1, x0, y0, x0 + 0, y0));
    }
    if forall|k: int| 0 <= k < 8 ==> !#[trigger] m.screen[y0][x0 + k] {
        assert forall|x: int, y: int| !#[trigger] collision_at(m.screen, m.memory, i, false, 1, x0, y0, x, y) by {
            if collision_at(m.screen, m.memory, i, false, 1, x0, y0, x, y) {
                assert(m.screen[y0][x0 + (x - x0)]);
            }
        }
    }
}

/// DXYN: draws the N-row sprite at I at (VX, VY), toggling pixels and
/// clipping at the edges; VF = 1 when a pixel was turned off, else 0.
pub fn drw_vx_vy_n(vm: &mut Chip8, ir: &Instruction)
    requires
        ready(old(vm), ir),
    ensures
        final(vm).wf(),
        final(vm)@ == drw_vx_vy_n_spec(old(vm)@, *ir),
{
    let vx = vm.r_v[ir.x as usize];
    let vy = vm.r_v[ir.y as usize];
    let collided = xor_sprite(&mut vm.screen, &vm.memory, vm.r_i, false, ir.n, vx, vy);
    vm.r_v[0xF] = if collided {
        1
    } else {
        0
    };
    vm.draw_flag = true;
}

/// The machine after DXY0 in high resolution.
pub open spec fn s8_drw_vx_vy_0_spec(m: MachineView, ir: Instruction) -> MachineView {
    let m = m;
    let (i, x, y) = (m.i as int, vx(m, ir) as int, vy(m, ir) as int);
    MachineView {
        screen: drawn(m.screen, m.memory, i, true, 16, x, y),
        draw_flag: true,
        ..if collides(m.screen, m.memory, i, true, 16, x, y) {
            set_v(m, 15, 1)
        } else {
            m
        }
    }
}

/// DXY0 in high resolution: draws the 16x16 sprite at I at (VX, VY),
/// toggling pixels and clipping at the edges; VF = 1 when a pixel was
/// turned off, else VF is left alone.
pub fn s8_drw_vx_vy_0(vm: &mut Chip8, ir: &Instruction)
    requires
        ready(old(vm), ir),
    ensures
        final(vm).wf(),
        final(vm)@ == s8_drw_vx_vy_0_spec(old(vm)@, *ir),
{
    let vx = vm.r_v[ir.x as usize];
    let vy = vm.r_v[ir.y as usize];
    let collided = xor_sprite(&mut vm.screen, &vm.memory, vm.r_i, true, 16, vx, vy);
    if collided {
        vm.r_v[0xF] = 1;
    }
    vm.draw_flag = true;
}

} // verus!
