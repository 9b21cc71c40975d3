use emulator::assembler::assemble::{assemble, to_memory};
use emulator::emulator::core_sys::{CoreSys, Fault, DIVIDE_BY_ZERO_INTERRUPT, MEM_SIZE};

fn load(text: &str) -> CoreSys {
    CoreSys::new().load_mem(assemble(text).unwrap())
}

fn run(mut sys: CoreSys) -> CoreSys {
    let mut steps = 0;
    while !sys.halted() {
        sys = sys.step().unwrap();
        assert_eq!(sys.get_reg(15) % 8, 0);
        steps += 1;
        assert!(steps < 100_000);
    }
    sys
}

fn flags(sys: &CoreSys) -> (bool, bool, bool, bool) {
    let f = sys.dump_cpsr();
    (f & 8 != 0, f & 4 != 0, f & 2 != 0, f & 1 != 0)
}

#[test]
fn a_fresh_core_has_pc_zero_and_sp_at_the_end_of_memory() {
    let sys = CoreSys::new();
    assert_eq!(MEM_SIZE, 4096);
    for i in 0..16 {
        let want = if i == 13 { 4096 } else { 0 };
        assert_eq!(sys.get_reg(i), want);
    }
    assert_eq!(sys.dump_cpsr(), 0);
    assert_eq!(sys.dump_mem(), vec![0u8; 4096]);
    assert_eq!(sys.dump_int_table(), Vec::<u64>::new());
    assert_eq!(sys.get_int(), 0);
    assert_eq!(sys.get_int_data(), 0);
    assert_eq!(sys.get_qry(), 0);
    assert!(!sys.halted());
    assert_eq!(sys.dump_common_regs().len(), 16);
}

#[test]
fn load_mem_copies_low_and_clears_the_rest() {
    let sys = CoreSys::new().load_mem(vec![0xff; 4096]).load_mem(vec![1, 2, 3]);
    let mem = sys.dump_mem();
    assert_eq!(mem.len(), 4096);
    assert_eq!(&mem[..4], &[1, 2, 3, 0]);
    assert!(mem[3..].iter().all(|b| *b == 0));
    let mut long = vec![7u8; 5000];
    long[4095] = 9;
    let mem = CoreSys::new().load_mem(long).dump_mem();
    assert_eq!(mem.len(), 4096);
    assert_eq!(mem[4095], 9);
    assert_eq!(mem[0], 7);
}

#[test]
fn add_program_runs_to_halt() {
    let sys = run(load("mov r0,#1\nmov r1,#1\nadd r0,r0,r1\nsubs r1,r1,r0\nhlt"));
    assert_eq!(sys.get_reg(0), 2);
    assert_eq!(sys.get_reg(1), 0xFFFF_FFFF_FFFF_FFFF);
    let (n, z, _, _) = flags(&sys);
    assert!(n);
    assert!(!z);
}

#[test]
fn push_pop_program_restores_sp() {
    let sys = run(load("mov r0,#1\nmov r1,#1\npush r0,r1\npop r2,r3\nhlt"));
    assert_eq!(sys.get_reg(2), 1);
    assert_eq!(sys.get_reg(3), 1);
    assert_eq!(sys.get_reg(13), 4096);
}

#[test]
fn ite_program_takes_the_else_section() {
    let sys = run(load("mov r0,#1\nmov r1,#1\ncmp r0,r1\nite ne\nmov r2,#2\nmov r3,#3\nhlt"));
    assert_ne!(sys.get_reg(2), 2);
    assert_eq!(sys.get_reg(3), 3);
}

#[test]
fn label_and_data_program_loads_the_word() {
    let sys = run(load("b =start\nvalue:\n.word\n1\nstart:\nmov r1, =value\nldr r0, r1\nhlt"));
    assert_eq!(sys.get_reg(0), 1);
    assert_eq!(sys.get_reg(1), 8);
}

#[test]
fn recursive_factorial_program_gives_120() {
    let sys = run(load(
        "
        mov r1, #5
        mov r0, #1
        bl =f
        hlt
        f:
        push lr
        cmp r1, #1
        beq =done
        mul r0, r0, r1
        sub r1, r1, #1
        bl =f
        done:
        pop lr
        b lr
        ",
    ));
    assert_eq!(sys.get_reg(0), 120);
    assert_eq!(sys.get_reg(13), 4096);
}

#[test]
fn interrupt_program_reads_its_data_with_mvi() {
    let mut sys = load("mvi r0\nhlt").set_int_table(vec![0, 0]);
    sys = sys.step().unwrap();
    assert_eq!(sys.get_reg(0), 0);
    sys = sys.interrupt(1, 2);
    assert_eq!(sys.get_int(), 1);
    assert_eq!(sys.get_int_data(), 2);
    sys = run(sys);
    assert_eq!(sys.get_reg(0), 2);
    assert_eq!(sys.dump_int_table(), vec![0, 0]);
}

#[test]
fn a_halted_core_does_not_move() {
    let sys = run(load("mov r0, #3\nhlt\nmov r0, #4"));
    assert!(sys.halted());
    let pc = sys.get_reg(15);
    let regs = sys.dump_common_regs();
    let sys = sys.step().unwrap().step().unwrap();
    assert!(sys.halted());
    assert_eq!(sys.get_reg(15), pc);
    assert_eq!(sys.dump_common_regs(), regs);
    // not even for a pending interrupt
    let sys = sys.interrupt(1, 1).step().unwrap();
    assert_eq!(sys.get_reg(15), pc);
    assert_eq!(sys.get_int(), 1);
}

#[test]
fn a_pending_interrupt_is_dispatched_before_any_fetch() {
    let mut sys = load("mov r0, #1\nmov r1, #1\nhlt").set_int_table(vec![0, 64, 16]);
    sys = sys.step().unwrap();
    assert_eq!(sys.get_reg(15), 8);
    sys = sys.interrupt(2, 77);
    sys = sys.step().unwrap();
    assert_eq!(sys.get_reg(14), 8);
    assert_eq!(sys.get_reg(15), 16);
    assert_eq!(sys.get_int(), 0);
    assert_eq!(sys.get_int_data(), 77);
    assert_eq!(sys.get_reg(1), 0);
    sys = sys.step().unwrap();
    assert!(sys.halted());
}

#[test]
fn an_interrupt_without_a_handler_jumps_to_address_zero() {
    let mut sys = load("nop\nnop\nhlt");
    sys = sys.step().unwrap();
    sys = sys.interrupt(5, 0).step().unwrap();
    assert_eq!(sys.get_reg(15), 0);
    assert_eq!(sys.get_reg(14), 8);
    assert_eq!(sys.get_int(), 0);
    let mut sys = load("nop\nnop\nhlt").set_int_table(vec![40]);
    sys = sys.interrupt(u64::MAX, 0).step().unwrap();
    assert_eq!(sys.get_reg(15), 0);
    // a later injection replaces an earlier one
    let sys = load("nop").set_int_table(vec![0, 8, 16]).interrupt(1, 10).interrupt(2, 20);
    assert_eq!(sys.get_int(), 2);
    assert_eq!(sys.get_int_data(), 20);
    assert_eq!(sys.step().unwrap().get_reg(15), 16);
}

#[test]
fn division_by_zero_latches_its_interrupt() {
    assert_eq!(DIVIDE_BY_ZERO_INTERRUPT, 1);
    let mut sys = load("mov r1, #7\ndivs r2, r1, r0\nhlt\nmov r5, #5\nhlt").set_int_table(vec![0, 24]);
    sys = sys.step().unwrap();
    sys = sys.step().unwrap();
    assert_eq!(sys.get_int(), 1);
    assert_eq!(sys.get_reg(2), 0);
    assert_eq!(sys.dump_cpsr(), 0);
    sys = sys.step().unwrap();
    assert_eq!(sys.get_reg(15), 24);
    assert_eq!(sys.get_reg(14), 16);
    sys = run(sys);
    assert_eq!(sys.get_reg(5), 5);
    for op in ["sdiv", "modu", "smodu"] {
        let text = format!("mov r1, #7\n{} r2, r1, r0\nhlt", op);
        let sys = load(&text).step().unwrap().step().unwrap();
        assert_eq!(sys.get_int(), 1);
    }
}

#[test]
fn the_int_instruction_latches_the_value_of_its_register() {
    let mut sys = load("mov r1, #2\nint r1, #9\nhlt\nhlt\nmvi r4\nhlt").set_int_table(vec![0, 0, 32]);
    sys = sys.step().unwrap().step().unwrap();
    assert_eq!(sys.get_int(), 2);
    assert_eq!(sys.get_int_data(), 9);
    sys = run(sys);
    assert_eq!(sys.get_reg(4), 9);
    assert_eq!(sys.get_reg(14), 16);
}

#[test]
fn qry_publishes_its_operand() {
    let sys = run(load("mov r3, #41\nqry r3\nhlt"));
    assert_eq!(sys.get_qry(), 41);
    let sys = run(load("qry #7\nhlt"));
    assert_eq!(sys.get_qry(), 7);
}

#[test]
fn an_unknown_opcode_aborts_the_step() {
    let word: u64 = 0xE300_8000_0000_0010;
    let sys = CoreSys::new().load_mem(to_memory(vec![word]));
    assert_eq!(sys.step().err(), Some(Fault::InvalidOpcode(0x3008)));
    let sys = CoreSys::new().load_mem(to_memory(vec![u64::MAX]));
    assert_eq!(sys.step().err(), Some(Fault::InvalidOpcode(0x3fff)));
}

#[test]
fn condition_code_15_aborts_the_step_except_for_nop_and_hlt() {
    let sys = CoreSys::new().load_mem(to_memory(vec![0xF500_0100_0000_0001]));
    assert_eq!(sys.step().err(), Some(Fault::InvalidCondition(15)));
    let sys = CoreSys::new().load_mem(to_memory(vec![0xF000_0000_0000_0000]));
    let sys = sys.step().unwrap();
    assert_eq!(sys.get_reg(15), 8);
    let sys = CoreSys::new().load_mem(to_memory(vec![0xF000_1000_0000_0000]));
    assert!(sys.step().unwrap().halted());
}

#[test]
fn an_instruction_without_the_s_bit_leaves_the_flags() {
    let mut sys = load("subs r0, r0, #1\nadd r1, r1, #0\nmov r2, #0\nmul r3, r3, r3\nldr r4, r5\nhlt");
    sys = sys.step().unwrap();
    let after_subs = sys.dump_cpsr();
    assert_eq!(after_subs, 0b1010);
    while !sys.halted() {
        sys = sys.step().unwrap();
        assert_eq!(sys.dump_cpsr(), after_subs);
    }
}

#[test]
fn compare_instructions_change_no_register_but_pc() {
    for op in ["cmp", "cmn", "tst", "teq"] {
        let text = format!("mov r0, #5\nmov r1, #9\n{} r0, r1\n{} r1, #3\nhlt", op, op);
        let mut sys = load(&text);
        sys = sys.step().unwrap().step().unwrap();
        let before = sys.dump_common_regs();
        sys = sys.step().unwrap();
        let after = sys.dump_common_regs();
        assert_eq!(&before[..15], &after[..15]);
        assert_eq!(after[15], before[15] + 8);
        sys = sys.step().unwrap();
        assert_eq!(&sys.dump_common_regs()[..15], &before[..15]);
    }
    let sys = run(load("mov r0, #5\ncmp r0, #5\nhlt"));
    assert_eq!(sys.dump_cpsr(), 0b0100);
    let sys = run(load("mov r0, #5\ncmp r0, #6\nhlt"));
    assert_eq!(sys.dump_cpsr(), 0b1010);
    let sys = run(load("mov r0, #6\ntst r0, #1\nhlt"));
    assert_eq!(sys.dump_cpsr(), 0b0100);
    let sys = run(load("mov r0, #6\nteq r0, #6\nhlt"));
    assert_eq!(sys.dump_cpsr(), 0b0100);
}

#[test]
fn bl_links_whether_or_not_its_condition_holds() {
    let mut sys = load("nop\nbl =far\nhlt\nfar:\nhlt");
    sys = sys.step().unwrap().step().unwrap();
    assert_eq!(sys.get_reg(14), 16);
    assert_eq!(sys.get_reg(15), 24);
    // Z is set, so `eq` holds and `ne` does not
    let mut taken = load("subs r0, r0, #0\nbleq =far\nhlt\nfar:\nhlt");
    taken = taken.step().unwrap().step().unwrap();
    assert_eq!(taken.get_reg(15), 24);
    assert_eq!(taken.get_reg(14), 16);
    let mut skipped = load("subs r0, r0, #0\nblne =far\nhlt\nfar:\nhlt");
    skipped = skipped.step().unwrap().step().unwrap();
    assert_eq!(skipped.get_reg(15), 16);
    assert_eq!(skipped.get_reg(14), 16);
}

#[test]
fn push_then_pop_restores_the_register_and_sp() {
    for r in [0u64, 1, 5, 12, 14] {
        let text = format!("mov r{}, #77\npush r{}\npop r{}\nhlt", r, r, r);
        let mut sys = load(&text);
        sys = sys.step().unwrap();
        let sp = sys.get_reg(13);
        sys = sys.step().unwrap();
        assert_eq!(sys.get_reg(13), sp - 8);
        let mem = sys.dump_mem();
        let at = (sp - 8) as usize;
        assert_eq!(&mem[at..at + 8], &77u64.to_be_bytes());
        sys = sys.step().unwrap();
        assert_eq!(sys.get_reg(r), 77);
        assert_eq!(sys.get_reg(13), sp);
    }
}

#[test]
fn push_moves_sp_even_if_its_condition_fails() {
    let mut sys = load("mov r1, #5\nsubs r0, r0, #0\npushne r1\nhlt");
    sys = sys.step().unwrap().step().unwrap().step().unwrap();
    assert_eq!(sys.get_reg(13), 4096 - 8);
    assert_eq!(sys.dump_mem()[4088..], [0u8; 8]);
    let mut sys = load("mov r1, #5\nsubs r0, r0, #0\npusheq r1\nhlt");
    sys = sys.step().unwrap().step().unwrap().step().unwrap();
    assert_eq!(sys.get_reg(13), 4096 - 8);
    assert_eq!(sys.dump_mem()[4088..], [0u8, 0, 0, 0, 0, 0, 0, 5]);
}

#[test]
fn stores_and_loads_use_base_plus_offset_times_scale() {
    let sys = run(load(
        "mov r0, #1024\nmov r1, #3\nmov r2, #99\nstr r2, r0, r1, #8\nldr r3, r0, r1, #8\nmov r4, #8\nldr r5, r0, r1, r4\nldr r6, r0\nhlt",
    ));
    assert_eq!(sys.get_reg(3), 99);
    assert_eq!(sys.get_reg(5), 99);
    assert_eq!(sys.get_reg(6), 0);
    let mem = sys.dump_mem();
    assert_eq!(&mem[1048..1056], &[0, 0, 0, 0, 0, 0, 0, 99]);
}

#[test]
fn a_fetch_beyond_the_memory_wraps_to_its_start() {
    // hlt in the first word; every other word is zero, which is a nop
    let mut image = vec![0u8; 4096];
    image[..8].copy_from_slice(&0xE000_1000_0000_0000u64.to_be_bytes());
    let mut sys = CoreSys::new().load_mem(image).set_int_table(vec![0, 4088]);
    sys = sys.interrupt(1, 0).step().unwrap();
    assert_eq!(sys.get_reg(15), 4088);
    sys = sys.step().unwrap();
    assert_eq!(sys.get_reg(15), 4096);
    assert!(!sys.halted());
    sys = sys.step().unwrap();
    assert!(sys.halted());
    assert_eq!(sys.get_reg(15), 4104);
}

#[test]
fn set_pc_sp_resets_pc_and_sp_only() {
    let sys = run(load("mov r0, #3\nmov sp, #64\nhlt")).set_pc_sp();
    assert_eq!(sys.get_reg(15), 0);
    assert_eq!(sys.get_reg(13), 4096);
    assert_eq!(sys.get_reg(0), 3);
    assert!(sys.halted());
}

#[test]
fn get_next_instr_reads_the_word_at_pc() {
    let mut sys = load("mov r1, #1\nhlt");
    assert_eq!(sys.get_next_instr(), 0xE500_0100_0000_0001);
    sys = sys.step().unwrap();
    assert_eq!(sys.get_next_instr(), 0xE000_1000_0000_0000);
}

#[test]
fn the_stages_of_one_instruction_can_be_run_one_by_one() {
    let mut sys = load("mov r0, #1024\nmov r1, #9\nstr r1, r0\nhlt");
    sys = sys.step().unwrap().step().unwrap();
    sys = sys.fetch();
    assert_eq!(sys.instr.get(), 0xE600_1100_0000_0000);
    assert_eq!(sys.get_reg(15), 24);
    sys = sys.decode().unwrap();
    assert_eq!(sys.op.get(), 0x2001);
    assert_eq!(sys.cond.get(), 14);
    assert_eq!(sys.r_d_mem.get(), 1);
    assert_eq!(sys.r_a.get(), 0);
    assert!(sys.r_c_imm.get());
    assert!(sys.write_regs.get());
    assert!(!sys.write_flags.get());
    sys = sys.read_reg();
    assert_eq!(sys.out_m_b.get(), 1024);
    assert_eq!(sys.out_m_o.get(), 1024);
    assert_eq!(sys.out_m_s.get(), 0);
    assert_eq!(sys.out_d_mem.get(), 9);
    sys = sys.execute();
    assert_eq!(sys.data_bus.get(), 9);
    sys = sys.mem();
    assert_eq!(sys.addr_bus.get(), 1024);
    assert_eq!(&sys.dump_mem()[1024..1032], &9u64.to_be_bytes());
    sys = sys.write_back();
    assert_eq!(sys.get_reg(1), 9);
    let bad = CoreSys::new().load_mem(to_memory(vec![0xE300_8000_0000_0010])).fetch();
    assert_eq!(bad.decode().err(), Some(Fault::InvalidOpcode(0x3008)));
}
