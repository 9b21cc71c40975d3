use vstd::prelude::*;
use crate::emulator::alu::{alu_flags, alu_result, alu_trap, word_of, Alu};
use crate::emulator::cpsr::Cpsr;
use crate::emulator::decoder::Decoder;
use crate::emulator::instr::{decode_op, decode_op_type, Instr, Operation, OperationType};
use crate::emulator::mem::{store_word, word_at, Mem};
use crate::emulator::mem_addr_calculator::{effective_address, MemAddressCalculator};
use crate::emulator::reg_file::{condition_holds, RegFile, LR, PC, SP};
use crate::emulator::wire::{SingleWire, Wire};

verus! {

/// The size of the core's memory in bytes.
pub const MEM_SIZE: usize = 4096;

/// The interrupt that a division or remainder by zero raises.
pub const DIVIDE_BY_ZERO_INTERRUPT: u64 = 1;

/// Why a step was aborted.
#[derive(Clone, Copy, Debug, PartialEq, Eq, Structural)]
pub enum Fault {
    /// The fetched word holds an opcode that names no operation.
    InvalidOpcode(u64),
    /// The fetched word holds the condition code 15.
    InvalidCondition(u64),
}

/// Everything a core holds: registers, flags, memory, the interrupt table and
/// the values on the wires between the stages.
pub ghost struct CoreState {
    pub regs: Seq<u64>,
    pub cpsr: Cpsr,
    pub mem: Seq<u8>,
    pub int_table: Seq<u64>,
    pub op: u64,
    pub cond: u64,
    pub r_a: u64,
    pub r_b: u64,
    pub r_c: u64,
    pub r_c_imm: bool,
    pub r_d_mem: u64,
    pub out_a: u64,
    pub out_b: u64,
    pub out_c: u64,
    pub out_d_mem: u64,
    pub out_m_b: u64,
    pub out_m_o: u64,
    pub out_m_s: u64,
    pub addr_bus: u64,
    pub data_bus: u64,
    pub instr: u64,
    pub pc_mem: u64,
    pub write_flags: bool,
    pub write_regs: bool,
    pub int_data: u64,
    pub latch: u64,
    pub query: u64,
}

/// The handler address of interrupt `num`: its entry in the table, or 0 if
/// the table has none.
pub open spec fn handler_address(table: Seq<u64>, num: u64) -> u64 {
    if num < table.len() {
        table[num as int]
    } else {
        0
    }
}

impl CoreState {
    /// Sixteen registers, a full-size memory, register indices in range and
    /// a decoded opcode that names an operation.
    pub open spec fn wf(self) -> bool {
        &&& self.regs.len() == 16
        &&& self.mem.len() == MEM_SIZE
        &&& self.r_a < 16
        &&& self.r_b < 16
        &&& self.r_d_mem < 16
        &&& (!self.r_c_imm ==> self.r_c < 16)
        &&& Operation::of_code(self.op) is Some
    }

    /// The operation decoded last.
    pub open spec fn operation(self) -> Operation {
        Operation::of_code(self.op)->0
    }

    /// Whether the operation decoded last was `hlt`.
    pub open spec fn halted(self) -> bool {
        self.op == Operation::Hlt.code()
    }

    /// A fresh core: `pc` is 0, `sp` is the memory size, everything else is zero.
    pub open spec fn initial() -> CoreState {
        CoreState {
            regs: Seq::new(16, |i: int| if i == 13 { MEM_SIZE as u64 } else { 0u64 }),
            cpsr: Cpsr::clear(),
            mem: Seq::new(MEM_SIZE as nat, |i: int| 0u8),
            int_table: Seq::empty(),
            op: 0,
            cond: 0,
            r_a: 0,
            r_b: 0,
            r_c: 0,
            r_c_imm: false,
            r_d_mem: 0,
            out_a: 0,
            out_b: 0,
            out_c: 0,
            out_d_mem: 0,
            out_m_b: 0,
            out_m_o: 0,
            out_m_s: 0,
            addr_bus: 0,
            data_bus: 0,
            instr: 0,
            pc_mem: 0,
            write_flags: false,
            write_regs: false,
            int_data: 0,
            latch: 0,
            query: 0,
        }
    }

    /// The state with `bytes` copied to the start of a cleared memory; bytes
    /// beyond the memory's size are dropped.
    pub open spec fn loaded(self, bytes: Seq<u8>) -> CoreState {
        CoreState {
            mem: Seq::new(
                MEM_SIZE as nat,
                |i: int| if i < bytes.len() { bytes[i] } else { 0u8 },
            ),
            ..self
        }
    }

    /// Fetch: the word at `pc` goes to the instruction wire; `pc` advances by 8.
    pub open spec fn fetched(self) -> CoreState {
        CoreState {
            instr: word_at(self.mem, self.regs[15]),
            regs: self.regs.update(15, word_of(self.regs[15] + 8)),
            ..self
        }
    }

    /// Decode: the fields of the fetched word go to the wires. A branch
    /// writes back to `pc`; `bl` copies `pc` into `lr`; `push` moves `sp`
    /// down by 8; the compare operations switch register writeback off.
    pub open spec fn decoded(self) -> Result<CoreState, Fault> {
        let i = Instr::of_word(self.instr);
        match Operation::of_code(i.op_code) {
            None => Err(Fault::InvalidOpcode(i.op_code)),
            Some(op) => {
                let linked = if op == Operation::Bl {
                    self.regs.update(14, self.regs[15])
                } else {
                    self.regs
                };
                let regs = if op == Operation::Push {
                    linked.update(13, word_of(linked[13] - 8))
                } else {
                    linked
                };
                Ok(
                    CoreState {
                        op: i.op_code,
                        cond: i.cond_code,
                        r_d_mem: if op == Operation::B || op == Operation::Bl {
                            15
                        } else {
                            i.reg_d_mem
                        },
                        r_a: i.reg_a,
                        r_b: i.reg_b,
                        r_c: i.reg_c,
                        r_c_imm: i.c_is_imm,
                        write_flags: i.set_flags,
                        write_regs: !op.is_compare(),
                        regs,
                        ..self
                    },
                )
            },
        }
    }

    /// The C operand: the immediate, or the register it names.
    pub open spec fn operand_c(self) -> u64 {
        if self.r_c_imm {
            self.r_c
        } else {
            self.regs[self.r_c as int]
        }
    }

    /// Read registers: a memory operation reads base, offset, scale and the
    /// data register; every other operation reads its A, B and C operands.
    pub open spec fn operands_read(self) -> CoreState {
        if OperationType::of_code(self.op) == OperationType::Mem {
            CoreState {
                out_m_b: self.regs[self.r_a as int],
                out_m_o: self.regs[self.r_b as int],
                out_m_s: self.operand_c(),
                out_d_mem: self.regs[self.r_d_mem as int],
                ..self
            }
        } else {
            CoreState {
                out_a: self.regs[self.r_a as int],
                out_b: self.regs[self.r_b as int],
                out_c: self.operand_c(),
                ..self
            }
        }
    }

    /// Execute: a memory operation puts its data register on the data bus.
    /// Every other operation runs the ALU on B and C: the result goes to the
    /// data bus, the flags to CPSR if the instruction sets flags, and a trap
    /// latches the divide-by-zero interrupt. `mvi` then puts the interrupt
    /// data on the data bus; `qry` publishes the data bus.
    pub open spec fn executed(self) -> CoreState {
        let op = self.operation();
        let ran = if OperationType::of_code(self.op) == OperationType::Mem {
            CoreState { data_bus: self.out_d_mem, ..self }
        } else {
            CoreState {
                latch: if alu_trap(op, self.out_b, self.out_c) {
                    DIVIDE_BY_ZERO_INTERRUPT
                } else {
                    self.latch
                },
                data_bus: alu_result(op, self.out_b, self.out_c),
                cpsr: if self.write_flags {
                    alu_flags(op, self.out_b, self.out_c)
                } else {
                    self.cpsr
                },
                ..self
            }
        };
        if op == Operation::Mvi {
            CoreState { data_bus: ran.int_data, ..ran }
        } else if op == Operation::Qry {
            CoreState { query: ran.data_bus, ..ran }
        } else {
            ran
        }
    }

    /// Memory stage: the address is base + offset * scale. `ldr` and `pop`
    /// read a word onto the data bus, `str` and `push` store the data bus;
    /// `push` and `pop` use `sp` as the address.
    pub open spec fn memory_accessed(self) -> CoreState {
        let addr = effective_address(self.out_m_b, self.out_m_o, self.out_m_s);
        let s = CoreState { addr_bus: addr, ..self };
        match self.operation() {
            Operation::Ldr => CoreState { data_bus: word_at(s.mem, addr), ..s },
            Operation::Str => CoreState { mem: store_word(s.mem, addr, s.data_bus), ..s },
            Operation::Push => CoreState {
                mem: store_word(s.mem, s.regs[13], s.data_bus),
                ..s
            },
            Operation::Pop => CoreState { data_bus: word_at(s.mem, s.regs[13]), ..s },
            _ => s,
        }
    }

    /// Writeback: `pop` moves `sp` up by 8; then the data bus goes to the
    /// destination register.
    pub open spec fn written_back(self) -> CoreState {
        let regs = if self.operation() == Operation::Pop {
            self.regs.update(13, word_of(self.regs[13] + 8))
        } else {
            self.regs
        };
        CoreState { regs: regs.update(self.r_d_mem as int, self.data_bus), ..self }
    }

    /// The state with interrupt `num` and its data word latched.
    pub open spec fn interrupted(self, num: u64, data: u64) -> CoreState {
        CoreState { latch: num, int_data: data, ..self }
    }

    /// The state after the pending interrupt was dispatched: `lr` takes `pc`,
    /// `pc` takes the handler's address, the latch is cleared.
    pub open spec fn dispatched(self) -> CoreState {
        CoreState {
            regs: self.regs.update(14, self.regs[15]).update(
                15,
                handler_address(self.int_table, self.latch),
            ),
            latch: 0,
            ..self
        }
    }

    /// What follows the condition check of a decoded instruction whose
    /// operands were read, when the condition holds.
    pub open spec fn committed(self) -> CoreState {
        if self.operation() == Operation::Int {
            self.interrupted(self.out_b, self.out_c)
        } else {
            let e = self.executed();
            let m = if OperationType::of_code(e.op) == OperationType::Mem {
                e.memory_accessed()
            } else {
                e
            };
            if m.write_regs {
                m.written_back()
            } else {
                m
            }
        }
    }

    /// One step of the core.
    pub open spec fn stepped(self) -> Result<CoreState, Fault> {
        if self.halted() {
            Ok(self)
        } else if self.latch != 0 {
            Ok(self.dispatched())
        } else {
            match self.fetched().decoded() {
                Err(f) => Err(f),
                Ok(d) => if d.operation() == Operation::Nop || d.operation() == Operation::Hlt {
                    Ok(d)
                } else {
                    let r = d.operands_read();
                    match condition_holds(r.cpsr, r.cond) {
                        None => Err(Fault::InvalidCondition(r.cond)),
                        Some(false) => Ok(r),
                        Some(true) => Ok(r.committed()),
                    }
                },
            }
        }
    }
}

/// The core: the wires between the stages, and the components they connect.
pub struct CoreSys {
    pub op: Wire,
    pub cond: Wire,
    pub r_a: Wire,
    pub r_b: Wire,
    pub r_c: Wire,
    pub r_c_imm: SingleWire,
    pub r_d_mem: Wire,
    pub out_a: Wire,
    pub out_b: Wire,
    pub out_c: Wire,
    pub out_d_mem: Wire,
    pub out_m_b: Wire,
    pub out_m_o: Wire,
    pub out_m_s: Wire,
    pub addr_bus: Wire,
    pub data_bus: Wire,
    pub instr: Wire,
    pub pc_mem: Wire,
    pub write_flags: SingleWire,
    pub write_regs: SingleWire,
    pub int_data: Wire,
    pub latch: Wire,
    pub query: Wire,
    int_table: Vec<u64>,
    memory: Mem,
    decoder: Decoder,
    alu: Alu,
    mem_cal: MemAddressCalculator,
    reg_file: RegFile,
}

impl View for CoreSys {
    type V = CoreState;

    closed spec fn view(&self) -> CoreState {
        CoreState {
            regs: self.reg_file@.regs,
            cpsr: self.reg_file@.cpsr,
            mem: self.memory@,
            int_table: self.int_table@,
            op: self.op@,
            cond: self.cond@,
            r_a: self.r_a@,
            r_b: self.r_b@,
            r_c: self.r_c@,
            r_c_imm: self.r_c_imm@,
            r_d_mem: self.r_d_mem@,
            out_a: self.out_a@,
            out_b: self.out_b@,
            out_c: self.out_c@,
            out_d_mem: self.out_d_mem@,
            out_m_b: self.out_m_b@,
            out_m_o: self.out_m_o@,
            out_m_s: self.out_m_s@,
            addr_bus: self.addr_bus@,
            data_bus: self.data_bus@,
            instr: self.instr@,
            pc_mem: self.pc_mem@,
            write_flags: self.write_flags@,
            write_regs: self.write_regs@,
            int_data: self.int_data@,
            latch: self.latch@,
            query: self.query@,
        }
    }
}

fn zeroed_memory() -> (v: Vec<u8>)
    ensures
        v@ == Seq::new(MEM_SIZE as nat, |i: int| 0u8),
{
    let mut v: Vec<u8> = Vec::new();
    let mut i: usize = 0;
    while i < MEM_SIZE
        invariant
            i <= MEM_SIZE,
            v@.len() == i,
            forall|j: int| 0 <= j < i ==> v@[j] == 0,
        decreases MEM_SIZE - i,
    {
        v.push(0);
        i = i + 1;
    }
    assert(v@ =~= Seq::new(MEM_SIZE as nat, |i: int| 0u8));
    v
}

impl CoreSys {
    /// The state is well formed.
    pub open spec fn wf(&self) -> bool {
        self@.wf()
    }

    /// A fresh core: `pc` is 0, `sp` is the memory size, flags clear.
    pub fn new() -> (r: CoreSys)
        ensures
            r.wf(),
            r@ == CoreState::initial(),
    {
        let ret = CoreSys {
            op: Wire::new(),
            cond: Wire::new(),
            r_a: Wire::new(),
            r_b: Wire::new(),
            r_c: Wire::new(),
            r_c_imm: SingleWire::new(),
            r_d_mem: Wire::new(),
            out_a: Wire::new(),
            out_b: Wire::new(),
            out_c: Wire::new(),
            out_d_mem: Wire::new(),
            out_m_b: Wire::new(),
            out_m_o: Wire::new(),
            out_m_s: Wire::new(),
            addr_bus: Wire::new(),
            data_bus: Wire::new(),
            instr: Wire::new(),
            write_flags: SingleWire::new(),
            pc_mem: Wire::new(),
            write_regs: SingleWire::new(),
            int_data: Wire::new(),
            latch: Wire::new(),
            query: Wire::new(),
            int_table: Vec::new(),
            memory: Mem::new(zeroed_memory()),
            decoder: Decoder::new(),
            alu: Alu::new(),
            mem_cal: MemAddressCalculator::new(),
            reg_file: RegFile::new(),
        };
        let ret = ret.set_pc_sp();
        assert(ret@.regs =~= CoreState::initial().regs);
        assert(ret@.int_table =~= CoreState::initial().int_table);
        ret
    }

    /// A copy of the memory.
    pub fn dump_mem(&self) -> (bytes: Vec<u8>)
        ensures
            bytes@ == self@.mem,
    {
        self.memory.dump()
    }

    /// The sixteen registers, in order.
    pub fn dump_common_regs(&self) -> (regs: Vec<u64>)
        ensures
            regs@ == self@.regs,
    {
        self.reg_file.dump_common()
    }

    /// The flags packed as a nibble: N at bit 3, Z at bit 2, C at bit 1, V at bit 0.
    pub fn dump_cpsr(&self) -> (r: u8)
        ensures
            r == self@.cpsr.nibble(),
    {
        self.reg_file.dump_cpsr()
    }

    /// The fetch stage.
    pub fn fetch(self) -> (r: CoreSys)
        requires
            self.wf(),
        ensures
            r.wf(),
            r@ == self@.fetched(),
    {
        let mut s = self;
        s.instr = s.instr.set(s.memory.get_word(s.reg_file.get_pc()));
        s.reg_file = s.reg_file.next_pc();
        s
    }

    /// Installs the interrupt handlers' addresses.
    pub fn set_int_table(self, table: Vec<u64>) -> (r: CoreSys)
        ensures
            r@ == (CoreState { int_table: table@, ..self@ }),
            self.wf() ==> r.wf(),
    {
        let mut s = self;
        s.int_table = table;
        s
    }

    /// The decode stage. Fails, with the opcode, if and only if the fetched
    /// word's opcode names no operation.
    pub fn decode(self) -> (r: Result<CoreSys, Fault>)
        requires
            self.wf(),
        ensures
            match r {
                Ok(c) => c.wf() && self@.decoded() == Ok::<CoreState, Fault>(c@),
                Err(f) => self@.decoded() == Err::<CoreState, Fault>(f),
            },
    {
        let mut s = self;
        let instr = s.decoder.decode(s.instr.get());
        let decoded_op = match decode_op(instr.op_code) {
            Some(op) => op,
            None => { return Err(Fault::InvalidOpcode(instr.op_code)); },
        };
        s.op = s.op.set(instr.op_code);
        s.cond = s.cond.set(instr.cond_code);
        s.r_d_mem = s.r_d_mem.set(instr.reg_d_mem);
        s.r_a = s.r_a.set(instr.reg_a);
        s.r_b = s.r_b.set(instr.reg_b);
        s.r_c = s.r_c.set(instr.reg_c);
        s.r_c_imm = s.r_c_imm.set(instr.c_is_imm);
        s.write_flags = s.write_flags.set(instr.set_flags);
        if decoded_op == Operation::B {
            s.r_d_mem = s.r_d_mem.set(PC as u64);
        } else if decoded_op == Operation::Bl {
            s.reg_file = s.reg_file.set_lr();
            s.r_d_mem = s.r_d_mem.set(PC as u64);
        }
        if decoded_op == Operation::Push {
            let next_sp = s.reg_file.get(SP as u64).wrapping_sub(8);
            s.reg_file = s.reg_file.set(SP as u64, next_sp);
        }
        s.write_regs = s.write_regs.set(
            !(decoded_op == Operation::Cmp || decoded_op == Operation::Cmn || decoded_op
                == Operation::Teq || decoded_op == Operation::Tst),
        );
        Ok(s)
    }

    /// The stage that reads the operands from the register file.
    pub fn read_reg(self) -> (r: CoreSys)
        requires
            self.wf(),
        ensures
            r.wf(),
            r@ == self@.operands_read(),
    {
        let mut s = self;
        let op_type: OperationType = decode_op_type(s.op.get());
        match op_type {
            OperationType::DataProc | OperationType::Special | OperationType::Branch => {
                s.out_a = s.out_a.set(s.reg_file.get(s.r_a.get()));
                s.out_b = s.out_b.set(s.reg_file.get(s.r_b.get()));
                s.out_c = s.out_c.set(s.reg_file.get_imm(s.r_c.get(), s.r_c_imm.get()));
            },
            OperationType::Mem => {
                s.out_m_b = s.out_m_b.set(s.reg_file.get(s.r_a.get()));
                s.out_m_o = s.out_m_o.set(s.reg_file.get(s.r_b.get()));
                s.out_m_s = s.out_m_s.set(s.reg_file.get_imm(s.r_c.get(), s.r_c_imm.get()));
                s.out_d_mem = s.out_d_mem.set(s.reg_file.get(s.r_d_mem.get()));
            },
        }
        s
    }

    /// The execute stage.
    pub fn execute(self) -> (r: CoreSys)
        requires
            self.wf(),
        ensures
            r.wf(),
            r@ == self@.executed(),
    {
        let mut s = self;
        let code_type = decode_op_type(s.op.get());
        if code_type == OperationType::Mem {
            s.data_bus = s.data_bus.set(s.out_d_mem.get());
        } else {
            let (result, flags, interruption) = s.alu.cal(
                s.op.get(),
                s.out_b.get(),
                s.out_c.get(),
            );
            if interruption != 0 {
                s.latch = s.latch.set(DIVIDE_BY_ZERO_INTERRUPT);
            }
            s.data_bus = s.data_bus.set(result);
            if s.write_flags.get() {
                proof {
                    alu_flags(s@.operation(), s.out_b@, s.out_c@).lemma_nibble_round_trip();
                }
                s.reg_file = s.reg_file.set_cpsr(flags);
            }
        }
        let op = decode_op(s.op.get());
        if op == Some(Operation::Mvi) {
            s.data_bus = s.data_bus.set(s.int_data.get());
        } else if op == Some(Operation::Qry) {
            s.query = s.query.set(s.data_bus.get());
        }
        s
    }

    /// The memory stage.
    pub fn mem(self) -> (r: CoreSys)
        requires
            self.wf(),
        ensures
            r.wf(),
            r@ == self@.memory_accessed(),
    {
        let mut s = self;
        s.addr_bus = s.addr_bus.set(
            s.mem_cal.calculate(s.out_m_b.get(), s.out_m_o.get(), s.out_m_s.get()),
        );
        let op_code = decode_op(s.op.get());
        match op_code {
            Some(Operation::Ldr) => {
                s.data_bus = s.data_bus.set(s.memory.get_word(s.addr_bus.get()));
            },
            Some(Operation::Str) => {
                s.memory = s.memory.set_word(s.addr_bus.get(), s.data_bus.get());
            },
            Some(Operation::Push) => {
                s.memory = s.memory.set_word(s.reg_file.get(SP as u64), s.data_bus.get());
            },
            Some(Operation::Pop) => {
                s.data_bus = s.data_bus.set(s.memory.get_word(s.reg_file.get(SP as u64)));
            },
            _ => {},
        }
        s
    }

    /// Latches interrupt `num` with its data word; the next step dispatches it.
    pub fn interrupt(self, num: u64, data: u64) -> (r: CoreSys)
        ensures
            r@ == self@.interrupted(num, data),
            self.wf() ==> r.wf(),
    {
        let mut s = self;
        s.latch = s.latch.set(num);
        s.int_data = s.int_data.set(data);
        s
    }

    /// The writeback stage.
    pub fn write_back(self) -> (r: CoreSys)
        requires
            self.wf(),
        ensures
            r.wf(),
            r@ == self@.written_back(),
    {
        let mut s = self;
        let op = decode_op(s.op.get());
        if op == Some(Operation::Pop) {
            let next_sp = s.reg_file.get(SP as u64).wrapping_add(8);
            s.reg_file = s.reg_file.set(SP as u64, next_sp);
        }
        s.reg_file = s.reg_file.set(s.r_d_mem.get(), s.data_bus.get());
        s
    }

    /// Copies `val` to the start of a cleared memory; bytes beyond the
    /// memory's size are dropped.
    pub fn load_mem(self, val: Vec<u8>) -> (r: CoreSys)
        ensures
            r@ == self@.loaded(val@),
            self.wf() ==> r.wf(),
    {
        let mut s = self;
        let mut loaded_mem = zeroed_memory();
        let mut i: usize = 0;
        while i < val.len() && i < MEM_SIZE
            invariant
                loaded_mem@.len() == MEM_SIZE,
                i <= val@.len(),
                i <= MEM_SIZE,
                forall|j: int| 0 <= j < i ==> loaded_mem@[j] == val@[j],
                forall|j: int| i <= j < MEM_SIZE ==> loaded_mem@[j] == 0,
            decreases MEM_SIZE - i,
        {
            loaded_mem.set(i, val[i]);
            i = i + 1;
        }
        assert(loaded_mem@ =~= self@.loaded(val@).mem);
        s.memory = Mem::new(loaded_mem);
        s
    }

    /// Sets `pc` to 0 and `sp` to the memory's size.
    pub fn set_pc_sp(self) -> (r: CoreSys)
        requires
            self@.regs.len() == 16,
        ensures
            r@ == (CoreState {
                regs: self@.regs.update(15, 0).update(13, self@.mem.len() as u64),
                ..self@
            }),
            self.wf() ==> r.wf(),
    {
        let mut s = self;
        s.reg_file = s.reg_file.set(PC as u64, 0);
        let size = s.memory.get_size() as u64;
        s.reg_file = s.reg_file.set(SP as u64, size);
        s
    }

    /// Whether the operation decoded last was `hlt`.
    pub fn halted(&self) -> (r: bool)
        ensures
            r == self@.halted(),
    {
        self.op.get() == 0x001
    }

    /// Advances the core by one step. Fails if and only if the fetched word
    /// names no operation, or holds condition code 15 and is neither `nop`
    /// nor `hlt`.
    pub fn step(self) -> (r: Result<CoreSys, Fault>)
        requires
            self.wf(),
        ensures
            match r {
                Ok(c) => c.wf() && self@.stepped() == Ok::<CoreState, Fault>(c@),
                Err(f) => self@.stepped() == Err::<CoreState, Fault>(f),
            },
    {
        if self.halted() {
            return Ok(self);
        }
        let mut s = self;
        if s.latch.get() != 0 {
            let num = s.latch.get();
            let handler = if num < s.int_table.len() as u64 {
                s.int_table[num as usize]
            } else {
                0
            };
            s.reg_file = s.reg_file.set_lr();
            s.reg_file = s.reg_file.set(PC as u64, handler);
            s.latch = s.latch.set(0);
            return Ok(s);
        }
        s = s.fetch();
        s = match s.decode() {
            Ok(d) => d,
            Err(f) => { return Err(f); },
        };
        let op = decode_op(s.op.get());
        if op == Some(Operation::Nop) || op == Some(Operation::Hlt) {
            return Ok(s);
        }
        s = s.read_reg();
        match s.reg_file.get_cond(s.cond.get()) {
            None => Err(Fault::InvalidCondition(s.cond.get())),
            Some(false) => Ok(s),
            Some(true) => {
                if op == Some(Operation::Int) {
                    let out_b = s.out_b.get();
                    let out_c = s.out_c.get();
                    s = s.interrupt(out_b, out_c);
                    return Ok(s);
                }
                s = s.execute();
                let op_type = OperationType::new(s.op.get());
                if op_type == OperationType::Mem {
                    s = s.mem();
                }
                if s.write_regs.get() {
                    s = s.write_back();
                }
                Ok(s)
            },
        }
    }

    /// The value of register `idx`.
    pub fn get_reg(&self, idx: u64) -> (v: u64)
        requires
            self.wf(),
            idx < 16,
        ensures
            v == self@.regs[idx as int],
    {
        self.reg_file.get(idx)
    }

    /// The word at `pc`: the instruction that the next fetch reads.
    pub fn get_next_instr(&self) -> (v: u64)
        requires
            self.wf(),
        ensures
            v == word_at(self@.mem, self@.regs[15]),
    {
        self.memory.get_word(self.reg_file.get_pc())
    }

    /// A copy of the interrupt table.
    pub fn dump_int_table(&self) -> (table: Vec<u64>)
        ensures
            table@ == self@.int_table,
    {
        self.int_table.clone()
    }

    /// The value that `qry` published last.
    pub fn get_qry(&self) -> (v: u64)
        ensures
            v == self@.query,
    {
        self.query.get()
    }

    /// The data word of the interrupt latched last.
    pub fn get_int_data(&self) -> (v: u64)
        ensures
            v == self@.int_data,
    {
        self.int_data.get()
    }

    /// The interrupt latch: 0 if no interrupt is pending.
    pub fn get_int(&self) -> (v: u64)
        ensures
            v == self@.latch,
    {
        self.latch.get()
    }
}

} // verus!
