use vstd::prelude::*;
use crate::emulator::alu::word_of;
use crate::emulator::core_sys::{CoreState, Fault};
use crate::emulator::instr::{Instr, Operation, OperationType};
use crate::emulator::mem::{lemma_read_after_store, lemma_store_word_len, word_at};
use crate::emulator::mem_addr_calculator::effective_address;
use crate::emulator::reg_file::condition_holds;

verus! {

impl CoreState {
    /// Whether the next step fetches an instruction: the core has not halted
    /// and no interrupt is pending.
    pub open spec fn fetches(self) -> bool {
        !self.halted() && self.latch == 0
    }

    /// The fields of the word at `pc`.
    pub open spec fn next_instr(self) -> Instr {
        Instr::of_word(word_at(self.mem, self.regs[15]))
    }

    /// Whether the next step fetches the operation `op` under a condition
    /// that holds.
    pub open spec fn commits(self, op: Operation) -> bool {
        &&& self.fetches()
        &&& Operation::of_code(self.next_instr().op_code) == Some(op)
        &&& condition_holds(self.cpsr, self.next_instr().cond_code) == Some(true)
    }

    /// The value that the next step itself writes to `pc`, if it writes one:
    /// the handler's address when it dispatches an interrupt, the data bus
    /// when it commits an instruction whose destination is r15 (every branch
    /// is one).
    pub open spec fn pc_written(self) -> Option<u64> {
        if self.halted() {
            None
        } else if self.latch != 0 {
            Some(self.dispatched().regs[15])
        } else {
            match self.fetched().decoded() {
                Err(_) => None,
                Ok(d) => {
                    let r = d.operands_read();
                    if d.operation() == Operation::Nop || d.operation() == Operation::Hlt
                        || d.operation() == Operation::Int || condition_holds(r.cpsr, r.cond)
                        != Some(true) || !r.write_regs || r.r_d_mem != 15 {
                        None
                    } else {
                        Some(r.committed().regs[15])
                    }
                },
            }
        }
    }
}

/// A step keeps a well-formed state well formed.
pub proof fn lemma_step_keeps_wf(s: CoreState)
    requires
        s.wf(),
        s.stepped() is Ok,
    ensures
        s.stepped()->Ok_0.wf(),
{
    if s.fetches() {
        let d = s.fetched().decoded()->Ok_0;
        let r = d.operands_read();
        let e = r.executed();
        lemma_store_word_len(e.mem, e.regs[13], e.data_bus);
        lemma_store_word_len(
            e.mem,
            effective_address(e.out_m_b, e.out_m_o, e.out_m_s),
            e.data_bus,
        );
    }
}

/// After a step from an aligned `pc`, `pc` is a multiple of 8, unless the
/// step itself wrote an unaligned target to `pc`.
pub proof fn lemma_step_keeps_pc_aligned(s: CoreState)
    requires
        s.wf(),
        s.regs[15] % 8 == 0,
        s.stepped() is Ok,
    ensures
        s.stepped()->Ok_0.regs[15] % 8 == 0 || s.pc_written() == Some(
            s.stepped()->Ok_0.regs[15],
        ),
{
}

/// A step that fetches no instruction with the set-flags bit leaves the
/// flags as they were.
pub proof fn lemma_flags_kept_without_set_flags(s: CoreState)
    requires
        s.wf(),
        s.stepped() is Ok,
        s.fetches() ==> !s.next_instr().set_flags,
    ensures
        s.stepped()->Ok_0.cpsr == s.cpsr,
{
}

/// A step that fetches `cmp`, `cmn`, `tst` or `teq` changes no register but `pc`.
pub proof fn lemma_compare_keeps_registers(s: CoreState, op: Operation, i: int)
    requires
        s.wf(),
        s.stepped() is Ok,
        s.fetches(),
        Operation::of_code(s.next_instr().op_code) == Some(op),
        op.is_compare(),
        0 <= i < 15,
    ensures
        s.stepped()->Ok_0.regs[i] == s.regs[i],
        s.stepped()->Ok_0.regs[15] == word_of(s.regs[15] + 8),
{
}

/// A step that fetches `bl` leaves in `lr` the address of the instruction that
/// follows the `bl`, whether its condition holds or not.
pub proof fn lemma_bl_links(s: CoreState)
    requires
        s.wf(),
        s.stepped() is Ok,
        s.fetches(),
        Operation::of_code(s.next_instr().op_code) == Some(Operation::Bl),
    ensures
        s.stepped()->Ok_0.regs[14] == word_of(s.regs[15] + 8),
{
}

/// A committed `push r` moves `sp` down by 8 and stores `r` there; it changes
/// no other register but `pc`.
pub proof fn lemma_push_stores(s: CoreState, r: int)
    requires
        s.wf(),
        0 <= r < 16,
        r != 13,
        r != 15,
        s.commits(Operation::Push),
        s.next_instr().reg_d_mem == r,
    ensures
        s.stepped() is Ok,
        s.stepped()->Ok_0.wf(),
        s.stepped()->Ok_0.regs[13] == word_of(s.regs[13] - 8),
        s.stepped()->Ok_0.regs[r] == s.regs[r],
        word_at(s.stepped()->Ok_0.mem, s.stepped()->Ok_0.regs[13]) == s.regs[r],
{
    let d = s.fetched().decoded()->Ok_0;
    let o = d.operands_read();
    let e = o.executed();
    Operation::lemma_code_round_trip(d.op, Operation::Push);
    assert(OperationType::of_code(d.op) == OperationType::Mem);
    assert(e.data_bus == s.regs[r]);
    assert(e.regs[13] == word_of(s.regs[13] - 8));
    lemma_read_after_store(e.mem, e.regs[13], e.data_bus);
    let m = e.memory_accessed();
    assert(m.regs == e.regs);
    assert(m.data_bus == e.data_bus);
    assert(s.stepped() == Ok::<CoreState, Fault>(m.written_back()));
}

/// A committed `pop r` loads `r` from the word at `sp` and moves `sp` up by 8.
pub proof fn lemma_pop_loads(s: CoreState, r: int)
    requires
        s.wf(),
        0 <= r < 16,
        r != 13,
        r != 15,
        s.commits(Operation::Pop),
        s.next_instr().reg_d_mem == r,
    ensures
        s.stepped() is Ok,
        s.stepped()->Ok_0.regs[13] == word_of(s.regs[13] + 8),
        s.stepped()->Ok_0.regs[r] == word_at(s.mem, s.regs[13]),
{
    let d = s.fetched().decoded()->Ok_0;
    let o = d.operands_read();
    let e = o.executed();
    Operation::lemma_code_round_trip(d.op, Operation::Pop);
    assert(OperationType::of_code(d.op) == OperationType::Mem);
    let m = e.memory_accessed();
    assert(m.regs == e.regs);
    assert(m.data_bus == word_at(s.mem, s.regs[13]));
    assert(s.stepped() == Ok::<CoreState, Fault>(m.written_back()));
}

/// `push r` followed by `pop r`, both committed, leaves `r` and `sp` as they
/// were before the `push`, for every register `r` but `sp` and `pc`.
pub proof fn lemma_push_pop_restores(s: CoreState, r: int)
    requires
        s.wf(),
        0 <= r < 16,
        r != 13,
        r != 15,
        s.commits(Operation::Push),
        s.next_instr().reg_d_mem == r,
        s.stepped() is Ok ==> s.stepped()->Ok_0.commits(Operation::Pop),
        s.stepped() is Ok ==> s.stepped()->Ok_0.next_instr().reg_d_mem == r,
    ensures
        s.stepped() is Ok,
        s.stepped()->Ok_0.stepped() is Ok,
        s.stepped()->Ok_0.stepped()->Ok_0.regs[r] == s.regs[r],
        s.stepped()->Ok_0.stepped()->Ok_0.regs[13] == s.regs[13],
{
    lemma_push_stores(s, r);
    lemma_pop_loads(s.stepped()->Ok_0, r);
    assert(word_of(word_of(s.regs[13] - 8) + 8) == s.regs[13]);
}

} // verus!
