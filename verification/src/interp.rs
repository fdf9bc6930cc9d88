use vstd::prelude::*;

use crate::ast::Ir;
use crate::ast::IrNode;
use crate::ast::lemma_ops_of_index;
use crate::ast::lemma_ops_of_len;
use crate::ast::ops_of;
use crate::semantics::MachineState;
use crate::semantics::TAPE_LEN;
use crate::semantics::add8;
use crate::semantics::add64;
use crate::semantics::initial_state;
use crate::semantics::lemma_run_ops_append;
use crate::semantics::lemma_run_ops_fuel;
use crate::semantics::run_ops;
use crate::semantics::sub8;
use crate::semantics::sub64;

verus! {

broadcast use lemma_ops_of_len, lemma_ops_of_index;

/// The reference evaluator's machine: the tape, the cursor, how much input
/// has been consumed, and the output written so far.  It realizes the
/// abstract machine that emitted programs are specified against, so that a
/// coalesced program can be evaluated without being linked and run.
pub struct Machine {
    pub cells: Vec<u8>,
    pub cur: u64,
    pub pos: usize,
    pub outp: Vec<u8>,
}

impl Machine {
    /// The abstract state this machine stands for, on the given input.
    pub open spec fn abs(self, input: Seq<u8>) -> MachineState {
        MachineState {
            cells: self.cells@,
            cur: self.cur,
            inp: input.skip(self.pos as int),
            outp: self.outp@,
        }
    }

    /// Tape of the fixed length, input position within the input.
    pub open spec fn wf(self, input: Seq<u8>) -> bool {
        self.cells@.len() == TAPE_LEN && self.pos <= input.len()
    }
}

/// Evaluate coalesced operations on the machine, within a loop-iteration
/// budget.  The outcome is exactly the one the abstract semantics gives:
/// on success the machine holds the final state and the budget left is
/// returned; otherwise the semantics has no result for this budget.
#[verifier::loop_isolation(false)]
#[verifier::rlimit(100)]
fn interp_ops(ops: &Vec<Ir>, m: &mut Machine, input: &Vec<u8>, fuel: u64) -> (r: (bool, u64))
    requires
        old(m).wf(input@),
    ensures
        final(m).wf(input@),
        r.0 ==> run_ops(ops_of(ops@), old(m).abs(input@), fuel as nat) == Some(
            (final(m).abs(input@), r.1 as nat),
        ),
        !r.0 ==> run_ops(ops_of(ops@), old(m).abs(input@), fuel as nat) is None,
    decreases fuel, ops@,
{
    let ghost all = ops_of(ops@);
    let ghost st0 = m.abs(input@);
    let mut f: u64 = fuel;
    let mut i: usize = 0;
    proof {
        assert(all.skip(0) =~= all);
    }
    while i < ops.len()
        invariant
            i <= ops@.len(),
            f <= fuel,
            m.wf(input@),
            run_ops(all, st0, fuel as nat) == run_ops(all.skip(i as int), m.abs(input@), f as nat),
        decreases ops@.len() - i,
    {
        let ghost iprev = i as int;
        let ghost stp = m.abs(input@);
        proof {
            assert(all.skip(iprev)[0] == all[iprev]);
            assert(all.skip(iprev).drop_first() =~= all.skip(iprev + 1));
        }
        match &ops[i] {
            Ir::AddData(k) => {
                if m.cur < TAPE_LEN as u64 {
                    let idx = m.cur as usize;
                    let v = m.cells[idx];
                    let w = (((v as u16) + (*k as u16)) % 256) as u8;
                    m.cells.set(idx, w);
                    proof {
                        assert(w == add8(v, *k));
                    }
                } else {
                    return (false, f);
                }
            },
            Ir::SubData(k) => {
                if m.cur < TAPE_LEN as u64 {
                    let idx = m.cur as usize;
                    let v = m.cells[idx];
                    let w = (((256 + (v as u16)) - (*k as u16)) % 256) as u8;
                    m.cells.set(idx, w);
                    proof {
                        assert(w == sub8(v, *k));
                    }
                } else {
                    return (false, f);
                }
            },
            Ir::AddPtr(k) => {
                let moved = m.cur.wrapping_add(*k);
                proof {
                    assert(moved == add64(stp.cur, *k));
                }
                m.cur = moved;
            },
            Ir::SubPtr(k) => {
                let moved = m.cur.wrapping_sub(*k);
                proof {
                    assert(moved == sub64(stp.cur, *k));
                }
                m.cur = moved;
            },
            Ir::Output => {
                if m.cur < TAPE_LEN as u64 {
                    let idx = m.cur as usize;
                    let v = m.cells[idx];
                    m.outp.push(v);
                } else {
                    return (false, f);
                }
            },
            Ir::Input => {
                if m.cur < TAPE_LEN as u64 && m.pos < input.len() {
                    let idx = m.cur as usize;
                    let v = input[m.pos];
                    m.cells.set(idx, v);
                    m.pos = m.pos + 1;
                    proof {
                        assert(stp.inp =~= input@.skip(m.pos - 1));
                        assert(stp.inp[0] == input@[m.pos - 1]);
                        assert(input@.skip(m.pos as int) =~= stp.inp.drop_first());
                    }
                } else {
                    return (false, f);
                }
            },
            Ir::Loop(body) => {
                while m.cur < TAPE_LEN as u64 && m.cells[m.cur as usize] != 0
                    invariant
                        f <= fuel,
                        m.wf(input@),
                        run_ops(all, st0, fuel as nat) == run_ops(
                            all.skip(iprev),
                            m.abs(input@),
                            f as nat,
                        ),
                    decreases f,
                {
                    if f == 0 {
                        return (false, f);
                    }
                    f = f - 1;
                    let ghost stq = m.abs(input@);
                    let r2 = interp_ops(body, m, input, f);
                    proof {
                        lemma_run_ops_append(ops_of(body@), all.skip(iprev), stq, f as nat);
                    }
                    if !r2.0 {
                        return (false, r2.1);
                    }
                    proof {
                        lemma_run_ops_fuel(ops_of(body@), stq, f as nat);
                    }
                    f = r2.1;
                }
                if m.cur >= TAPE_LEN as u64 {
                    return (false, f);
                }
            },
        }
        i = i + 1;
    }
    proof {
        assert(all.skip(ops@.len() as int) =~= Seq::<IrNode>::empty());
    }
    (true, f)
}

/// Evaluate a coalesced program from the initial machine on the given
/// input, within a loop-iteration budget: the program's output, or nothing
/// when the abstract semantics has no result (a cell access off the tape,
/// a read past the end of input, or a budget too small).
pub fn interpret(ops: &Vec<Ir>, input: &Vec<u8>, fuel: u64) -> (r: Option<Vec<u8>>)
    ensures
        match run_ops(ops_of(ops@), initial_state(input@), fuel as nat) {
            Some(p) => r matches Some(out) && out@ == p.0.outp,
            None => r is None,
        },
{
    let mut cells: Vec<u8> = Vec::new();
    while cells.len() < TAPE_LEN
        invariant
            cells@.len() <= TAPE_LEN,
            forall|j: int| 0 <= j < cells@.len() ==> cells@[j] == 0u8,
        decreases TAPE_LEN - cells@.len(),
    {
        cells.push(0u8);
    }
    let mut m = Machine { cells, cur: 0, pos: 0, outp: Vec::new() };
    proof {
        assert(m.abs(input@).cells =~= initial_state(input@).cells);
        assert(m.abs(input@).inp =~= initial_state(input@).inp);
        assert(m.abs(input@).outp =~= initial_state(input@).outp);
        assert(m.abs(input@) == initial_state(input@));
    }
    let r = interp_ops(ops, &mut m, input, fuel);
    if r.0 {
        Some(m.outp)
    } else {
        None
    }
}

} // verus!
