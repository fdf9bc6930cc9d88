use vstd::prelude::*;

use crate::ast::IrNode;
use crate::ast::Node;
use crate::coalesce::coalesce_nodes;
use crate::coalesce::lemma_coalesce_append_at_loop;
use crate::coalesce::lemma_run_len_le;
use crate::coalesce::run_len;
use crate::coalesce::weighted;

verus! {

/// The number of cells on the tape of an emitted program.
pub const TAPE_LEN: usize = 30000;

/// The abstract machine that an emitted program runs: the zero-initialized
/// tape, the cursor as a pointer-width offset from the tape's base, the
/// input not yet read, and the output written so far.  The cursor is
/// modeled at 64 bits; an emitted program wraps the cursor at the host's
/// own pointer width, so on a host narrower than 64 bits it would wrap
/// earlier than this model does.
pub struct MachineState {
    pub cells: Seq<u8>,
    pub cur: u64,
    pub inp: Seq<u8>,
    pub outp: Seq<u8>,
}

/// A machine state is well formed when its tape has the fixed length.
pub open spec fn wf_state(st: MachineState) -> bool {
    st.cells.len() == TAPE_LEN
}

/// The machine state at program start, on the given input.
pub open spec fn initial_state(inp: Seq<u8>) -> MachineState {
    MachineState {
        cells: Seq::new(TAPE_LEN as nat, |_i: int| 0u8),
        cur: 0,
        inp: inp,
        outp: Seq::empty(),
    }
}

/// Addition on a cell, with 8-bit wraparound.
pub open spec fn add8(v: u8, k: u8) -> u8 {
    ((v + k) % 256) as u8
}

/// Subtraction on a cell, with 8-bit wraparound.
pub open spec fn sub8(v: u8, k: u8) -> u8 {
    ((v as int - k as int) % 256) as u8
}

/// Addition on the cursor, with pointer-width wraparound.
pub open spec fn add64(v: u64, k: u64) -> u64 {
    ((v + k) % 0x10000000000000000) as u64
}

/// Subtraction on the cursor, with pointer-width wraparound.
pub open spec fn sub64(v: u64, k: u64) -> u64 {
    ((v as int - k as int) % 0x10000000000000000) as u64
}

/// Run coalesced operations on a machine state, with a fuel bound charged
/// one unit per loop iteration.  The result is the final state and the fuel
/// left, or nothing when the cursor leaves the tape at a cell access, input
/// is read past its end, or the fuel runs out.
pub open spec fn run_ops(ops: Seq<IrNode>, st: MachineState, fuel: nat) -> Option<
    (MachineState, nat),
>
    decreases fuel, ops.len(),
{
    if ops.len() == 0 {
        Some((st, fuel))
    } else {
        let rest = ops.drop_first();
        match ops[0] {
            IrNode::AddData(k) => if (st.cur as int) < st.cells.len() {
                run_ops(
                    rest,
                    MachineState {
                        cells: st.cells.update(st.cur as int, add8(st.cells[st.cur as int], k)),
                        ..st
                    },
                    fuel,
                )
            } else {
                None
            },
            IrNode::SubData(k) => if (st.cur as int) < st.cells.len() {
                run_ops(
                    rest,
                    MachineState {
                        cells: st.cells.update(st.cur as int, sub8(st.cells[st.cur as int], k)),
                        ..st
                    },
                    fuel,
                )
            } else {
                None
            },
            IrNode::AddPtr(k) => run_ops(rest, MachineState { cur: add64(st.cur, k), ..st }, fuel),
            IrNode::SubPtr(k) => run_ops(rest, MachineState { cur: sub64(st.cur, k), ..st }, fuel),
            IrNode::Output => if (st.cur as int) < st.cells.len() {
                run_ops(
                    rest,
                    MachineState { outp: st.outp.push(st.cells[st.cur as int]), ..st },
                    fuel,
                )
            } else {
                None
            },
            IrNode::Input => if (st.cur as int) < st.cells.len() && st.inp.len() > 0 {
                run_ops(
                    rest,
                    MachineState {
                        cells: st.cells.update(st.cur as int, st.inp[0]),
                        inp: st.inp.drop_first(),
                        ..st
                    },
                    fuel,
                )
            } else {
                None
            },
            IrNode::Loop(body) => if (st.cur as int) < st.cells.len() {
                if st.cells[st.cur as int] == 0 {
                    run_ops(rest, st, fuel)
                } else if fuel == 0 {
                    None
                } else {
                    run_ops(body + ops, st, (fuel - 1) as nat)
                }
            } else {
                None
            },
        }
    }
}

/// A cell after `n` single increments, each with 8-bit wraparound.
pub open spec fn iter_inc8(v: u8, n: nat) -> u8
    decreases n,
{
    if n == 0 {
        v
    } else {
        iter_inc8(add8(v, 1), (n - 1) as nat)
    }
}

/// A cell after `n` single decrements, each with 8-bit wraparound.
pub open spec fn iter_dec8(v: u8, n: nat) -> u8
    decreases n,
{
    if n == 0 {
        v
    } else {
        iter_dec8(sub8(v, 1), (n - 1) as nat)
    }
}

/// The cursor after `n` single moves right, each with pointer-width wraparound.
pub open spec fn iter_inc64(v: u64, n: nat) -> u64
    decreases n,
{
    if n == 0 {
        v
    } else {
        iter_inc64(add64(v, 1), (n - 1) as nat)
    }
}

/// The cursor after `n` single moves left, each with pointer-width wraparound.
pub open spec fn iter_dec64(v: u64, n: nat) -> u64
    decreases n,
{
    if n == 0 {
        v
    } else {
        iter_dec64(sub64(v, 1), (n - 1) as nat)
    }
}

/// Coalescing a run of data operations is exact: the one weighted operation,
/// its weight the run length modulo 256, leaves the cell exactly where the
/// run's single steps, applied one at a time with 8-bit wraparound, would.
#[verifier::rlimit(100)]
pub proof fn lemma_data_run_equivalence(v: u8, n: nat)
    ensures
        weighted(Node::IncData, n) == IrNode::AddData((n % 256) as u8),
        add8(v, (n % 256) as u8) == iter_inc8(v, n),
        weighted(Node::DecData, n) == IrNode::SubData((n % 256) as u8),
        sub8(v, (n % 256) as u8) == iter_dec8(v, n),
    decreases n,
{
    if n == 0 {
    } else {
        lemma_data_run_equivalence(add8(v, 1), (n - 1) as nat);
        lemma_data_run_equivalence(sub8(v, 1), (n - 1) as nat);
        lemma_add8_shift(v, n);
        lemma_sub8_shift(v, n);
    }
}

/// The same exactness for runs of pointer moves, with pointer-width
/// wraparound on the cursor.
#[verifier::rlimit(100)]
pub proof fn lemma_pointer_run_equivalence(v: u64, n: nat)
    ensures
        weighted(Node::IncPtr, n) == IrNode::AddPtr((n % 0x10000000000000000) as u64),
        add64(v, (n % 0x10000000000000000) as u64) == iter_inc64(v, n),
        weighted(Node::DecPtr, n) == IrNode::SubPtr((n % 0x10000000000000000) as u64),
        sub64(v, (n % 0x10000000000000000) as u64) == iter_dec64(v, n),
    decreases n,
{
    if n == 0 {
    } else {
        lemma_pointer_run_equivalence(add64(v, 1), (n - 1) as nat);
        lemma_pointer_run_equivalence(sub64(v, 1), (n - 1) as nat);
        lemma_add64_shift(v, n);
        lemma_sub64_shift(v, n);
    }
}

/// A loop whose body — started anywhere at the same cursor with a nonzero
/// cell — decrements exactly that cell by exactly one and has no other
/// effect at all runs exactly as many iterations as the cell's entry
/// value: it zeroes the cell, touches nothing else, and uses one fuel
/// unit per iteration; from a zero cell it contributes no side effect.
pub proof fn lemma_countdown_loop_general(body: Seq<IrNode>, st: MachineState, fuel: nat)
    requires
        wf_state(st),
        (st.cur as int) < st.cells.len(),
        fuel >= st.cells[st.cur as int],
        forall|st2: MachineState, f2: nat|
            st2.cells.len() == st.cells.len() && st2.cur == st.cur && st2.cells[st2.cur as int]
                > 0 ==> #[trigger] run_ops(body, st2, f2) == Some(
                (
                    MachineState {
                        cells: st2.cells.update(
                            st2.cur as int,
                            sub8(st2.cells[st2.cur as int], 1),
                        ),
                        ..st2
                    },
                    f2,
                ),
            ),
    ensures
        run_ops(seq![IrNode::Loop(body)], st, fuel) == Some(
            (
                MachineState { cells: st.cells.update(st.cur as int, 0u8), ..st },
                (fuel - st.cells[st.cur as int]) as nat,
            ),
        ),
        st.cells[st.cur as int] == 0 ==> run_ops(seq![IrNode::Loop(body)], st, fuel) == Some(
            (st, fuel),
        ),
    decreases st.cells[st.cur as int],
{
    let cur = st.cur as int;
    let v = st.cells[cur];
    let prog = seq![IrNode::Loop(body)];
    if v == 0 {
        assert(prog.drop_first() =~= Seq::<IrNode>::empty());
        assert(run_ops(Seq::<IrNode>::empty(), st, fuel) == Some((st, fuel)));
        assert(st.cells.update(cur, 0u8) =~= st.cells);
        assert(MachineState { cells: st.cells.update(cur, 0u8), ..st } == st);
    } else {
        assert(run_ops(prog, st, fuel) == run_ops(body + prog, st, (fuel - 1) as nat));
        lemma_run_ops_append(body, prog, st, (fuel - 1) as nat);
        let st1 = MachineState { cells: st.cells.update(cur, sub8(v, 1)), ..st };
        assert(run_ops(body, st, (fuel - 1) as nat) == Some((st1, (fuel - 1) as nat)));
        assert(sub8(v, 1) == (v - 1) as u8);
        lemma_countdown_loop_general(body, st1, (fuel - 1) as nat);
        assert(st1.cells.update(cur, 0u8) =~= st.cells.update(cur, 0u8));
    }
}

/// The canonical such body, a single decrement of the current cell.
pub proof fn lemma_countdown_loop(st: MachineState, fuel: nat)
    requires
        wf_state(st),
        (st.cur as int) < st.cells.len(),
        fuel >= st.cells[st.cur as int],
    ensures
        run_ops(seq![IrNode::Loop(seq![IrNode::SubData(1)])], st, fuel) == Some(
            (
                MachineState { cells: st.cells.update(st.cur as int, 0u8), ..st },
                (fuel - st.cells[st.cur as int]) as nat,
            ),
        ),
        st.cells[st.cur as int] == 0 ==> run_ops(
            seq![IrNode::Loop(seq![IrNode::SubData(1)])],
            st,
            fuel,
        ) == Some((st, fuel)),
    decreases st.cells[st.cur as int],
{
    let body = seq![IrNode::SubData(1)];
    assert forall|st2: MachineState, f2: nat|
        st2.cells.len() == st.cells.len() && st2.cur == st.cur && st2.cells[st2.cur as int]
            > 0 implies #[trigger] run_ops(body, st2, f2) == Some(
        (
            MachineState {
                cells: st2.cells.update(st2.cur as int, sub8(st2.cells[st2.cur as int], 1)),
                ..st2
            },
            f2,
        ),
    ) by {
        assert(body.drop_first() =~= Seq::<IrNode>::empty());
        let st3 = MachineState {
            cells: st2.cells.update(st2.cur as int, sub8(st2.cells[st2.cur as int], 1)),
            ..st2
        };
        assert(run_ops(Seq::<IrNode>::empty(), st3, f2) == Some((st3, f2)));
    }
    lemma_countdown_loop_general(body, st, fuel);
}


/// A run's result never has more fuel than it was given.
pub proof fn lemma_run_ops_fuel(ops: Seq<IrNode>, st: MachineState, fuel: nat)
    ensures
        match run_ops(ops, st, fuel) {
            Some(p) => p.1 <= fuel,
            None => true,
        },
    decreases fuel, ops.len(),
{
    if ops.len() != 0 {
        let rest = ops.drop_first();
        match ops[0] {
            IrNode::AddData(k) => {
                if (st.cur as int) < st.cells.len() {
                    lemma_run_ops_fuel(
                        rest,
                        MachineState {
                            cells: st.cells.update(st.cur as int, add8(st.cells[st.cur as int], k)),
                            ..st
                        },
                        fuel,
                    );
                }
            },
            IrNode::SubData(k) => {
                if (st.cur as int) < st.cells.len() {
                    lemma_run_ops_fuel(
                        rest,
                        MachineState {
                            cells: st.cells.update(st.cur as int, sub8(st.cells[st.cur as int], k)),
                            ..st
                        },
                        fuel,
                    );
                }
            },
            IrNode::AddPtr(k) => {
                lemma_run_ops_fuel(rest, MachineState { cur: add64(st.cur, k), ..st }, fuel);
            },
            IrNode::SubPtr(k) => {
                lemma_run_ops_fuel(rest, MachineState { cur: sub64(st.cur, k), ..st }, fuel);
            },
            IrNode::Output => {
                if (st.cur as int) < st.cells.len() {
                    lemma_run_ops_fuel(
                        rest,
                        MachineState { outp: st.outp.push(st.cells[st.cur as int]), ..st },
                        fuel,
                    );
                }
            },
            IrNode::Input => {
                if (st.cur as int) < st.cells.len() && st.inp.len() > 0 {
                    lemma_run_ops_fuel(
                        rest,
                        MachineState {
                            cells: st.cells.update(st.cur as int, st.inp[0]),
                            inp: st.inp.drop_first(),
                            ..st
                        },
                        fuel,
                    );
                }
            },
            IrNode::Loop(body) => {
                if (st.cur as int) < st.cells.len() {
                    if st.cells[st.cur as int] == 0 {
                        lemma_run_ops_fuel(rest, st, fuel);
                    } else if fuel > 0 {
                        lemma_run_ops_fuel(body + ops, st, (fuel - 1) as nat);
                    }
                }
            },
        }
    }
}

/// Running a concatenation runs the first part, then the second from the
/// state and fuel where the first stopped.
pub proof fn lemma_run_ops_append(a: Seq<IrNode>, b: Seq<IrNode>, st: MachineState, fuel: nat)
    ensures
        run_ops(a + b, st, fuel) == match run_ops(a, st, fuel) {
            Some(p) => run_ops(b, p.0, p.1),
            None => None,
        },
    decreases fuel, a.len(),
{
    if a.len() == 0 {
        assert(a + b =~= b);
    } else {
        let rest = a.drop_first();
        assert((a + b).drop_first() =~= rest + b);
        assert((a + b)[0] == a[0]);
        match a[0] {
            IrNode::AddData(k) => {
                if (st.cur as int) < st.cells.len() {
                    lemma_run_ops_append(
                        rest,
                        b,
                        MachineState {
                            cells: st.cells.update(st.cur as int, add8(st.cells[st.cur as int], k)),
                            ..st
                        },
                        fuel,
                    );
                }
            },
            IrNode::SubData(k) => {
                if (st.cur as int) < st.cells.len() {
                    lemma_run_ops_append(
                        rest,
                        b,
                        MachineState {
                            cells: st.cells.update(st.cur as int, sub8(st.cells[st.cur as int], k)),
                            ..st
                        },
                        fuel,
                    );
                }
            },
            IrNode::AddPtr(k) => {
                lemma_run_ops_append(rest, b, MachineState { cur: add64(st.cur, k), ..st }, fuel);
            },
            IrNode::SubPtr(k) => {
                lemma_run_ops_append(rest, b, MachineState { cur: sub64(st.cur, k), ..st }, fuel);
            },
            IrNode::Output => {
                if (st.cur as int) < st.cells.len() {
                    lemma_run_ops_append(
                        rest,
                        b,
                        MachineState { outp: st.outp.push(st.cells[st.cur as int]), ..st },
                        fuel,
                    );
                }
            },
            IrNode::Input => {
                if (st.cur as int) < st.cells.len() && st.inp.len() > 0 {
                    lemma_run_ops_append(
                        rest,
                        b,
                        MachineState {
                            cells: st.cells.update(st.cur as int, st.inp[0]),
                            inp: st.inp.drop_first(),
                            ..st
                        },
                        fuel,
                    );
                }
            },
            IrNode::Loop(body) => {
                if (st.cur as int) < st.cells.len() {
                    if st.cells[st.cur as int] == 0 {
                        lemma_run_ops_append(rest, b, st, fuel);
                    } else if fuel > 0 {
                        assert(body + (a + b) =~= (body + a) + b);
                        lemma_run_ops_append(body + a, b, st, (fuel - 1) as nat);
                    }
                }
            },
        }
    }
}


/// Run an instruction tree one operation at a time — nothing coalesced —
/// under the same fuel discipline as `run_ops`: this is the reference
/// semantics of the source program itself.
pub open spec fn run_nodes(ns: Seq<Node>, st: MachineState, fuel: nat) -> Option<
    (MachineState, nat),
>
    decreases fuel, ns.len(),
{
    if ns.len() == 0 {
        Some((st, fuel))
    } else {
        let rest = ns.drop_first();
        match ns[0] {
            Node::IncData => if (st.cur as int) < st.cells.len() {
                run_nodes(
                    rest,
                    MachineState {
                        cells: st.cells.update(st.cur as int, add8(st.cells[st.cur as int], 1)),
                        ..st
                    },
                    fuel,
                )
            } else {
                None
            },
            Node::DecData => if (st.cur as int) < st.cells.len() {
                run_nodes(
                    rest,
                    MachineState {
                        cells: st.cells.update(st.cur as int, sub8(st.cells[st.cur as int], 1)),
                        ..st
                    },
                    fuel,
                )
            } else {
                None
            },
            Node::IncPtr => run_nodes(rest, MachineState { cur: add64(st.cur, 1), ..st }, fuel),
            Node::DecPtr => run_nodes(rest, MachineState { cur: sub64(st.cur, 1), ..st }, fuel),
            Node::Output => if (st.cur as int) < st.cells.len() {
                run_nodes(
                    rest,
                    MachineState { outp: st.outp.push(st.cells[st.cur as int]), ..st },
                    fuel,
                )
            } else {
                None
            },
            Node::Input => if (st.cur as int) < st.cells.len() && st.inp.len() > 0 {
                run_nodes(
                    rest,
                    MachineState {
                        cells: st.cells.update(st.cur as int, st.inp[0]),
                        inp: st.inp.drop_first(),
                        ..st
                    },
                    fuel,
                )
            } else {
                None
            },
            Node::Loop(body) => if (st.cur as int) < st.cells.len() {
                if st.cells[st.cur as int] == 0 {
                    run_nodes(rest, st, fuel)
                } else if fuel == 0 {
                    None
                } else {
                    run_nodes(body + ns, st, (fuel - 1) as nat)
                }
            } else {
                None
            },
        }
    }
}

/// One more single increment folds into a weight one smaller.
proof fn lemma_add8_shift(v: u8, n: nat)
    requires
        n >= 1,
    ensures
        add8(add8(v, 1), (((n - 1) as nat) % 256) as u8) == add8(v, (n % 256) as u8),
{
    vstd::arithmetic::div_mod::lemma_add_mod_noop(v + 1, (n - 1) as int, 256);
    vstd::arithmetic::div_mod::lemma_add_mod_noop(v as int, n as int, 256);
    vstd::arithmetic::div_mod::lemma_mod_twice(v + 1, 256);
    vstd::arithmetic::div_mod::lemma_mod_twice(v as int, 256);
}

/// One more single decrement folds into a weight one smaller.
proof fn lemma_sub8_shift(v: u8, n: nat)
    requires
        n >= 1,
    ensures
        sub8(sub8(v, 1), (((n - 1) as nat) % 256) as u8) == sub8(v, (n % 256) as u8),
{
    vstd::arithmetic::div_mod::lemma_sub_mod_noop(v as int - 1, (n - 1) as int, 256);
    vstd::arithmetic::div_mod::lemma_sub_mod_noop(v as int, n as int, 256);
    vstd::arithmetic::div_mod::lemma_mod_twice(v as int - 1, 256);
    vstd::arithmetic::div_mod::lemma_mod_twice(v as int, 256);
}

/// One more single right move folds into a weight one smaller.
proof fn lemma_add64_shift(v: u64, n: nat)
    requires
        n >= 1,
    ensures
        add64(add64(v, 1), (((n - 1) as nat) % 0x10000000000000000) as u64) == add64(
            v,
            (n % 0x10000000000000000) as u64,
        ),
{
    let m = 0x10000000000000000;
    vstd::arithmetic::div_mod::lemma_add_mod_noop(v + 1, (n - 1) as int, m);
    vstd::arithmetic::div_mod::lemma_add_mod_noop(v as int, n as int, m);
    vstd::arithmetic::div_mod::lemma_mod_twice(v + 1, m);
    vstd::arithmetic::div_mod::lemma_mod_twice(v as int, m);
}

/// One more single left move folds into a weight one smaller.
proof fn lemma_sub64_shift(v: u64, n: nat)
    requires
        n >= 1,
    ensures
        sub64(sub64(v, 1), (((n - 1) as nat) % 0x10000000000000000) as u64) == sub64(
            v,
            (n % 0x10000000000000000) as u64,
        ),
{
    let m = 0x10000000000000000;
    vstd::arithmetic::div_mod::lemma_sub_mod_noop(v as int - 1, (n - 1) as int, m);
    vstd::arithmetic::div_mod::lemma_sub_mod_noop(v as int, n as int, m);
    vstd::arithmetic::div_mod::lemma_mod_twice(v as int - 1, m);
    vstd::arithmetic::div_mod::lemma_mod_twice(v as int, m);
}


/// Coalescing preserves the semantics of the whole program, exactly: on any
/// state and with any fuel, the coalesced operations reach the same outcome
/// — final state, fuel left, or failure — as the source tree run one
/// operation at a time, however its runs were grouped.
#[verifier::rlimit(100)]
pub proof fn lemma_coalescing_preserves_semantics(ns: Seq<Node>, st: MachineState, fuel: nat)
    ensures
        run_nodes(ns, st, fuel) == run_ops(coalesce_nodes(ns), st, fuel),
    decreases fuel, ns.len(),
{
    if ns.len() == 0 {
    } else {
        let rest = ns.drop_first();
        let cns = coalesce_nodes(ns);
        match ns[0] {
            Node::IncData => {
                let k = ns[0];
                lemma_run_len_le(ns, k);
                let r = run_len(ns, k);
                assert(r >= 1);
                let cns_tail = coalesce_nodes(ns.skip(r as int));
                assert(cns == seq![weighted(k, r)] + cns_tail);
                assert(cns[0] == IrNode::AddData((r % 256) as u8));
                assert(cns.drop_first() =~= cns_tail);
                let cur = st.cur as int;
                if cur < st.cells.len() {
                    let v = st.cells[cur];
                    let st1 = MachineState { cells: st.cells.update(cur, add8(v, 1)), ..st };
                    lemma_coalescing_preserves_semantics(rest, st1, fuel);
                    if r == 1 {
                        assert(rest =~= ns.skip(1));
                        assert((1nat % 256) as u8 == 1u8);
                    } else {
                        assert(run_len(rest, k) == r - 1);
                        lemma_run_len_le(rest, k);
                        assert(rest.skip((r - 1) as int) =~= ns.skip(r as int));
                        let c_rest = coalesce_nodes(rest);
                        assert(c_rest == seq![weighted(k, (r - 1) as nat)] + cns_tail);
                        assert(c_rest[0] == IrNode::AddData(((r - 1) as nat % 256) as u8));
                        assert(c_rest.drop_first() =~= cns_tail);
                        lemma_add8_shift(v, r);
                        assert(st.cells.update(cur, add8(v, (r % 256) as u8)) =~= st1.cells.update(
                            cur,
                            add8(add8(v, 1), (((r - 1) as nat) % 256) as u8),
                        ));
                        assert(MachineState {
                            cells: st.cells.update(cur, add8(v, (r % 256) as u8)),
                            ..st
                        } == MachineState {
                            cells: st1.cells.update(
                                cur,
                                add8(add8(v, 1), (((r - 1) as nat) % 256) as u8),
                            ),
                            ..st1
                        });
                    }
                }
            },
            Node::DecData => {
                let k = ns[0];
                lemma_run_len_le(ns, k);
                let r = run_len(ns, k);
                assert(r >= 1);
                let cns_tail = coalesce_nodes(ns.skip(r as int));
                assert(cns == seq![weighted(k, r)] + cns_tail);
                assert(cns[0] == IrNode::SubData((r % 256) as u8));
                assert(cns.drop_first() =~= cns_tail);
                let cur = st.cur as int;
                if cur < st.cells.len() {
                    let v = st.cells[cur];
                    let st1 = MachineState { cells: st.cells.update(cur, sub8(v, 1)), ..st };
                    lemma_coalescing_preserves_semantics(rest, st1, fuel);
                    if r == 1 {
                        assert(rest =~= ns.skip(1));
                        assert((1nat % 256) as u8 == 1u8);
                    } else {
                        assert(run_len(rest, k) == r - 1);
                        lemma_run_len_le(rest, k);
                        assert(rest.skip((r - 1) as int) =~= ns.skip(r as int));
                        let c_rest = coalesce_nodes(rest);
                        assert(c_rest == seq![weighted(k, (r - 1) as nat)] + cns_tail);
                        assert(c_rest[0] == IrNode::SubData(((r - 1) as nat % 256) as u8));
                        assert(c_rest.drop_first() =~= cns_tail);
                        lemma_sub8_shift(v, r);
                        assert(st.cells.update(cur, sub8(v, (r % 256) as u8)) =~= st1.cells.update(
                            cur,
                            sub8(sub8(v, 1), (((r - 1) as nat) % 256) as u8),
                        ));
                        assert(MachineState {
                            cells: st.cells.update(cur, sub8(v, (r % 256) as u8)),
                            ..st
                        } == MachineState {
                            cells: st1.cells.update(
                                cur,
                                sub8(sub8(v, 1), (((r - 1) as nat) % 256) as u8),
                            ),
                            ..st1
                        });
                    }
                }
            },
            Node::IncPtr => {
                let k = ns[0];
                lemma_run_len_le(ns, k);
                let r = run_len(ns, k);
                assert(r >= 1);
                let cns_tail = coalesce_nodes(ns.skip(r as int));
                assert(cns == seq![weighted(k, r)] + cns_tail);
                assert(cns[0] == IrNode::AddPtr((r % 0x10000000000000000) as u64));
                assert(cns.drop_first() =~= cns_tail);
                let st1 = MachineState { cur: add64(st.cur, 1), ..st };
                lemma_coalescing_preserves_semantics(rest, st1, fuel);
                if r == 1 {
                    assert(rest =~= ns.skip(1));
                    assert((1nat % 0x10000000000000000) as u64 == 1u64);
                } else {
                    assert(run_len(rest, k) == r - 1);
                    lemma_run_len_le(rest, k);
                    assert(rest.skip((r - 1) as int) =~= ns.skip(r as int));
                    let c_rest = coalesce_nodes(rest);
                    assert(c_rest == seq![weighted(k, (r - 1) as nat)] + cns_tail);
                    assert(c_rest[0] == IrNode::AddPtr(((r - 1) as nat % 0x10000000000000000) as u64));
                    assert(c_rest.drop_first() =~= cns_tail);
                    lemma_add64_shift(st.cur, r);
                    assert(MachineState { cur: add64(st.cur, (r % 0x10000000000000000) as u64), ..st }
                        == MachineState {
                        cur: add64(add64(st.cur, 1), (((r - 1) as nat) % 0x10000000000000000) as u64),
                        ..st1
                    });
                }
            },
            Node::DecPtr => {
                let k = ns[0];
                lemma_run_len_le(ns, k);
                let r = run_len(ns, k);
                assert(r >= 1);
                let cns_tail = coalesce_nodes(ns.skip(r as int));
                assert(cns == seq![weighted(k, r)] + cns_tail);
                assert(cns[0] == IrNode::SubPtr((r % 0x10000000000000000) as u64));
                assert(cns.drop_first() =~= cns_tail);
                let st1 = MachineState { cur: sub64(st.cur, 1), ..st };
                lemma_coalescing_preserves_semantics(rest, st1, fuel);
                if r == 1 {
                    assert(rest =~= ns.skip(1));
                    assert((1nat % 0x10000000000000000) as u64 == 1u64);
                } else {
                    assert(run_len(rest, k) == r - 1);
                    lemma_run_len_le(rest, k);
                    assert(rest.skip((r - 1) as int) =~= ns.skip(r as int));
                    let c_rest = coalesce_nodes(rest);
                    assert(c_rest == seq![weighted(k, (r - 1) as nat)] + cns_tail);
                    assert(c_rest[0] == IrNode::SubPtr(((r - 1) as nat % 0x10000000000000000) as u64));
                    assert(c_rest.drop_first() =~= cns_tail);
                    lemma_sub64_shift(st.cur, r);
                    assert(MachineState { cur: sub64(st.cur, (r % 0x10000000000000000) as u64), ..st }
                        == MachineState {
                        cur: sub64(sub64(st.cur, 1), (((r - 1) as nat) % 0x10000000000000000) as u64),
                        ..st1
                    });
                }
            },
            Node::Output => {
                let tail = coalesce_nodes(rest);
                assert(cns == seq![IrNode::Output] + tail);
                assert(cns[0] == IrNode::Output);
                assert(cns.drop_first() =~= tail);
                let cur = st.cur as int;
                if cur < st.cells.len() {
                    let st1 = MachineState { outp: st.outp.push(st.cells[cur]), ..st };
                    lemma_coalescing_preserves_semantics(rest, st1, fuel);
                }
            },
            Node::Input => {
                let tail = coalesce_nodes(rest);
                assert(cns == seq![IrNode::Input] + tail);
                assert(cns[0] == IrNode::Input);
                assert(cns.drop_first() =~= tail);
                let cur = st.cur as int;
                if cur < st.cells.len() && st.inp.len() > 0 {
                    let st1 = MachineState {
                        cells: st.cells.update(cur, st.inp[0]),
                        inp: st.inp.drop_first(),
                        ..st
                    };
                    lemma_coalescing_preserves_semantics(rest, st1, fuel);
                }
            },
            Node::Loop(body) => {
                let cbody = coalesce_nodes(body);
                let tail = coalesce_nodes(rest);
                assert(cns == seq![IrNode::Loop(cbody)] + tail);
                assert(cns[0] == IrNode::Loop(cbody));
                assert(cns.drop_first() =~= tail);
                let cur = st.cur as int;
                if cur < st.cells.len() {
                    if st.cells[cur] == 0 {
                        lemma_coalescing_preserves_semantics(rest, st, fuel);
                    } else if fuel > 0 {
                        lemma_coalescing_preserves_semantics(body + ns, st, (fuel - 1) as nat);
                        lemma_coalesce_append_at_loop(body, ns);
                        assert(coalesce_nodes(body + ns) =~= cbody + cns);
                    }
                }
            },
        }
    }
}

} // verus!


