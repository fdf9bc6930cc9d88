use vstd::prelude::*;

use crate::ast::Ast;
use crate::ast::Ir;
use crate::ast::IrNode;
use crate::ast::Node;
use crate::ast::nodes_of;
use crate::ast::ops_of;
use crate::ast::lemma_nodes_of_len;
use crate::ast::lemma_nodes_of_index;
use crate::ast::lemma_ops_of_push;

verus! {

broadcast use
    vstd::seq::axiom_seq_index_decreases,
    vstd::seq::axiom_seq_subrange_decreases,
    lemma_nodes_of_len,
    lemma_nodes_of_index,
;

/// Is this node one of the four leaf kinds whose runs are coalesced?
/// Output and Input are never coalesced, and a loop is no leaf.
pub open spec fn is_run_kind(k: Node) -> bool {
    k == Node::IncData || k == Node::DecData || k == Node::IncPtr || k == Node::DecPtr
}

/// How many nodes equal to `k` stand at the front of `ns`.
pub open spec fn run_len(ns: Seq<Node>, k: Node) -> nat
    decreases ns.len(),
{
    if ns.len() == 0 || ns[0] != k {
        0
    } else {
        1 + run_len(ns.drop_first(), k)
    }
}

/// `run_len` is the exact length of the maximal leading run.
pub proof fn lemma_run_len_exact(ns: Seq<Node>, k: Node, r: int)
    requires
        0 <= r <= ns.len(),
        forall|j: int| 0 <= j < r ==> ns[j] == k,
        r < ns.len() ==> ns[r] != k,
    ensures
        run_len(ns, k) == r,
    decreases r,
{
    if r == 0 {
    } else {
        assert(ns[0] == k);
        lemma_run_len_exact(ns.drop_first(), k, r - 1);
    }
}

/// The one weighted operation standing for a run of `n` identical leaves of
/// kind `k`.  A data weight carries the run length modulo 256, a pointer
/// weight the run length modulo 2^64; under the wraparound semantics of the
/// cell and of the cursor the reduced weight acts as the full run does.
pub open spec fn weighted(k: Node, n: nat) -> IrNode {
    if k == Node::IncData {
        IrNode::AddData((n % 256) as u8)
    } else if k == Node::DecData {
        IrNode::SubData((n % 256) as u8)
    } else if k == Node::IncPtr {
        IrNode::AddPtr((n % 0x10000000000000000) as u64)
    } else {
        IrNode::SubPtr((n % 0x10000000000000000) as u64)
    }
}

/// The coalesced form of an instruction sequence: each maximal run of one
/// coalescible leaf kind collapses to a single weighted operation; Output,
/// Input and loops pass through one by one, loop bodies coalesced in turn.
pub open spec fn coalesce_nodes(ns: Seq<Node>) -> Seq<IrNode>
    decreases ns,
{
    if ns.len() == 0 {
        Seq::empty()
    } else {
        match ns[0] {
            Node::Loop(body) => seq![IrNode::Loop(coalesce_nodes(body))] + coalesce_nodes(
                ns.drop_first(),
            ),
            Node::Output => seq![IrNode::Output] + coalesce_nodes(ns.drop_first()),
            Node::Input => seq![IrNode::Input] + coalesce_nodes(ns.drop_first()),
            _ => {
                let r = run_len(ns, ns[0]);
                // the run is never longer than the sequence; the bound is proved beside it
                let rest = if 1 <= r <= ns.len() {
                    ns.skip(r as int)
                } else {
                    ns.drop_first()
                };
                seq![weighted(ns[0], r)] + coalesce_nodes(rest)
            },
        }
    }
}

/// A maximal run of `n` identical coalescible leaves becomes exactly one
/// weighted operation carrying the run length.
pub proof fn lemma_coalesce_run(k: Node, n: nat)
    requires
        is_run_kind(k),
        n >= 1,
    ensures
        coalesce_nodes(Seq::new(n, |_i: int| k)) == seq![weighted(k, n)],
{
    let ns = Seq::new(n, |_i: int| k);
    lemma_run_len_exact(ns, k, n as int);
    assert(ns.skip(n as int) =~= Seq::<Node>::empty());
    assert(coalesce_nodes(Seq::<Node>::empty()) =~= Seq::<IrNode>::empty());
    assert(seq![weighted(k, n)] + Seq::<IrNode>::empty() =~= seq![weighted(k, n)]);
}

/// Are these the same coalescible leaf operation?
fn same_run_kind(a: &Ast, b: &Ast) -> (r: bool)
    ensures
        r == (a.deep() == b.deep() && is_run_kind(a.deep())),
{
    match (a, b) {
        (Ast::IncData, Ast::IncData) => true,
        (Ast::DecData, Ast::DecData) => true,
        (Ast::IncPtr, Ast::IncPtr) => true,
        (Ast::DecPtr, Ast::DecPtr) => true,
        _ => false,
    }
}

/// The position just past the maximal run of operations identical to
/// `insts[i]`.
#[verifier::loop_isolation(false)]
fn run_end(insts: &Vec<Ast>, i: usize) -> (j: usize)
    requires
        i < insts@.len(),
        is_run_kind(insts@[i as int].deep()),
    ensures
        i < j <= insts@.len(),
        forall|m: int| i <= m < j ==> insts@[m].deep() == insts@[i as int].deep(),
        j < insts@.len() ==> insts@[j as int].deep() != insts@[i as int].deep(),
{
    let total = insts.len();
    let mut j = i + 1;
    while j < total && same_run_kind(&insts[i], &insts[j])
        invariant
            i < j <= insts@.len(),
            forall|m: int| i <= m < j ==> insts@[m].deep() == insts@[i as int].deep(),
        decreases insts@.len() - j,
    {
        j += 1;
    }
    j
}

/// Coalesce an instruction sequence: walk it with one-step lookahead,
/// collapse each maximal run of one coalescible leaf kind into a single
/// weighted operation, and coalesce loop bodies recursively.
#[verifier::rlimit(80)]
#[verifier::loop_isolation(false)]
pub fn coalesce(insts: &Vec<Ast>) -> (ops: Vec<Ir>)
    ensures
        ops_of(ops@) == coalesce_nodes(nodes_of(insts@)),
    decreases insts@,
{
    let ghost all = nodes_of(insts@);
    let mut ops: Vec<Ir> = Vec::new();
    let mut i: usize = 0;
    proof {
        assert(all.skip(0) =~= all);
        assert(Seq::<IrNode>::empty() + coalesce_nodes(all) =~= coalesce_nodes(all));
    }
    while i < insts.len()
        invariant
            i <= insts@.len(),
            coalesce_nodes(all) == ops_of(ops@) + coalesce_nodes(all.skip(i as int)),
        decreases insts@.len() - i,
    {
        let ghost iprev = i as int;
        let ghost k = insts@[iprev].deep();
        proof {
            assert(all.skip(iprev)[0] == all[iprev]);
        }
        let ghost prev_ops = ops@;
        match &insts[i] {
            Ast::Loop { insts: body } => {
                let inner = coalesce(body);
                ops.push(Ir::Loop(inner));
                i += 1;
                proof {
                    assert(all.skip(iprev).drop_first() =~= all.skip(iprev + 1));
                    lemma_ops_of_push(prev_ops, Ir::Loop(inner));
                    assert(coalesce_nodes(all.skip(iprev)) == seq![
                        Ir::Loop(inner).deep(),
                    ] + coalesce_nodes(all.skip(iprev + 1)));
                    assert((ops_of(prev_ops) + seq![Ir::Loop(inner).deep()]) + coalesce_nodes(
                        all.skip(iprev + 1),
                    ) =~= ops_of(prev_ops) + (seq![Ir::Loop(inner).deep()] + coalesce_nodes(
                        all.skip(iprev + 1),
                    )));
                }
            },
            Ast::Output => {
                ops.push(Ir::Output);
                i += 1;
                proof {
                    assert(all.skip(iprev).drop_first() =~= all.skip(iprev + 1));
                    lemma_ops_of_push(prev_ops, Ir::Output);
                    assert((ops_of(prev_ops) + seq![IrNode::Output]) + coalesce_nodes(
                        all.skip(iprev + 1),
                    ) =~= ops_of(prev_ops) + (seq![IrNode::Output] + coalesce_nodes(
                        all.skip(iprev + 1),
                    )));
                }
            },
            Ast::Input => {
                ops.push(Ir::Input);
                i += 1;
                proof {
                    assert(all.skip(iprev).drop_first() =~= all.skip(iprev + 1));
                    lemma_ops_of_push(prev_ops, Ir::Input);
                    assert((ops_of(prev_ops) + seq![IrNode::Input]) + coalesce_nodes(
                        all.skip(iprev + 1),
                    ) =~= ops_of(prev_ops) + (seq![IrNode::Input] + coalesce_nodes(
                        all.skip(iprev + 1),
                    )));
                }
            },
            _ => {
                let j = run_end(insts, i);
                let ghost r = j - iprev;
                proof {
                    assert forall|m: int| 0 <= m < r implies all.skip(iprev)[m] == k by {
                        assert(all.skip(iprev)[m] == all[iprev + m]);
                    }
                    assert(r < all.skip(iprev).len() ==> all.skip(iprev)[r] != k);
                    lemma_run_len_exact(all.skip(iprev), k, r);
                    assert(all.skip(iprev).skip(r) =~= all.skip(j as int));
                }
                let n = j - i;
                let op = match &insts[i] {
                    Ast::IncData => Ir::AddData((n % 256) as u8),
                    Ast::DecData => Ir::SubData((n % 256) as u8),
                    Ast::IncPtr => Ir::AddPtr(n as u64),
                    _ => Ir::SubPtr(n as u64),
                };
                proof {
                    assert(op.deep() == weighted(k, r as nat));
                }
                ops.push(op);
                i = j;
                proof {
                    lemma_ops_of_push(prev_ops, op);
                    assert(coalesce_nodes(all.skip(iprev)) == seq![op.deep()] + coalesce_nodes(
                        all.skip(i as int),
                    ));
                    assert((ops_of(prev_ops) + seq![op.deep()]) + coalesce_nodes(all.skip(i as int))
                        =~= ops_of(prev_ops) + (seq![op.deep()] + coalesce_nodes(
                        all.skip(i as int),
                    )));
                }
            },
        }
    }
    proof {
        assert(all.skip(insts@.len() as int) =~= Seq::<Node>::empty());
        assert(ops_of(ops@) + Seq::<IrNode>::empty() =~= ops_of(ops@));
    }
    ops
}


/// A leading run never outruns the sequence.
pub proof fn lemma_run_len_le(ns: Seq<Node>, k: Node)
    ensures
        run_len(ns, k) <= ns.len(),
    decreases ns.len(),
{
    if ns.len() != 0 && ns[0] == k {
        lemma_run_len_le(ns.drop_first(), k);
    }
}

/// A leading run stops before a following part whose head differs from its
/// kind.
pub proof fn lemma_run_len_append(a: Seq<Node>, b: Seq<Node>, k: Node)
    requires
        b.len() > 0 ==> b[0] != k,
    ensures
        run_len(a + b, k) == run_len(a, k),
    decreases a.len(),
{
    if a.len() == 0 {
        assert(a + b =~= b);
    } else {
        assert((a + b)[0] == a[0]);
        if a[0] == k {
            assert((a + b).drop_first() =~= a.drop_first() + b);
            lemma_run_len_append(a.drop_first(), b, k);
        }
    }
}

/// Coalescing distributes over a concatenation whose second part begins
/// with a loop: no run reaches across the boundary.
pub proof fn lemma_coalesce_append_at_loop(a: Seq<Node>, b: Seq<Node>)
    requires
        b.len() > 0,
        b[0] is Loop,
    ensures
        coalesce_nodes(a + b) == coalesce_nodes(a) + coalesce_nodes(b),
    decreases a.len(),
{
    if a.len() == 0 {
        assert(a + b =~= b);
        assert(Seq::<IrNode>::empty() + coalesce_nodes(b) =~= coalesce_nodes(b));
    } else {
        assert((a + b)[0] == a[0]);
        match a[0] {
            Node::Loop(body) => {
                assert((a + b).drop_first() =~= a.drop_first() + b);
                lemma_coalesce_append_at_loop(a.drop_first(), b);
                assert((seq![IrNode::Loop(coalesce_nodes(body))] + coalesce_nodes(a.drop_first()))
                    + coalesce_nodes(b) =~= seq![IrNode::Loop(coalesce_nodes(body))] + (
                coalesce_nodes(a.drop_first()) + coalesce_nodes(b)));
            },
            Node::Output => {
                assert((a + b).drop_first() =~= a.drop_first() + b);
                lemma_coalesce_append_at_loop(a.drop_first(), b);
                assert((seq![IrNode::Output] + coalesce_nodes(a.drop_first())) + coalesce_nodes(b)
                    =~= seq![IrNode::Output] + (coalesce_nodes(a.drop_first()) + coalesce_nodes(
                    b,
                )));
            },
            Node::Input => {
                assert((a + b).drop_first() =~= a.drop_first() + b);
                lemma_coalesce_append_at_loop(a.drop_first(), b);
                assert((seq![IrNode::Input] + coalesce_nodes(a.drop_first())) + coalesce_nodes(b)
                    =~= seq![IrNode::Input] + (coalesce_nodes(a.drop_first()) + coalesce_nodes(
                    b,
                )));
            },
            _ => {
                let k = a[0];
                lemma_run_len_append(a, b, k);
                lemma_run_len_le(a, k);
                let r = run_len(a, k);
                assert(r >= 1);
                assert((a + b).skip(r as int) =~= a.skip(r as int) + b);
                lemma_coalesce_append_at_loop(a.skip(r as int), b);
                assert((seq![weighted(k, r)] + coalesce_nodes(a.skip(r as int))) + coalesce_nodes(
                    b,
                ) =~= seq![weighted(k, r)] + (coalesce_nodes(a.skip(r as int)) + coalesce_nodes(
                    b,
                )));
            },
        }
    }
}

} // verus!

