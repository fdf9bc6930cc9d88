use vstd::prelude::*;

verus! {

/// One node of the instruction tree: the six leaf operations of the
/// source language, and a loop owning its ordered body.
#[derive(Debug, PartialEq, Eq)]
pub enum Ast {
    /// `+`: increment the cell at the cursor.
    IncData,
    /// `>`: move the cursor right.
    IncPtr,
    /// `-`: decrement the cell at the cursor.
    DecData,
    /// `<`: move the cursor left.
    DecPtr,
    /// `.`: output the cell at the cursor.
    Output,
    /// `,`: read one byte into the cell at the cursor.
    Input,
    /// `[` ... `]`: repeat the body while the cell at the cursor is nonzero.
    Loop { insts: Vec<Ast> },
}

/// The mathematical shape of an instruction tree: `Ast` with each loop body
/// abstracted to a sequence of nodes.
pub enum Node {
    IncData,
    IncPtr,
    DecData,
    DecPtr,
    Output,
    Input,
    Loop(Seq<Node>),
}

impl Ast {
    /// The mathematical tree that this node stands for.
    pub open spec fn deep(self) -> Node
        decreases self,
    {
        match self {
            Ast::IncData => Node::IncData,
            Ast::IncPtr => Node::IncPtr,
            Ast::DecData => Node::DecData,
            Ast::DecPtr => Node::DecPtr,
            Ast::Output => Node::Output,
            Ast::Input => Node::Input,
            Ast::Loop { insts } => Node::Loop(nodes_of(insts@)),
        }
    }
}

/// The mathematical trees of a sequence of instruction nodes.
pub open spec fn nodes_of(v: Seq<Ast>) -> Seq<Node>
    decreases v,
{
    if v.len() == 0 {
        Seq::empty()
    } else {
        seq![v[0].deep()] + nodes_of(v.drop_first())
    }
}

/// `nodes_of` maps the sequence element by element.
pub broadcast proof fn lemma_nodes_of_len(v: Seq<Ast>)
    ensures
        (#[trigger] nodes_of(v)).len() == v.len(),
    decreases v.len(),
{
    if v.len() != 0 {
        lemma_nodes_of_len(v.drop_first());
    }
}

/// The tree at position `i` of `nodes_of(v)` is the tree of `v[i]`.
pub broadcast proof fn lemma_nodes_of_index(v: Seq<Ast>, i: int)
    requires
        0 <= i < v.len(),
    ensures
        #[trigger] nodes_of(v)[i] == v[i].deep(),
    decreases v.len(),
{
    lemma_nodes_of_len(v);
    if i > 0 {
        lemma_nodes_of_index(v.drop_first(), i - 1);
    }
}

/// Appending an instruction node appends its tree.
pub proof fn lemma_nodes_of_push(v: Seq<Ast>, a: Ast)
    ensures
        nodes_of(v.push(a)) == nodes_of(v) + seq![a.deep()],
{
    lemma_nodes_of_len(v);
    lemma_nodes_of_len(v.push(a));
    assert forall|i: int| 0 <= i < v.push(a).len() implies nodes_of(v.push(a))[i] == (nodes_of(v)
        + seq![a.deep()])[i] by {
        lemma_nodes_of_index(v.push(a), i);
        if i < v.len() {
            lemma_nodes_of_index(v, i);
        }
    }
    assert(nodes_of(v.push(a)) =~= nodes_of(v) + seq![a.deep()]);
}

/// One low-level operation, after coalescing: a run of identical
/// arithmetic or pointer operations is carried as a single weighted
/// operation.  Data weights are reduced modulo 256 (the cell width),
/// pointer weights modulo 2^64 (the pointer width); both reductions
/// preserve the wraparound semantics of the run they stand for.
#[derive(Debug, PartialEq, Eq)]
pub enum Ir {
    /// Add the weight to the cell at the cursor, with 8-bit wraparound.
    AddData(u8),
    /// Subtract the weight from the cell at the cursor, with 8-bit wraparound.
    SubData(u8),
    /// Move the cursor right by the weight, with pointer-width wraparound.
    AddPtr(u64),
    /// Move the cursor left by the weight, with pointer-width wraparound.
    SubPtr(u64),
    /// Output the cell at the cursor.
    Output,
    /// Read one byte into the cell at the cursor.
    Input,
    /// Repeat the body while the cell at the cursor is nonzero.
    Loop(Vec<Ir>),
}

/// The mathematical shape of a coalesced operation.
pub enum IrNode {
    AddData(u8),
    SubData(u8),
    AddPtr(u64),
    SubPtr(u64),
    Output,
    Input,
    Loop(Seq<IrNode>),
}

impl Ir {
    /// The mathematical operation that this one stands for.
    pub open spec fn deep(self) -> IrNode
        decreases self,
    {
        match self {
            Ir::AddData(k) => IrNode::AddData(k),
            Ir::SubData(k) => IrNode::SubData(k),
            Ir::AddPtr(k) => IrNode::AddPtr(k),
            Ir::SubPtr(k) => IrNode::SubPtr(k),
            Ir::Output => IrNode::Output,
            Ir::Input => IrNode::Input,
            Ir::Loop(body) => IrNode::Loop(ops_of(body@)),
        }
    }
}

/// The mathematical operations of a sequence of coalesced operations.
pub open spec fn ops_of(v: Seq<Ir>) -> Seq<IrNode>
    decreases v,
{
    if v.len() == 0 {
        Seq::empty()
    } else {
        seq![v[0].deep()] + ops_of(v.drop_first())
    }
}

/// `ops_of` maps the sequence element by element.
pub broadcast proof fn lemma_ops_of_len(v: Seq<Ir>)
    ensures
        (#[trigger] ops_of(v)).len() == v.len(),
    decreases v.len(),
{
    if v.len() != 0 {
        lemma_ops_of_len(v.drop_first());
    }
}

/// The operation at position `i` of `ops_of(v)` is the operation of `v[i]`.
pub broadcast proof fn lemma_ops_of_index(v: Seq<Ir>, i: int)
    requires
        0 <= i < v.len(),
    ensures
        #[trigger] ops_of(v)[i] == v[i].deep(),
    decreases v.len(),
{
    lemma_ops_of_len(v);
    if i > 0 {
        lemma_ops_of_index(v.drop_first(), i - 1);
    }
}

/// Appending a coalesced operation appends its mathematical operation.
pub proof fn lemma_ops_of_push(v: Seq<Ir>, a: Ir)
    ensures
        ops_of(v.push(a)) == ops_of(v) + seq![a.deep()],
{
    lemma_ops_of_len(v);
    lemma_ops_of_len(v.push(a));
    assert forall|i: int| 0 <= i < v.push(a).len() implies ops_of(v.push(a))[i] == (ops_of(v)
        + seq![a.deep()])[i] by {
        lemma_ops_of_index(v.push(a), i);
        if i < v.len() {
            lemma_ops_of_index(v, i);
        }
    }
    assert(ops_of(v.push(a)) =~= ops_of(v) + seq![a.deep()]);
}

} // verus!
