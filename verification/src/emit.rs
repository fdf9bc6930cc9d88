use vstd::prelude::*;

use crate::ast::Ast;
use crate::ast::Ir;
use crate::ast::IrNode;
use crate::ast::lemma_ops_of_index;
use crate::ast::lemma_ops_of_len;
use crate::ast::ops_of;
use crate::ast::nodes_of;
use crate::backend::BackendModule;
use crate::backend::Builder;
use crate::backend::BuilderModel;
use crate::backend::Event;
use crate::backend::FuncHandle;
use crate::backend::ModuleModel;
use crate::backend::SigModel;
use crate::backend::SsaVar;
use crate::backend::Ty;
use crate::backend::create_block;
use crate::backend::declare_anonymous_data;
use crate::backend::declare_data_in_data;
use crate::backend::declare_data_in_func;
use crate::backend::declare_export_function;
use crate::backend::declare_func_in_func;
use crate::backend::declare_import_function;
use crate::backend::declare_local_data;
use crate::backend::declare_ptr_variable;
use crate::backend::define_data;
use crate::backend::define_function;
use crate::backend::define_variable;
use crate::backend::define_zeroinit;
use crate::backend::emit_object;
use crate::backend::finalize_builder;
use crate::backend::finish_module;
use crate::backend::ins_brif;
use crate::backend::ins_call_result;
use crate::backend::ins_call_unit;
use crate::backend::ins_const_byte;
use crate::backend::ins_const_ptr;
use crate::backend::ins_const_status;
use crate::backend::ins_iadd;
use crate::backend::ins_iadd_imm_ptr;
use crate::backend::ins_isub;
use crate::backend::ins_jump;
use crate::backend::ins_load_byte;
use crate::backend::ins_load_ptr;
use crate::backend::ins_return;
use crate::backend::ins_store;
use crate::backend::ins_symbol_value;
use crate::backend::make_context;
use crate::backend::make_signature;
use crate::backend::new_builder;
use crate::backend::new_builder_context;
use crate::backend::new_data_description;
use crate::backend::new_module;
use crate::backend::seal_block;
use crate::backend::set_function_name;
use crate::backend::set_function_signature;
use crate::backend::sig_add_param_byte;
use crate::backend::sig_add_return_byte;
use crate::backend::sig_add_return_status;
use crate::backend::switch_to_block;
use crate::backend::use_variable;
use crate::backend::write_data_addr;
use crate::coalesce::coalesce;
use crate::coalesce::coalesce_nodes;
use crate::semantics::TAPE_LEN;

verus! {

broadcast use
    vstd::set::group_set_axioms,
    vstd::map::group_map_axioms,
    vstd::std_specs::vec::axiom_vec_index_decreases,
    vstd::seq::axiom_seq_index_decreases,
    lemma_ops_of_len,
    lemma_ops_of_index,
;

/// A builder model that makes sense: the open block and every filled or
/// sealed block exist.
pub open spec fn builder_wf(m: BuilderModel) -> bool {
    &&& (m.open matches Some(b) ==> b < m.blocks)
    &&& forall|b: nat| #[trigger] m.visited.contains(b) ==> b < m.blocks
    &&& forall|b: nat| #[trigger] m.sealed.contains(b) ==> b < m.blocks
}

/// Block bookkeeping across an emission step: blocks that already existed
/// keep their filled and sealed status, and every newly filled block ends
/// up sealed.
pub open spec fn blocks_preserved(pre: BuilderModel, post: BuilderModel) -> bool {
    &&& post.blocks >= pre.blocks
    &&& forall|b: nat|
        b < pre.blocks ==> (#[trigger] post.sealed.contains(b) <==> pre.sealed.contains(b))
    &&& forall|b: nat|
        b < pre.blocks ==> (#[trigger] post.visited.contains(b) <==> pre.visited.contains(b))
    &&& forall|b: nat|
        pre.blocks <= b && #[trigger] post.visited.contains(b) ==> post.sealed.contains(b)
}

/// The backend events that lower one coalesced operation, and the number
/// of blocks it creates, given the cursor variable `cv`, the byte-output
/// and byte-input declarations `put` and `get`, and the blocks existing
/// before, `b0`.  A weighted data operation is one load, one add or
/// subtract of the weight, one store; a weighted pointer operation one add
/// or subtract redefining the cursor; a loop three blocks — header, body,
/// exit — each sealed once all its predecessors exist.
pub open spec fn op_events(op: IrNode, cv: nat, put: nat, get: nat, b0: nat) -> (Seq<Event>, nat)
    decreases op,
{
    match op {
        IrNode::AddData(k) => (
            seq![
                Event::UseVar(cv),
                Event::LoadByte,
                Event::ConstByte(k),
                Event::AddValues,
                Event::UseVar(cv),
                Event::Store,
            ],
            0,
        ),
        IrNode::SubData(k) => (
            seq![
                Event::UseVar(cv),
                Event::LoadByte,
                Event::ConstByte(k),
                Event::SubValues,
                Event::UseVar(cv),
                Event::Store,
            ],
            0,
        ),
        IrNode::AddPtr(k) => (
            seq![Event::UseVar(cv), Event::AddImmPtr(k), Event::DefVar(cv)],
            0,
        ),
        IrNode::SubPtr(k) => (
            seq![Event::UseVar(cv), Event::ConstPtr(k), Event::SubValues, Event::DefVar(cv)],
            0,
        ),
        IrNode::Output => (seq![Event::UseVar(cv), Event::LoadByte, Event::Call(put)], 0),
        IrNode::Input => (seq![Event::CallResult(get), Event::UseVar(cv), Event::Store], 0),
        IrNode::Loop(body) => {
            let (bev, bblocks) = seq_events(body, cv, put, get, b0 + 3);
            (
                seq![
                    Event::Jump(b0),
                    Event::Open(b0),
                    Event::UseVar(cv),
                    Event::LoadByte,
                    Event::Brif(b0 + 1, b0 + 2),
                    Event::Open(b0 + 1),
                ] + bev + seq![
                    Event::Jump(b0),
                    Event::Open(b0 + 2),
                    Event::Seal(b0),
                    Event::Seal(b0 + 1),
                    Event::Seal(b0 + 2),
                ],
                3 + bblocks,
            )
        },
    }
}

/// The backend events that lower a sequence of coalesced operations, one
/// after the other, and the number of blocks they create.
pub open spec fn seq_events(ops: Seq<IrNode>, cv: nat, put: nat, get: nat, b0: nat) -> (
    Seq<Event>,
    nat,
)
    decreases ops,
{
    if ops.len() == 0 {
        (Seq::empty(), 0)
    } else {
        let (e0, nb0) = op_events(ops[0], cv, put, get, b0);
        let (er, nbr) = seq_events(ops.drop_first(), cv, put, get, b0 + nb0);
        (e0 + er, nb0 + nbr)
    }
}

/// Emit the backend instructions of one coalesced operation into the
/// block under construction: exactly the events of `op_events`, in order,
/// creating exactly its blocks.  The cursor variable, everything already
/// emitted, and the module's declarations are untouched beyond that, and
/// the builder is left mid-block, ready for the next operation.
#[verifier::loop_isolation(false)]
#[verifier::rlimit(100)]
fn compile_instruction<'a>(
    op: &Ir,
    bcx: &mut Builder<'a>,
    module: &mut BackendModule,
    cursor: &SsaVar,
    putchar: &FuncHandle,
    getchar: &FuncHandle,
)
    requires
        builder_wf(old(bcx).model()),
        old(bcx).model().open is Some,
        cursor.tag() == old(bcx).model().tag,
        cursor.ix() < old(bcx).model().vars.len(),
        old(bcx).model().vars[cursor.ix() as int] == Ty::Ptr,
        putchar.tag() == old(module).model().tag,
        putchar.ix() < old(module).model().funcs.len(),
        old(module).model().funcs[putchar.ix() as int].params == seq![Ty::Byte],
        getchar.tag() == old(module).model().tag,
        getchar.ix() < old(module).model().funcs.len(),
        old(module).model().funcs[getchar.ix() as int].params == Seq::<Ty>::empty(),
        old(module).model().funcs[getchar.ix() as int].rets == seq![Ty::Byte],
    ensures
        builder_wf(final(bcx).model()),
        final(bcx).model().open is Some,
        final(bcx).model().tag == old(bcx).model().tag,
        final(bcx).model().vars == old(bcx).model().vars,
        final(bcx).model().blocks == old(bcx).model().blocks + op_events(
            op.deep(),
            cursor.ix(),
            putchar.ix(),
            getchar.ix(),
            old(bcx).model().blocks,
        ).1,
        final(bcx).model().trace == old(bcx).model().trace + op_events(
            op.deep(),
            cursor.ix(),
            putchar.ix(),
            getchar.ix(),
            old(bcx).model().blocks,
        ).0,
        blocks_preserved(old(bcx).model(), final(bcx).model()),
        final(module).model() == old(module).model(),
    decreases op,
{
    let ghost t0 = bcx.model().trace;
    let ghost b0 = bcx.model().blocks;
    match op {
        Ir::AddData(k) => {
            let addr = use_variable(bcx, cursor);
            let v = ins_load_byte(bcx, &addr);
            let c = ins_const_byte(bcx, *k);
            let sum = ins_iadd(bcx, &v, &c);
            let addr_again = use_variable(bcx, cursor);
            ins_store(bcx, &sum, &addr_again);
            proof {
                assert(bcx.model().trace =~= t0 + op_events(
                    op.deep(),
                    cursor.ix(),
                    putchar.ix(),
                    getchar.ix(),
                    b0,
                ).0);
            }
        },
        Ir::SubData(k) => {
            let addr = use_variable(bcx, cursor);
            let v = ins_load_byte(bcx, &addr);
            let c = ins_const_byte(bcx, *k);
            let diff = ins_isub(bcx, &v, &c);
            let addr_again = use_variable(bcx, cursor);
            ins_store(bcx, &diff, &addr_again);
            proof {
                assert(bcx.model().trace =~= t0 + op_events(
                    op.deep(),
                    cursor.ix(),
                    putchar.ix(),
                    getchar.ix(),
                    b0,
                ).0);
            }
        },
        Ir::AddPtr(k) => {
            let addr = use_variable(bcx, cursor);
            let moved = ins_iadd_imm_ptr(bcx, &addr, *k);
            define_variable(bcx, cursor, &moved);
            proof {
                assert(bcx.model().trace =~= t0 + op_events(
                    op.deep(),
                    cursor.ix(),
                    putchar.ix(),
                    getchar.ix(),
                    b0,
                ).0);
            }
        },
        Ir::SubPtr(k) => {
            let addr = use_variable(bcx, cursor);
            let c = ins_const_ptr(bcx, *k);
            let moved = ins_isub(bcx, &addr, &c);
            define_variable(bcx, cursor, &moved);
            proof {
                assert(bcx.model().trace =~= t0 + op_events(
                    op.deep(),
                    cursor.ix(),
                    putchar.ix(),
                    getchar.ix(),
                    b0,
                ).0);
            }
        },
        Ir::Output => {
            let addr = use_variable(bcx, cursor);
            let v = ins_load_byte(bcx, &addr);
            let f = declare_func_in_func(module, putchar, bcx);
            ins_call_unit(bcx, &f, &v);
            proof {
                assert(bcx.model().trace =~= t0 + op_events(
                    op.deep(),
                    cursor.ix(),
                    putchar.ix(),
                    getchar.ix(),
                    b0,
                ).0);
            }
        },
        Ir::Input => {
            let f = declare_func_in_func(module, getchar, bcx);
            if let Some(v) = ins_call_result(bcx, &f) {
                let addr = use_variable(bcx, cursor);
                ins_store(bcx, &v, &addr);
                proof {
                    assert(bcx.model().trace =~= t0 + op_events(
                        op.deep(),
                        cursor.ix(),
                        putchar.ix(),
                        getchar.ix(),
                        b0,
                    ).0);
                }
            }
        },
        Ir::Loop(body) => {
            let ghost cv = cursor.ix();
            let ghost pu = putchar.ix();
            let ghost ge = getchar.ix();
            let ghost bodyns = ops_of(body@);
            let header = create_block(bcx);
            let body_block = create_block(bcx);
            let exit = create_block(bcx);
            ins_jump(bcx, &header);
            switch_to_block(bcx, &header);
            let addr = use_variable(bcx, cursor);
            let v = ins_load_byte(bcx, &addr);
            ins_brif(bcx, &v, &body_block, &exit);
            switch_to_block(bcx, &body_block);
            let ghost tb = bcx.model().trace;
            let ghost bb = bcx.model().blocks;
            let ghost pre = bcx.model();
            proof {
                assert(bodyns.skip(0) =~= bodyns);
                assert(tb + seq_events(bodyns, cv, pu, ge, bb).0 =~= bcx.model().trace
                    + seq_events(bodyns.skip(0), cv, pu, ge, bcx.model().blocks).0);
            }
            let mut i: usize = 0;
            while i < body.len()
                invariant
                    i <= body@.len(),
                    builder_wf(bcx.model()),
                    bcx.model().open is Some,
                    bcx.model().tag == pre.tag,
                    bcx.model().vars == pre.vars,
                    module.model() == old(module).model(),
                    tb + seq_events(bodyns, cv, pu, ge, bb).0 == bcx.model().trace + seq_events(
                        bodyns.skip(i as int),
                        cv,
                        pu,
                        ge,
                        bcx.model().blocks,
                    ).0,
                    bb + seq_events(bodyns, cv, pu, ge, bb).1 == bcx.model().blocks + seq_events(
                        bodyns.skip(i as int),
                        cv,
                        pu,
                        ge,
                        bcx.model().blocks,
                    ).1,
                    blocks_preserved(pre, bcx.model()),
                decreases body@.len() - i,
            {
                let ghost mprev = bcx.model();
                proof {
                    assert(bodyns.skip(i as int)[0] == bodyns[i as int]);
                    assert(bodyns.skip(i as int).drop_first() =~= bodyns.skip(i as int + 1));
                }
                compile_instruction(&body[i], bcx, module, cursor, putchar, getchar);
                proof {
                    let (e0, nb0) = op_events(bodyns[i as int], cv, pu, ge, mprev.blocks);
                    let rest = bodyns.skip(i as int + 1);
                    assert((mprev.trace + e0) + seq_events(rest, cv, pu, ge, bcx.model().blocks).0
                        =~= mprev.trace + (e0 + seq_events(rest, cv, pu, ge, bcx.model().blocks).0));
                }
                i += 1;
            }
            proof {
                assert(bodyns.skip(body@.len() as int) =~= Seq::<IrNode>::empty());
                assert(bcx.model().trace + Seq::<Event>::empty() =~= bcx.model().trace);
            }
            ins_jump(bcx, &header);
            switch_to_block(bcx, &exit);
            seal_block(bcx, &header);
            seal_block(bcx, &body_block);
            seal_block(bcx, &exit);
            proof {
                let ev = op_events(op.deep(), cv, pu, ge, b0).0;
                let bev = seq_events(bodyns, cv, pu, ge, bb).0;
                assert(op.deep() == IrNode::Loop(bodyns));
                assert(ev == seq![
                    Event::Jump(b0),
                    Event::Open(b0),
                    Event::UseVar(cv),
                    Event::LoadByte,
                    Event::Brif(b0 + 1, b0 + 2),
                    Event::Open(b0 + 1),
                ] + bev + seq![
                    Event::Jump(b0),
                    Event::Open(b0 + 2),
                    Event::Seal(b0),
                    Event::Seal(b0 + 1),
                    Event::Seal(b0 + 2),
                ]);
                assert(bcx.model().trace =~= t0 + ev);
            }
        },
    }
}

/// Drive the instruction compiler over a whole coalesced program: exactly
/// the events of `seq_events`, in order, into the block under
/// construction.
#[verifier::loop_isolation(false)]
fn compile_ops<'a>(
    ops: &Vec<Ir>,
    bcx: &mut Builder<'a>,
    module: &mut BackendModule,
    cursor: &SsaVar,
    putchar: &FuncHandle,
    getchar: &FuncHandle,
)
    requires
        builder_wf(old(bcx).model()),
        old(bcx).model().open is Some,
        cursor.tag() == old(bcx).model().tag,
        cursor.ix() < old(bcx).model().vars.len(),
        old(bcx).model().vars[cursor.ix() as int] == Ty::Ptr,
        putchar.tag() == old(module).model().tag,
        putchar.ix() < old(module).model().funcs.len(),
        old(module).model().funcs[putchar.ix() as int].params == seq![Ty::Byte],
        getchar.tag() == old(module).model().tag,
        getchar.ix() < old(module).model().funcs.len(),
        old(module).model().funcs[getchar.ix() as int].params == Seq::<Ty>::empty(),
        old(module).model().funcs[getchar.ix() as int].rets == seq![Ty::Byte],
    ensures
        builder_wf(final(bcx).model()),
        final(bcx).model().open is Some,
        final(bcx).model().tag == old(bcx).model().tag,
        final(bcx).model().vars == old(bcx).model().vars,
        final(bcx).model().trace == old(bcx).model().trace + seq_events(
            ops_of(ops@),
            cursor.ix(),
            putchar.ix(),
            getchar.ix(),
            old(bcx).model().blocks,
        ).0,
        blocks_preserved(old(bcx).model(), final(bcx).model()),
        final(module).model() == old(module).model(),
{
    let ghost cv = cursor.ix();
    let ghost pu = putchar.ix();
    let ghost ge = getchar.ix();
    let ghost all = ops_of(ops@);
    let ghost t0 = bcx.model().trace;
    let ghost b0 = bcx.model().blocks;
    let ghost pre = bcx.model();
    proof {
        assert(all.skip(0) =~= all);
        assert(t0 + seq_events(all, cv, pu, ge, b0).0 =~= bcx.model().trace + seq_events(
            all.skip(0),
            cv,
            pu,
            ge,
            bcx.model().blocks,
        ).0);
    }
    let mut i: usize = 0;
    while i < ops.len()
        invariant
            i <= ops@.len(),
            builder_wf(bcx.model()),
            bcx.model().open is Some,
            bcx.model().tag == pre.tag,
            bcx.model().vars == pre.vars,
            module.model() == old(module).model(),
            t0 + seq_events(all, cv, pu, ge, b0).0 == bcx.model().trace + seq_events(
                all.skip(i as int),
                cv,
                pu,
                ge,
                bcx.model().blocks,
            ).0,
            blocks_preserved(pre, bcx.model()),
        decreases ops@.len() - i,
    {
        let ghost mprev = bcx.model();
        proof {
            assert(all.skip(i as int)[0] == all[i as int]);
            assert(all.skip(i as int).drop_first() =~= all.skip(i as int + 1));
        }
        compile_instruction(&ops[i], bcx, module, cursor, putchar, getchar);
        proof {
            let (e0, nb0) = op_events(all[i as int], cv, pu, ge, mprev.blocks);
            let rest = all.skip(i as int + 1);
            assert((mprev.trace + e0) + seq_events(rest, cv, pu, ge, bcx.model().blocks).0
                =~= mprev.trace + (e0 + seq_events(rest, cv, pu, ge, bcx.model().blocks).0));
        }
        i += 1;
    }
    proof {
        assert(all.skip(ops@.len() as int) =~= Seq::<IrNode>::empty());
        assert(bcx.model().trace + Seq::<Event>::empty() =~= bcx.model().trace);
    }
}


/// What a successful compilation handed to the backend: the module's final
/// tracked state and the entry function's whole emission trace.
pub struct CompiledShape {
    pub module: ModuleModel,
    pub trace: Seq<Event>,
}

/// The entry function's whole event sequence for a coalesced program: open
/// and seal the entry block, take the tape's address from the pointer slot
/// (data symbol 1) into the cursor (variable 0), lower the program —
/// byte-output is declaration 1, byte-input declaration 2, further blocks
/// from 1 — and return status zero.
pub open spec fn program_events(ops: Seq<IrNode>) -> Seq<Event> {
    seq![
        Event::Open(0),
        Event::Seal(0),
        Event::SymbolAddr(1),
        Event::LoadPtr,
        Event::DefVar(0),
    ] + seq_events(ops, 0, 1, 2, 1).0 + seq![Event::ConstStatus(0), Event::Return]
}

/// The module shape of every successful compilation: `main`, exported,
/// with no parameters and a 32-bit status, as declaration 0, defined; the
/// byte-output import taking one byte as declaration 1 and the byte-input
/// import returning one byte as declaration 2; the private 30000-byte
/// zero-initialized tape as data symbol 0 and the anonymous pointer slot
/// as data symbol 1, eight bytes holding, at offset zero, the tape's
/// address; both defined.
pub open spec fn module_shape(mm: ModuleModel) -> bool {
    &&& mm.funcs.len() == 3
    &&& mm.funcs[0] == (SigModel { params: Seq::<Ty>::empty(), rets: seq![Ty::Status] })
    &&& mm.funcs[1] == (SigModel { params: seq![Ty::Byte], rets: Seq::<Ty>::empty() })
    &&& mm.funcs[2] == (SigModel { params: Seq::<Ty>::empty(), rets: seq![Ty::Byte] })
    &&& !mm.imports.contains(0)
    &&& mm.imports.contains(1)
    &&& mm.imports.contains(2)
    &&& mm.defined_funcs.contains(0)
    &&& mm.datas == 2
    &&& mm.defined_datas.contains(0)
    &&& mm.defined_datas.contains(1)
    &&& mm.data_sizes[0] == TAPE_LEN
    &&& mm.data_sizes[1] == 8
    &&& mm.data_relocs[0] == Seq::<(nat, nat)>::empty()
    &&& mm.data_relocs[1] == seq![(0nat, 0nat)]
    &&& mm.names.contains("main"@)
    &&& mm.names.contains("putchar"@)
    &&& mm.names.contains("getchar"@)
    &&& mm.names.contains("data"@)
}

/// Produce one finished object module from a full instruction tree:
/// declare the exported entry function `main` returning a 32-bit status,
/// the private zero-initialized tape, the anonymous pointer-sized symbol
/// holding the tape's address, and the imported byte-output and byte-input
/// routines; initialize the cursor from the tape's address read through
/// that symbol; drive the instruction compiler over the coalesced program;
/// append `return 0`; and serialize the module to object-file bytes.  The
/// backend's answers decide success, so a failed backend step yields
/// `None` and no bytes are produced.  Beside the bytes stands the ghost
/// evidence of what was handed to the backend: whenever bytes come back,
/// the module had exactly the shape of `module_shape`, and the entry
/// function's emission trace was exactly `program_events` of the coalesced
/// form of `ast` — the contract of the whole lowering.
pub fn compile(ast: &Vec<Ast>) -> (r: (Option<Vec<u8>>, Ghost<CompiledShape>))
    ensures
        r.0 is Some ==> module_shape(r.1@.module),
        r.0 is Some ==> r.1@.trace == program_events(coalesce_nodes(nodes_of(ast@))),
{
    let ghost nothing = CompiledShape {
        module: vstd::pervasive::arbitrary(),
        trace: vstd::pervasive::arbitrary(),
    };
    let ops = coalesce(ast);
    let mut module = match new_module() {
        Some(m) => m,
        None => {
            return (None, Ghost(nothing));
        },
    };
    proof {
        reveal_strlit("main");
        reveal_strlit("putchar");
        reveal_strlit("getchar");
        reveal_strlit("data");
        assert("main"@.len() == 4);
        assert("putchar"@.len() == 7);
        assert("getchar"@.len() == 7);
        assert("data"@.len() == 4);
        assert("main"@[0] == 'm' && "data"@[0] == 'd');
        assert("putchar"@[0] == 'p' && "getchar"@[0] == 'g');
        assert("main"@ != "putchar"@);
        assert("main"@ != "getchar"@);
        assert("main"@ != "data"@);
        assert("putchar"@ != "getchar"@);
        assert("putchar"@ != "data"@);
        assert("getchar"@ != "data"@);
    }
    let mut ctx = make_context(&module);
    let mut fbc = new_builder_context();
    let mut sig_main = make_signature(&module);
    sig_add_return_status(&mut sig_main);
    let func_main = match declare_export_function(&mut module, "main", &sig_main) {
        Some(f) => f,
        None => {
            return (None, Ghost(nothing));
        },
    };
    set_function_signature(&mut ctx, &sig_main);
    set_function_name(&mut ctx, &func_main);
    let mut sig_put = make_signature(&module);
    sig_add_param_byte(&mut sig_put);
    let putchar = match declare_import_function(&mut module, "putchar", &sig_put) {
        Some(f) => f,
        None => {
            return (None, Ghost(nothing));
        },
    };
    let mut sig_get = make_signature(&module);
    sig_add_return_byte(&mut sig_get);
    let getchar = match declare_import_function(&mut module, "getchar", &sig_get) {
        Some(f) => f,
        None => {
            return (None, Ghost(nothing));
        },
    };
    let tape = match declare_local_data(&mut module, "data", true) {
        Some(d) => d,
        None => {
            return (None, Ghost(nothing));
        },
    };
    let mut tape_desc = new_data_description();
    define_zeroinit(&mut tape_desc, TAPE_LEN);
    if !define_data(&mut module, &tape, &tape_desc) {
        return (None, Ghost(nothing));
    }
    let mut ptr_desc = new_data_description();
    define_zeroinit(&mut ptr_desc, 8);
    let tape_ref = declare_data_in_data(&module, &tape, &mut ptr_desc);
    write_data_addr(&mut ptr_desc, 0, &tape_ref);
    let ptr_data = match declare_anonymous_data(&mut module, true) {
        Some(d) => d,
        None => {
            return (None, Ghost(nothing));
        },
    };
    if !define_data(&mut module, &ptr_data, &ptr_desc) {
        return (None, Ghost(nothing));
    }
    let mut bcx = new_builder(&mut ctx, &mut fbc);
    let entry = create_block(&mut bcx);
    switch_to_block(&mut bcx, &entry);
    seal_block(&mut bcx, &entry);
    let tape_slot = declare_data_in_func(&module, &ptr_data, &mut bcx);
    let cursor = declare_ptr_variable(&mut bcx);
    let slot_addr = ins_symbol_value(&mut bcx, &tape_slot);
    let tape_base = ins_load_ptr(&mut bcx, &slot_addr);
    define_variable(&mut bcx, &cursor, &tape_base);
    compile_ops(&ops, &mut bcx, &mut module, &cursor, &putchar, &getchar);
    let status = ins_const_status(&mut bcx, 0);
    ins_return(&mut bcx, &status);
    let ghost trace_done = bcx.model().trace;
    proof {
        assert(ops_of(ops@) == coalesce_nodes(nodes_of(ast@)));
        assert(trace_done =~= program_events(coalesce_nodes(nodes_of(ast@))));
    }
    proof {
        assert forall|b: nat| bcx.model().visited.contains(b) implies bcx.model().sealed.contains(
            b,
        ) by {
            if b >= 1 {
                assert(bcx.model().sealed.contains(b));
            }
        }
    }
    finalize_builder(bcx, &module);
    if !define_function(&mut module, &func_main, &mut ctx) {
        return (None, Ghost(nothing));
    }
    proof {
        assert forall|i: nat| i < module.model().funcs.len() implies #[trigger] module
            .model().imports.contains(i) || module.model().defined_funcs.contains(i) by {
            if i == 0 {
                assert(module.model().defined_funcs.contains(0nat));
            }
        }
        assert forall|i: nat| i < module.model().datas implies #[trigger] module
            .model().defined_datas.contains(i) by {
            if i == 0 {
                assert(module.model().defined_datas.contains(0nat));
            } else {
                assert(module.model().defined_datas.contains(1nat));
            }
        }
    }
    let ghost shape = CompiledShape { module: module.model(), trace: trace_done };
    proof {
        assert(module_shape(shape.module));
    }
    (emit_object(finish_module(module)), Ghost(shape))
}

} // verus!
