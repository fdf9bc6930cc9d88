use vstd::prelude::*;

use cranelift_codegen::Context;
use cranelift_codegen::ir::Block;
use cranelift_codegen::ir::FuncRef;
use cranelift_codegen::ir::GlobalValue;
use cranelift_codegen::ir::InstBuilder;
use cranelift_codegen::ir::MemFlagsData;
use cranelift_codegen::ir::Signature;
use cranelift_codegen::ir::Type;
use cranelift_codegen::ir::UserFuncName;
use cranelift_codegen::ir::Value;
use cranelift_codegen::ir::types;
use cranelift_codegen::settings;
use cranelift_codegen::settings::Configurable;
use cranelift_frontend::FunctionBuilder;
use cranelift_frontend::FunctionBuilderContext;
use cranelift_frontend::Variable;
use cranelift_module::DataDescription;
use cranelift_module::DataId;
use cranelift_module::FuncId;
use cranelift_module::Linkage;
use cranelift_module::Module;
use cranelift_module::default_libcall_names;
use cranelift_object::ObjectBuilder;
use cranelift_object::ObjectModule;
use cranelift_object::ObjectProduct;

verus! {

/// An unspecified ghost value, for a trusted wrapper to place in a handle
/// it builds; what actually holds of it is only what that wrapper's
/// contract says.
fn unspecified<A>() -> Ghost<A> {
    Ghost(vstd::pervasive::arbitrary())
}

#[verifier::external_type_specification]
#[verifier::external_body]
pub struct ExObjectModule(ObjectModule);

#[verifier::external_type_specification]
#[verifier::external_body]
pub struct ExObjectProduct(ObjectProduct);

#[verifier::external_type_specification]
#[verifier::external_body]
pub struct ExContext(Context);

#[verifier::external_type_specification]
#[verifier::external_body]
pub struct ExFunctionBuilderContext(FunctionBuilderContext);

#[verifier::external_type_specification]
#[verifier::external_body]
pub struct ExFunctionBuilder<'a>(FunctionBuilder<'a>);

#[verifier::external_type_specification]
#[verifier::external_body]
pub struct ExSignature(Signature);

#[verifier::external_type_specification]
#[verifier::external_body]
pub struct ExValue(Value);

#[verifier::external_type_specification]
#[verifier::external_body]
pub struct ExBlock(Block);

#[verifier::external_type_specification]
#[verifier::external_body]
pub struct ExVariable(Variable);

#[verifier::external_type_specification]
#[verifier::external_body]
pub struct ExFuncId(FuncId);

#[verifier::external_type_specification]
#[verifier::external_body]
pub struct ExDataId(DataId);

#[verifier::external_type_specification]
#[verifier::external_body]
pub struct ExGlobalValue(GlobalValue);

#[verifier::external_type_specification]
#[verifier::external_body]
pub struct ExFuncRef(FuncRef);

#[verifier::external_type_specification]
#[verifier::external_body]
pub struct ExDataDescription(DataDescription);

/// The type a backend value was created at: the 8-bit cell, the host's
/// pointer width, or the 32-bit exit status.
pub enum Ty {
    Byte,
    Ptr,
    Status,
}

/// One step recorded by the instruction-emitting wrappers, in program
/// order: the verified emitter's contracts are stated over sequences of
/// these.  Block and function indices count from zero in creation order.
pub enum Event {
    /// Read the variable's current definition.
    UseVar(nat),
    /// Redefine the variable.
    DefVar(nat),
    /// An 8-bit constant, the two's-complement image of the byte.
    ConstByte(u8),
    /// A pointer-width constant, the two's-complement image of the word.
    ConstPtr(u64),
    /// A 32-bit constant.
    ConstStatus(u32),
    /// Integer addition of two values.
    AddValues,
    /// Integer subtraction of two values.
    SubValues,
    /// Pointer-width addition of an immediate, two's-complement image of
    /// the word.
    AddImmPtr(u64),
    /// Load the cell byte at an address.
    LoadByte,
    /// Load a pointer-width word at an address.
    LoadPtr,
    /// Store a value at an address.
    Store,
    /// Unconditional jump to a block.
    Jump(nat),
    /// Branch to the first block when nonzero, else to the second.
    Brif(nat, nat),
    /// Call the declared function, discarding results.
    Call(nat),
    /// Call the declared function for its single result.
    CallResult(nat),
    /// The address of a data symbol.
    SymbolAddr(nat),
    /// Return one value from the function.
    Return,
    /// Begin filling a block.
    Open(nat),
    /// Seal a block: all its predecessors are known.
    Seal(nat),
}

/// What the verifier tracks of a function builder: how many blocks exist,
/// which one is being filled, which were ever filled or sealed, the types
/// of the declared variables, and everything emitted so far.  The `tag`
/// ties values, variables and blocks to the builder that made them.
pub struct BuilderModel {
    pub tag: nat,
    pub blocks: nat,
    pub open: Option<nat>,
    pub visited: Set<nat>,
    pub sealed: Set<nat>,
    pub vars: Seq<Ty>,
    pub trace: Seq<Event>,
}

/// The declared shape of one module-level function.
pub struct SigModel {
    pub params: Seq<Ty>,
    pub rets: Seq<Ty>,
}

/// A module with nothing declared in it yet.
pub open spec fn fresh_module(mm: ModuleModel) -> bool {
    &&& mm.funcs == Seq::<SigModel>::empty()
    &&& mm.imports == Set::<nat>::empty()
    &&& mm.defined_funcs == Set::<nat>::empty()
    &&& mm.datas == 0
    &&& mm.defined_datas == Set::<nat>::empty()
    &&& mm.data_sizes == Map::<nat, nat>::empty()
    &&& mm.data_relocs == Map::<nat, Seq<(nat, nat)>>::empty()
    &&& mm.names == Set::<Seq<char>>::empty()
}

/// What the verifier tracks of a module: its function declarations with
/// their shapes, which of them are imports, what has been defined, how
/// many data symbols exist with their defined sizes and address
/// relocations, and the names taken.  The `tag` ties ids to the module
/// that issued them.
pub struct ModuleModel {
    pub tag: nat,
    pub funcs: Seq<SigModel>,
    pub imports: Set<nat>,
    pub defined_funcs: Set<nat>,
    pub datas: nat,
    pub defined_datas: Set<nat>,
    pub data_sizes: Map<nat, nat>,
    pub data_relocs: Map<nat, Seq<(nat, nat)>>,
    pub names: Set<Seq<char>>,
}

/// An object module under construction, with its ghost model.
pub struct BackendModule {
    inner: ObjectModule,
    model: Ghost<ModuleModel>,
}

impl BackendModule {
    /// The tracked state of this module.
    pub closed spec fn model(self) -> ModuleModel {
        self.model@
    }
}

/// A function builder, with its ghost model.
pub struct Builder<'a> {
    inner: FunctionBuilder<'a>,
    model: Ghost<BuilderModel>,
}

impl<'a> Builder<'a> {
    /// The tracked state of this builder.
    pub closed spec fn model(self) -> BuilderModel {
        self.model@
    }
}

/// A fresh builder context; it may back at most one builder.
pub struct BuilderCtx {
    inner: FunctionBuilderContext,
    used: Ghost<bool>,
}

impl BuilderCtx {
    /// Whether a builder was already made over this context.
    pub closed spec fn used(self) -> bool {
        self.used@
    }
}

/// A signature under construction, with the shapes already pushed.
pub struct SigHandle {
    inner: Signature,
    params: Ghost<Seq<Ty>>,
    rets: Ghost<Seq<Ty>>,
}

impl SigHandle {
    /// The parameter types pushed so far.
    pub closed spec fn params(self) -> Seq<Ty> {
        self.params@
    }

    /// The return types pushed so far.
    pub closed spec fn rets(self) -> Seq<Ty> {
        self.rets@
    }
}

/// A data description, with whether its contents were defined, how large
/// they are, and the address relocations written so far, each an offset
/// and the referred data symbol.  The `tag` ties references to the
/// description they were declared on.
pub struct DataDesc {
    inner: DataDescription,
    tag: Ghost<nat>,
    init: Ghost<bool>,
    size: Ghost<nat>,
    relocs: Ghost<Seq<(nat, nat)>>,
}

impl DataDesc {
    /// This description's identity.
    pub closed spec fn tag(self) -> nat {
        self.tag@
    }

    /// Whether the contents were defined.
    pub closed spec fn initialized(self) -> bool {
        self.init@
    }

    /// The defined size in bytes.
    pub closed spec fn size(self) -> nat {
        self.size@
    }

    /// The address relocations written so far.
    pub closed spec fn relocs(self) -> Seq<(nat, nat)> {
        self.relocs@
    }
}

/// A declared function of one module.
pub struct FuncHandle {
    id: FuncId,
    ix: Ghost<nat>,
    tag: Ghost<nat>,
}

impl FuncHandle {
    /// The declaration's index in its module.
    pub closed spec fn ix(self) -> nat {
        self.ix@
    }

    /// The issuing module's tag.
    pub closed spec fn tag(self) -> nat {
        self.tag@
    }
}

/// A declared data symbol of one module.
pub struct DataHandle {
    id: DataId,
    ix: Ghost<nat>,
    tag: Ghost<nat>,
}

impl DataHandle {
    /// The declaration's index in its module.
    pub closed spec fn ix(self) -> nat {
        self.ix@
    }

    /// The issuing module's tag.
    pub closed spec fn tag(self) -> nat {
        self.tag@
    }
}

/// A data symbol made referable from a function or a data description.
/// The `space` is the tag of the builder or description it was declared
/// in: it indexes that container's own table and no other.
pub struct GlobalRef {
    gv: GlobalValue,
    ix: Ghost<nat>,
    space: Ghost<nat>,
}

impl GlobalRef {
    /// The referred data symbol's index.
    pub closed spec fn ix(self) -> nat {
        self.ix@
    }

    /// The tag of the builder or description this reference belongs to.
    pub closed spec fn space(self) -> nat {
        self.space@
    }
}

/// A declared function made callable from the function being built.  The
/// `tag` is the issuing builder's: the reference indexes that function's
/// own table and no other.
pub struct CalleeRef {
    fr: FuncRef,
    ix: Ghost<nat>,
    tag: Ghost<nat>,
    params: Ghost<Seq<Ty>>,
    rets: Ghost<Seq<Ty>>,
}

impl CalleeRef {
    /// The declaration's index in its module.
    pub closed spec fn ix(self) -> nat {
        self.ix@
    }

    /// The issuing builder's tag.
    pub closed spec fn tag(self) -> nat {
        self.tag@
    }

    /// The callee's parameter types.
    pub closed spec fn params(self) -> Seq<Ty> {
        self.params@
    }

    /// The callee's return types.
    pub closed spec fn rets(self) -> Seq<Ty> {
        self.rets@
    }
}

/// A backend SSA value, with the type it was created at.
pub struct SsaVal {
    v: Value,
    ty: Ghost<Ty>,
    tag: Ghost<nat>,
}

impl SsaVal {
    /// The value's type.
    pub closed spec fn ty(self) -> Ty {
        self.ty@
    }

    /// The issuing builder's tag.
    pub closed spec fn tag(self) -> nat {
        self.tag@
    }
}

/// A declared SSA variable of one builder.
pub struct SsaVar {
    v: Variable,
    ix: Ghost<nat>,
    tag: Ghost<nat>,
}

impl SsaVar {
    /// The variable's index in its builder.
    pub closed spec fn ix(self) -> nat {
        self.ix@
    }

    /// The issuing builder's tag.
    pub closed spec fn tag(self) -> nat {
        self.tag@
    }
}

/// A block of one builder.
pub struct BlockRef {
    b: Block,
    id: Ghost<nat>,
    tag: Ghost<nat>,
}

impl BlockRef {
    /// The block's index in its builder, in creation order.
    pub closed spec fn id(self) -> nat {
        self.id@
    }

    /// The issuing builder's tag.
    pub closed spec fn tag(self) -> nat {
        self.tag@
    }
}

/// Relies on cranelift's settings, cranelift_native::builder,
/// ObjectBuilder::new and ObjectModule::new to set up an object module for
/// the host machine.  One wrapper holds the whole chain because the
/// intermediate instruction-set handle is a trait object that cannot be
/// named here.  A fresh module has no declarations.
#[verifier::external_body]
pub(crate) fn new_module() -> (r: Option<BackendModule>)
    ensures
        r matches Some(m) ==> fresh_module(m.model()),
{
    let mut flag_builder = settings::builder();
    flag_builder.set("use_colocated_libcalls", "false").ok()?;
    flag_builder.set("is_pic", "false").ok()?;
    let flags = settings::Flags::new(flag_builder);
    let isa = cranelift_native::builder().ok()?.finish(flags).ok()?;
    let ob = ObjectBuilder::new(isa, "brainheck", default_libcall_names()).ok()?;
    Some(BackendModule { inner: ObjectModule::new(ob), model: unspecified() })
}

/// Relies on Module::make_context.
#[verifier::external_body]
pub(crate) fn make_context(m: &BackendModule) -> Context {
    m.inner.make_context()
}

/// Relies on FunctionBuilderContext::new: the context starts empty.
#[verifier::external_body]
pub(crate) fn new_builder_context() -> (r: BuilderCtx)
    ensures
        !r.used(),
{
    BuilderCtx { inner: FunctionBuilderContext::new(), used: unspecified() }
}

/// Relies on Module::make_signature: the host calling convention, with no
/// parameters and no returns yet.
#[verifier::external_body]
pub(crate) fn make_signature(m: &BackendModule) -> (r: SigHandle)
    ensures
        r.params() == Seq::<Ty>::empty(),
        r.rets() == Seq::<Ty>::empty(),
{
    SigHandle { inner: m.inner.make_signature(), params: unspecified(), rets: unspecified() }
}

/// Relies on AbiParam::new with types::I8 and the signature's parameter
/// list.
#[verifier::external_body]
pub(crate) fn sig_add_param_byte(sig: &mut SigHandle)
    ensures
        final(sig).params() == old(sig).params().push(Ty::Byte),
        final(sig).rets() == old(sig).rets(),
{
    sig.inner.params.push(cranelift_codegen::ir::AbiParam::new(types::I8));
}

/// Relies on AbiParam::new with types::I8 and the signature's return list.
#[verifier::external_body]
pub(crate) fn sig_add_return_byte(sig: &mut SigHandle)
    ensures
        final(sig).params() == old(sig).params(),
        final(sig).rets() == old(sig).rets().push(Ty::Byte),
{
    sig.inner.returns.push(cranelift_codegen::ir::AbiParam::new(types::I8));
}

/// Relies on AbiParam::new with types::I32 and the signature's return
/// list.
#[verifier::external_body]
pub(crate) fn sig_add_return_status(sig: &mut SigHandle)
    ensures
        final(sig).params() == old(sig).params(),
        final(sig).rets() == old(sig).rets().push(Ty::Status),
{
    sig.inner.returns.push(cranelift_codegen::ir::AbiParam::new(types::I32));
}

/// Relies on Module::declare_function with Linkage::Export: under a name
/// never declared in this module, a fresh declaration is pushed.
#[verifier::external_body]
pub(crate) fn declare_export_function(m: &mut BackendModule, name: &str, sig: &SigHandle) -> (r:
    Option<FuncHandle>)
    requires
        !old(m).model().names.contains(name@),
    ensures
        r matches Some(f) ==> f.tag() == old(m).model().tag && f.ix() == old(
            m,
        ).model().funcs.len() && final(m).model() == (ModuleModel {
            funcs: old(m).model().funcs.push(
                SigModel { params: sig.params(), rets: sig.rets() },
            ),
            names: old(m).model().names.insert(name@),
            ..old(m).model()
        }),
{
    let id = m.inner.declare_function(name, Linkage::Export, &sig.inner).ok()?;
    Some(FuncHandle { id, ix: unspecified(), tag: unspecified() })
}

/// Relies on Module::declare_function with Linkage::Import: under a name
/// never declared in this module, a fresh declaration is pushed and marked
/// imported.
#[verifier::external_body]
pub(crate) fn declare_import_function(m: &mut BackendModule, name: &str, sig: &SigHandle) -> (r:
    Option<FuncHandle>)
    requires
        !old(m).model().names.contains(name@),
    ensures
        r matches Some(f) ==> f.tag() == old(m).model().tag && f.ix() == old(
            m,
        ).model().funcs.len() && final(m).model() == (ModuleModel {
            funcs: old(m).model().funcs.push(
                SigModel { params: sig.params(), rets: sig.rets() },
            ),
            imports: old(m).model().imports.insert(old(m).model().funcs.len()),
            names: old(m).model().names.insert(name@),
            ..old(m).model()
        }),
{
    let id = m.inner.declare_function(name, Linkage::Import, &sig.inner).ok()?;
    Some(FuncHandle { id, ix: unspecified(), tag: unspecified() })
}

/// Relies on the Function's signature field in the compilation context.
#[verifier::external_body]
pub(crate) fn set_function_signature(ctx: &mut Context, sig: &SigHandle) {
    ctx.func.signature = sig.inner.clone();
}

/// Relies on UserFuncName::user and FuncId::as_u32 to name the function
/// being built after its declared id.
#[verifier::external_body]
pub(crate) fn set_function_name(ctx: &mut Context, id: &FuncHandle) {
    ctx.func.name = UserFuncName::user(0, id.id.as_u32());
}

/// Relies on Module::declare_data with Linkage::Local, not thread local:
/// under a fresh name, a new data declaration is pushed.
#[verifier::external_body]
pub(crate) fn declare_local_data(m: &mut BackendModule, name: &str, writable: bool) -> (r: Option<
    DataHandle,
>)
    requires
        !old(m).model().names.contains(name@),
    ensures
        r matches Some(d) ==> d.tag() == old(m).model().tag && d.ix() == old(m).model().datas
            && final(m).model() == (ModuleModel {
            datas: old(m).model().datas + 1,
            names: old(m).model().names.insert(name@),
            ..old(m).model()
        }),
{
    let id = m.inner.declare_data(name, Linkage::Local, writable, false).ok()?;
    Some(DataHandle { id, ix: unspecified(), tag: unspecified() })
}

/// Relies on Module::declare_anonymous_data, not thread local: a new data
/// declaration is always pushed.
#[verifier::external_body]
pub(crate) fn declare_anonymous_data(m: &mut BackendModule, writable: bool) -> (r: Option<
    DataHandle,
>)
    ensures
        r matches Some(d) ==> d.tag() == old(m).model().tag && d.ix() == old(m).model().datas
            && final(m).model() == (ModuleModel {
            datas: old(m).model().datas + 1,
            ..old(m).model()
        }),
{
    let id = m.inner.declare_anonymous_data(writable, false).ok()?;
    Some(DataHandle { id, ix: unspecified(), tag: unspecified() })
}

/// Relies on DataDescription::new: nothing is defined in it yet.
#[verifier::external_body]
pub(crate) fn new_data_description() -> (r: DataDesc)
    ensures
        !r.initialized(),
        r.relocs() == Seq::<(nat, nat)>::empty(),
{
    DataDesc {
        inner: DataDescription::new(),
        tag: unspecified(),
        init: unspecified(),
        size: unspecified(),
        relocs: unspecified(),
    }
}

/// Relies on DataDescription::define_zeroinit, which must happen at most
/// once per description.
#[verifier::external_body]
pub(crate) fn define_zeroinit(d: &mut DataDesc, size: usize)
    requires
        !old(d).initialized(),
    ensures
        final(d).initialized(),
        final(d).size() == size,
        final(d).tag() == old(d).tag(),
        final(d).relocs() == old(d).relocs(),
{
    d.inner.define_zeroinit(size);
}

/// Relies on Module::declare_data_in_data: the target symbol, which must
/// be a declaration of this module, becomes referable from the
/// description.
#[verifier::external_body]
pub(crate) fn declare_data_in_data(m: &BackendModule, target: &DataHandle, d: &mut DataDesc) -> (r:
    GlobalRef)
    requires
        target.tag() == m.model().tag,
        target.ix() < m.model().datas,
    ensures
        r.ix() == target.ix(),
        r.space() == old(d).tag(),
        final(d).initialized() == old(d).initialized(),
        final(d).size() == old(d).size(),
        final(d).tag() == old(d).tag(),
        final(d).relocs() == old(d).relocs(),
{
    let gv = m.inner.declare_data_in_data(target.id, &mut d.inner);
    GlobalRef { gv, ix: unspecified(), space: unspecified() }
}

/// Relies on DataDescription::write_data_addr with addend zero: the
/// referred symbol's address is written at the offset; the reference must
/// have been declared on this very description.
#[verifier::external_body]
pub(crate) fn write_data_addr(d: &mut DataDesc, offset: u32, g: &GlobalRef)
    requires
        old(d).initialized(),
        g.space() == old(d).tag(),
    ensures
        final(d).initialized() == old(d).initialized(),
        final(d).size() == old(d).size(),
        final(d).tag() == old(d).tag(),
        final(d).relocs() == old(d).relocs().push((offset as nat, g.ix())),
{
    d.inner.write_data_addr(offset, g.gv, 0);
}

/// Relies on Module::define_data: the declaration, which must belong to
/// this module, be not yet defined and have defined contents, is defined;
/// the result tells whether the backend accepted it.
#[verifier::external_body]
pub(crate) fn define_data(m: &mut BackendModule, id: &DataHandle, d: &DataDesc) -> (r: bool)
    requires
        id.tag() == old(m).model().tag,
        id.ix() < old(m).model().datas,
        !old(m).model().defined_datas.contains(id.ix()),
        d.initialized(),
    ensures
        r ==> final(m).model() == (ModuleModel {
            defined_datas: old(m).model().defined_datas.insert(id.ix()),
            data_sizes: old(m).model().data_sizes.insert(id.ix(), d.size()),
            data_relocs: old(m).model().data_relocs.insert(id.ix(), d.relocs()),
            ..old(m).model()
        }),
{
    m.inner.define_data(id.id, &d.inner).is_ok()
}

/// Relies on FunctionBuilder::new over the context's function.  The
/// builder context must be fresh; the new builder has no blocks, no
/// variables and an empty trace.
#[verifier::external_body]
pub(crate) fn new_builder<'a>(ctx: &'a mut Context, fbc: &'a mut BuilderCtx) -> (r: Builder<'a>)
    requires
        !old(fbc).used(),
    ensures
        r.model().blocks == 0,
        r.model().open is None,
        r.model().visited == Set::<nat>::empty(),
        r.model().sealed == Set::<nat>::empty(),
        r.model().vars == Seq::<Ty>::empty(),
        r.model().trace == Seq::<Event>::empty(),
{
    Builder { inner: FunctionBuilder::new(&mut ctx.func, &mut fbc.inner), model: unspecified() }
}

/// Relies on FunctionBuilder::create_block: a fresh block, not yet filled
/// or sealed.
#[verifier::external_body]
pub(crate) fn create_block(bcx: &mut Builder<'_>) -> (r: BlockRef)
    ensures
        r.tag() == old(bcx).model().tag,
        r.id() == old(bcx).model().blocks,
        final(bcx).model() == (BuilderModel {
            blocks: old(bcx).model().blocks + 1,
            ..old(bcx).model()
        }),
{
    let b = bcx.inner.create_block();
    BlockRef { b, id: unspecified(), tag: unspecified() }
}

/// Relies on FunctionBuilder::switch_to_block: the block, which must exist
/// in this builder and never have been filled before, becomes the one
/// under construction; nothing may be half built when switching.
#[verifier::external_body]
pub(crate) fn switch_to_block(bcx: &mut Builder<'_>, block: &BlockRef)
    requires
        block.tag() == old(bcx).model().tag,
        block.id() < old(bcx).model().blocks,
        !old(bcx).model().visited.contains(block.id()),
        old(bcx).model().open is None,
    ensures
        final(bcx).model() == (BuilderModel {
            open: Some(block.id()),
            visited: old(bcx).model().visited.insert(block.id()),
            trace: old(bcx).model().trace.push(Event::Open(block.id())),
            ..old(bcx).model()
        }),
{
    bcx.inner.switch_to_block(block.b);
}

/// Relies on FunctionBuilder::seal_block: the block, which must exist in
/// this builder and not be sealed yet, is sealed — every predecessor of it
/// has been emitted.
#[verifier::external_body]
pub(crate) fn seal_block(bcx: &mut Builder<'_>, block: &BlockRef)
    requires
        block.tag() == old(bcx).model().tag,
        block.id() < old(bcx).model().blocks,
        !old(bcx).model().sealed.contains(block.id()),
    ensures
        final(bcx).model() == (BuilderModel {
            sealed: old(bcx).model().sealed.insert(block.id()),
            trace: old(bcx).model().trace.push(Event::Seal(block.id())),
            ..old(bcx).model()
        }),
{
    bcx.inner.seal_block(block.b);
}

/// Relies on FunctionBuilder::declare_var with the host pointer type
/// (Type::triple_pointer_type over target_lexicon's host triple): a fresh
/// pointer-width SSA variable.
#[verifier::external_body]
pub(crate) fn declare_ptr_variable(bcx: &mut Builder<'_>) -> (r: SsaVar)
    ensures
        r.tag() == old(bcx).model().tag,
        r.ix() == old(bcx).model().vars.len(),
        final(bcx).model() == (BuilderModel {
            vars: old(bcx).model().vars.push(Ty::Ptr),
            ..old(bcx).model()
        }),
{
    let v = bcx.inner.declare_var(Type::triple_pointer_type(&target_lexicon::Triple::host()));
    SsaVar { v, ix: unspecified(), tag: unspecified() }
}

/// Relies on FunctionBuilder::use_var: the value of the declared
/// variable's latest definition reaching the block under construction.
#[verifier::external_body]
pub(crate) fn use_variable(bcx: &mut Builder<'_>, var: &SsaVar) -> (r: SsaVal)
    requires
        var.tag() == old(bcx).model().tag,
        var.ix() < old(bcx).model().vars.len(),
        old(bcx).model().open is Some,
    ensures
        r.tag() == old(bcx).model().tag,
        r.ty() == old(bcx).model().vars[var.ix() as int],
        final(bcx).model() == (BuilderModel {
            trace: old(bcx).model().trace.push(Event::UseVar(var.ix())),
            ..old(bcx).model()
        }),
{
    let v = bcx.inner.use_var(var.v);
    SsaVal { v, ty: unspecified(), tag: unspecified() }
}

/// Relies on FunctionBuilder::def_var: the declared variable is redefined
/// in the block under construction with a value of its own type.
#[verifier::external_body]
pub(crate) fn define_variable(bcx: &mut Builder<'_>, var: &SsaVar, val: &SsaVal)
    requires
        var.tag() == old(bcx).model().tag,
        var.ix() < old(bcx).model().vars.len(),
        val.tag() == old(bcx).model().tag,
        val.ty() == old(bcx).model().vars[var.ix() as int],
        old(bcx).model().open is Some,
    ensures
        final(bcx).model() == (BuilderModel {
            trace: old(bcx).model().trace.push(Event::DefVar(var.ix())),
            ..old(bcx).model()
        }),
{
    bcx.inner.def_var(var.v, val.v);
}

/// Relies on InstBuilder::iconst at types::I8; the immediate handed to the
/// backend is the two's-complement image of the byte.
#[verifier::external_body]
pub(crate) fn ins_const_byte(bcx: &mut Builder<'_>, k: u8) -> (r: SsaVal)
    requires
        old(bcx).model().open is Some,
    ensures
        r.tag() == old(bcx).model().tag,
        r.ty() == Ty::Byte,
        final(bcx).model() == (BuilderModel {
            trace: old(bcx).model().trace.push(Event::ConstByte(k)),
            ..old(bcx).model()
        }),
{
    let v = bcx.inner.ins().iconst(types::I8, (k as i8) as i64);
    SsaVal { v, ty: unspecified(), tag: unspecified() }
}

/// Relies on InstBuilder::iconst at the host pointer type; the immediate
/// handed to the backend is the two's-complement image of the word.
#[verifier::external_body]
pub(crate) fn ins_const_ptr(bcx: &mut Builder<'_>, k: u64) -> (r: SsaVal)
    requires
        old(bcx).model().open is Some,
    ensures
        r.tag() == old(bcx).model().tag,
        r.ty() == Ty::Ptr,
        final(bcx).model() == (BuilderModel {
            trace: old(bcx).model().trace.push(Event::ConstPtr(k)),
            ..old(bcx).model()
        }),
{
    let t = Type::triple_pointer_type(&target_lexicon::Triple::host());
    let v = bcx.inner.ins().iconst(t, k as i64);
    SsaVal { v, ty: unspecified(), tag: unspecified() }
}

/// Relies on InstBuilder::iconst at types::I32.
#[verifier::external_body]
pub(crate) fn ins_const_status(bcx: &mut Builder<'_>, k: u32) -> (r: SsaVal)
    requires
        old(bcx).model().open is Some,
    ensures
        r.tag() == old(bcx).model().tag,
        r.ty() == Ty::Status,
        final(bcx).model() == (BuilderModel {
            trace: old(bcx).model().trace.push(Event::ConstStatus(k)),
            ..old(bcx).model()
        }),
{
    let v = bcx.inner.ins().iconst(types::I32, k as i64);
    SsaVal { v, ty: unspecified(), tag: unspecified() }
}

/// Relies on InstBuilder::iadd of two values of one type.
#[verifier::external_body]
pub(crate) fn ins_iadd(bcx: &mut Builder<'_>, x: &SsaVal, y: &SsaVal) -> (r: SsaVal)
    requires
        x.tag() == old(bcx).model().tag,
        y.tag() == old(bcx).model().tag,
        x.ty() == y.ty(),
        old(bcx).model().open is Some,
    ensures
        r.tag() == old(bcx).model().tag,
        r.ty() == x.ty(),
        final(bcx).model() == (BuilderModel {
            trace: old(bcx).model().trace.push(Event::AddValues),
            ..old(bcx).model()
        }),
{
    let v = bcx.inner.ins().iadd(x.v, y.v);
    SsaVal { v, ty: unspecified(), tag: unspecified() }
}

/// Relies on InstBuilder::isub of two values of one type.
#[verifier::external_body]
pub(crate) fn ins_isub(bcx: &mut Builder<'_>, x: &SsaVal, y: &SsaVal) -> (r: SsaVal)
    requires
        x.tag() == old(bcx).model().tag,
        y.tag() == old(bcx).model().tag,
        x.ty() == y.ty(),
        old(bcx).model().open is Some,
    ensures
        r.tag() == old(bcx).model().tag,
        r.ty() == x.ty(),
        final(bcx).model() == (BuilderModel {
            trace: old(bcx).model().trace.push(Event::SubValues),
            ..old(bcx).model()
        }),
{
    let v = bcx.inner.ins().isub(x.v, y.v);
    SsaVal { v, ty: unspecified(), tag: unspecified() }
}

/// Relies on InstBuilder::iadd_imm_s on a pointer-width value; the
/// immediate handed to the backend is the two's-complement image of the
/// word, sign-extended to the operand's width.
#[verifier::external_body]
pub(crate) fn ins_iadd_imm_ptr(bcx: &mut Builder<'_>, x: &SsaVal, k: u64) -> (r: SsaVal)
    requires
        x.tag() == old(bcx).model().tag,
        x.ty() == Ty::Ptr,
        old(bcx).model().open is Some,
    ensures
        r.tag() == old(bcx).model().tag,
        r.ty() == Ty::Ptr,
        final(bcx).model() == (BuilderModel {
            trace: old(bcx).model().trace.push(Event::AddImmPtr(k)),
            ..old(bcx).model()
        }),
{
    let v = bcx.inner.ins().iadd_imm_s(x.v, k as i64);
    SsaVal { v, ty: unspecified(), tag: unspecified() }
}

/// Relies on InstBuilder::load at types::I8 with plain memory flags and
/// offset zero.
#[verifier::external_body]
pub(crate) fn ins_load_byte(bcx: &mut Builder<'_>, addr: &SsaVal) -> (r: SsaVal)
    requires
        addr.tag() == old(bcx).model().tag,
        addr.ty() == Ty::Ptr,
        old(bcx).model().open is Some,
    ensures
        r.tag() == old(bcx).model().tag,
        r.ty() == Ty::Byte,
        final(bcx).model() == (BuilderModel {
            trace: old(bcx).model().trace.push(Event::LoadByte),
            ..old(bcx).model()
        }),
{
    let v = bcx.inner.ins().load(types::I8, MemFlagsData::new(), addr.v, 0);
    SsaVal { v, ty: unspecified(), tag: unspecified() }
}

/// Relies on InstBuilder::load at the host pointer type with plain memory
/// flags and offset zero.
#[verifier::external_body]
pub(crate) fn ins_load_ptr(bcx: &mut Builder<'_>, addr: &SsaVal) -> (r: SsaVal)
    requires
        addr.tag() == old(bcx).model().tag,
        addr.ty() == Ty::Ptr,
        old(bcx).model().open is Some,
    ensures
        r.tag() == old(bcx).model().tag,
        r.ty() == Ty::Ptr,
        final(bcx).model() == (BuilderModel {
            trace: old(bcx).model().trace.push(Event::LoadPtr),
            ..old(bcx).model()
        }),
{
    let t = Type::triple_pointer_type(&target_lexicon::Triple::host());
    let v = bcx.inner.ins().load(t, MemFlagsData::new(), addr.v, 0);
    SsaVal { v, ty: unspecified(), tag: unspecified() }
}

/// Relies on InstBuilder::store with plain memory flags and offset zero.
#[verifier::external_body]
pub(crate) fn ins_store(bcx: &mut Builder<'_>, x: &SsaVal, addr: &SsaVal)
    requires
        x.tag() == old(bcx).model().tag,
        addr.tag() == old(bcx).model().tag,
        addr.ty() == Ty::Ptr,
        old(bcx).model().open is Some,
    ensures
        final(bcx).model() == (BuilderModel {
            trace: old(bcx).model().trace.push(Event::Store),
            ..old(bcx).model()
        }),
{
    bcx.inner.ins().store(MemFlagsData::new(), x.v, addr.v, 0);
}

/// Relies on InstBuilder::jump with no block arguments; it ends the block
/// under construction.  The target must not be sealed yet: a branch gives
/// it a new predecessor.
#[verifier::external_body]
pub(crate) fn ins_jump(bcx: &mut Builder<'_>, block: &BlockRef)
    requires
        block.tag() == old(bcx).model().tag,
        block.id() < old(bcx).model().blocks,
        !old(bcx).model().sealed.contains(block.id()),
        old(bcx).model().open is Some,
    ensures
        final(bcx).model() == (BuilderModel {
            open: None,
            trace: old(bcx).model().trace.push(Event::Jump(block.id())),
            ..old(bcx).model()
        }),
{
    bcx.inner.ins().jump(block.b, &[]);
}

/// Relies on InstBuilder::brif: branch to the first block when the value
/// is nonzero, else to the second; it ends the block under construction.
/// Neither target may be sealed yet: a branch gives each a new
/// predecessor.
#[verifier::external_body]
pub(crate) fn ins_brif(bcx: &mut Builder<'_>, c: &SsaVal, nonzero: &BlockRef, zero: &BlockRef)
    requires
        c.tag() == old(bcx).model().tag,
        nonzero.tag() == old(bcx).model().tag,
        nonzero.id() < old(bcx).model().blocks,
        !old(bcx).model().sealed.contains(nonzero.id()),
        zero.tag() == old(bcx).model().tag,
        zero.id() < old(bcx).model().blocks,
        !old(bcx).model().sealed.contains(zero.id()),
        old(bcx).model().open is Some,
    ensures
        final(bcx).model() == (BuilderModel {
            open: None,
            trace: old(bcx).model().trace.push(Event::Brif(nonzero.id(), zero.id())),
            ..old(bcx).model()
        }),
{
    bcx.inner.ins().brif(c.v, nonzero.b, &[], zero.b, &[]);
}

/// Relies on InstBuilder::call with one argument matching the callee's
/// declared parameter, discarding results.  The reference must have been
/// declared in this very builder's function.
#[verifier::external_body]
pub(crate) fn ins_call_unit(bcx: &mut Builder<'_>, f: &CalleeRef, arg: &SsaVal)
    requires
        f.tag() == old(bcx).model().tag,
        arg.tag() == old(bcx).model().tag,
        f.params() == seq![arg.ty()],
        old(bcx).model().open is Some,
    ensures
        final(bcx).model() == (BuilderModel {
            trace: old(bcx).model().trace.push(Event::Call(f.ix())),
            ..old(bcx).model()
        }),
{
    bcx.inner.ins().call(f.fr, &[arg.v]);
}

/// Relies on InstBuilder::call with no arguments and on
/// FunctionBuilder::inst_results: the call's single result, typed as the
/// callee's declared return, when the callee returns one.  The reference
/// must have been declared in this very builder's function.
#[verifier::external_body]
pub(crate) fn ins_call_result(bcx: &mut Builder<'_>, f: &CalleeRef) -> (r: Option<SsaVal>)
    requires
        f.tag() == old(bcx).model().tag,
        f.params() == Seq::<Ty>::empty(),
        old(bcx).model().open is Some,
    ensures
        r is Some <==> f.rets().len() > 0,
        r matches Some(v) ==> v.tag() == old(bcx).model().tag && v.ty() == f.rets()[0],
        final(bcx).model() == (BuilderModel {
            trace: old(bcx).model().trace.push(Event::CallResult(f.ix())),
            ..old(bcx).model()
        }),
{
    let inst = bcx.inner.ins().call(f.fr, &[]);
    let v = bcx.inner.inst_results(inst).get(0).copied()?;
    Some(SsaVal { v, ty: unspecified(), tag: unspecified() })
}

/// Relies on InstBuilder::return_ with one value of the 32-bit status
/// type; it ends the block under construction.
#[verifier::external_body]
pub(crate) fn ins_return(bcx: &mut Builder<'_>, x: &SsaVal)
    requires
        x.tag() == old(bcx).model().tag,
        x.ty() == Ty::Status,
        old(bcx).model().open is Some,
    ensures
        final(bcx).model() == (BuilderModel {
            open: None,
            trace: old(bcx).model().trace.push(Event::Return),
            ..old(bcx).model()
        }),
{
    bcx.inner.ins().return_(&[x.v]);
}

/// Relies on InstBuilder::symbol_value at the host pointer type: the
/// address of the referred data symbol.  The reference must have been
/// declared in this very builder's function.
#[verifier::external_body]
pub(crate) fn ins_symbol_value(bcx: &mut Builder<'_>, g: &GlobalRef) -> (r: SsaVal)
    requires
        g.space() == old(bcx).model().tag,
        old(bcx).model().open is Some,
    ensures
        r.tag() == old(bcx).model().tag,
        r.ty() == Ty::Ptr,
        final(bcx).model() == (BuilderModel {
            trace: old(bcx).model().trace.push(Event::SymbolAddr(g.ix())),
            ..old(bcx).model()
        }),
{
    let t = Type::triple_pointer_type(&target_lexicon::Triple::host());
    let v = bcx.inner.ins().symbol_value(t, g.gv);
    SsaVal { v, ty: unspecified(), tag: unspecified() }
}

/// Relies on Module::declare_func_in_func: the declared function of this
/// module becomes callable from the function being built; neither side
/// changes state.
#[verifier::external_body]
pub(crate) fn declare_func_in_func(
    m: &mut BackendModule,
    id: &FuncHandle,
    bcx: &mut Builder<'_>,
) -> (r: CalleeRef)
    requires
        id.tag() == old(m).model().tag,
        id.ix() < old(m).model().funcs.len(),
    ensures
        final(m).model() == old(m).model(),
        final(bcx).model() == old(bcx).model(),
        r.ix() == id.ix(),
        r.tag() == old(bcx).model().tag,
        r.params() == old(m).model().funcs[id.ix() as int].params,
        r.rets() == old(m).model().funcs[id.ix() as int].rets,
{
    let fr = m.inner.declare_func_in_func(id.id, bcx.inner.func);
    CalleeRef {
        fr,
        ix: unspecified(),
        tag: unspecified(),
        params: unspecified(),
        rets: unspecified(),
    }
}

/// Relies on Module::declare_data_in_func: the declared data symbol of
/// this module becomes referable from the function being built.
#[verifier::external_body]
pub(crate) fn declare_data_in_func(
    m: &BackendModule,
    id: &DataHandle,
    bcx: &mut Builder<'_>,
) -> (r: GlobalRef)
    requires
        id.tag() == m.model().tag,
        id.ix() < m.model().datas,
    ensures
        final(bcx).model() == old(bcx).model(),
        r.ix() == id.ix(),
        r.space() == old(bcx).model().tag,
{
    let gv = m.inner.declare_data_in_func(id.id, bcx.inner.func);
    GlobalRef { gv, ix: unspecified(), space: unspecified() }
}

/// Relies on FunctionBuilder::finalize and Module::target_config.  Nothing
/// may be half built, and every block ever filled must have been sealed.
#[verifier::external_body]
pub(crate) fn finalize_builder(bcx: Builder<'_>, m: &BackendModule)
    requires
        bcx.model().open is None,
        bcx.model().visited.subset_of(bcx.model().sealed),
{
    bcx.inner.finalize(m.inner.target_config());
}

/// Relies on Module::define_function: the declaration, which must belong
/// to this module, be no import and be not yet defined, is defined from
/// the context; the result tells whether the backend accepted it.
#[verifier::external_body]
pub(crate) fn define_function(m: &mut BackendModule, id: &FuncHandle, ctx: &mut Context) -> (r:
    bool)
    requires
        id.tag() == old(m).model().tag,
        id.ix() < old(m).model().funcs.len(),
        !old(m).model().imports.contains(id.ix()),
        !old(m).model().defined_funcs.contains(id.ix()),
    ensures
        r ==> final(m).model() == (ModuleModel {
            defined_funcs: old(m).model().defined_funcs.insert(id.ix()),
            ..old(m).model()
        }),
{
    m.inner.define_function(id.id, ctx).is_ok()
}

/// Relies on ObjectModule::finish.  Every declaration that is not an
/// import must have been defined.
#[verifier::external_body]
pub(crate) fn finish_module(m: BackendModule) -> ObjectProduct
    requires
        forall|i: nat|
            i < m.model().funcs.len() ==> #[trigger] m.model().imports.contains(i)
                || m.model().defined_funcs.contains(i),
        forall|i: nat| i < m.model().datas ==> #[trigger] m.model().defined_datas.contains(i),
{
    m.inner.finish()
}

/// Relies on ObjectProduct::emit: the serialized object-file bytes.
#[verifier::external_body]
pub(crate) fn emit_object(p: ObjectProduct) -> Option<Vec<u8>> {
    p.emit().ok()
}

} // verus!
