//! Construction of modules and functions, one instruction at a time.
use vstd::prelude::*;
use vstd::string::*;
use crate::ir::census::{
    census, census_of, lemma_census_append, lemma_census_push, lemma_census_same, plus3, weight,
};
use crate::ir::const_expr::{ConstExpr, ConstExprKind};
use crate::ir::module::{
    BasicBlock, BinOp, Callee, CastOp, CheckedOp, CmpOp, FCmpPred, Function, Global, ICmpPred,
    Instruction, Module, Param, Terminator,
};
use crate::ir::types::{BlockId, ConstValue, FloatBits, GlobalId, Type, TypeModel, ValueId};
use crate::target::DataLayout;

verus! {

/// Builds a module: globals directly, functions through [`FunctionBuilder`].
pub struct ModuleBuilder {
    pub module: Module,
    pub next_global: u32,
}

/// Builds one function of a module. Instructions go to the current block; an
/// instruction or terminator after a terminator opens a new, unreachable block.
pub struct FunctionBuilder<'a> {
    pub builder: &'a mut ModuleBuilder,
    pub func: Function,
    pub current: usize,
    pub next_value: u32,
    pub next_block: u32,
}

/// Building inside a function leaves the module, and the function's name,
/// parameters, result type and entry, unchanged.
pub open spec fn same_frame(a: FunctionBuilder, b: FunctionBuilder) -> bool {
    &&& a.builder == b.builder
    &&& a.func.name == b.func.name
    &&& a.func.params == b.func.params
    &&& a.func.ret_ty == b.func.ret_ty
    &&& a.func.entry == b.func.entry
}

/// The builder's bookkeeping is consistent: the current block and the entry exist.
pub open spec fn builder_wf(f: FunctionBuilder) -> bool {
    &&& f.current < f.func.blocks.len()
    &&& f.func.blocks.len() >= 1
    &&& f.func.blocks@[0].id == f.func.entry
}

/// Every block of `a` keeps its identity and its instructions in `b`, which
/// may only add to them; a block that was terminated keeps its terminator,
/// and any such block but the entry, where slots are allocated, is left
/// unchanged; no block is removed.
pub open spec fn settled(a: FunctionBuilder, b: FunctionBuilder) -> bool {
    &&& a.func.blocks@.len() <= b.func.blocks@.len()
    &&& forall|j: int|
        #![trigger a.func.blocks@[j]]
        0 <= j < a.func.blocks@.len() ==> b.func.blocks@[j].id == a.func.blocks@[j].id && (
        a.func.blocks@[j].terminator is Some ==> b.func.blocks@[j].terminator == a.func.blocks@[j].terminator)
            && a.func.blocks@[j].instructions@.is_prefix_of(b.func.blocks@[j].instructions@)
            && (0 < j && a.func.blocks@[j].terminator is Some ==> b.func.blocks@[j] == a.func.blocks@[j])
}

/// `b` is `a` whose current block was replaced by `blk`; after a terminated
/// current block, `blk` is instead a fresh block added at the end, with the
/// next block identity. No other block changes.
pub open spec fn current_replaced(a: FunctionBuilder, b: FunctionBuilder) -> bool {
    let open = a.func.blocks@[a.current as int].terminator is None;
    &&& b.func.blocks@.len() == a.func.blocks@.len() + (if open { 0int } else { 1int })
    &&& b.current as int == (if open { a.current as int } else { a.func.blocks@.len() as int })
    &&& forall|j: int|
        0 <= j < a.func.blocks@.len() && j != b.current ==> #[trigger] b.func.blocks@[j] == a.func.blocks@[j]
    &&& b.func.blocks@[b.current as int].id == (if open {
        a.func.blocks@[a.current as int].id
    } else {
        BlockId(a.next_block)
    })
    &&& b.next_block == (if open { a.next_block } else { a.next_block.wrapping_add(1) })
}

/// The current block has no terminator yet.
pub open spec fn current_open(a: FunctionBuilder) -> bool {
    a.func.blocks@[a.current as int].terminator is None
}

/// The instructions the current block holds before anything is added to it.
pub open spec fn open_instructions(a: FunctionBuilder) -> Seq<Instruction> {
    if a.func.blocks@[a.current as int].terminator is None {
        a.func.blocks@[a.current as int].instructions@
    } else {
        Seq::empty()
    }
}

/// `b` is `a` with `ins` appended to the current block (a fresh one after a
/// terminator); no other block changes.
pub open spec fn appended(a: FunctionBuilder, b: FunctionBuilder, ins: Instruction) -> bool {
    &&& current_replaced(a, b)
    &&& b.func.blocks@[b.current as int].instructions@ == open_instructions(a).push(ins)
    &&& b.func.blocks@[b.current as int].terminator is None
}

/// `b` is `a` with the current block (a fresh one after a terminator)
/// terminated by `t`; no other block changes.
pub open spec fn terminated_with(a: FunctionBuilder, b: FunctionBuilder, t: Terminator) -> bool {
    &&& current_replaced(a, b)
    &&& b.func.blocks@[b.current as int].instructions@ == open_instructions(a)
    &&& b.func.blocks@[b.current as int].terminator == Some(t)
}

pub proof fn lemma_appended_settled(a: FunctionBuilder, b: FunctionBuilder, ins: Instruction)
    requires
        builder_wf(a),
        appended(a, b, ins),
    ensures
        settled(a, b),
{
}

pub proof fn lemma_terminated_settled(a: FunctionBuilder, b: FunctionBuilder, t: Terminator)
    requires
        builder_wf(a),
        terminated_with(a, b, t),
    ensures
        settled(a, b),
{
}

impl ModuleBuilder {
    pub fn new(target: &str, datalayout: DataLayout) -> (r: Self)
        ensures
            r.module.target@ == target@,
            r.module.datalayout == datalayout,
            r.module.globals.len() == 0,
            r.module.functions.len() == 0,
            r.next_global == 0,
    {
        ModuleBuilder { module: Module::new(target, datalayout), next_global: 0 }
    }

    /// Add a constant global with its preserved expression and evaluated value.
    pub fn add_global_const(
        &mut self,
        name: &str,
        expression: ConstExpr,
        value: ConstValue,
        align: u32,
    ) -> (r: GlobalId)
        ensures
            r == GlobalId(old(self).next_global),
            final(self).next_global == old(self).next_global.wrapping_add(1),
            final(self).module.target == old(self).module.target,
            final(self).module.datalayout == old(self).module.datalayout,
            final(self).module.functions == old(self).module.functions,
            final(self).module.globals@.len() == old(self).module.globals@.len() + 1,
            final(self).module.globals@.drop_last() == old(self).module.globals@,
            final(self).module.globals@.last().id == r,
            final(self).module.globals@.last().name@ == name@,
            final(self).module.globals@.last().ty@ == expression.ty@,
            final(self).module.globals@.last().init == value,
            final(self).module.globals@.last().init_expr == expression,
            final(self).module.globals@.last().align == align,
    {
        let id = GlobalId(self.next_global);
        self.next_global = self.next_global.wrapping_add(1);
        let ty = expression.ty.duplicate();
        self.module.globals.push(
            Global { id, name: String::from_str(name), ty, init: value, init_expr: expression, align },
        );
        proof {
            assert(self.module.globals@.drop_last() =~= old(self).module.globals@);
        }
        id
    }

    /// Add a global whose initializer expression is the literal `value`.
    pub fn add_global(&mut self, name: &str, ty: Type, value: ConstValue, align: u32) -> (r:
        GlobalId)
        ensures
            r == GlobalId(old(self).next_global),
            final(self).module.functions == old(self).module.functions,
            final(self).module.globals@.len() == old(self).module.globals@.len() + 1,
            final(self).module.globals@.drop_last() == old(self).module.globals@,
            final(self).module.globals@.last().name@ == name@,
            final(self).module.globals@.last().ty@ == ty@,
            final(self).module.globals@.last().init == value,
            final(self).module.globals@.last().init_expr == (ConstExpr {
                ty,
                kind: ConstExprKind::Literal(value),
            }),
            final(self).module.globals@.last().align == align,
            final(self).module.target == old(self).module.target,
            final(self).module.datalayout == old(self).module.datalayout,
    {
        self.add_global_const(name, ConstExpr::literal(ty, value), value, align)
    }

    /// Start a function whose parameters are the values `0..params.len()`, with an
    /// empty entry block `0`.
    pub fn begin_function(&mut self, name: &str, params: Vec<(String, Type)>, ret_ty: Type) -> (r:
        FunctionBuilder<'_>)
        requires
            params.len() < u32::MAX,
        ensures
            *r.builder == *old(self),
            *final(self) == *final(r.builder),
            builder_wf(r),
            r.func.name@ == name@,
            r.func.ret_ty == ret_ty,
            r.func.params.len() == params.len(),
            forall|i: int|
                0 <= i < params.len() ==> {
                    &&& (#[trigger] r.func.params@[i]).id == ValueId(i as u32)
                    &&& r.func.params@[i].ty@ == params@[i].1@
                    &&& r.func.params@[i].name == params@[i].0
                },
            r.func.value_types.len() == params.len(),
            forall|i: int|
                0 <= i < params.len() ==> (#[trigger] r.func.value_types@[i]).0 == ValueId(
                    i as u32,
                ) && r.func.value_types@[i].1@ == params@[i].1@,
            r.func.blocks.len() == 1,
            r.func.blocks@[0].instructions.len() == 0,
            r.func.blocks@[0].terminator is None,
            census(r.func.blocks@) == (0nat, 0nat, 0nat),
            r.func.entry == BlockId(0),
            r.current == 0,
            r.next_value == params.len(),
            r.next_block == 1,
    {
        let mut ps: Vec<Param> = Vec::new();
        let mut types: Vec<(ValueId, Type)> = Vec::new();
        let mut params = params;
        let n = params.len();
        let ghost original = params@;
        let mut i: usize = 0;
        while i < n
            invariant
                0 <= i <= n,
                n == original.len(),
                n < u32::MAX,
                params@ == original,
                ps.len() == i,
                types.len() == i,
                forall|j: int|
                    0 <= j < i ==> {
                        &&& (#[trigger] ps@[j]).id == ValueId(j as u32)
                        &&& ps@[j].ty@ == original[j].1@
                        &&& ps@[j].name == original[j].0
                    },
                forall|j: int|
                    0 <= j < i ==> (#[trigger] types@[j]).0 == ValueId(j as u32) && types@[j].1@
                        == original[j].1@,
            decreases n - i,
        {
            let name = params[i].0.clone();
            let ty = params[i].1.duplicate();
            let id = ValueId(i as u32);
            types.push((id, ty.duplicate()));
            ps.push(Param { name, id, ty });
            i += 1;
        }
        let entry = BasicBlock {
            id: BlockId(0),
            name: String::from_str("entry"),
            instructions: Vec::new(),
            terminator: None,
        };
        let mut blocks = Vec::new();
        blocks.push(entry);
        proof {
            assert(blocks@.drop_last() =~= Seq::<BasicBlock>::empty());
            assert(blocks@.last().instructions@ =~= Seq::<Instruction>::empty());
            assert(census(Seq::<BasicBlock>::empty()) == (0nat, 0nat, 0nat));
            assert(census_of(Seq::<Instruction>::empty()) == (0nat, 0nat, 0nat));
            assert(census(blocks@) == (0nat, 0nat, 0nat));
        }
        let func = Function {
            name: String::from_str(name),
            params: ps,
            ret_ty,
            blocks,
            entry: BlockId(0),
            value_types: types,
        };
        FunctionBuilder { builder: self, func, current: 0, next_value: n as u32, next_block: 1 }
    }

    pub fn finish(self) -> (r: Module)
        ensures
            r == self.module,
    {
        self.module
    }
}

impl<'a> FunctionBuilder<'a> {
    /// The value of parameter `index`.
    pub fn param_value(&self, index: usize) -> (r: ValueId)
        requires
            index < self.func.params.len(),
        ensures
            r == self.func.params@[index as int].id,
    {
        self.func.params[index].id
    }

    pub fn is_current_block_terminated(&self) -> (r: bool)
        requires
            builder_wf(*self),
        ensures
            r == (self.func.blocks@[self.current as int].terminator is Some),
    {
        self.func.blocks[self.current].terminator.is_some()
    }

    /// Add an empty block and return its identity; the current block is unchanged.
    pub fn create_block(&mut self, name: &str) -> (r: BlockId)
        requires
            builder_wf(*old(self)),
        ensures
            builder_wf(*final(self)),
            same_frame(*old(self), *final(self)),
            settled(*old(self), *final(self)),
            r == BlockId(old(self).next_block),
            final(self).next_block == old(self).next_block.wrapping_add(1),
            final(self).current == old(self).current,
            final(self).next_value == old(self).next_value,
            final(self).func.blocks@.len() == old(self).func.blocks@.len() + 1,
            final(self).func.blocks@.drop_last() == old(self).func.blocks@,
            final(self).func.blocks@.last().id == r,
            final(self).func.blocks@.last().instructions.len() == 0,
            final(self).func.blocks@.last().terminator is None,
            census(final(self).func.blocks@) == census(old(self).func.blocks@),
            final(self).func.value_types == old(self).func.value_types,
            final(self).func.params == old(self).func.params,
            final(self).func.name == old(self).func.name,
            final(self).func.ret_ty == old(self).func.ret_ty,
            final(self).func.entry == old(self).func.entry,
            *final(self).builder == *old(self).builder,
    {
        let id = BlockId(self.next_block);
        self.next_block = self.next_block.wrapping_add(1);
        self.func.blocks.push(
            BasicBlock {
                id,
                name: String::from_str(name),
                instructions: Vec::new(),
                terminator: None,
            },
        );
        proof {
            assert(self.func.blocks@.drop_last() =~= old(self).func.blocks@);
            assert(self.func.blocks@ =~= old(self).func.blocks@.push(self.func.blocks@.last()));
            lemma_census_push(old(self).func.blocks@, self.func.blocks@.last());
            assert(self.func.blocks@.last().instructions@ =~= Seq::<Instruction>::empty());
        }
        id
    }

    /// Continue in the first block with identity `block`, if there is one.
    pub fn set_insert_point(&mut self, block: BlockId)
        requires
            builder_wf(*old(self)),
        ensures
            builder_wf(*final(self)),
            same_frame(*old(self), *final(self)),
            settled(*old(self), *final(self)),
            final(self).func == old(self).func,
            final(self).next_value == old(self).next_value,
            final(self).next_block == old(self).next_block,
            *final(self).builder == *old(self).builder,
            (exists|j: int| 0 <= j < old(self).func.blocks.len() && old(self).func.blocks@[j].id == block)
                ==> final(self).func.blocks@[final(self).current as int].id == block,
    {
        let mut j: usize = 0;
        while j < self.func.blocks.len()
            invariant
                0 <= j <= self.func.blocks.len(),
                self.func == old(self).func,
                forall|k: int| 0 <= k < j ==> self.func.blocks@[k].id != block,
                builder_wf(*self),
                self.next_value == old(self).next_value,
                self.next_block == old(self).next_block,
                self.builder == old(self).builder,
            decreases self.func.blocks.len() - j,
        {
            if self.func.blocks[j].id == block {
                self.current = j;
                return;
            }
            j += 1;
        }
    }

    /// Open a fresh current block when the current one is terminated.
    fn ensure_open(&mut self)
        requires
            builder_wf(*old(self)),
        ensures
            builder_wf(*final(self)),
            same_frame(*old(self), *final(self)),
            final(self).func.blocks@[final(self).current as int].terminator is None,
            final(self).next_value == old(self).next_value,
            census(final(self).func.blocks@) == census(old(self).func.blocks@),
            final(self).func.value_types == old(self).func.value_types,
            final(self).func.params == old(self).func.params,
            final(self).func.name == old(self).func.name,
            final(self).func.ret_ty == old(self).func.ret_ty,
            final(self).func.entry == old(self).func.entry,
            *final(self).builder == *old(self).builder,
            old(self).func.blocks@[old(self).current as int].terminator is None ==> *final(self)
                == *old(self),
            old(self).func.blocks@[old(self).current as int].terminator is Some ==> {
                &&& final(self).func.blocks@.drop_last() == old(self).func.blocks@
                &&& final(self).current == old(self).func.blocks.len()
                &&& final(self).func.blocks@.last().id == BlockId(old(self).next_block)
                &&& final(self).func.blocks@.last().instructions.len() == 0
                &&& final(self).next_block == old(self).next_block.wrapping_add(1)
            },
    {
        if self.func.blocks[self.current].terminator.is_some() {
            let id = self.create_block("dead");
            self.current = self.func.blocks.len() - 1;
        }
    }

    /// Append `ins` to the current block, opening a fresh block after a terminator.
    fn emit(&mut self, ins: Instruction)
        requires
            builder_wf(*old(self)),
        ensures
            builder_wf(*final(self)),
            same_frame(*old(self), *final(self)),
            final(self).next_value == old(self).next_value,
            final(self).func.value_types == old(self).func.value_types,
            final(self).func.params == old(self).func.params,
            final(self).func.name == old(self).func.name,
            final(self).func.ret_ty == old(self).func.ret_ty,
            final(self).func.entry == old(self).func.entry,
            *final(self).builder == *old(self).builder,
            final(self).func.blocks@.len() >= old(self).func.blocks@.len(),
            final(self).func.blocks@[final(self).current as int].terminator is None,
            final(self).func.blocks@[final(self).current as int].instructions@.last() == ins,
            census(final(self).func.blocks@) == plus3(census(old(self).func.blocks@), weight(ins)),
            appended(*old(self), *final(self), ins),
            final(self).func.value_types == old(self).func.value_types,
    {
        self.ensure_open();
        let ghost mid = self.func.blocks@;
        let cur = self.current;
        let mut block = self.func.blocks.remove(cur);
        let ghost ins_spec = ins;
        block.instructions.push(ins);
        self.func.blocks.insert(cur, block);
        proof {
            assert(self.func.blocks@ =~= mid.update(cur as int, self.func.blocks@[cur as int]));
            lemma_census_append(mid, cur as int, self.func.blocks@[cur as int], ins_spec);
            if old(self).func.blocks@[old(self).current as int].terminator is Some {
                assert(mid[cur as int].instructions@ =~= Seq::<Instruction>::empty());
                assert(mid.drop_last() == old(self).func.blocks@);
                assert forall|j: int| 0 <= j < old(self).func.blocks@.len() && j != self.current implies #[trigger] self.func.blocks@[j]
                    == old(self).func.blocks@[j] by {
                    assert(mid[j] == mid.drop_last()[j]);
                }
            }
            assert(open_instructions(*old(self)) == mid[cur as int].instructions@);
        }
    }

    /// Allocate a fresh value identity with the given type.
    fn fresh(&mut self, ty: Type) -> (r: ValueId)
        requires
            builder_wf(*old(self)),
        ensures
            builder_wf(*final(self)),
            same_frame(*old(self), *final(self)),
            r == ValueId(old(self).next_value),
            final(self).next_value == old(self).next_value.wrapping_add(1),
            final(self).func.value_types@ == old(self).func.value_types@.push((r, ty)),
            final(self).func.blocks == old(self).func.blocks,
            final(self).current == old(self).current,
            final(self).next_block == old(self).next_block,
            final(self).func.params == old(self).func.params,
            final(self).func.name == old(self).func.name,
            final(self).func.ret_ty == old(self).func.ret_ty,
            final(self).func.entry == old(self).func.entry,
            *final(self).builder == *old(self).builder,
    {
        let id = ValueId(self.next_value);
        self.next_value = self.next_value.wrapping_add(1);
        self.func.value_types.push((id, ty));
        id
    }

    /// Set the current block's terminator, in a fresh block after a terminator.
    fn terminate(&mut self, t: Terminator)
        requires
            builder_wf(*old(self)),
        ensures
            builder_wf(*final(self)),
            same_frame(*old(self), *final(self)),
            final(self).next_value == old(self).next_value,
            final(self).func.value_types == old(self).func.value_types,
            final(self).func.params == old(self).func.params,
            final(self).func.name == old(self).func.name,
            final(self).func.ret_ty == old(self).func.ret_ty,
            final(self).func.entry == old(self).func.entry,
            *final(self).builder == *old(self).builder,
            final(self).func.blocks@[final(self).current as int].terminator == Some(t),
            census(final(self).func.blocks@) == census(old(self).func.blocks@),
            terminated_with(*old(self), *final(self), t),
    {
        self.ensure_open();
        let ghost mid = self.func.blocks@;
        let cur = self.current;
        let mut block = self.func.blocks.remove(cur);
        block.terminator = Some(t);
        self.func.blocks.insert(cur, block);
        proof {
            assert(self.func.blocks@ =~= mid.update(cur as int, self.func.blocks@[cur as int]));
            lemma_census_same(mid, cur as int, self.func.blocks@[cur as int]);
            if old(self).func.blocks@[old(self).current as int].terminator is Some {
                assert(mid[cur as int].instructions@ =~= Seq::<Instruction>::empty());
                assert(mid.drop_last() == old(self).func.blocks@);
                assert forall|j: int| 0 <= j < old(self).func.blocks@.len() && j != self.current implies #[trigger] self.func.blocks@[j]
                    == old(self).func.blocks@[j] by {
                    assert(mid[j] == mid.drop_last()[j]);
                }
            }
            assert(open_instructions(*old(self)) == mid[cur as int].instructions@);
        }
    }

    /// A compile-time constant with its preserved expression and value.
    pub fn const_decl(&mut self, name: &str, expression: ConstExpr, value: ConstValue) -> (r:
        ValueId)
        requires
            builder_wf(*old(self)),
        ensures
            builder_wf(*final(self)),
            same_frame(*old(self), *final(self)),
            settled(*old(self), *final(self)),
            census(final(self).func.blocks@) == plus3(census(old(self).func.blocks@), (0nat, 0nat, 1nat)),
            r == ValueId(old(self).next_value),
            final(self).next_value == old(self).next_value.wrapping_add(1),
            final(self).func.value_types@.len() == old(self).func.value_types@.len() + 1,
            final(self).func.value_types@.drop_last() == old(self).func.value_types@,
            final(self).func.value_types@.last().0 == r,
            final(self).func.value_types@.last().1@ == expression.ty@,
            final(self).func.blocks@[final(self).current as int].instructions@.last() matches
                Instruction::ConstDecl { dst, name: n, expression: e, value: v }
                && dst == r && n@ == name@ && e == expression && v == value,
            appended(
                *old(self),
                *final(self),
                final(self).func.blocks@[final(self).current as int].instructions@.last(),
            ),
    {
        let dst = self.fresh(expression.ty.duplicate());
        proof {
            assert(self.func.value_types@.drop_last() =~= old(self).func.value_types@);
        }
        self.emit(Instruction::ConstDecl { dst, name: String::from_str(name), expression, value });
        dst
    }

    /// A typed constant.
    pub fn constant(&mut self, ty: Type, value: ConstValue) -> (r: ValueId)
        requires
            builder_wf(*old(self)),
        ensures
            builder_wf(*final(self)),
            same_frame(*old(self), *final(self)),
            appended(*old(self), *final(self), Instruction::Const { dst: r, ty, value }),
            settled(*old(self), *final(self)),
            census(final(self).func.blocks@) == census(old(self).func.blocks@),
            r == ValueId(old(self).next_value),
            final(self).next_value == old(self).next_value.wrapping_add(1),
            final(self).func.value_types@.drop_last() == old(self).func.value_types@,
            final(self).func.value_types@.len() == old(self).func.value_types@.len() + 1,
            final(self).func.value_types@.last().0 == r,
            final(self).func.value_types@.last().1@ == ty@,
            final(self).func.blocks@[final(self).current as int].instructions@.last() matches
                Instruction::Const { dst, ty: t, value: v } && dst == r && t@ == ty@ && v == value,
    {
        let dst = self.fresh(ty.duplicate());
        proof {
            assert(self.func.value_types@.drop_last() =~= old(self).func.value_types@);
        }
        self.emit(Instruction::Const { dst, ty, value });
        dst
    }

    pub fn const_i32(&mut self, value: i32) -> (r: ValueId)
        requires
            builder_wf(*old(self)),
        ensures
            builder_wf(*final(self)),
            same_frame(*old(self), *final(self)),
            settled(*old(self), *final(self)),
            r == ValueId(old(self).next_value),
            final(self).next_value == old(self).next_value.wrapping_add(1),
            final(self).func.value_types@.last() == (r, Type::I32),
    {
        self.constant(Type::I32, ConstValue::I(value as i128))
    }

    pub fn const_bool(&mut self, value: bool) -> (r: ValueId)
        requires
            builder_wf(*old(self)),
        ensures
            builder_wf(*final(self)),
            same_frame(*old(self), *final(self)),
            appended(*old(self), *final(self), Instruction::Const { dst: r, ty: Type::Bool, value: ConstValue::Bool(value) }),
            settled(*old(self), *final(self)),
            census(final(self).func.blocks@) == census(old(self).func.blocks@),
            r == ValueId(old(self).next_value),
            final(self).next_value == old(self).next_value.wrapping_add(1),
            final(self).func.value_types@.last().1@ == TypeModel::Bool,
    {
        self.constant(Type::Bool, ConstValue::Bool(value))
    }

    pub fn const_int(&mut self, ty: Type, value: i128) -> (r: ValueId)
        requires
            builder_wf(*old(self)),
        ensures
            builder_wf(*final(self)),
            same_frame(*old(self), *final(self)),
            appended(*old(self), *final(self), Instruction::Const { dst: r, ty, value: ConstValue::I(value) }),
            settled(*old(self), *final(self)),
            census(final(self).func.blocks@) == census(old(self).func.blocks@),
            r == ValueId(old(self).next_value),
            final(self).next_value == old(self).next_value.wrapping_add(1),
            final(self).func.value_types@.last().1@ == ty@,
    {
        self.constant(ty, ConstValue::I(value))
    }

    pub fn const_uint(&mut self, ty: Type, value: u128) -> (r: ValueId)
        requires
            builder_wf(*old(self)),
        ensures
            builder_wf(*final(self)),
            same_frame(*old(self), *final(self)),
            appended(*old(self), *final(self), Instruction::Const { dst: r, ty, value: ConstValue::U(value) }),
            settled(*old(self), *final(self)),
            census(final(self).func.blocks@) == census(old(self).func.blocks@),
            r == ValueId(old(self).next_value),
            final(self).next_value == old(self).next_value.wrapping_add(1),
            final(self).func.value_types@.last().1@ == ty@,
    {
        self.constant(ty, ConstValue::U(value))
    }

    pub fn const_float(&mut self, ty: Type, value: FloatBits) -> (r: ValueId)
        requires
            builder_wf(*old(self)),
        ensures
            builder_wf(*final(self)),
            same_frame(*old(self), *final(self)),
            appended(*old(self), *final(self), Instruction::Const { dst: r, ty, value: ConstValue::F(value) }),
            settled(*old(self), *final(self)),
            census(final(self).func.blocks@) == census(old(self).func.blocks@),
            r == ValueId(old(self).next_value),
            final(self).next_value == old(self).next_value.wrapping_add(1),
            final(self).func.value_types@.last().1@ == ty@,
    {
        self.constant(ty, ConstValue::F(value))
    }

    pub fn undef(&mut self, ty: Type) -> (r: ValueId)
        requires
            builder_wf(*old(self)),
        ensures
            builder_wf(*final(self)),
            same_frame(*old(self), *final(self)),
            appended(*old(self), *final(self), Instruction::Undef { dst: r, ty }),
            settled(*old(self), *final(self)),
            census(final(self).func.blocks@) == census(old(self).func.blocks@),
            r == ValueId(old(self).next_value),
            final(self).next_value == old(self).next_value.wrapping_add(1),
            final(self).func.value_types@.last().1@ == ty@,
    {
        let dst = self.fresh(ty.duplicate());
        self.emit(Instruction::Undef { dst, ty });
        dst
    }

    /// A result-typed instruction built by `make` from its fresh identity.
    fn valued(&mut self, ty: Type, ins: Instruction) -> (r: ValueId)
        requires
            builder_wf(*old(self)),
        ensures
            builder_wf(*final(self)),
            same_frame(*old(self), *final(self)),
            r == ValueId(old(self).next_value),
            final(self).next_value == old(self).next_value.wrapping_add(1),
            final(self).func.value_types@.last().1@ == ty@,
            final(self).func.value_types@.last().0 == r,
    {
        let dst = self.fresh(ty);
        self.emit(ins);
        dst
    }

    pub fn bin(&mut self, op: BinOp, ty: Type, lhs: ValueId, rhs: ValueId) -> (r: ValueId)
        requires
            builder_wf(*old(self)),
        ensures
            builder_wf(*final(self)),
            same_frame(*old(self), *final(self)),
            final(self).func.value_types@.last().0 == r,
            final(self).func.value_types@.drop_last() == old(self).func.value_types@,
            appended(*old(self), *final(self), Instruction::Bin { dst: r, op, ty, lhs, rhs }),
            settled(*old(self), *final(self)),
            census(final(self).func.blocks@) == plus3(census(old(self).func.blocks@), (1nat, 0nat, 0nat)),
            r == ValueId(old(self).next_value),
            final(self).next_value == old(self).next_value.wrapping_add(1),
            final(self).func.value_types@.last().1@ == ty@,
            final(self).func.blocks@[final(self).current as int].instructions@.last() matches
                Instruction::Bin { dst, op: o, ty: t, lhs: a, rhs: b } && dst == r && o == op
                && t@ == ty@ && a == lhs && b == rhs,
    {
        let dst = self.fresh(ty.duplicate());
        self.emit(Instruction::Bin { dst, op, ty, lhs, rhs });
        dst
    }

    pub fn cmp(&mut self, op: CmpOp, ty: Type, lhs: ValueId, rhs: ValueId) -> (r: ValueId)
        requires
            builder_wf(*old(self)),
        ensures
            builder_wf(*final(self)),
            same_frame(*old(self), *final(self)),
            appended(*old(self), *final(self), Instruction::Cmp { dst: r, op, ty, lhs, rhs }),
            settled(*old(self), *final(self)),
            census(final(self).func.blocks@) == plus3(census(old(self).func.blocks@), (0nat, 1nat, 0nat)),
            r == ValueId(old(self).next_value),
            final(self).next_value == old(self).next_value.wrapping_add(1),
            final(self).func.value_types@.last().1@ == TypeModel::Bool,
    {
        let dst = self.fresh(Type::Bool);
        self.emit(Instruction::Cmp { dst, op, ty, lhs, rhs });
        dst
    }

    pub fn icmp(&mut self, pred: ICmpPred, ty: Type, lhs: ValueId, rhs: ValueId) -> (r: ValueId)
        requires
            builder_wf(*old(self)),
        ensures
            builder_wf(*final(self)),
            same_frame(*old(self), *final(self)),
            r == ValueId(old(self).next_value),
            final(self).next_value == old(self).next_value.wrapping_add(1),
            final(self).func.value_types@.last().1@ == TypeModel::Bool,
    {
        let dst = self.fresh(Type::Bool);
        self.emit(Instruction::ICmp { dst, pred, ty, lhs, rhs });
        dst
    }

    pub fn fcmp(&mut self, pred: FCmpPred, ty: Type, lhs: ValueId, rhs: ValueId) -> (r: ValueId)
        requires
            builder_wf(*old(self)),
        ensures
            builder_wf(*final(self)),
            same_frame(*old(self), *final(self)),
            r == ValueId(old(self).next_value),
            final(self).next_value == old(self).next_value.wrapping_add(1),
            final(self).func.value_types@.last().1@ == TypeModel::Bool,
    {
        let dst = self.fresh(Type::Bool);
        self.emit(Instruction::FCmp { dst, pred, ty, lhs, rhs });
        dst
    }

    /// Arithmetic with an overflow flag; the result is a `(ty, bool)` tuple.
    pub fn checked(&mut self, op: CheckedOp, ty: Type, lhs: ValueId, rhs: ValueId) -> (r: ValueId)
        requires
            builder_wf(*old(self)),
        ensures
            builder_wf(*final(self)),
            same_frame(*old(self), *final(self)),
            r == ValueId(old(self).next_value),
            final(self).next_value == old(self).next_value.wrapping_add(1),
            final(self).func.value_types@.last().1@ == TypeModel::Tuple(
                seq![ty@, TypeModel::Bool],
            ),
    {
        let mut fields = Vec::new();
        fields.push(ty.duplicate());
        fields.push(Type::Bool);
        let ghost fs = fields;
        let tuple = Type::Tuple(fields);
        proof {
            assert(fs@.len() == 2);
            assert(tuple@->Tuple_0[0] == fs@[0]@);
            assert(tuple@->Tuple_0[1] == fs@[1]@);
            assert(fs@[1]@ == TypeModel::Bool);
            assert(tuple@->Tuple_0 =~= seq![ty@, TypeModel::Bool]);
        }
        let dst = self.fresh(tuple);
        self.emit(Instruction::Checked { dst, op, ty, lhs, rhs });
        dst
    }

    pub fn extract(&mut self, tuple_ty: Type, dst_ty: Type, tuple: ValueId, index: u32) -> (r:
        ValueId)
        requires
            builder_wf(*old(self)),
        ensures
            builder_wf(*final(self)),
            same_frame(*old(self), *final(self)),
            r == ValueId(old(self).next_value),
            final(self).next_value == old(self).next_value.wrapping_add(1),
            final(self).func.value_types@.last().1@ == dst_ty@,
    {
        let dst = self.fresh(dst_ty.duplicate());
        self.emit(Instruction::Extract { dst, tuple_ty, dst_ty, tuple, index });
        dst
    }

    pub fn cast(&mut self, op: CastOp, src_ty: Type, src: ValueId, dst_ty: Type) -> (r: ValueId)
        requires
            builder_wf(*old(self)),
        ensures
            builder_wf(*final(self)),
            same_frame(*old(self), *final(self)),
            r == ValueId(old(self).next_value),
            final(self).next_value == old(self).next_value.wrapping_add(1),
            final(self).func.value_types@.last().1@ == dst_ty@,
    {
        let dst = self.fresh(dst_ty.duplicate());
        self.emit(Instruction::Cast { dst, op, src_ty, src, dst_ty });
        dst
    }

    pub fn select(&mut self, ty: Type, cond: ValueId, on_true: ValueId, on_false: ValueId) -> (r:
        ValueId)
        requires
            builder_wf(*old(self)),
        ensures
            builder_wf(*final(self)),
            same_frame(*old(self), *final(self)),
            r == ValueId(old(self).next_value),
            final(self).next_value == old(self).next_value.wrapping_add(1),
            final(self).func.value_types@.last().1@ == ty@,
    {
        let dst = self.fresh(ty.duplicate());
        self.emit(Instruction::Select { dst, ty, cond, on_true, on_false });
        dst
    }

    pub fn mov(&mut self, ty: Type, src: ValueId) -> (r: ValueId)
        requires
            builder_wf(*old(self)),
        ensures
            builder_wf(*final(self)),
            same_frame(*old(self), *final(self)),
            r == ValueId(old(self).next_value),
            final(self).next_value == old(self).next_value.wrapping_add(1),
            final(self).func.value_types@.last().1@ == ty@,
    {
        let dst = self.fresh(ty.duplicate());
        self.emit(Instruction::Mov { dst, ty, src });
        dst
    }

    pub fn not(&mut self, ty: Type, src: ValueId) -> (r: ValueId)
        requires
            builder_wf(*old(self)),
        ensures
            builder_wf(*final(self)),
            same_frame(*old(self), *final(self)),
            r == ValueId(old(self).next_value),
            final(self).next_value == old(self).next_value.wrapping_add(1),
            final(self).func.value_types@.last().1@ == ty@,
    {
        let dst = self.fresh(ty.duplicate());
        self.emit(Instruction::Not { dst, ty, src });
        dst
    }

    /// Stack storage in the current block; the result points to `ty`.
    pub fn alloca(&mut self, ty: Type, align: u32) -> (r: ValueId)
        requires
            builder_wf(*old(self)),
        ensures
            builder_wf(*final(self)),
            same_frame(*old(self), *final(self)),
            r == ValueId(old(self).next_value),
            final(self).next_value == old(self).next_value.wrapping_add(1),
            final(self).func.value_types@.last().1@ == TypeModel::Ptr(Box::new(ty@)),
    {
        let dst = self.fresh(Type::ptr_to(ty.duplicate()));
        self.emit(Instruction::Alloca { dst, ty, align });
        dst
    }

    /// Stack storage appended to the entry block, whatever block is current.
    pub fn alloca_in_entry(&mut self, ty: Type, align: u32) -> (r: ValueId)
        requires
            builder_wf(*old(self)),
        ensures
            builder_wf(*final(self)),
            same_frame(*old(self), *final(self)),
            settled(*old(self), *final(self)),
            census(final(self).func.blocks@) == census(old(self).func.blocks@),
            r == ValueId(old(self).next_value),
            final(self).next_value == old(self).next_value.wrapping_add(1),
            final(self).current == old(self).current,
            final(self).func.value_types@.last().1@ == TypeModel::Ptr(Box::new(ty@)),
            final(self).func.blocks@[0].instructions@.last() matches Instruction::Alloca {
                dst,
                ty: t,
                align: a,
            } && dst == r && t@ == ty@ && a == align,
            final(self).func.blocks@.len() == old(self).func.blocks@.len(),
            final(self).func.blocks@[0].instructions@ == old(self).func.blocks@[0].instructions@.push(
                final(self).func.blocks@[0].instructions@.last(),
            ),
            final(self).func.blocks@[0].terminator == old(self).func.blocks@[0].terminator,
            forall|j: int| 0 < j < old(self).func.blocks@.len() ==> #[trigger] final(self).func.blocks@[j] == old(self).func.blocks@[j],
    {
        let dst = self.fresh(Type::ptr_to(ty.duplicate()));
        let ghost mid = self.func.blocks@;
        let ghost ty_spec = ty;
        let mut block = self.func.blocks.remove(0);
        block.instructions.push(Instruction::Alloca { dst, ty, align });
        self.func.blocks.insert(0, block);
        proof {
            assert(self.func.blocks@ =~= mid.update(0, self.func.blocks@[0]));
            lemma_census_append(mid, 0, self.func.blocks@[0], Instruction::Alloca { dst, ty: ty_spec, align });
        }
        dst
    }

    pub fn load(&mut self, ty: Type, ptr: ValueId, align: u32) -> (r: ValueId)
        requires
            builder_wf(*old(self)),
        ensures
            builder_wf(*final(self)),
            same_frame(*old(self), *final(self)),
            appended(*old(self), *final(self), Instruction::Load { dst: r, ty, ptr, align }),
            settled(*old(self), *final(self)),
            census(final(self).func.blocks@) == census(old(self).func.blocks@),
            r == ValueId(old(self).next_value),
            final(self).next_value == old(self).next_value.wrapping_add(1),
            final(self).func.value_types@.last().1@ == ty@,
            final(self).func.blocks@[final(self).current as int].instructions@.last() matches
                Instruction::Load { dst, ty: t, ptr: p, align: a } && dst == r && t@ == ty@ && p
                == ptr && a == align,
    {
        let dst = self.fresh(ty.duplicate());
        self.emit(Instruction::Load { dst, ty, ptr, align });
        dst
    }

    pub fn store(&mut self, ty: Type, value: ValueId, ptr: ValueId, align: u32)
        requires
            builder_wf(*old(self)),
        ensures
            builder_wf(*final(self)),
            same_frame(*old(self), *final(self)),
            appended(*old(self), *final(self), Instruction::Store { ty, ptr, value, align }),
            settled(*old(self), *final(self)),
            census(final(self).func.blocks@) == census(old(self).func.blocks@),
            final(self).next_value == old(self).next_value,
            final(self).func.value_types == old(self).func.value_types,
            final(self).func.blocks@[final(self).current as int].instructions@.last() matches
                Instruction::Store { ty: t, ptr: p, value: v, align: a } && t@ == ty@ && p == ptr
                && v == value && a == align,
    {
        self.emit(Instruction::Store { ty, ptr, value, align });
    }

    pub fn gep(&mut self, dst_ty: Type, base_ptr: ValueId, indices: Vec<ValueId>) -> (r: ValueId)
        requires
            builder_wf(*old(self)),
        ensures
            builder_wf(*final(self)),
            same_frame(*old(self), *final(self)),
            r == ValueId(old(self).next_value),
            final(self).next_value == old(self).next_value.wrapping_add(1),
            final(self).func.value_types@.last().1@ == dst_ty@,
    {
        let dst = self.fresh(dst_ty.duplicate());
        self.emit(Instruction::Gep { dst, dst_ty, base_ptr, indices });
        dst
    }

    pub fn phi(&mut self, ty: Type, incomings: Vec<(ValueId, BlockId)>) -> (r: ValueId)
        requires
            builder_wf(*old(self)),
        ensures
            builder_wf(*final(self)),
            same_frame(*old(self), *final(self)),
            r == ValueId(old(self).next_value),
            final(self).next_value == old(self).next_value.wrapping_add(1),
            final(self).func.value_types@.last().1@ == ty@,
    {
        let dst = self.fresh(ty.duplicate());
        self.emit(Instruction::Phi { dst, ty, incomings });
        dst
    }

    pub fn memcpy(&mut self, dst: ValueId, src: ValueId, n: ValueId, align: u32)
        requires
            builder_wf(*old(self)),
        ensures
            builder_wf(*final(self)),
            same_frame(*old(self), *final(self)),
            settled(*old(self), *final(self)),
            final(self).func.value_types == old(self).func.value_types,
            final(self).next_value == old(self).next_value,
            census(final(self).func.blocks@) == census(old(self).func.blocks@),
            final(self).func.blocks@[final(self).current as int].instructions@.last() == (
            Instruction::Memcpy { dst, src, n, align }),
    {
        self.emit(Instruction::Memcpy { dst, src, n, align });
    }

    pub fn memset(&mut self, dst: ValueId, val: ValueId, n: ValueId, align: u32)
        requires
            builder_wf(*old(self)),
        ensures
            builder_wf(*final(self)),
            same_frame(*old(self), *final(self)),
            settled(*old(self), *final(self)),
            final(self).func.value_types == old(self).func.value_types,
            final(self).next_value == old(self).next_value,
            census(final(self).func.blocks@) == census(old(self).func.blocks@),
            final(self).func.blocks@[final(self).current as int].instructions@.last() == (
            Instruction::Memset { dst, val, n, align }),
    {
        self.emit(Instruction::Memset { dst, val, n, align });
    }

    /// A call; a void call has no result value.
    pub fn call(&mut self, ret_ty: Type, callee: Callee, args: Vec<ValueId>) -> (r: Option<
        ValueId,
    >)
        requires
            builder_wf(*old(self)),
        ensures
            builder_wf(*final(self)),
            same_frame(*old(self), *final(self)),
            ret_ty@ is Void <==> r is None,
            r matches Some(v) ==> v == ValueId(old(self).next_value)
                && final(self).func.value_types@.last().1@ == ret_ty@,
    {
        proof {
            crate::ir::types::lemma_model_shape(ret_ty);
        }
        if matches!(ret_ty, Type::Void) {
            self.emit(Instruction::Call { dst: None, ret_ty, callee, args });
            None
        } else {
            let dst = self.fresh(ret_ty.duplicate());
            self.emit(Instruction::Call { dst: Some(dst), ret_ty, callee, args });
            Some(dst)
        }
    }

    pub fn trap_if(&mut self, cond: ValueId, reason: &str)
        requires
            builder_wf(*old(self)),
        ensures
            builder_wf(*final(self)),
            same_frame(*old(self), *final(self)),
            settled(*old(self), *final(self)),
            final(self).func.value_types == old(self).func.value_types,
            final(self).next_value == old(self).next_value,
            census(final(self).func.blocks@) == census(old(self).func.blocks@),
            final(self).func.blocks@[final(self).current as int].instructions@.last() matches
                Instruction::TrapIf { cond: c, reason: t } && c == cond && t@ == reason@,
    {
        self.emit(Instruction::TrapIf { cond, reason: String::from_str(reason) });
    }

    /// Return from the function with the function's result type.
    pub fn ret(&mut self, value: Option<ValueId>)
        requires
            builder_wf(*old(self)),
        ensures
            builder_wf(*final(self)),
            same_frame(*old(self), *final(self)),
            settled(*old(self), *final(self)),
            census(final(self).func.blocks@) == census(old(self).func.blocks@),
            final(self).next_value == old(self).next_value,
            final(self).func.value_types == old(self).func.value_types,
            final(self).func.blocks@[final(self).current as int].terminator matches Some(
                Terminator::Ret { ty, value: v },
            ) && ty@ == old(self).func.ret_ty@ && v == value,
            current_open(*old(self)) ==> final(self).current == old(self).current,
    {
        let ty = self.func.ret_ty.duplicate();
        self.terminate(Terminator::Ret { ty, value });
    }

    pub fn br(&mut self, target: BlockId)
        requires
            builder_wf(*old(self)),
        ensures
            builder_wf(*final(self)),
            same_frame(*old(self), *final(self)),
            terminated_with(*old(self), *final(self), Terminator::Br { target }),
            settled(*old(self), *final(self)),
            census(final(self).func.blocks@) == census(old(self).func.blocks@),
            final(self).next_value == old(self).next_value,
            final(self).func.value_types == old(self).func.value_types,
            final(self).func.blocks@[final(self).current as int].terminator == Some(
                Terminator::Br { target },
            ),
    {
        self.terminate(Terminator::Br { target });
    }

    pub fn cbr(&mut self, cond: ValueId, then_bb: BlockId, else_bb: BlockId)
        requires
            builder_wf(*old(self)),
        ensures
            builder_wf(*final(self)),
            same_frame(*old(self), *final(self)),
            terminated_with(*old(self), *final(self), Terminator::CBr { cond, then_bb, else_bb }),
            settled(*old(self), *final(self)),
            census(final(self).func.blocks@) == census(old(self).func.blocks@),
            final(self).next_value == old(self).next_value,
            final(self).func.value_types == old(self).func.value_types,
            final(self).func.blocks@[final(self).current as int].terminator == Some(
                Terminator::CBr { cond, then_bb, else_bb },
            ),
    {
        self.terminate(Terminator::CBr { cond, then_bb, else_bb });
    }

    pub fn switch(
        &mut self,
        ty: Type,
        value: ValueId,
        default_bb: BlockId,
        cases: Vec<(ConstValue, BlockId)>,
    )
        requires
            builder_wf(*old(self)),
        ensures
            builder_wf(*final(self)),
            same_frame(*old(self), *final(self)),
            terminated_with(*old(self), *final(self), Terminator::Switch { ty, value, default_bb, cases }),
            settled(*old(self), *final(self)),
            final(self).next_value == old(self).next_value,
            final(self).func.value_types == old(self).func.value_types,
            census(final(self).func.blocks@) == census(old(self).func.blocks@),
            final(self).func.blocks@[final(self).current as int].terminator == Some(
                Terminator::Switch { ty, value, default_bb, cases },
            ),
    {
        self.terminate(Terminator::Switch { ty, value, default_bb, cases });
    }

    pub fn trap(&mut self, reason: &str)
        requires
            builder_wf(*old(self)),
        ensures
            builder_wf(*final(self)),
            same_frame(*old(self), *final(self)),
            settled(*old(self), *final(self)),
            census(final(self).func.blocks@) == census(old(self).func.blocks@),
            final(self).next_value == old(self).next_value,
            final(self).func.value_types == old(self).func.value_types,
            final(self).func.blocks@[final(self).current as int].terminator matches Some(
                Terminator::Trap { reason: t },
            ) && t@ == reason@,
            current_open(*old(self)) ==> final(self).current == old(self).current,
    {
        self.terminate(Terminator::Trap { reason: String::from_str(reason) });
    }

    /// Add the finished function to the module.
    pub fn finish(self)
        ensures
            final(self.builder).module.functions@ == old(self.builder).module.functions@.push(
                self.func,
            ),
            final(self.builder).module.globals == old(self.builder).module.globals,
            final(self.builder).module.target == old(self.builder).module.target,
            final(self.builder).module.datalayout == old(self.builder).module.datalayout,
            final(self.builder).next_global == old(self.builder).next_global,
    {
        let FunctionBuilder { builder, func, .. } = self;
        builder.module.functions.push(func);
    }
}

} // verus!
