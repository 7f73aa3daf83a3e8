//! Specialization: writing the values of the specialization constants into
//! the bytecode.

use vstd::prelude::*;
use std::collections::HashMap;
use crate::artifact::{KernelDesc, KernelDescView, SpecDescView};
use crate::error::{Error, SpecializationError};
use crate::scalar::ScalarElem;
use crate::spirv::{
    DECORATION_SPEC_ID, Instruction, InstructionView, Literal, OP_DECORATE, OP_SPEC_CONSTANT,
    MODE_LOCAL_SIZE, OP_EXECUTION_MODE, Operand, annotations, assemble, assembled,
    execution_modes, globals, load_module, loadable, loaded, module_annotations,
    module_execution_modes, module_globals, set_float32, set_float64, set_int32, set_int64,
    set_mode_int32, views, with_literal, with_mode_literal, words_loadable,
};

verus! {

broadcast use vstd::std_specs::hash::group_hash_axioms;

/// The id and the constant number of a `SpecId` decoration; nothing for any
/// other instruction.
pub open spec fn spec_id_decoration(inst: InstructionView) -> Option<(u32, u32)> {
    if inst.opcode == OP_DECORATE && inst.operands.len() == 3 {
        match (inst.operands[0], inst.operands[1], inst.operands[2]) {
            (
                Operand::IdRef(id),
                Operand::Decoration(decoration),
                Operand::Literal(Literal::Int32(number)),
            ) => if decoration == DECORATION_SPEC_ID {
                Some((id, number))
            } else {
                None
            },
            _ => None,
        }
    } else {
        None
    }
}

/// Which constant number each id is decorated with. Where an id is decorated
/// more than once, the last decoration counts.
pub open spec fn spec_ids(annotations: Seq<InstructionView>) -> Map<u32, u32>
    decreases annotations.len(),
{
    if annotations.len() == 0 {
        Map::empty()
    } else {
        let rest = spec_ids(annotations.drop_last());
        match spec_id_decoration(annotations.last()) {
            Some((id, number)) => rest.insert(id, number),
            None => rest,
        }
    }
}

/// What specialization does to one global instruction.
#[derive(Clone, Copy, Debug, PartialEq, Eq, Structural)]
pub enum Patch {
    /// The instruction stays as it is.
    Keep,
    /// Its one literal becomes this one, of the same kind.
    One(Literal),
    /// Its two literals become these words, the low one first.
    Two(u32, u32),
    /// It is a constant to set, and its operands are not literals of as
    /// many words as the value has.
    Mismatch,
}

/// The low 32 bits of `bits`.
pub open spec fn low_word(bits: nat) -> u32 {
    (bits % 0x1_0000_0000) as u32
}

/// The bits 32 to 63 of `bits`.
pub open spec fn high_word(bits: nat) -> u32 {
    (bits / 0x1_0000_0000 % 0x1_0000_0000) as u32
}

/// The literal of the kind of `old` with the bits of `value`, where the
/// value is as wide as the kind: four bytes for a 32-bit kind, eight for a
/// 64-bit kind.
pub open spec fn rewritten(old: Literal, value: ScalarElem) -> Option<Literal> {
    let size = value.spec_scalar_type().spec_size();
    match old {
        Literal::Int32(_) => if size == 4 {
            Some(Literal::Int32(low_word(value.bits())))
        } else {
            None
        },
        Literal::Float32(_) => if size == 4 {
            Some(Literal::Float32(low_word(value.bits())))
        } else {
            None
        },
        Literal::Int64(_) => if size == 8 {
            Some(Literal::Int64(value.bits() as u64))
        } else {
            None
        },
        Literal::Float64(_) => if size == 8 {
            Some(Literal::Float64(value.bits() as u64))
        } else {
            None
        },
    }
}

/// The patch that writes `value` into operands of the given kinds: into
/// one literal as wide as the value, or into two 32-bit integer literals
/// where the value has eight bytes.
pub open spec fn literal_patch(operands: Seq<Operand>, value: ScalarElem) -> Patch {
    let size = value.spec_scalar_type().spec_size();
    if operands.len() == 1 {
        match operands[0] {
            Operand::Literal(old) => match rewritten(old, value) {
                Some(new) => Patch::One(new),
                None => Patch::Mismatch,
            },
            _ => Patch::Mismatch,
        }
    } else if operands.len() == 2 && size == 8 {
        match (operands[0], operands[1]) {
            (Operand::Literal(Literal::Int32(_)), Operand::Literal(Literal::Int32(_))) => Patch::Two(
                low_word(value.bits()),
                high_word(value.bits()),
            ),
            _ => Patch::Mismatch,
        }
    } else {
        Patch::Mismatch
    }
}

/// The patch for one global instruction: an `OpSpecConstant` whose result id
/// is decorated with the number of one of the given values gets that value.
pub open spec fn patch_of(inst: InstructionView, ids: Map<u32, u32>, consts: Seq<ScalarElem>) -> Patch {
    if inst.opcode != OP_SPEC_CONSTANT {
        Patch::Keep
    } else {
        match inst.result_id {
            None => Patch::Keep,
            Some(id) => if ids.contains_key(id) && ids[id] < consts.len() {
                literal_patch(inst.operands, consts[ids[id] as int])
            } else {
                Patch::Keep
            },
        }
    }
}

/// The patch of each global instruction.
pub open spec fn plan(globals: Seq<InstructionView>, ids: Map<u32, u32>, consts: Seq<ScalarElem>) -> Seq<
    Patch,
> {
    Seq::new(globals.len(), |p: int| patch_of(globals[p], ids, consts))
}

/// Whether `position` is the first mismatch of the plan.
pub open spec fn first_mismatch(plan: Seq<Patch>, position: int) -> bool {
    &&& 0 <= position < plan.len()
    &&& plan[position] == Patch::Mismatch
    &&& forall|q: int| 0 <= q < position ==> plan[q] != Patch::Mismatch
}

/// Whether the plan has no mismatch.
pub open spec fn no_mismatch(plan: Seq<Patch>) -> bool {
    forall|q: int| 0 <= q < plan.len() ==> plan[q] != Patch::Mismatch
}

/// The module after one patch.
pub open spec fn apply_patch(module: rspirv::dr::Module, position: int, patch: Patch) -> rspirv::dr::Module {
    match patch {
        Patch::One(a) => with_literal(module, position, 0, a),
        Patch::Two(a, b) => with_literal(
            with_literal(module, position, 0, Literal::Int32(a)),
            position,
            1,
            Literal::Int32(b),
        ),
        _ => module,
    }
}

/// The module after the first `n` patches of the plan, in order.
pub open spec fn apply_plan(module: rspirv::dr::Module, plan: Seq<Patch>, n: nat) -> rspirv::dr::Module
    decreases n,
{
    if n == 0 {
        module
    } else {
        apply_patch(apply_plan(module, plan, (n - 1) as nat), n - 1, plan[n - 1])
    }
}

/// Reads the `SpecId` decorations.
pub fn collect_spec_ids(annotations: &Vec<Instruction>) -> (r: HashMap<u32, u32>)
    ensures
        r@ == spec_ids(views(annotations@)),
{
    let mut ids: HashMap<u32, u32> = HashMap::new();
    let mut i: usize = 0;
    while i < annotations.len()
        invariant
            i <= annotations.len(),
            ids@ == spec_ids(views(annotations@).take(i as int)),
        decreases annotations.len() - i,
    {
        let inst = &annotations[i];
        proof {
            let before = views(annotations@).take(i as int);
            let now = views(annotations@).take(i + 1);
            assert(now.drop_last() =~= before);
            assert(now.last() == inst@);
        }
        if inst.opcode == OP_DECORATE && inst.operands.len() == 3 {
            match (inst.operands[0], inst.operands[1], inst.operands[2]) {
                (
                    Operand::IdRef(id),
                    Operand::Decoration(d),
                    Operand::Literal(Literal::Int32(number)),
                ) => {
                    if d == DECORATION_SPEC_ID {
                        ids.insert(id, number);
                    }
                },
                _ => {},
            }
        }
        i = i + 1;
    }
    assert(views(annotations@).take(annotations@.len() as int) =~= views(annotations@));
    ids
}

/// The patch that writes `value` into the operands.
pub fn literal_patch_of(operands: &Vec<Operand>, value: &ScalarElem) -> (r: Patch)
    ensures
        r == literal_patch(operands@, *value),
{
    let size = value.scalar_type().size();
    let bits = value.to_bits();
    let low: u32 = (bits % 0x1_0000_0000) as u32;
    if operands.len() == 1 {
        match operands[0] {
            Operand::Literal(Literal::Int32(_)) => if size == 4 {
                Patch::One(Literal::Int32(low))
            } else {
                Patch::Mismatch
            },
            Operand::Literal(Literal::Float32(_)) => if size == 4 {
                Patch::One(Literal::Float32(low))
            } else {
                Patch::Mismatch
            },
            Operand::Literal(Literal::Int64(_)) => if size == 8 {
                Patch::One(Literal::Int64(bits))
            } else {
                Patch::Mismatch
            },
            Operand::Literal(Literal::Float64(_)) => if size == 8 {
                Patch::One(Literal::Float64(bits))
            } else {
                Patch::Mismatch
            },
            _ => Patch::Mismatch,
        }
    } else if operands.len() == 2 && size == 8 {
        match (operands[0], operands[1]) {
            (Operand::Literal(Literal::Int32(_)), Operand::Literal(Literal::Int32(_))) => Patch::Two(
                low,
                (bits / 0x1_0000_0000 % 0x1_0000_0000) as u32,
            ),
            _ => Patch::Mismatch,
        }
    } else {
        Patch::Mismatch
    }
}

/// Decides for each global instruction what specialization does to it, and
/// reports the first constant that cannot take its value.
pub fn plan_patches(
    globals: &Vec<Instruction>,
    ids: &HashMap<u32, u32>,
    consts: &[ScalarElem],
) -> (r: Result<Vec<Patch>, SpecializationError>)
    ensures
        match r {
            Ok(patches) => {
                &&& patches@ == plan(views(globals@), ids@, consts@)
                &&& no_mismatch(patches@)
            },
            Err(e) => exists|p: int|
                {
                    &&& first_mismatch(plan(views(globals@), ids@, consts@), p)
                    &&& e == SpecializationError::LiteralMismatch { position: p as usize }
                },
        },
{
    let ghost wanted = plan(views(globals@), ids@, consts@);
    let mut patches: Vec<Patch> = Vec::new();
    let mut p: usize = 0;
    while p < globals.len()
        invariant
            p <= globals.len(),
            wanted == plan(views(globals@), ids@, consts@),
            patches@ == wanted.take(p as int),
            no_mismatch(patches@),
        decreases globals.len() - p,
    {
        let inst = &globals[p];
        assert(views(globals@)[p as int] == inst@);
        let mut patch = Patch::Keep;
        if inst.opcode == OP_SPEC_CONSTANT {
            match inst.result_id {
                Some(id) => {
                    match ids.get(&id) {
                        Some(number) => {
                            let k = *number as usize;
                            if k < consts.len() {
                                patch = literal_patch_of(&inst.operands, &consts[k]);
                            }
                        },
                        None => {},
                    }
                },
                None => {},
            }
        }
        assert(patch == wanted[p as int]);
        if patch == Patch::Mismatch {
            proof {
                assert(first_mismatch(wanted, p as int)) by {
                    assert forall|q: int| 0 <= q < p implies wanted[q] != Patch::Mismatch by {
                        assert(patches@[q] == wanted[q]);
                    }
                }
            }
            return Err(SpecializationError::LiteralMismatch { position: p });
        }
        patches.push(patch);
        p = p + 1;
        assert(patches@ =~= wanted.take(p as int));
    }
    assert(wanted.take(globals@.len() as int) =~= wanted);
    Ok(patches)
}

/// Whether each patch finds the literals that it writes.
pub open spec fn plan_fits(plan: Seq<Patch>, globals: Seq<InstructionView>) -> bool {
    &&& plan.len() == globals.len()
    &&& forall|p: int|
        0 <= p < plan.len() ==> match #[trigger] plan[p] {
            Patch::One(_) => globals[p].operands.len() == 1,
            Patch::Two(_, _) => globals[p].operands.len() == 2,
            _ => true,
        }
}

/// Two lists of instructions with as many operands each.
pub open spec fn same_shape(a: Seq<InstructionView>, b: Seq<InstructionView>) -> bool {
    &&& a.len() == b.len()
    &&& forall|p: int| 0 <= p < a.len() ==> (#[trigger] a[p]).operands.len() == b[p].operands.len()
}

/// Writes the literals of the plan into the module.
fn apply(module: &mut rspirv::dr::Module, patches: &Vec<Patch>)
    requires
        plan_fits(patches@, globals(*old(module))),
    ensures
        *final(module) == apply_plan(*old(module), patches@, patches@.len()),
        execution_modes(*final(module)) == execution_modes(*old(module)),
{
    let ghost start = *module;
    let ghost shape = globals(*module);
    let mut p: usize = 0;
    while p < patches.len()
        invariant
            p <= patches.len(),
            plan_fits(patches@, shape),
            same_shape(globals(*module), shape),
            execution_modes(*module) == execution_modes(start),
            *module == apply_plan(start, patches@, p as nat),
        decreases patches.len() - p,
    {
        let ghost before = *module;
        match patches[p] {
            Patch::One(Literal::Int32(a)) => {
                set_int32(module, p, 0, a);
            },
            Patch::One(Literal::Int64(a)) => {
                set_int64(module, p, 0, a);
            },
            Patch::One(Literal::Float32(a)) => {
                set_float32(module, p, 0, a);
            },
            Patch::One(Literal::Float64(a)) => {
                set_float64(module, p, 0, a);
            },
            Patch::Two(a, b) => {
                set_int32(module, p, 0, a);
                set_int32(module, p, 1, b);
            },
            _ => {},
        }
        assert(*module == apply_patch(before, p as int, patches@[p as int]));
        p = p + 1;
    }
}

/// Whether the instruction sets the workgroup size: an `OpExecutionMode`
/// with the mode `LocalSize` and its three sizes.
pub open spec fn is_local_size(inst: InstructionView) -> bool {
    &&& inst.opcode == OP_EXECUTION_MODE
    &&& inst.operands.len() == 5
    &&& inst.operands[0] is IdRef
    &&& inst.operands[1] == Operand::ExecutionMode(MODE_LOCAL_SIZE)
    &&& inst.operands[2] matches Operand::Literal(Literal::Int32(_))
    &&& inst.operands[3] matches Operand::Literal(Literal::Int32(_))
    &&& inst.operands[4] matches Operand::Literal(Literal::Int32(_))
}

/// The workgroup size along the dimension `i`: one where the kernel has
/// no such dimension.
pub open spec fn padded(threads: Seq<u32>, i: int) -> u32 {
    if 0 <= i < threads.len() {
        threads[i]
    } else {
        1
    }
}

/// The instruction with the workgroup size as its three sizes.
pub open spec fn sized(inst: InstructionView, threads: Seq<u32>) -> InstructionView {
    InstructionView {
        operands: inst.operands.update(
            2,
            Operand::Literal(Literal::Int32(padded(threads, 0))),
        ).update(3, Operand::Literal(Literal::Int32(padded(threads, 1)))).update(
            4,
            Operand::Literal(Literal::Int32(padded(threads, 2))),
        ),
        ..inst
    }
}

/// The execution modes with the workgroup size in each of the first `n`
/// that sets it.
pub open spec fn local_sizes_set(modes: Seq<InstructionView>, threads: Seq<u32>, n: nat) -> Seq<
    InstructionView,
> {
    Seq::new(
        modes.len(),
        |p: int|
            if p < n && is_local_size(modes[p]) {
                sized(modes[p], threads)
            } else {
                modes[p]
            },
    )
}

/// The execution modes with the workgroup size in each that sets it.
pub open spec fn with_local_size(modes: Seq<InstructionView>, threads: Seq<u32>) -> Seq<
    InstructionView,
> {
    local_sizes_set(modes, threads, modes.len())
}

/// The module with the workgroup size written into the execution mode at
/// `position`.
pub open spec fn apply_size(module: rspirv::dr::Module, position: int, threads: Seq<u32>) -> rspirv::dr::Module {
    with_mode_literal(
        with_mode_literal(
            with_mode_literal(module, position, 2, padded(threads, 0)),
            position,
            3,
            padded(threads, 1),
        ),
        position,
        4,
        padded(threads, 2),
    )
}

/// The module with the workgroup size written into each of the first `n`
/// execution modes that sets it.
pub open spec fn apply_sizes(
    module: rspirv::dr::Module,
    modes: Seq<InstructionView>,
    threads: Seq<u32>,
    n: nat,
) -> rspirv::dr::Module
    decreases n,
{
    if n == 0 {
        module
    } else {
        let before = apply_sizes(module, modes, threads, (n - 1) as nat);
        if is_local_size(modes[n - 1]) {
            apply_size(before, n - 1, threads)
        } else {
            before
        }
    }
}

/// Whether the instruction sets the workgroup size.
pub fn sets_local_size(inst: &Instruction) -> (r: bool)
    ensures
        r == is_local_size(inst@),
{
    if inst.opcode != OP_EXECUTION_MODE || inst.operands.len() != 5 {
        return false;
    }
    match (
        inst.operands[0],
        inst.operands[1],
        inst.operands[2],
        inst.operands[3],
        inst.operands[4],
    ) {
        (
            Operand::IdRef(_),
            Operand::ExecutionMode(mode),
            Operand::Literal(Literal::Int32(_)),
            Operand::Literal(Literal::Int32(_)),
            Operand::Literal(Literal::Int32(_)),
        ) => mode == MODE_LOCAL_SIZE,
        _ => false,
    }
}

/// The workgroup size along the dimension `i`.
pub fn size_along(threads: &Vec<u32>, i: usize) -> (r: u32)
    ensures
        r == padded(threads@, i as int),
{
    if i < threads.len() {
        threads[i]
    } else {
        1
    }
}

/// Writes the workgroup size into the execution modes that set it.
fn resize(module: &mut rspirv::dr::Module, modes: &Vec<Instruction>, threads: &Vec<u32>)
    requires
        views(modes@) == execution_modes(*old(module)),
    ensures
        *final(module) == apply_sizes(*old(module), views(modes@), threads@, modes@.len()),
        execution_modes(*final(module)) == with_local_size(views(modes@), threads@),
{
    let ghost start = *module;
    let ghost shape = views(modes@);
    let x = size_along(threads, 0);
    let y = size_along(threads, 1);
    let z = size_along(threads, 2);
    let mut p: usize = 0;
    assert(execution_modes(*module) =~= local_sizes_set(shape, threads@, 0));
    while p < modes.len()
        invariant
            p <= modes@.len(),
            shape == views(modes@),
            x == padded(threads@, 0),
            y == padded(threads@, 1),
            z == padded(threads@, 2),
            execution_modes(*module) == local_sizes_set(shape, threads@, p as nat),
            *module == apply_sizes(start, shape, threads@, p as nat),
        decreases modes@.len() - p,
    {
        assert(shape[p as int] == modes@[p as int]@);
        if sets_local_size(&modes[p]) {
            set_mode_int32(module, p, 2, x);
            set_mode_int32(module, p, 3, y);
            set_mode_int32(module, p, 4, z);
        }
        p = p + 1;
        assert(execution_modes(*module) =~= local_sizes_set(shape, threads@, p as nat));
    }
}

/// The module of the words: what the loader makes of words that can be
/// handed to it.
pub open spec fn readable(words: Seq<u32>) -> Option<rspirv::dr::Module> {
    if loadable(words) {
        loaded(words)
    } else {
        None
    }
}

/// The module with every planned literal written, and then the workgroup
/// size in each execution mode that sets it.
pub open spec fn rewritten_module(
    module: rspirv::dr::Module,
    threads: Seq<u32>,
    consts: Seq<ScalarElem>,
) -> rspirv::dr::Module {
    let patches = plan(globals(module), spec_ids(annotations(module)), consts);
    let modes = execution_modes(module);
    apply_sizes(apply_plan(module, patches, patches.len()), modes, threads, modes.len())
}

/// Whether `outcome` is what specializing `desc` with the given workgroup
/// size and values gives: the assembled bytecode of the loaded module with
/// every planned literal written and with the workgroup size, padded with
/// ones, as the sizes of every `LocalSize` execution mode; no constants
/// left to set; and the new workgroup size. Or the reason why there is
/// none.
pub open spec fn is_specialization(
    desc: KernelDescView,
    threads: Seq<u32>,
    consts: Seq<ScalarElem>,
    outcome: Result<KernelDescView, Error>,
) -> bool {
    match readable(desc.spirv) {
        None => outcome == Err::<KernelDescView, Error>(
            Error::Specialization(SpecializationError::InvalidBytecode),
        ),
        Some(module) => {
            let patches = plan(globals(module), spec_ids(annotations(module)), consts);
            match outcome {
                Ok(specialized) => {
                    &&& no_mismatch(patches)
                    &&& specialized == (KernelDescView {
                        spirv: assembled(rewritten_module(module, threads, consts)),
                        spec_descs: Seq::<SpecDescView>::empty(),
                        threads,
                        ..desc
                    })
                    &&& execution_modes(rewritten_module(module, threads, consts))
                        == with_local_size(execution_modes(module), threads)
                },
                Err(e) => exists|p: int|
                    {
                        &&& first_mismatch(patches, p)
                        &&& e == Error::Specialization(
                            SpecializationError::LiteralMismatch { position: p as usize },
                        )
                    },
            }
        },
    }
}

/// The view of an outcome.
pub open spec fn outcome_view(r: Result<KernelDesc, Error>) -> Result<KernelDescView, Error> {
    match r {
        Ok(desc) => Ok(desc@),
        Err(e) => Err(e),
    }
}

impl KernelDesc {
    /// The artifact with the given values written into its bytecode and the
    /// given workgroup size.
    pub fn specialize(&self, threads: Vec<u32>, spec_consts: &[ScalarElem]) -> (r: Result<
        KernelDesc,
        Error,
    >)
        ensures
            is_specialization(self@, threads@, spec_consts@, outcome_view(r)),
    {
        if !words_loadable(&self.spirv) {
            return Err(Error::Specialization(SpecializationError::InvalidBytecode));
        }
        let mut module = match load_module(&self.spirv) {
            Ok(module) => module,
            Err(_) => {
                return Err(Error::Specialization(SpecializationError::InvalidBytecode));
            },
        };
        let notes = module_annotations(&module);
        let values = module_globals(&module);
        let modes = module_execution_modes(&module);
        let ids = collect_spec_ids(&notes);
        let patches = match plan_patches(&values, &ids, spec_consts) {
            Ok(patches) => patches,
            Err(e) => {
                return Err(Error::Specialization(e));
            },
        };
        apply(&mut module, &patches);
        resize(&mut module, &modes, &threads);
        let spirv = assemble(&module);
        let copy = self.clone();
        let r = KernelDesc {
            name: copy.name,
            spirv,
            features: copy.features,
            threads,
            safe: copy.safe,
            spec_descs: Vec::new(),
            slice_descs: copy.slice_descs,
            push_descs: copy.push_descs,
        };
        assert(r@.spec_descs =~= Seq::<SpecDescView>::empty());
        Ok(r)
    }
}

/// Specialization is a function of the artifact, the workgroup size and the
/// values: two outcomes for the same three are equal, bytecode included.
pub proof fn lemma_specialization_deterministic(
    desc: KernelDescView,
    threads: Seq<u32>,
    consts: Seq<ScalarElem>,
    first: Result<KernelDescView, Error>,
    second: Result<KernelDescView, Error>,
)
    requires
        is_specialization(desc, threads, consts, first),
        is_specialization(desc, threads, consts, second),
    ensures
        first == second,
        first matches Ok(a) ==> second matches Ok(b) && a.spirv == b.spirv,
{
}

} // verus!
