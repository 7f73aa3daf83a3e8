//! The bytecode as a module of instructions: what is read of it, and the
//! operations on it that the `rspirv` crate performs.

use vstd::prelude::*;
use rspirv::binary::Assemble;
use rspirv::dr::Operand as Raw;

verus! {

/// The opcode of `OpDecorate`.
pub const OP_DECORATE: u32 = 71;

/// The opcode of `OpSpecConstant`.
pub const OP_SPEC_CONSTANT: u32 = 50;

/// The number of the decoration `SpecId`.
pub const DECORATION_SPEC_ID: u32 = 1;

/// The opcode of `OpExecutionMode`.
pub const OP_EXECUTION_MODE: u32 = 16;

/// The number of the execution mode `LocalSize`.
pub const MODE_LOCAL_SIZE: u32 = 17;

/// A literal number, by its kind and its bit pattern.
#[derive(Clone, Copy, Debug, PartialEq, Eq, Structural)]
pub enum Literal {
    Int32(u32),
    Int64(u64),
    Float32(u32),
    Float64(u64),
}

/// An operand of an instruction, as far as specialization reads it.
#[derive(Clone, Copy, Debug, PartialEq, Eq, Structural)]
pub enum Operand {
    IdRef(u32),
    /// A decoration, by its number.
    Decoration(u32),
    /// An execution mode, by its number.
    ExecutionMode(u32),
    Literal(Literal),
    /// Any other kind of operand.
    Other,
}

impl Operand {
    /// A 32-bit integer literal.
    pub fn int32(value: u32) -> (r: Self)
        ensures
            r == Operand::Literal(Literal::Int32(value)),
    {
        Operand::Literal(Literal::Int32(value))
    }

    /// A 64-bit integer literal.
    pub fn int64(value: u64) -> (r: Self)
        ensures
            r == Operand::Literal(Literal::Int64(value)),
    {
        Operand::Literal(Literal::Int64(value))
    }

    /// A 32-bit floating-point literal with the given bit pattern.
    pub fn float32(bits: u32) -> (r: Self)
        ensures
            r == Operand::Literal(Literal::Float32(bits)),
    {
        Operand::Literal(Literal::Float32(bits))
    }

    /// A 64-bit floating-point literal with the given bit pattern.
    pub fn float64(bits: u64) -> (r: Self)
        ensures
            r == Operand::Literal(Literal::Float64(bits)),
    {
        Operand::Literal(Literal::Float64(bits))
    }
}

/// An instruction, as far as specialization reads it.
#[derive(Debug)]
pub struct Instruction {
    pub opcode: u32,
    pub result_id: Option<u32>,
    pub operands: Vec<Operand>,
}

pub struct InstructionView {
    pub opcode: u32,
    pub result_id: Option<u32>,
    pub operands: Seq<Operand>,
}

impl View for Instruction {
    type V = InstructionView;

    open spec fn view(&self) -> InstructionView {
        InstructionView {
            opcode: self.opcode,
            result_id: self.result_id,
            operands: self.operands@,
        }
    }
}

/// The views of a list of instructions.
pub open spec fn views(instructions: Seq<Instruction>) -> Seq<InstructionView> {
    instructions.map_values(|i: Instruction| i@)
}

/// `rspirv::dr::Module`, a loaded module. Nothing is known of a value but
/// what the functions below say.
#[verifier::external_type_specification]
#[verifier::external_body]
pub struct ExModule(rspirv::dr::Module);

/// `rspirv::binary::ParseState`, why a module could not be loaded.
#[verifier::external_type_specification]
#[verifier::external_body]
pub struct ExParseState(rspirv::binary::ParseState);

/// The module that `rspirv::dr::load_words` makes of `words`, if it accepts them.
pub uninterp spec fn loaded(words: Seq<u32>) -> Option<rspirv::dr::Module>;

/// The annotation instructions of a module, in order.
pub uninterp spec fn annotations(module: rspirv::dr::Module) -> Seq<InstructionView>;

/// The types, constants and global variables of a module, in order.
pub uninterp spec fn globals(module: rspirv::dr::Module) -> Seq<InstructionView>;

/// The execution-mode instructions of a module, in order.
pub uninterp spec fn execution_modes(module: rspirv::dr::Module) -> Seq<InstructionView>;

/// The module with one operand of one of its execution modes replaced by
/// a 32-bit integer literal.
pub uninterp spec fn with_mode_literal(
    module: rspirv::dr::Module,
    position: int,
    operand: int,
    value: u32,
) -> rspirv::dr::Module;

/// The module with one operand of one of its globals replaced by a literal.
pub uninterp spec fn with_literal(
    module: rspirv::dr::Module,
    position: int,
    operand: int,
    value: Literal,
) -> rspirv::dr::Module;

/// The globals with one operand of one of them replaced by a literal.
pub open spec fn globals_with(
    globals: Seq<InstructionView>,
    position: int,
    operand: int,
    value: Literal,
) -> Seq<InstructionView> {
    globals.update(
        position,
        InstructionView {
            operands: globals[position].operands.update(operand, Operand::Literal(value)),
            ..globals[position]
        },
    )
}

/// Whether the module has the operand that is to be replaced.
pub open spec fn has_operand(module: rspirv::dr::Module, position: int, operand: int) -> bool {
    &&& 0 <= position < globals(module).len()
    &&& 0 <= operand < globals(module)[position].operands.len()
}


/// The words that `rspirv::binary::Assemble::assemble` makes of a module.
pub uninterp spec fn assembled(module: rspirv::dr::Module) -> Seq<u32>;

/// The opcode of `OpConstant`.
pub const OP_CONSTANT: u32 = 43;

/// The opcode of `OpSpecConstantOp`.
pub const OP_SPEC_CONSTANT_OP: u32 = 52;

/// The opcode of `OpSwitch`.
pub const OP_SWITCH: u32 = 251;

/// How many words a module has before its first instruction.
pub const HEADER_WORDS: usize = 5;

/// The number of words of the instruction that begins with `word`.
pub open spec fn word_count(word: u32) -> nat {
    (word / 0x1_0000) as nat
}

/// The opcode of the instruction that begins with `word`.
pub open spec fn opcode_of(word: u32) -> u32 {
    word % 0x1_0000
}

/// Whether an instruction with this opcode has an operand whose width
/// depends on a type, or operands of another instruction.
pub open spec fn context_dependent(opcode: u32) -> bool {
    opcode == OP_CONSTANT || opcode == OP_SPEC_CONSTANT || opcode == OP_SPEC_CONSTANT_OP || opcode
        == OP_SWITCH
}

/// Whether the instruction at `at` is an `OpSpecConstantOp` that names a
/// context-dependent instruction as its operation.
pub open spec fn embeds_context_dependent(words: Seq<u32>, at: int) -> bool {
    &&& opcode_of(words[at]) == OP_SPEC_CONSTANT_OP
    &&& word_count(words[at]) >= 4
    &&& context_dependent(opcode_of(words[at + 3]))
}

/// Whether the words from `at` on are instructions, each with its word
/// count of at least one and all its words there, none an
/// `OpSpecConstantOp` on a context-dependent instruction.
pub open spec fn framed_from(words: Seq<u32>, at: int) -> bool
    decreases words.len() - at,
{
    if at < 0 {
        false
    } else if at >= words.len() {
        at == words.len()
    } else {
        let count = word_count(words[at]);
        &&& count >= 1
        &&& at + count <= words.len()
        &&& !embeds_context_dependent(words, at)
        &&& framed_from(words, at + count)
    }
}

/// Whether the words can be handed to the loader: a header, then framed
/// instructions.
pub open spec fn loadable(words: Seq<u32>) -> bool {
    words.len() >= HEADER_WORDS && framed_from(words, HEADER_WORDS as int)
}

/// Whether the words can be handed to the loader.
pub fn words_loadable(words: &Vec<u32>) -> (r: bool)
    ensures
        r == loadable(words@),
{
    let len = words.len();
    if len < HEADER_WORDS {
        return false;
    }
    let mut at: usize = HEADER_WORDS;
    while at < len
        invariant
            HEADER_WORDS <= at <= len,
            len == words@.len(),
            loadable(words@) == framed_from(words@, at as int),
        decreases len - at,
    {
        let word = words[at];
        let count = (word / 0x1_0000) as usize;
        if count < 1 || count > len - at {
            return false;
        }
        if word % 0x1_0000 == OP_SPEC_CONSTANT_OP && count >= 4 {
            let operation = words[at + 3] % 0x1_0000;
            if operation == OP_CONSTANT || operation == OP_SPEC_CONSTANT || operation
                == OP_SPEC_CONSTANT_OP || operation == OP_SWITCH {
                return false;
            }
        }
        at = at + count;
    }
    true
}

/// Calls `rspirv::dr::load_words`, on words that it can read without
/// running past their end and without meeting an operation it cannot
/// parse. Claims only that the outcome is a function of the words.
#[verifier::external_body]
pub(crate) fn load_module(words: &Vec<u32>) -> (r: Result<
    rspirv::dr::Module,
    rspirv::binary::ParseState,
>)
    requires
        loadable(words@),
    ensures
        match r {
            Ok(module) => loaded(words@) == Some(module),
            Err(_) => loaded(words@) is None,
        },
{
    rspirv::dr::load_words(words)
}

/// Reads the field `annotations` of `rspirv::dr::Module` and hands out each
/// instruction's opcode, result id and operands. Claims that these are the
/// module's annotations, in order.
#[verifier::external_body]
pub(crate) fn module_annotations(module: &rspirv::dr::Module) -> (r: Vec<Instruction>)
    ensures
        views(r@) == annotations(*module),
{
    module.annotations.iter().map(|i| Instruction {
        opcode: i.class.opcode as u32,
        result_id: i.result_id,
        operands: i.operands.iter().map(|x| match x {
            Raw::IdRef(v) => Operand::IdRef(*v),
            Raw::Decoration(v) => Operand::Decoration(*v as u32),
            Raw::ExecutionMode(v) => Operand::ExecutionMode(*v as u32),
            Raw::LiteralInt32(v) => Operand::int32(*v),
            Raw::LiteralInt64(v) => Operand::int64(*v),
            Raw::LiteralFloat32(v) => Operand::float32(v.to_bits()),
            Raw::LiteralFloat64(v) => Operand::float64(v.to_bits()),
            _ => Operand::Other,
        }).collect(),
    }).collect()
}

/// Reads the field `types_global_values` of `rspirv::dr::Module` and hands
/// out each instruction's opcode, result id and operands. Claims that these
/// are the module's globals, in order.
#[verifier::external_body]
pub(crate) fn module_globals(module: &rspirv::dr::Module) -> (r: Vec<Instruction>)
    ensures
        views(r@) == globals(*module),
{
    module.types_global_values.iter().map(|i| Instruction {
        opcode: i.class.opcode as u32,
        result_id: i.result_id,
        operands: i.operands.iter().map(|x| match x {
            Raw::IdRef(v) => Operand::IdRef(*v),
            Raw::Decoration(v) => Operand::Decoration(*v as u32),
            Raw::ExecutionMode(v) => Operand::ExecutionMode(*v as u32),
            Raw::LiteralInt32(v) => Operand::int32(*v),
            Raw::LiteralInt64(v) => Operand::int64(*v),
            Raw::LiteralFloat32(v) => Operand::float32(v.to_bits()),
            Raw::LiteralFloat64(v) => Operand::float64(v.to_bits()),
            _ => Operand::Other,
        }).collect(),
    }).collect()
}

/// Stores `rspirv::dr::Operand::LiteralInt32` with the value in one operand
/// of one instruction of the field `types_global_values`. Claims that this
/// operand changes and nothing else that is read of the module does.
#[verifier::external_body]
pub(crate) fn set_int32(module: &mut rspirv::dr::Module, position: usize, operand: usize, value: u32)
    requires
        has_operand(*old(module), position as int, operand as int),
    ensures
        *final(module) == with_literal(
            *old(module),
            position as int,
            operand as int,
            Literal::Int32(value),
        ),
        annotations(*final(module)) == annotations(*old(module)),
        execution_modes(*final(module)) == execution_modes(*old(module)),
        globals(*final(module)) == globals_with(
            globals(*old(module)),
            position as int,
            operand as int,
            Literal::Int32(value),
        ),
{
    module.types_global_values[position].operands[operand] = Raw::LiteralInt32(value);
}

/// Stores `rspirv::dr::Operand::LiteralInt64` with the value in one operand
/// of one instruction of the field `types_global_values`. Claims that this
/// operand changes and nothing else that is read of the module does.
#[verifier::external_body]
pub(crate) fn set_int64(module: &mut rspirv::dr::Module, position: usize, operand: usize, value: u64)
    requires
        has_operand(*old(module), position as int, operand as int),
    ensures
        *final(module) == with_literal(
            *old(module),
            position as int,
            operand as int,
            Literal::Int64(value),
        ),
        annotations(*final(module)) == annotations(*old(module)),
        execution_modes(*final(module)) == execution_modes(*old(module)),
        globals(*final(module)) == globals_with(
            globals(*old(module)),
            position as int,
            operand as int,
            Literal::Int64(value),
        ),
{
    module.types_global_values[position].operands[operand] = Raw::LiteralInt64(value);
}

/// Stores `rspirv::dr::Operand::LiteralFloat32` in one operand of one
/// instruction of the field `types_global_values`; `bytemuck::cast` makes
/// the number with the given bit pattern. Claims that this operand changes
/// and nothing else that is read of the module does.
#[verifier::external_body]
pub(crate) fn set_float32(module: &mut rspirv::dr::Module, position: usize, operand: usize, bits: u32)
    requires
        has_operand(*old(module), position as int, operand as int),
    ensures
        *final(module) == with_literal(
            *old(module),
            position as int,
            operand as int,
            Literal::Float32(bits),
        ),
        annotations(*final(module)) == annotations(*old(module)),
        execution_modes(*final(module)) == execution_modes(*old(module)),
        globals(*final(module)) == globals_with(
            globals(*old(module)),
            position as int,
            operand as int,
            Literal::Float32(bits),
        ),
{
    module.types_global_values[position].operands[operand] =
        Raw::LiteralFloat32(bytemuck::cast(bits));
}

/// Stores `rspirv::dr::Operand::LiteralFloat64` in one operand of one
/// instruction of the field `types_global_values`; `bytemuck::cast` makes
/// the number with the given bit pattern. Claims that this operand changes
/// and nothing else that is read of the module does.
#[verifier::external_body]
pub(crate) fn set_float64(module: &mut rspirv::dr::Module, position: usize, operand: usize, bits: u64)
    requires
        has_operand(*old(module), position as int, operand as int),
    ensures
        *final(module) == with_literal(
            *old(module),
            position as int,
            operand as int,
            Literal::Float64(bits),
        ),
        annotations(*final(module)) == annotations(*old(module)),
        execution_modes(*final(module)) == execution_modes(*old(module)),
        globals(*final(module)) == globals_with(
            globals(*old(module)),
            position as int,
            operand as int,
            Literal::Float64(bits),
        ),
{
    module.types_global_values[position].operands[operand] =
        Raw::LiteralFloat64(bytemuck::cast(bits));
}

/// Reads the field `execution_modes` of `rspirv::dr::Module` and hands out
/// each instruction's opcode, result id and operands. Claims that these
/// are the module's execution modes, in order.
#[verifier::external_body]
pub(crate) fn module_execution_modes(module: &rspirv::dr::Module) -> (r: Vec<Instruction>)
    ensures
        views(r@) == execution_modes(*module),
{
    module.execution_modes.iter().map(|i| Instruction {
        opcode: i.class.opcode as u32,
        result_id: i.result_id,
        operands: i.operands.iter().map(|x| match x {
            Raw::IdRef(v) => Operand::IdRef(*v),
            Raw::Decoration(v) => Operand::Decoration(*v as u32),
            Raw::ExecutionMode(v) => Operand::ExecutionMode(*v as u32),
            Raw::LiteralInt32(v) => Operand::int32(*v),
            Raw::LiteralInt64(v) => Operand::int64(*v),
            Raw::LiteralFloat32(v) => Operand::float32(v.to_bits()),
            Raw::LiteralFloat64(v) => Operand::float64(v.to_bits()),
            _ => Operand::Other,
        }).collect(),
    }).collect()
}

/// The execution modes with one operand of one of them replaced by a
/// 32-bit integer literal.
pub open spec fn modes_with(
    modes: Seq<InstructionView>,
    position: int,
    operand: int,
    value: u32,
) -> Seq<InstructionView> {
    modes.update(
        position,
        InstructionView {
            operands: modes[position].operands.update(
                operand,
                Operand::Literal(Literal::Int32(value)),
            ),
            ..modes[position]
        },
    )
}

/// Whether the module has the operand of an execution mode that is to be
/// replaced.
pub open spec fn has_mode_operand(module: rspirv::dr::Module, position: int, operand: int) -> bool {
    &&& 0 <= position < execution_modes(module).len()
    &&& 0 <= operand < execution_modes(module)[position].operands.len()
}

/// Stores `rspirv::dr::Operand::LiteralInt32` with the value in one operand
/// of one instruction of the field `execution_modes`. Claims that this
/// operand changes and nothing else that is read of the module does.
#[verifier::external_body]
pub(crate) fn set_mode_int32(
    module: &mut rspirv::dr::Module,
    position: usize,
    operand: usize,
    value: u32,
)
    requires
        has_mode_operand(*old(module), position as int, operand as int),
    ensures
        *final(module) == with_mode_literal(
            *old(module),
            position as int,
            operand as int,
            value,
        ),
        annotations(*final(module)) == annotations(*old(module)),
        globals(*final(module)) == globals(*old(module)),
        execution_modes(*final(module)) == modes_with(
            execution_modes(*old(module)),
            position as int,
            operand as int,
            value,
        ),
{
    module.execution_modes[position].operands[operand] = Raw::LiteralInt32(value);
}

/// Calls `rspirv::binary::Assemble::assemble` on the module. Claims only
/// that the words are a function of the module.
#[verifier::external_body]
pub(crate) fn assemble(module: &rspirv::dr::Module) -> (r: Vec<u32>)
    ensures
        r@ == assembled(*module),
{
    module.assemble()
}

} // verus!
