use std::collections::HashMap;

use krnl::artifact::{KernelDesc, SpecDesc};
use krnl::error::{Error, SpecializationError};
use krnl::features::Features;
use krnl::scalar::{ScalarElem, ScalarType};
use krnl::specialize::{collect_spec_ids, literal_patch_of, plan_patches, Patch};
use krnl::specialize::{sets_local_size, size_along};
use krnl::spirv::{words_loadable, Instruction, Literal, Operand, OP_DECORATE, OP_SPEC_CONSTANT};
use rspirv::binary::Assemble;
use rspirv::dr::Builder;
use rspirv::spirv::{AddressingModel, Capability, Decoration, ExecutionMode, MemoryModel, Op};

fn builder_with_header() -> Builder {
    let mut b = Builder::new();
    b.set_version(1, 3);
    b.capability(Capability::Shader);
    b.memory_model(AddressingModel::Logical, MemoryModel::GLSL450);
    b
}

fn desc_of(words: Vec<u32>, specs: Vec<SpecDesc>) -> KernelDesc {
    KernelDesc::new(
        String::from("k"),
        words,
        Features::empty(),
        vec![64],
        true,
        specs,
        Vec::new(),
        Vec::new(),
    )
    .unwrap()
}

fn spec_desc(name: &str, scalar_type: ScalarType, thread_dim: Option<usize>) -> SpecDesc {
    SpecDesc { name: String::from(name), scalar_type, thread_dim }
}

fn global_operands(words: &[u32], position: usize) -> Vec<rspirv::dr::Operand> {
    let module = rspirv::dr::load_words(words).unwrap();
    module.types_global_values[position].operands.clone()
}

#[test]
fn specialize_writes_u32_constant() {
    let mut b = builder_with_header();
    let uint = b.type_int(32, 0);
    let c = b.spec_constant_u32(uint, 64);
    b.decorate(c, Decoration::SpecId, [rspirv::dr::Operand::LiteralInt32(0)]);
    let words = b.module().assemble();
    let desc = desc_of(words.clone(), vec![spec_desc("BLOCK", ScalarType::U32, Some(0))]);
    let out = desc.specialize(vec![128], &[ScalarElem::U32(128)]).unwrap();
    assert_eq!(global_operands(&out.spirv, 1), vec![rspirv::dr::Operand::LiteralInt32(128)]);
    assert_ne!(out.spirv, words);
    assert_eq!(out.spirv.len(), words.len());
    assert_eq!(out.threads, vec![128]);
    assert!(out.spec_descs.is_empty());
    assert_eq!(out.name, "k");
    assert!(out.safe);
}

#[test]
fn specialize_is_deterministic() {
    let mut b = builder_with_header();
    let uint = b.type_int(32, 0);
    let c = b.spec_constant_u32(uint, 1);
    b.decorate(c, Decoration::SpecId, [rspirv::dr::Operand::LiteralInt32(0)]);
    let words = b.module().assemble();
    let desc = desc_of(words, vec![spec_desc("N", ScalarType::U32, None)]);
    let first = desc.specialize(vec![64], &[ScalarElem::U32(7)]).unwrap();
    let second = desc.specialize(vec![64], &[ScalarElem::U32(7)]).unwrap();
    assert_eq!(first.spirv, second.spirv);
}

#[test]
fn specialize_leaves_other_constants() {
    let mut b = builder_with_header();
    let uint = b.type_int(32, 0);
    let plain = b.constant_u32(uint, 5);
    let undecorated = b.spec_constant_u32(uint, 6);
    let c = b.spec_constant_u32(uint, 7);
    b.decorate(c, Decoration::SpecId, [rspirv::dr::Operand::LiteralInt32(0)]);
    let _ = (plain, undecorated);
    let words = b.module().assemble();
    let desc = desc_of(words, vec![spec_desc("N", ScalarType::U32, None)]);
    let out = desc.specialize(vec![64], &[ScalarElem::U32(9)]).unwrap();
    assert_eq!(global_operands(&out.spirv, 1), vec![rspirv::dr::Operand::LiteralInt32(5)]);
    assert_eq!(global_operands(&out.spirv, 2), vec![rspirv::dr::Operand::LiteralInt32(6)]);
    assert_eq!(global_operands(&out.spirv, 3), vec![rspirv::dr::Operand::LiteralInt32(9)]);
}

#[test]
fn specialize_writes_64_bit_constant_low_word_first() {
    let mut b = builder_with_header();
    let long = b.type_int(64, 0);
    let mut module = b.module();
    let id = module.header.as_ref().unwrap().bound;
    module.header.as_mut().unwrap().bound = id + 1;
    module.types_global_values.push(rspirv::dr::Instruction::new(
        Op::SpecConstant,
        Some(long),
        Some(id),
        vec![rspirv::dr::Operand::LiteralInt64(0)],
    ));
    module.annotations.push(rspirv::dr::Instruction::new(
        Op::Decorate,
        None,
        None,
        vec![
            rspirv::dr::Operand::IdRef(id),
            rspirv::dr::Operand::Decoration(Decoration::SpecId),
            rspirv::dr::Operand::LiteralInt32(0),
        ],
    ));
    let words = module.assemble();
    let desc = desc_of(words, vec![spec_desc("N", ScalarType::U64, None)]);
    let value: u64 = 0x1122_3344_5566_7788;
    let out = desc.specialize(vec![64], &[ScalarElem::U64(value)]).unwrap();
    assert_eq!(global_operands(&out.spirv, 1), vec![rspirv::dr::Operand::LiteralInt64(value)]);
    let n = out.spirv.len();
    assert_eq!(out.spirv[n - 2], 0x5566_7788);
    assert_eq!(out.spirv[n - 1], 0x1122_3344);
}

#[test]
fn specialize_writes_float_constants_by_bits() {
    let mut b = builder_with_header();
    let float = b.type_float(32);
    let c = b.spec_constant_f32(float, 1.0);
    b.decorate(c, Decoration::SpecId, [rspirv::dr::Operand::LiteralInt32(0)]);
    let double = b.type_float(64);
    let mut module = b.module();
    let id = module.header.as_ref().unwrap().bound;
    module.header.as_mut().unwrap().bound = id + 1;
    module.types_global_values.push(rspirv::dr::Instruction::new(
        Op::SpecConstant,
        Some(double),
        Some(id),
        vec![rspirv::dr::Operand::LiteralFloat64(1.0)],
    ));
    module.annotations.push(rspirv::dr::Instruction::new(
        Op::Decorate,
        None,
        None,
        vec![
            rspirv::dr::Operand::IdRef(id),
            rspirv::dr::Operand::Decoration(Decoration::SpecId),
            rspirv::dr::Operand::LiteralInt32(1),
        ],
    ));
    let words = module.assemble();
    let desc = desc_of(
        words,
        vec![spec_desc("A", ScalarType::F32, None), spec_desc("B", ScalarType::F64, None)],
    );
    let out = desc
        .specialize(
            vec![64],
            &[ScalarElem::F32(2.5f32.to_bits()), ScalarElem::F64((-0.125f64).to_bits())],
        )
        .unwrap();
    assert_eq!(global_operands(&out.spirv, 1), vec![rspirv::dr::Operand::LiteralFloat32(2.5)]);
    assert_eq!(global_operands(&out.spirv, 3), vec![rspirv::dr::Operand::LiteralFloat64(-0.125)]);
}

#[test]
fn specialize_refuses_value_of_other_width() {
    let mut b = builder_with_header();
    let uint = b.type_int(32, 0);
    let c = b.spec_constant_u32(uint, 64);
    b.decorate(c, Decoration::SpecId, [rspirv::dr::Operand::LiteralInt32(0)]);
    let words = b.module().assemble();
    let desc = desc_of(words, vec![spec_desc("N", ScalarType::U64, None)]);
    let r = desc.specialize(vec![64], &[ScalarElem::U64(1)]);
    assert_eq!(
        r.err(),
        Some(Error::Specialization(SpecializationError::LiteralMismatch { position: 1 }))
    );
}

#[test]
fn specialize_refuses_invalid_bytecode() {
    let desc = desc_of(vec![1, 2, 3], Vec::new());
    let r = desc.specialize(vec![64], &[]);
    assert_eq!(r.err(), Some(Error::Specialization(SpecializationError::InvalidBytecode)));
}

#[test]
fn specialize_without_constants_reassembles() {
    let mut b = builder_with_header();
    let uint = b.type_int(32, 0);
    let _ = b.constant_u32(uint, 5);
    let words = b.module().assemble();
    let desc = desc_of(words.clone(), Vec::new());
    let out = desc.specialize(vec![32], &[]).unwrap();
    assert_eq!(out.spirv, words);
    assert_eq!(out.threads, vec![32]);
}

#[test]
fn spec_ids_take_the_last_decoration() {
    let decorate = |id: u32, number: u32| Instruction {
        opcode: OP_DECORATE,
        result_id: None,
        operands: vec![
            Operand::IdRef(id),
            Operand::Decoration(1),
            Operand::Literal(Literal::Int32(number)),
        ],
    };
    let other = Instruction {
        opcode: OP_DECORATE,
        result_id: None,
        operands: vec![Operand::IdRef(9), Operand::Decoration(2)],
    };
    let not_spec_id = Instruction {
        opcode: OP_DECORATE,
        result_id: None,
        operands: vec![
            Operand::IdRef(8),
            Operand::Decoration(33),
            Operand::Literal(Literal::Int32(4)),
        ],
    };
    let ids = collect_spec_ids(&vec![decorate(3, 0), other, decorate(4, 1), not_spec_id, decorate(3, 2)]);
    let mut expected = HashMap::new();
    expected.insert(3u32, 2u32);
    expected.insert(4u32, 1u32);
    assert_eq!(ids, expected);
}

#[test]
fn literal_patch_by_kind_and_width() {
    let int32 = vec![Operand::Literal(Literal::Int32(0))];
    let int64 = vec![Operand::Literal(Literal::Int64(0))];
    let pair = vec![Operand::Literal(Literal::Int32(0)), Operand::Literal(Literal::Int32(0))];
    assert_eq!(literal_patch_of(&int32, &ScalarElem::U32(128)), Patch::One(Literal::Int32(128)));
    assert_eq!(
        literal_patch_of(&int32, &ScalarElem::I32(-1)),
        Patch::One(Literal::Int32(0xffff_ffff))
    );
    assert_eq!(
        literal_patch_of(&int32, &ScalarElem::F32(0x4000_0000)),
        Patch::One(Literal::Int32(0x4000_0000))
    );
    assert_eq!(literal_patch_of(&int32, &ScalarElem::U16(1)), Patch::Mismatch);
    assert_eq!(literal_patch_of(&int32, &ScalarElem::U64(1)), Patch::Mismatch);
    assert_eq!(
        literal_patch_of(&int64, &ScalarElem::I64(-2)),
        Patch::One(Literal::Int64(0xffff_ffff_ffff_fffe))
    );
    assert_eq!(literal_patch_of(&int64, &ScalarElem::U32(1)), Patch::Mismatch);
    assert_eq!(
        literal_patch_of(&pair, &ScalarElem::U64(0x0000_0002_0000_0001)),
        Patch::Two(1, 2)
    );
    assert_eq!(literal_patch_of(&pair, &ScalarElem::U32(1)), Patch::Mismatch);
    assert_eq!(literal_patch_of(&vec![Operand::Other], &ScalarElem::U32(1)), Patch::Mismatch);
    assert_eq!(literal_patch_of(&Vec::new(), &ScalarElem::U32(1)), Patch::Mismatch);
}

#[test]
fn plan_reports_first_mismatch() {
    let constant = |id: u32, operands: Vec<Operand>| Instruction {
        opcode: OP_SPEC_CONSTANT,
        result_id: Some(id),
        operands,
    };
    let globals = vec![
        Instruction { opcode: 21, result_id: Some(1), operands: vec![Operand::Other, Operand::Other] },
        constant(2, vec![Operand::Literal(Literal::Int32(0))]),
        constant(3, vec![Operand::Other]),
        constant(4, vec![Operand::Other]),
        constant(5, vec![Operand::Literal(Literal::Int32(0))]),
    ];
    let mut ids = HashMap::new();
    ids.insert(2u32, 0u32);
    ids.insert(5u32, 7u32);
    let consts = [ScalarElem::U32(11), ScalarElem::U32(12)];
    assert_eq!(
        plan_patches(&globals, &ids, &consts),
        Ok(vec![
            Patch::Keep,
            Patch::One(Literal::Int32(11)),
            Patch::Keep,
            Patch::Keep,
            Patch::Keep
        ])
    );
    ids.insert(3u32, 1u32);
    ids.insert(4u32, 1u32);
    assert_eq!(
        plan_patches(&globals, &ids, &consts),
        Err(SpecializationError::LiteralMismatch { position: 2 })
    );
}

fn header() -> Vec<u32> {
    vec![0x0723_0203, 0x0001_0300, 0, 8, 0]
}

#[test]
fn instruction_that_runs_past_the_end_is_invalid() {
    let mut words = header();
    words.extend_from_slice(&[0x0003_0005, 1]);
    assert!(!words_loadable(&words));
    let desc = desc_of(words, Vec::new());
    let r = desc.specialize(vec![64], &[]);
    assert_eq!(r.err(), Some(Error::Specialization(SpecializationError::InvalidBytecode)));
}

#[test]
fn constant_operation_on_a_constant_is_invalid() {
    for operation in [43u32, 50, 52, 251, 0x0001_0000 + 43] {
        let mut words = header();
        words.extend_from_slice(&[(4 << 16) | 21, 1, 32, 0]);
        words.extend_from_slice(&[(6 << 16) | 52, 1, 2, operation, 3, 4]);
        assert!(!words_loadable(&words));
        let desc = desc_of(words, Vec::new());
        let r = desc.specialize(vec![64], &[]);
        assert_eq!(r.err(), Some(Error::Specialization(SpecializationError::InvalidBytecode)));
    }
}

#[test]
fn constant_operation_on_an_addition_loads() {
    let mut words = header();
    words.extend_from_slice(&[(4 << 16) | 21, 1, 32, 0]);
    words.extend_from_slice(&[(4 << 16) | 43, 1, 2, 7]);
    words.extend_from_slice(&[(6 << 16) | 52, 1, 3, 128, 2, 2]);
    assert!(words_loadable(&words));
    let desc = desc_of(words.clone(), Vec::new());
    let out = desc.specialize(vec![64], &[]).unwrap();
    assert_eq!(out.spirv[5..], words[5..]);
    assert_eq!(out.spirv[..2], words[..2]);
}

#[test]
fn words_must_be_framed_instructions() {
    assert!(!words_loadable(&Vec::new()));
    assert!(!words_loadable(&vec![0x0723_0203, 0x0001_0300, 0, 8]));
    assert!(words_loadable(&header()));
    let mut zero = header();
    zero.push(17);
    assert!(!words_loadable(&zero));
    let mut one = header();
    one.push((1 << 16) | 17);
    assert!(words_loadable(&one));
    let mut two = header();
    two.extend_from_slice(&[(2 << 16) | 17, 1]);
    assert!(words_loadable(&two));
    two.push((2 << 16) | 17);
    assert!(!words_loadable(&two));
    let mut short = header();
    short.extend_from_slice(&[(3 << 16) | 52, 1, 2]);
    assert!(words_loadable(&short));
}

#[test]
fn words_of_a_built_module_are_loadable() {
    let mut b = builder_with_header();
    let uint = b.type_int(32, 0);
    let _ = b.spec_constant_u32(uint, 64);
    assert!(words_loadable(&b.module().assemble()));
}

#[test]
fn specialize_writes_the_workgroup_size() {
    let mut b = builder_with_header();
    b.execution_mode(9, ExecutionMode::LocalSize, [64, 1, 1]);
    b.execution_mode(9, ExecutionMode::LocalSizeHint, [5, 5, 5]);
    let uint = b.type_int(32, 0);
    let c = b.spec_constant_u32(uint, 64);
    b.decorate(c, Decoration::SpecId, [rspirv::dr::Operand::LiteralInt32(0)]);
    let words = b.module().assemble();
    let desc = desc_of(words, vec![spec_desc("BLOCK", ScalarType::U32, Some(0))]);
    let out = desc.specialize(vec![128, 2], &[ScalarElem::U32(128)]).unwrap();
    let module = rspirv::dr::load_words(&out.spirv).unwrap();
    assert_eq!(
        module.execution_modes[0].operands,
        vec![
            rspirv::dr::Operand::IdRef(9),
            rspirv::dr::Operand::ExecutionMode(ExecutionMode::LocalSize),
            rspirv::dr::Operand::LiteralInt32(128),
            rspirv::dr::Operand::LiteralInt32(2),
            rspirv::dr::Operand::LiteralInt32(1),
        ]
    );
    assert_eq!(
        module.execution_modes[1].operands[2..],
        [
            rspirv::dr::Operand::LiteralInt32(5),
            rspirv::dr::Operand::LiteralInt32(5),
            rspirv::dr::Operand::LiteralInt32(5),
        ]
    );
    assert_eq!(
        module.types_global_values[1].operands,
        vec![rspirv::dr::Operand::LiteralInt32(128)]
    );
    assert_eq!(out.threads, vec![128, 2]);
}

#[test]
fn local_size_is_told_by_opcode_mode_and_sizes() {
    let mode = |opcode: u32, mode: u32, sizes: usize| Instruction {
        opcode,
        result_id: None,
        operands: {
            let mut v = vec![Operand::IdRef(1), Operand::ExecutionMode(mode)];
            for _ in 0..sizes {
                v.push(Operand::Literal(Literal::Int32(4)));
            }
            v
        },
    };
    assert!(sets_local_size(&mode(16, 17, 3)));
    assert!(!sets_local_size(&mode(16, 18, 3)));
    assert!(!sets_local_size(&mode(17, 17, 3)));
    assert!(!sets_local_size(&mode(16, 17, 2)));
    assert!(!sets_local_size(&mode(16, 17, 4)));
    assert_eq!(size_along(&vec![7, 8], 0), 7);
    assert_eq!(size_along(&vec![7, 8], 1), 8);
    assert_eq!(size_along(&vec![7, 8], 2), 1);
    assert_eq!(Operand::int32(3), Operand::Literal(Literal::Int32(3)));
    assert_eq!(Operand::int64(3), Operand::Literal(Literal::Int64(3)));
    assert_eq!(Operand::float32(3), Operand::Literal(Literal::Float32(3)));
    assert_eq!(Operand::float64(3), Operand::Literal(Literal::Float64(3)));
}
