use krnl::artifact::{KernelDesc, PushDesc, SliceDesc, SpecDesc};
use krnl::device::{Device, DeviceInner, RawDevice};
use krnl::engine::{DeviceBuffer, PhysicalDevice};
use krnl::error::{
    dim_letter, BindingMismatch, DeviceId, DeviceLost, Error, ExtentError, SpecializationError,
};
use krnl::features::Features;
use krnl::kernel::{
    bytes_of, global_threads_to_groups, same_words, Kernel, KernelBuilder, KernelSliceArg,
    ScalarSlice, ScalarSliceMut,
};
use krnl::scalar::{ScalarElem, ScalarType};
use rspirv::binary::Assemble;
use rspirv::dr::Builder;
use rspirv::spirv::{AddressingModel, Capability, Decoration, MemoryModel};

fn device(handle: u64) -> Device {
    let devices = vec![PhysicalDevice {
        name: String::from("gpu"),
        compute_queues: 1,
        transfer_queues: 1,
        features: Features::empty().with_shader_float64(true),
    }];
    Device::builder().build(&devices, handle).unwrap()
}

fn raw(device: &mut Device) -> &mut RawDevice {
    match &mut device.inner {
        DeviceInner::Device(raw) => raw,
        DeviceInner::Host => panic!("expected a device"),
    }
}

fn module_words() -> Vec<u32> {
    let mut b = Builder::new();
    b.set_version(1, 3);
    b.capability(Capability::Shader);
    b.memory_model(AddressingModel::Logical, MemoryModel::GLSL450);
    let uint = b.type_int(32, 0);
    let c = b.spec_constant_u32(uint, 64);
    b.decorate(c, Decoration::SpecId, [rspirv::dr::Operand::LiteralInt32(0)]);
    b.module().assemble()
}

fn slice_desc(name: &str, mutable: bool, item: bool) -> SliceDesc {
    SliceDesc { name: String::from(name), scalar_type: ScalarType::F32, mutable, item }
}

fn copy_artifact(threads: Vec<u32>) -> KernelDesc {
    KernelDesc::new(
        String::from("copy"),
        module_words(),
        Features::empty(),
        threads,
        true,
        Vec::new(),
        vec![slice_desc("y", true, true), slice_desc("x", false, true)],
        Vec::new(),
    )
    .unwrap()
}

fn saxpy_artifact() -> KernelDesc {
    KernelDesc::new(
        String::from("saxpy"),
        module_words(),
        Features::empty().with_shader_float64(true),
        vec![64],
        false,
        Vec::new(),
        vec![slice_desc("y", true, true), slice_desc("x", false, true)],
        vec![PushDesc { name: String::from("alpha"), scalar_type: ScalarType::F32 }],
    )
    .unwrap()
}

fn block_artifact() -> KernelDesc {
    KernelDesc::new(
        String::from("block"),
        module_words(),
        Features::empty(),
        vec![64],
        true,
        vec![SpecDesc {
            name: String::from("BLOCK"),
            scalar_type: ScalarType::U32,
            thread_dim: Some(0),
        }],
        Vec::new(),
        Vec::new(),
    )
    .unwrap()
}

fn floats(values: &[f32]) -> Vec<u8> {
    let mut bytes = Vec::new();
    for v in values {
        bytes.extend_from_slice(&v.to_le_bytes());
    }
    bytes
}

fn read_only(buffer: DeviceBuffer) -> KernelSliceArg {
    KernelSliceArg::Slice(ScalarSlice {
        scalar_type: ScalarType::F32,
        len: buffer.len() / 4,
        buffer: Some(buffer),
    })
}

fn writable(buffer: DeviceBuffer) -> KernelSliceArg {
    KernelSliceArg::SliceMut(ScalarSliceMut {
        scalar_type: ScalarType::F32,
        len: buffer.len() / 4,
        buffer: Some(buffer),
    })
}

fn words(values: &[u32]) -> Vec<u8> {
    let mut bytes = Vec::new();
    for v in values {
        bytes.extend_from_slice(&v.to_le_bytes());
    }
    bytes
}

#[test]
fn groups_round_up() {
    assert_eq!(global_threads_to_groups(&[3], &[64]), [1, 1, 1]);
    assert_eq!(global_threads_to_groups(&[64], &[64]), [1, 1, 1]);
    assert_eq!(global_threads_to_groups(&[65], &[64]), [2, 1, 1]);
    assert_eq!(global_threads_to_groups(&[0], &[64]), [0, 1, 1]);
    assert_eq!(global_threads_to_groups(&[10, 9], &[4, 3]), [3, 3, 1]);
    assert_eq!(global_threads_to_groups(&[1, 2, 3], &[1, 1, 2]), [1, 2, 2]);
    assert_eq!(global_threads_to_groups(&[u32::MAX], &[1]), [u32::MAX, 1, 1]);
    assert_eq!(global_threads_to_groups(&[u32::MAX], &[2]), [0x8000_0000, 1, 1]);
    assert_eq!(global_threads_to_groups(&[], &[]), [1, 1, 1]);
}

#[test]
fn copy_kernel_dispatches_one_group() {
    let mut device = device(1);
    let x = DeviceBuffer::upload(raw(&mut device), &floats(&[1.0, 2.0, 3.0])).unwrap();
    let y = DeviceBuffer::uninit(raw(&mut device), 3 * 4).unwrap();
    let kernel = KernelBuilder::new(10, copy_artifact(vec![64])).build(&mut device).unwrap();
    assert_eq!(kernel.threads(), &[64]);
    let args = [writable(y), read_only(x)];
    assert!(kernel.bindings_match(&args, &[]));
    let command = kernel.dispatch(&args, &[]).unwrap();
    assert_eq!(command.groups, [1, 1, 1]);
    assert_eq!(command.buffers, vec![y, x]);
    assert_eq!(command.device, DeviceId { index: 0, handle: 1 });
    assert_eq!(command.pipeline, 0);
    assert_eq!(command.push_bytes, words(&[0, 3, 0, 3]));
    assert_eq!(raw(&mut device).engine.dispatch(&command), Ok(()));
    let mut out = vec![0u8; 12];
    assert_eq!(x.download(raw(&mut device), &mut out), Ok(()));
    assert_eq!(out, floats(&[1.0, 2.0, 3.0]));
}

#[test]
fn saxpy_push_block_layout() {
    let mut device = device(1);
    let x = DeviceBuffer::upload(raw(&mut device), &floats(&[1.0, 2.0, 3.0, 4.0])).unwrap();
    let y = DeviceBuffer::upload(raw(&mut device), &floats(&[10.0; 4])).unwrap();
    let builder = KernelBuilder::new(11, saxpy_artifact());
    assert!(!builder.safe());
    assert!(builder.features().shader_float64());
    let kernel = builder.build(&mut device).unwrap();
    assert!(kernel.features().shader_float64());
    let alpha = ScalarElem::F32(2.0f32.to_bits());
    let command = kernel.dispatch(&[writable(y), read_only(x)], &[alpha]).unwrap();
    assert_eq!(command.groups, [1, 1, 1]);
    let mut expected = floats(&[2.0]);
    expected.extend_from_slice(&words(&[0, 4, 0, 4]));
    assert_eq!(command.push_bytes, expected);
    assert_eq!(command.push_bytes.len() as u32, kernel.desc.push_consts_range());
}

#[test]
fn push_constants_are_padded_to_four_bytes() {
    let desc = KernelDesc::new(
        String::from("p"),
        module_words(),
        Features::empty(),
        vec![1],
        true,
        Vec::new(),
        vec![slice_desc("y", true, false)],
        vec![
            PushDesc { name: String::from("a"), scalar_type: ScalarType::U8 },
            PushDesc { name: String::from("b"), scalar_type: ScalarType::U16 },
        ],
    )
    .unwrap();
    let mut device = device(1);
    let y = DeviceBuffer::upload(raw(&mut device), &floats(&[0.0; 8])).unwrap();
    let part = y.slice(8, 28).unwrap();
    let kernel = KernelBuilder::new(12, desc).build(&mut device).unwrap().groups(&[5]);
    let command =
        kernel.dispatch(&[writable(part)], &[ScalarElem::U8(7), ScalarElem::U16(0x0102)]).unwrap();
    let mut expected = vec![7u8, 2, 1, 0];
    expected.extend_from_slice(&words(&[2, 5]));
    assert_eq!(command.push_bytes, expected);
    assert_eq!(command.groups, [5, 1, 1]);
    assert_eq!(command.buffers, vec![part]);
    assert_eq!(command.push_bytes.len() as u32, kernel.desc.push_consts_range());
}

#[test]
fn items_are_the_least_item_slice() {
    let mut device = device(1);
    let x = DeviceBuffer::upload(raw(&mut device), &floats(&[0.0; 130])).unwrap();
    let y = DeviceBuffer::upload(raw(&mut device), &floats(&[0.0; 200])).unwrap();
    let kernel = KernelBuilder::new(10, copy_artifact(vec![64])).build(&mut device).unwrap();
    let command = kernel.dispatch(&[writable(y), read_only(x)], &[]).unwrap();
    assert_eq!(command.groups, [3, 1, 1]);
    assert!(command.groups[0] as usize * 64 >= 130);
    let command = kernel.dispatch(&[writable(x), read_only(y)], &[]).unwrap();
    assert_eq!(command.groups, [3, 1, 1]);
}

#[test]
fn cannot_infer_extent_with_threads_beyond_x() {
    let mut device = device(1);
    let x = DeviceBuffer::upload(raw(&mut device), &floats(&[1.0, 2.0])).unwrap();
    let y = DeviceBuffer::upload(raw(&mut device), &floats(&[1.0, 2.0])).unwrap();
    let kernel = KernelBuilder::new(13, copy_artifact(vec![1, 8, 1])).build(&mut device).unwrap();
    let args = [writable(y), read_only(x)];
    assert_eq!(
        kernel.dispatch(&args, &[]).err(),
        Some(Error::ExtentUnspecified(ExtentError::ThreadsNotLinear))
    );
    let kernel = kernel.global_threads(&[2, 16, 1]);
    assert_eq!(kernel.dispatch(&args, &[]).unwrap().groups, [2, 2, 1]);
    let linear = KernelBuilder::new(14, copy_artifact(vec![4, 1, 1])).build(&mut device).unwrap();
    assert_eq!(linear.dispatch(&args, &[]).unwrap().groups, [1, 1, 1]);
}

#[test]
fn extent_must_be_given_without_item_slices() {
    let desc = KernelDesc::new(
        String::from("fill"),
        module_words(),
        Features::empty(),
        vec![8, 8],
        true,
        Vec::new(),
        vec![slice_desc("y", true, false)],
        Vec::new(),
    )
    .unwrap();
    let mut device = device(1);
    let y = DeviceBuffer::upload(raw(&mut device), &floats(&[1.0, 2.0])).unwrap();
    let kernel = KernelBuilder::new(15, desc).build(&mut device).unwrap();
    assert_eq!(
        kernel.dispatch(&[writable(y)], &[]).err(),
        Some(Error::ExtentUnspecified(ExtentError::NotProvided))
    );
    let kernel = kernel.groups(&[7, 9]);
    assert_eq!(kernel.groups, Some([7, 9, 1]));
    assert_eq!(kernel.dispatch(&[writable(y)], &[]).unwrap().groups, [7, 9, 1]);
    let kernel = kernel.global_threads(&[17, 8]);
    assert_eq!(kernel.groups, Some([3, 1, 1]));
}

#[test]
fn slice_of_another_device_is_a_mismatch() {
    let mut a = device(0xa);
    let mut b = device(0xb);
    let y = DeviceBuffer::upload(raw(&mut a), &floats(&[1.0])).unwrap();
    let x = DeviceBuffer::upload(raw(&mut b), &floats(&[1.0])).unwrap();
    let kernel = KernelBuilder::new(10, copy_artifact(vec![64])).build(&mut a).unwrap();
    assert_eq!(
        kernel.dispatch(&[writable(y), read_only(x)], &[]).err(),
        Some(Error::BindingMismatch(BindingMismatch::Device {
            binding: 1,
            expected: DeviceId { index: 0, handle: 0xa },
            found: DeviceId { index: 0, handle: 0xb },
        }))
    );
}

#[test]
fn host_slice_is_a_mismatch() {
    let mut device = device(1);
    let x = DeviceBuffer::upload(raw(&mut device), &floats(&[1.0])).unwrap();
    let host =
        KernelSliceArg::SliceMut(ScalarSliceMut { scalar_type: ScalarType::F32, len: 1, buffer: None });
    let kernel = KernelBuilder::new(10, copy_artifact(vec![64])).build(&mut device).unwrap();
    assert_eq!(
        kernel.dispatch(&[host, read_only(x)], &[]).err(),
        Some(Error::BindingMismatch(BindingMismatch::SliceOnHost { binding: 0 }))
    );
}

#[test]
fn read_only_slice_for_written_binding_does_not_match() {
    let mut device = device(1);
    let x = DeviceBuffer::upload(raw(&mut device), &floats(&[1.0])).unwrap();
    let y = DeviceBuffer::upload(raw(&mut device), &floats(&[1.0])).unwrap();
    let kernel = KernelBuilder::new(10, copy_artifact(vec![64])).build(&mut device).unwrap();
    assert!(!kernel.bindings_match(&[read_only(y), read_only(x)], &[]));
    assert!(kernel.bindings_match(&[writable(y), writable(x)], &[]));
    let ints = KernelSliceArg::Slice(ScalarSlice {
        scalar_type: ScalarType::U32,
        len: 1,
        buffer: Some(x),
    });
    assert!(!kernel.bindings_match(&[writable(y), ints], &[]));
    let saxpy = KernelBuilder::new(11, saxpy_artifact()).build(&mut device).unwrap();
    assert!(saxpy.bindings_match(&[writable(y), read_only(x)], &[ScalarElem::F32(0)]));
    assert!(!saxpy.bindings_match(&[writable(y), read_only(x)], &[ScalarElem::U32(0)]));
}

#[test]
fn slice_arguments_report_their_parts() {
    let mut device = device(1);
    let x = DeviceBuffer::upload(raw(&mut device), &floats(&[1.0, 2.0])).unwrap();
    let a = read_only(x);
    let b = writable(x);
    assert_eq!(a.scalar_type(), ScalarType::F32);
    assert!(!a.mutable());
    assert!(b.mutable());
    assert_eq!(a.len(), 2);
    assert_eq!(b.len(), 2);
    assert_eq!(a.device_buffer(), Some(&x));
    assert_eq!(b.device_buffer(), Some(&x));
    let host =
        KernelSliceArg::Slice(ScalarSlice { scalar_type: ScalarType::I8, len: 9, buffer: None });
    assert_eq!(host.device_buffer(), None);
    assert_eq!(host.len(), 9);
    assert_eq!(host.scalar_type(), ScalarType::I8);
}

#[test]
fn kernel_cannot_be_built_for_the_host() {
    let mut host = Device::host();
    let r = KernelBuilder::new(10, copy_artifact(vec![64])).build(&mut host);
    assert_eq!(r.err(), Some(Error::BindingMismatch(BindingMismatch::KernelOnHost)));
}

#[test]
fn kernel_with_constants_must_be_specialized() {
    let mut device = device(1);
    let r = KernelBuilder::new(20, block_artifact()).build(&mut device);
    assert_eq!(r.err(), Some(Error::Specialization(SpecializationError::NotSpecialized)));
    assert_eq!(raw(&mut device).engine.misses(), 0);
}

#[test]
fn specialization_sets_the_workgroup_size() {
    let mut device = device(1);
    let builder = KernelBuilder::new(20, block_artifact());
    assert!(builder.accepts(&[ScalarElem::U32(128)]));
    assert!(!builder.accepts(&[ScalarElem::I32(128)]));
    assert!(!builder.accepts(&[]));
    let builder = builder.specialize(&[ScalarElem::U32(128)]).unwrap();
    assert_eq!(builder.threads, vec![128]);
    assert_eq!(builder.spec_consts, vec![ScalarElem::U32(128)]);
    let kernel = builder.build(&mut device).unwrap();
    assert_eq!(kernel.threads()[0], 128);
    assert!(kernel.desc.spec_descs.is_empty());
    let module = rspirv::dr::load_words(&kernel.desc.spirv).unwrap();
    assert_eq!(
        module.types_global_values[1].operands,
        vec![rspirv::dr::Operand::LiteralInt32(128)]
    );
    let pipeline = raw(&mut device).engine.pipeline(kernel.pipeline);
    assert_eq!(pipeline.key.id, 20);
    assert_eq!(pipeline.key.spec_bytes, vec![128, 0, 0, 0]);
    assert_eq!(pipeline.desc.threads, vec![128]);
}

#[test]
fn specialization_refuses_zero_threads() {
    let r = KernelBuilder::new(20, block_artifact()).specialize(&[ScalarElem::U32(0)]);
    assert_eq!(r.err(), Some(Error::Specialization(SpecializationError::ZeroThreads { dim: 0 })));
    assert_eq!(dim_letter(0), 'x');
    assert_eq!(dim_letter(1), 'y');
    assert_eq!(dim_letter(2), 'z');
}

#[test]
fn specialization_names_the_first_zero_dimension() {
    let desc = KernelDesc::new(
        String::from("k"),
        module_words(),
        Features::empty(),
        vec![4, 4, 4],
        true,
        vec![
            SpecDesc { name: String::from("a"), scalar_type: ScalarType::U32, thread_dim: None },
            SpecDesc { name: String::from("b"), scalar_type: ScalarType::U32, thread_dim: Some(2) },
            SpecDesc { name: String::from("c"), scalar_type: ScalarType::U32, thread_dim: Some(1) },
            SpecDesc { name: String::from("d"), scalar_type: ScalarType::U32, thread_dim: Some(2) },
        ],
        Vec::new(),
        Vec::new(),
    )
    .unwrap();
    let zero = ScalarElem::U32(0);
    let r = KernelBuilder::new(1, desc.clone()).specialize(&[zero, ScalarElem::U32(5), zero, zero]);
    assert_eq!(r.err(), Some(Error::Specialization(SpecializationError::ZeroThreads { dim: 1 })));
    let b = KernelBuilder::new(1, desc)
        .specialize(&[zero, ScalarElem::U32(5), ScalarElem::U32(6), ScalarElem::U32(7)])
        .unwrap();
    assert_eq!(b.threads, vec![4, 6, 7]);
}

#[test]
fn equal_keys_share_one_pipeline() {
    let mut device = device(1);
    let first = KernelBuilder::new(20, block_artifact())
        .specialize(&[ScalarElem::U32(128)])
        .unwrap()
        .build(&mut device)
        .unwrap();
    assert_eq!(raw(&mut device).engine.misses(), 1);
    for _ in 0..32 {
        let again = KernelBuilder::new(20, block_artifact())
            .specialize(&[ScalarElem::U32(128)])
            .unwrap()
            .build(&mut device)
            .unwrap();
        assert_eq!(again.pipeline, first.pipeline);
        assert_eq!(again.device, first.device);
        assert_eq!(again.desc.spirv, first.desc.spirv);
    }
    assert_eq!(raw(&mut device).engine.misses(), 1);
    let other = KernelBuilder::new(20, block_artifact())
        .specialize(&[ScalarElem::U32(256)])
        .unwrap()
        .build(&mut device)
        .unwrap();
    assert_eq!(other.pipeline, 1);
    assert_eq!(raw(&mut device).engine.misses(), 2);
    let plain = KernelBuilder::new(21, copy_artifact(vec![64])).build(&mut device).unwrap();
    assert_eq!(plain.pipeline, 2);
    assert_eq!(plain.desc.spirv, module_words());
    assert_eq!(raw(&mut device).engine.misses(), 3);
}

#[test]
fn failed_build_leaves_the_cache() {
    let desc = KernelDesc::new(
        String::from("bad"),
        vec![1, 2, 3],
        Features::empty(),
        vec![64],
        true,
        vec![SpecDesc { name: String::from("n"), scalar_type: ScalarType::U32, thread_dim: None }],
        Vec::new(),
        Vec::new(),
    )
    .unwrap();
    let mut device = device(1);
    let r = KernelBuilder::new(30, desc).specialize(&[ScalarElem::U32(1)]).unwrap().build(&mut device);
    assert_eq!(r.err(), Some(Error::Specialization(SpecializationError::InvalidBytecode)));
    assert_eq!(raw(&mut device).engine.misses(), 0);
}

#[test]
fn lost_device_builds_and_dispatches_nothing() {
    let mut device = device(9);
    let x = DeviceBuffer::upload(raw(&mut device), &floats(&[1.0])).unwrap();
    let kernel = KernelBuilder::new(10, copy_artifact(vec![64])).build(&mut device).unwrap();
    let command = kernel.dispatch(&[writable(x), read_only(x)], &[]).unwrap();
    raw(&mut device).engine.lose();
    let lost = DeviceLost { index: 0, handle: 9 };
    assert_eq!(device.wait(), Err(lost));
    assert_eq!(raw(&mut device).engine.dispatch(&command), Err(Error::DeviceLost(lost)));
    assert_eq!(
        DeviceBuffer::upload(raw(&mut device), &[1]).err(),
        Some(Error::DeviceLost(lost))
    );
    let r = KernelBuilder::new(10, copy_artifact(vec![64])).build(&mut device);
    assert_eq!(r.err(), Some(Error::DeviceLost(lost)));
    let r = KernelBuilder::new(99, copy_artifact(vec![64])).build(&mut device);
    assert_eq!(r.err(), Some(Error::DeviceLost(lost)));
    assert_eq!(raw(&mut device).engine.misses(), 1);
}

#[test]
fn extra_arguments_are_not_bound() {
    let mut device = device(1);
    let x = DeviceBuffer::upload(raw(&mut device), &floats(&[1.0, 2.0])).unwrap();
    let kernel = KernelBuilder::new(10, copy_artifact(vec![64])).build(&mut device).unwrap();
    let command = kernel
        .dispatch(&[writable(x), read_only(x), read_only(x)], &[ScalarElem::U32(5)])
        .unwrap();
    assert_eq!(command.buffers.len(), 2);
    assert_eq!(command.push_bytes, words(&[0, 2, 0, 2]));
    let command = kernel.dispatch(&[writable(x)], &[]).unwrap();
    assert_eq!(command.buffers, vec![x]);
    assert_eq!(command.push_bytes, words(&[0, 2]));
}

#[test]
fn helpers_on_words_and_bytes() {
    assert!(same_words(&vec![1, 2], &vec![1, 2]));
    assert!(!same_words(&vec![1, 2], &vec![1, 3]));
    assert!(!same_words(&vec![1, 2], &vec![1]));
    assert_eq!(
        bytes_of(&[ScalarElem::U8(1), ScalarElem::U16(0x0302), ScalarElem::U32(4)]),
        vec![1, 2, 3, 4, 0, 0, 0]
    );
    assert_eq!(bytes_of(&[]), Vec::<u8>::new());
}

#[test]
fn kernel_keeps_its_parts_when_the_extent_is_set() {
    let mut device = device(1);
    let kernel: Kernel = KernelBuilder::new(10, copy_artifact(vec![64])).build(&mut device).unwrap();
    assert_eq!(kernel.groups, None);
    let set = kernel.global_threads(&[1000]);
    assert_eq!(set.groups, Some([16, 1, 1]));
    assert_eq!(set.pipeline, 0);
    assert_eq!(set.device, DeviceId { index: 0, handle: 1 });
    assert_eq!(set.threads(), &[64]);
}

#[test]
fn builder_check_tells_broken_builders() {
    let good = KernelBuilder::new(1, block_artifact());
    assert!(good.check());
    let mut zero = KernelBuilder::new(1, block_artifact());
    zero.threads = vec![0];
    assert!(!zero.check());
    let mut long = KernelBuilder::new(1, block_artifact());
    long.threads = vec![1, 1];
    assert!(!long.check());
    let mut kinds = KernelBuilder::new(1, block_artifact());
    kinds.spec_consts = vec![ScalarElem::F32(0)];
    assert!(!kinds.check());
    let mut set = KernelBuilder::new(1, block_artifact());
    set.spec_consts = vec![ScalarElem::U32(3)];
    assert!(set.check());
}

#[test]
fn kernel_needs_the_capabilities_of_the_device() {
    let mut device = device(1);
    let wants_int8 = KernelDesc::new(
        String::from("k"),
        module_words(),
        Features::empty().with_shader_int8(true).with_shader_float64(true),
        vec![64],
        true,
        Vec::new(),
        Vec::new(),
        Vec::new(),
    )
    .unwrap();
    let r = KernelBuilder::new(40, wants_int8).build(&mut device);
    assert_eq!(r.err(), Some(Error::DeviceNotSupported));
    assert_eq!(raw(&mut device).engine.misses(), 0);
    assert!(KernelBuilder::new(41, saxpy_artifact()).build(&mut device).is_ok());
    raw(&mut device).engine.lose();
    let wants_int16 = KernelDesc::new(
        String::from("k"),
        module_words(),
        Features::empty().with_shader_int16(true),
        vec![64],
        true,
        Vec::new(),
        Vec::new(),
        Vec::new(),
    )
    .unwrap();
    let r = KernelBuilder::new(42, wants_int16).build(&mut device);
    assert_eq!(r.err(), Some(Error::DeviceLost(DeviceLost { index: 0, handle: 1 })));
}

#[test]
fn dispatch_for_another_device_is_refused() {
    let mut a = device(0xa);
    let mut b = device(0xb);
    let x = DeviceBuffer::upload(raw(&mut a), &floats(&[1.0])).unwrap();
    let kernel = KernelBuilder::new(10, copy_artifact(vec![64])).build(&mut a).unwrap();
    let command = kernel.dispatch(&[writable(x), read_only(x)], &[]).unwrap();
    assert_eq!(raw(&mut a).engine.dispatch(&command), Ok(()));
    assert_eq!(
        raw(&mut b).engine.dispatch(&command),
        Err(Error::BindingMismatch(BindingMismatch::Command {
            expected: DeviceId { index: 0, handle: 0xb },
            found: DeviceId { index: 0, handle: 0xa },
        }))
    );
    raw(&mut b).engine.lose();
    assert_eq!(
        raw(&mut b).engine.dispatch(&command),
        Err(Error::DeviceLost(DeviceLost { index: 0, handle: 0xb }))
    );
}

#[test]
fn first_mismatching_argument_is_reported() {
    let mut device = device(1);
    let x = DeviceBuffer::upload(raw(&mut device), &floats(&[1.0])).unwrap();
    let kernel = KernelBuilder::new(11, saxpy_artifact()).build(&mut device).unwrap();
    let alpha = ScalarElem::F32(0);
    assert_eq!(kernel.binding_mismatch(&[writable(x), read_only(x)], &[alpha]), None);
    assert_eq!(
        kernel.binding_mismatch(&[read_only(x), read_only(x)], &[alpha]),
        Some(BindingMismatch::Mutability { binding: 0 })
    );
    let ints = KernelSliceArg::Slice(ScalarSlice {
        scalar_type: ScalarType::U32,
        len: 1,
        buffer: Some(x),
    });
    assert_eq!(
        kernel.binding_mismatch(&[ints, ints], &[ScalarElem::U8(1)]),
        Some(BindingMismatch::ScalarType {
            binding: 0,
            declared: ScalarType::F32,
            given: ScalarType::U32,
        })
    );
    assert_eq!(
        kernel.binding_mismatch(&[writable(x), ints], &[alpha]),
        Some(BindingMismatch::ScalarType {
            binding: 1,
            declared: ScalarType::F32,
            given: ScalarType::U32,
        })
    );
    assert_eq!(
        kernel.binding_mismatch(&[writable(x), writable(x)], &[ScalarElem::U8(1)]),
        Some(BindingMismatch::PushType {
            index: 0,
            declared: ScalarType::F32,
            given: ScalarType::U8,
        })
    );
    assert_eq!(kernel.binding_mismatch(&[], &[]), None);
}

#[test]
fn slice_beyond_32_bits_is_refused() {
    let mut device = device(1);
    let x = DeviceBuffer::upload(raw(&mut device), &floats(&[1.0])).unwrap();
    let kernel = KernelBuilder::new(10, copy_artifact(vec![1])).build(&mut device).unwrap();
    let long = KernelSliceArg::Slice(ScalarSlice {
        scalar_type: ScalarType::F32,
        len: 0x1_0000_0000,
        buffer: Some(x),
    });
    assert_eq!(
        kernel.dispatch(&[writable(x), long], &[]).err(),
        Some(Error::BindingMismatch(BindingMismatch::Range { binding: 1 }))
    );
    let most = KernelSliceArg::SliceMut(ScalarSliceMut {
        scalar_type: ScalarType::F32,
        len: 0xffff_ffff,
        buffer: Some(x),
    });
    let command = kernel.dispatch(&[most, most], &[]).unwrap();
    assert_eq!(command.groups, [0xffff_ffff, 1, 1]);
    assert_eq!(command.push_bytes, words(&[0, 0xffff_ffff, 0, 0xffff_ffff]));
}

#[test]
fn clones_keep_their_parts() {
    let mut device = device(1);
    let builder = KernelBuilder::new(20, block_artifact())
        .specialize(&[ScalarElem::U32(128)])
        .unwrap();
    let copy = builder.clone();
    assert_eq!(copy.id, 20);
    assert_eq!(copy.threads, vec![128]);
    assert_eq!(copy.spec_consts, vec![ScalarElem::U32(128)]);
    assert_eq!(copy.desc.name, "block");
    assert!(copy.check());
    let kernel = copy.build(&mut device).unwrap().groups(&[3]);
    let again = kernel.clone();
    assert_eq!(again.pipeline, kernel.pipeline);
    assert_eq!(again.device, kernel.device);
    assert_eq!(again.groups, Some([3, 1, 1]));
    assert_eq!(again.desc.spirv, kernel.desc.spirv);
    assert_eq!(again.threads(), &[128]);
}
