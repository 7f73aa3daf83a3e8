//! Kernels: from an artifact, through specialization and the pipeline cache,
//! to a validated dispatch.

use vstd::prelude::*;
use crate::artifact::{
    KernelDesc, KernelDescView, PushDescView, SliceDescView, SpecDescView, clone_words,
    push_range, round_up_4,
};
use crate::decode::{decode, decode_desc};
use crate::encode::{encode, lemma_decode_complete, lemma_decode_sound};
use crate::cache::{KernelKey, KernelKeyView, PipelineView, distinct_keys, has_key};
use crate::device::{Device, DeviceInner};
use crate::engine::{DeviceBuffer, DeviceBufferView, Engine, EngineView};
use crate::error::{BindingMismatch, DeviceId, Error, ExtentError, SpecializationError};
use crate::specialize::{is_specialization, outcome_view};
use crate::features::{Feature, Features};
use crate::scalar::{ScalarElem, ScalarType, bytes_of_bits, le_bytes};

verus! {

/// A slice of scalars of one kind, in host memory or in a device buffer,
/// with its length in elements.
#[derive(Clone, Copy, Debug)]
pub struct ScalarSlice {
    pub scalar_type: ScalarType,
    pub len: usize,
    /// The device buffer that holds the elements; none for host memory.
    pub buffer: Option<DeviceBuffer>,
}

/// A slice of scalars that may be written.
#[derive(Clone, Copy, Debug)]
pub struct ScalarSliceMut {
    pub scalar_type: ScalarType,
    pub len: usize,
    pub buffer: Option<DeviceBuffer>,
}

impl ScalarSlice {
    pub fn scalar_type(&self) -> (r: ScalarType)
        ensures
            r == self.scalar_type,
    {
        self.scalar_type
    }

    pub fn len(&self) -> (r: usize)
        ensures
            r == self.len,
    {
        self.len
    }

    pub fn device_buffer(&self) -> (r: Option<&DeviceBuffer>)
        ensures
            match r {
                Some(b) => self.buffer == Some(*b),
                None => self.buffer is None,
            },
    {
        self.buffer.as_ref()
    }
}

impl ScalarSliceMut {
    pub fn scalar_type(&self) -> (r: ScalarType)
        ensures
            r == self.scalar_type,
    {
        self.scalar_type
    }

    pub fn len(&self) -> (r: usize)
        ensures
            r == self.len,
    {
        self.len
    }

    pub fn device_buffer_mut(&self) -> (r: Option<&DeviceBuffer>)
        ensures
            match r {
                Some(b) => self.buffer == Some(*b),
                None => self.buffer is None,
            },
    {
        self.buffer.as_ref()
    }
}

/// A slice as an argument of a kernel, with its kind erased.
#[derive(Clone, Copy, Debug)]
pub enum KernelSliceArg {
    Slice(ScalarSlice),
    SliceMut(ScalarSliceMut),
}

/// What dispatch reads of a slice argument.
pub struct SliceArgView {
    pub scalar_type: ScalarType,
    pub mutable: bool,
    pub len: usize,
    pub buffer: Option<DeviceBufferView>,
}

impl View for KernelSliceArg {
    type V = SliceArgView;

    open spec fn view(&self) -> SliceArgView {
        match self {
            KernelSliceArg::Slice(x) => SliceArgView {
                scalar_type: x.scalar_type,
                mutable: false,
                len: x.len,
                buffer: match x.buffer {
                    Some(b) => Some(b@),
                    None => None,
                },
            },
            KernelSliceArg::SliceMut(x) => SliceArgView {
                scalar_type: x.scalar_type,
                mutable: true,
                len: x.len,
                buffer: match x.buffer {
                    Some(b) => Some(b@),
                    None => None,
                },
            },
        }
    }
}

impl KernelSliceArg {
    pub fn scalar_type(&self) -> (r: ScalarType)
        ensures
            r == self@.scalar_type,
    {
        match self {
            KernelSliceArg::Slice(x) => x.scalar_type(),
            KernelSliceArg::SliceMut(x) => x.scalar_type(),
        }
    }

    pub fn mutable(&self) -> (r: bool)
        ensures
            r == self@.mutable,
    {
        match self {
            KernelSliceArg::Slice(_) => false,
            KernelSliceArg::SliceMut(_) => true,
        }
    }

    pub fn device_buffer(&self) -> (r: Option<&DeviceBuffer>)
        ensures
            match r {
                Some(b) => self@.buffer == Some(b@),
                None => self@.buffer is None,
            },
    {
        match self {
            KernelSliceArg::Slice(x) => x.device_buffer(),
            KernelSliceArg::SliceMut(x) => x.device_buffer_mut(),
        }
    }

    pub fn len(&self) -> (r: usize)
        ensures
            r == self@.len,
    {
        match self {
            KernelSliceArg::Slice(x) => x.len(),
            KernelSliceArg::SliceMut(x) => x.len(),
        }
    }
}

/// The views of a list of slice arguments.
pub open spec fn arg_views(slices: Seq<KernelSliceArg>) -> Seq<SliceArgView> {
    slices.map_values(|s: KernelSliceArg| s@)
}

/// The least number of groups of `threads` that cover `global` threads.
pub open spec fn ceil_div(global: nat, threads: nat) -> nat
    recommends
        threads > 0,
{
    ((global + threads - 1) / (threads as int)) as nat
}

pub proof fn lemma_ceil_div(global: nat, threads: nat)
    requires
        threads > 0,
    ensures
        ceil_div(global, threads) == global / threads + if global % threads != 0 {
            1nat
        } else {
            0nat
        },
        ceil_div(global, threads) * threads >= global,
        ceil_div(global, threads) <= global,
        global > 0 ==> (ceil_div(global, threads) - 1) * threads < global,
{
    let q = global / threads;
    let r = global % threads;
    vstd::arithmetic::div_mod::lemma_fundamental_div_mod(global as int, threads as int);
    assert(global + threads - 1 == q * threads + (threads - 1) + r && global + threads - 1 == (q
        + 1) * threads + (r - 1)) by (nonlinear_arith)
        requires
            global == threads * q + r,
    ;
    if r == 0 {
        vstd::arithmetic::div_mod::lemma_fundamental_div_mod_converse(
            global + threads - 1,
            threads as int,
            q as int,
            threads - 1,
        );
    } else {
        vstd::arithmetic::div_mod::lemma_fundamental_div_mod_converse(
            global + threads - 1,
            threads as int,
            (q + 1) as int,
            r - 1,
        );
    }
    assert(ceil_div(global, threads) * threads >= global) by (nonlinear_arith)
        requires
            global == threads * q + r,
            0 <= r < threads,
            ceil_div(global, threads) == q + if r != 0 {
                1nat
            } else {
                0nat
            },
    ;
    assert(ceil_div(global, threads) <= global && (global > 0 ==> (ceil_div(global, threads) - 1)
        * threads < global)) by (nonlinear_arith)
        requires
            global == threads * q + r,
            0 <= r < threads,
            threads > 0,
            ceil_div(global, threads) == q + if r != 0 {
                1nat
            } else {
                0nat
            },
    ;
}

/// The number of groups along each of the three dimensions: for a
/// dimension of the kernel, the global threads divided by the workgroup
/// size, rounded up; one for the others.
pub open spec fn groups_for(global_threads: Seq<u32>, threads: Seq<u32>) -> Seq<u32> {
    Seq::new(
        3,
        |i: int|
            if i < global_threads.len() && i < threads.len() {
                ceil_div(global_threads[i] as nat, threads[i] as nat) as u32
            } else {
                1u32
            },
    )
}

fn groups_along(global: u32, threads: u32) -> (r: u32)
    requires
        threads != 0,
    ensures
        r == ceil_div(global as nat, threads as nat),
{
    proof {
        lemma_ceil_div(global as nat, threads as nat);
    }
    let extra: u32 = if global % threads != 0 {
        1
    } else {
        0
    };
    global / threads + extra
}

/// The groups that cover the given global threads.
pub fn global_threads_to_groups(global_threads: &[u32], threads: &[u32]) -> (r: [u32; 3])
    requires
        global_threads@.len() == threads@.len(),
        forall|i: int| 0 <= i < threads@.len() && i < 3 ==> threads@[i] != 0,
    ensures
        r@ == groups_for(global_threads@, threads@),
{
    let n = threads.len();
    let x: u32 = if 0 < n {
        groups_along(global_threads[0], threads[0])
    } else {
        1
    };
    let y: u32 = if 1 < n {
        groups_along(global_threads[1], threads[1])
    } else {
        1
    };
    let z: u32 = if 2 < n {
        groups_along(global_threads[2], threads[2])
    } else {
        1
    };
    let r = [x, y, z];
    assert(r@ =~= groups_for(global_threads@, threads@));
    r
}

/// Whether the values are as many as the constants and of their kinds.
pub open spec fn consts_match(descs: Seq<SpecDescView>, consts: Seq<ScalarElem>) -> bool {
    &&& consts.len() == descs.len()
    &&& forall|i: int|
        0 <= i < consts.len() ==> (#[trigger] consts[i]).spec_scalar_type() == descs[i].scalar_type
}

/// Whether the value at `i` sets a workgroup dimension to zero.
pub open spec fn zero_dim(descs: Seq<SpecDescView>, consts: Seq<ScalarElem>, i: int) -> bool {
    descs[i].thread_dim is Some && consts[i] == ScalarElem::U32(0)
}

/// Whether `i` is the first value that sets a workgroup dimension to zero.
pub open spec fn first_zero_dim(descs: Seq<SpecDescView>, consts: Seq<ScalarElem>, i: int) -> bool {
    &&& 0 <= i < consts.len()
    &&& zero_dim(descs, consts, i)
    &&& forall|k: int| 0 <= k < i ==> !zero_dim(descs, consts, k)
}

/// The workgroup size after the first `n` values: each value whose constant
/// names a dimension sets that dimension, a later one over an earlier one.
pub open spec fn specialized_threads(
    threads: Seq<u32>,
    descs: Seq<SpecDescView>,
    consts: Seq<ScalarElem>,
    n: nat,
) -> Seq<u32>
    decreases n,
{
    if n == 0 {
        threads
    } else {
        let before = specialized_threads(threads, descs, consts, (n - 1) as nat);
        match (descs[n - 1].thread_dim, consts[n - 1]) {
            (Some(d), ScalarElem::U32(v)) => before.update(d as int, v),
            _ => before,
        }
    }
}

/// The bytes of the first `n` values, one after the other.
pub open spec fn concat_bytes(consts: Seq<ScalarElem>, n: nat) -> Seq<u8>
    decreases n,
{
    if n == 0 || n > consts.len() {
        Seq::empty()
    } else {
        concat_bytes(consts, (n - 1) as nat) + consts[n - 1].spec_bytes()
    }
}

/// The bytes of the values, one after the other.
pub fn bytes_of(consts: &[ScalarElem]) -> (r: Vec<u8>)
    ensures
        r@ == concat_bytes(consts@, consts@.len()),
{
    let mut bytes: Vec<u8> = Vec::new();
    let mut i: usize = 0;
    while i < consts.len()
        invariant
            i <= consts@.len(),
            bytes@ == concat_bytes(consts@, i as nat),
        decreases consts@.len() - i,
    {
        let mut part = consts[i].as_bytes();
        bytes.append(&mut part);
        i = i + 1;
    }
    bytes
}

/// Whether the two lists hold the same words.
pub fn same_words(a: &Vec<u32>, b: &Vec<u32>) -> (r: bool)
    ensures
        r == (a@ == b@),
{
    if a.len() != b.len() {
        return false;
    }
    let mut i: usize = 0;
    while i < a.len()
        invariant
            i <= a@.len(),
            a@.len() == b@.len(),
            forall|k: int| 0 <= k < i ==> a@[k] == b@[k],
        decreases a@.len() - i,
    {
        if a[i] != b[i] {
            return false;
        }
        i = i + 1;
    }
    assert(a@ =~= b@);
    true
}

fn clone_consts(consts: &[ScalarElem]) -> (r: Vec<ScalarElem>)
    ensures
        r@ == consts@,
{
    let mut r: Vec<ScalarElem> = Vec::new();
    let mut i: usize = 0;
    while i < consts.len()
        invariant
            i <= consts@.len(),
            r@ == consts@.take(i as int),
        decreases consts@.len() - i,
    {
        r.push(consts[i]);
        i = i + 1;
        assert(r@ =~= consts@.take(i as int));
    }
    assert(consts@.take(consts@.len() as int) =~= consts@);
    r
}

/// An artifact on its way to a device: with the values to specialize it
/// with, once given, and the workgroup size that they imply.
#[derive(Clone, Debug)]
pub struct KernelBuilder {
    pub id: usize,
    pub desc: KernelDesc,
    pub spec_consts: Vec<ScalarElem>,
    pub threads: Vec<u32>,
}

impl KernelBuilder {
    /// The artifact is well formed; the workgroup size has its dimensions,
    /// none of them zero; the values, once given, match the constants.
    pub open spec fn wf(&self) -> bool {
        &&& self.desc.wf()
        &&& self.threads@.len() == self.desc@.threads.len()
        &&& forall|i: int| 0 <= i < self.threads@.len() ==> self.threads@[i] != 0
        &&& self.spec_consts@.len() == 0 || consts_match(self.desc@.spec_descs, self.spec_consts@)
    }

    /// A builder for the artifact, where `id` identifies the blob that the
    /// artifact was read from.
    pub fn new(id: usize, desc: KernelDesc) -> (r: Self)
        requires
            desc.wf(),
        ensures
            r.wf(),
            r.id == id,
            r.desc == desc,
            r.spec_consts@.len() == 0,
            r.threads@ == desc.threads@,
    {
        let threads = clone_words(&desc.threads);
        KernelBuilder { id, desc, spec_consts: Vec::new(), threads }
    }

    /// A builder for the same artifact with the same values.
    pub fn clone(&self) -> (r: Self)
        ensures
            r.id == self.id,
            r.desc@ == self.desc@,
            r.spec_consts@ == self.spec_consts@,
            r.threads@ == self.threads@,
            r.wf() == self.wf(),
    {
        KernelBuilder {
            id: self.id,
            desc: self.desc.clone(),
            spec_consts: clone_consts(self.spec_consts.as_slice()),
            threads: clone_words(&self.threads),
        }
    }

    /// Whether the builder is well formed.
    pub fn check(&self) -> (r: bool)
        ensures
            r == self.wf(),
    {
        if !self.desc.check() || self.threads.len() != self.desc.threads.len() {
            return false;
        }
        let mut i: usize = 0;
        while i < self.threads.len()
            invariant
                i <= self.threads@.len(),
                forall|k: int| 0 <= k < i ==> self.threads@[k] != 0,
            decreases self.threads@.len() - i,
        {
            if self.threads[i] == 0 {
                return false;
            }
            i = i + 1;
        }
        self.spec_consts.len() == 0 || self.accepts(self.spec_consts.as_slice())
    }

    /// Reads the artifact from its bytes, where `id` identifies the blob.
    /// Succeeds exactly on the bytes of a well-formed artifact, with nothing
    /// after them.
    pub fn from_bytes(bytes: &[u8], id: usize) -> (r: Result<Self, Error>)
        ensures
            match r {
                Ok(builder) => {
                    &&& encode(builder.desc@) == bytes@
                    &&& builder.wf()
                    &&& builder.id == id
                    &&& builder.spec_consts@.len() == 0
                    &&& builder.threads@ == builder.desc@.threads
                },
                Err(e) => {
                    &&& e == Error::ArtifactDecode
                    &&& forall|desc: KernelDescView| desc.wf() ==> #[trigger] encode(desc) != bytes@
                },
            },
    {
        let read = decode_desc(bytes);
        proof {
            let len: usize = bytes.len();
            assert(bytes@.len() == len);
            assert forall|desc: KernelDescView|
                desc.wf() && #[trigger] encode(desc) == bytes@ implies decode(bytes@) == Some(
                desc,
            ) by {
                lemma_decode_complete(desc);
            }
            if decode(bytes@) is Some {
                lemma_decode_sound(bytes@);
            }
        }
        match read {
            Some(desc) => {
                if desc.check() {
                    Ok(KernelBuilder::new(id, desc))
                } else {
                    Err(Error::ArtifactDecode)
                }
            },
            None => Err(Error::ArtifactDecode),
        }
    }

    /// Whether the values are as many as the constants and of their kinds.
    pub fn accepts(&self, spec_consts: &[ScalarElem]) -> (r: bool)
        ensures
            r == consts_match(self.desc@.spec_descs, spec_consts@),
    {
        if spec_consts.len() != self.desc.spec_descs.len() {
            return false;
        }
        let mut i: usize = 0;
        while i < spec_consts.len()
            invariant
                i <= spec_consts@.len(),
                spec_consts@.len() == self.desc.spec_descs@.len(),
                forall|k: int|
                    0 <= k < i ==> (#[trigger] spec_consts@[k]).spec_scalar_type()
                        == self.desc@.spec_descs[k].scalar_type,
            decreases spec_consts@.len() - i,
        {
            if spec_consts[i].scalar_type() != self.desc.spec_descs[i].scalar_type {
                assert(self.desc@.spec_descs[i as int].scalar_type
                    == self.desc.spec_descs@[i as int].scalar_type);
                return false;
            }
            assert(self.desc@.spec_descs[i as int].scalar_type
                == self.desc.spec_descs@[i as int].scalar_type);
            i = i + 1;
        }
        true
    }

    /// Takes the values of the specialization constants. A value whose
    /// constant names a workgroup dimension sets that dimension, and must not
    /// be zero.
    pub fn specialize(self, spec_consts: &[ScalarElem]) -> (r: Result<Self, Error>)
        requires
            self.wf(),
            consts_match(self.desc@.spec_descs, spec_consts@),
        ensures
            match r {
                Ok(builder) => {
                    &&& forall|i: int|
                        0 <= i < spec_consts@.len() ==> !zero_dim(
                            self.desc@.spec_descs,
                            spec_consts@,
                            i,
                        )
                    &&& builder.wf()
                    &&& builder.id == self.id
                    &&& builder.desc == self.desc
                    &&& builder.spec_consts@ == spec_consts@
                    &&& builder.threads@ == specialized_threads(
                        self.threads@,
                        self.desc@.spec_descs,
                        spec_consts@,
                        spec_consts@.len(),
                    )
                },
                Err(e) => exists|i: int|
                    {
                        &&& first_zero_dim(self.desc@.spec_descs, spec_consts@, i)
                        &&& e == Error::Specialization(
                            SpecializationError::ZeroThreads {
                                dim: self.desc@.spec_descs[i].thread_dim->Some_0,
                            },
                        )
                    },
            },
    {
        let mut threads = self.threads;
        let ghost start = threads@;
        let ghost descs = self.desc@.spec_descs;
        let mut i: usize = 0;
        while i < spec_consts.len()
            invariant
                i <= spec_consts@.len(),
                self.desc.wf(),
                descs == self.desc@.spec_descs,
                consts_match(descs, spec_consts@),
                threads@.len() == self.desc@.threads.len(),
                forall|k: int| 0 <= k < threads@.len() ==> threads@[k] != 0,
                forall|k: int| 0 <= k < i ==> !zero_dim(descs, spec_consts@, k),
                threads@ == specialized_threads(start, descs, spec_consts@, i as nat),
            decreases spec_consts@.len() - i,
        {
            let spec_desc = &self.desc.spec_descs[i];
            assert(descs[i as int] == spec_desc@);
            assert(crate::artifact::thread_dim_ok(descs[i as int], self.desc@.threads.len()));
            match spec_desc.thread_dim {
                Some(dim) => {
                    match spec_consts[i] {
                        ScalarElem::U32(value) => {
                            if value == 0 {
                                assert(first_zero_dim(descs, spec_consts@, i as int));
                                return Err(
                                    Error::Specialization(
                                        SpecializationError::ZeroThreads { dim },
                                    ),
                                );
                            }
                            threads.set(dim, value);
                        },
                        _ => {
                            assert(spec_consts@[i as int].spec_scalar_type() == ScalarType::U32);
                        },
                    }
                },
                None => {},
            }
            i = i + 1;
        }
        Ok(
            KernelBuilder {
                id: self.id,
                desc: self.desc,
                spec_consts: clone_consts(spec_consts),
                threads,
            },
        )
    }

    /// The capabilities that the kernel requires.
    pub fn features(&self) -> (r: Features)
        ensures
            r@ == self.desc@.features,
    {
        self.desc.features
    }

    /// Whether the kernel stays within its buffers whatever it is given.
    pub fn safe(&self) -> (r: bool)
        ensures
            r == self.desc@.safe,
    {
        self.desc.safe
    }
}

/// A kernel that is built for a device: a pipeline of the device's cache,
/// with the extent of the dispatch once it is chosen.
#[derive(Clone, Debug)]
pub struct Kernel {
    pub device: DeviceId,
    /// The position of the pipeline in the cache of the device.
    pub pipeline: usize,
    pub desc: KernelDesc,
    pub groups: Option<[u32; 3]>,
}

impl KernelBuilder {
    /// Whether building needs the bytecode to be rewritten: the artifact
    /// has constants to set, or the workgroup size is not the artifact's.
    pub open spec fn changed(&self) -> bool {
        self.desc@.spec_descs.len() != 0 || self.threads@ != self.desc@.threads
    }

    /// The key of the kernel that is built.
    pub open spec fn key(&self) -> KernelKeyView {
        KernelKeyView {
            id: self.id,
            spec_bytes: if self.desc@.spec_descs.len() != 0 {
                concat_bytes(self.spec_consts@, self.spec_consts@.len())
            } else {
                Seq::empty()
            },
        }
    }

    /// Whether `outcome` is what compiling for a new pipeline gives, on a
    /// device with the given capabilities: nothing where the device lacks
    /// one that the kernel requires; else the specialized artifact, or the
    /// artifact itself where nothing changed.
    pub open spec fn compiles_to(
        &self,
        device: Set<Feature>,
        outcome: Result<KernelDescView, Error>,
    ) -> bool {
        if !self.desc@.features.subset_of(device) {
            outcome == Err::<KernelDescView, Error>(Error::DeviceNotSupported)
        } else if self.changed() {
            is_specialization(self.desc@, self.threads@, self.spec_consts@, outcome)
        } else {
            outcome == Ok::<KernelDescView, Error>(self.desc@)
        }
    }

    /// Whether `r` and `after` are what building on a device in the state
    /// `before` gives. A kernel with constants must have its values. On a
    /// lost device nothing is built. A key that the cache has gives its
    /// pipeline, and the cache stays. A new key has the artifact compiled,
    /// for which the device must have every capability that the kernel
    /// requires: that makes the next pipeline of the cache, or fails and
    /// leaves the cache as it was.
    pub open spec fn builds(
        &self,
        before: EngineView,
        after: EngineView,
        r: Result<Kernel, Error>,
    ) -> bool {
        &&& after == (EngineView { cache: after.cache, ..before })
        &&& if self.desc@.spec_descs.len() != 0 && self.spec_consts@.len() == 0 {
            &&& after.cache == before.cache
            &&& r matches Err(e)
            &&& e == Error::Specialization(SpecializationError::NotSpecialized)
        } else if before.lost {
            &&& after.cache == before.cache
            &&& r matches Err(e)
            &&& e == Error::DeviceLost(before.lost_error())
        } else if has_key(before.cache, self.key()) {
            &&& after.cache == before.cache
            &&& r matches Ok(kernel)
            &&& kernel.fits(after)
            &&& after.cache[kernel.pipeline as int].key == self.key()
        } else {
            match r {
                Ok(kernel) => {
                    &&& after.cache == before.cache.push(
                        PipelineView {
                            key: self.key(),
                            desc: kernel.desc@,
                            push_consts_range: push_range(
                                kernel.desc@.push_descs,
                                kernel.desc@.slice_descs.len(),
                            ) as u32,
                        },
                    )
                    &&& kernel.pipeline == before.cache.len()
                    &&& kernel.fits(after)
                    &&& self.compiles_to(before.info.features, Ok(kernel.desc@))
                },
                Err(e) => after.cache == before.cache && self.compiles_to(
                    before.info.features,
                    Err(e),
                ),
            }
        }
    }

    /// Builds the kernel for the device: looks its pipeline up in the
    /// device's cache, and compiles it where the cache has none.
    pub fn build(&self, device: &mut Device) -> (r: Result<Kernel, Error>)
        requires
            self.wf(),
            old(device).inner matches DeviceInner::Device(raw) ==> raw.engine.wf(),
        ensures
            match old(device).inner {
                DeviceInner::Host => {
                    &&& final(device).inner is Host
                    &&& r matches Err(e)
                    &&& e == Error::BindingMismatch(BindingMismatch::KernelOnHost)
                },
                DeviceInner::Device(before) => {
                    &&& final(device).inner matches DeviceInner::Device(after)
                    &&& after.engine.wf()
                    &&& distinct_keys(after.engine@.cache)
                    &&& self.builds(before.engine@, after.engine@, r)
                },
            },
    {
        match &mut device.inner {
            DeviceInner::Host => Err(Error::BindingMismatch(BindingMismatch::KernelOnHost)),
            DeviceInner::Device(raw) => {
                let ghost before = raw.engine@;
                proof {
                    raw.engine.lemma_cache();
                }
                let spec_bytes = if self.desc.spec_descs.len() != 0 {
                    if self.spec_consts.len() == 0 {
                        return Err(Error::Specialization(SpecializationError::NotSpecialized));
                    }
                    bytes_of(self.spec_consts.as_slice())
                } else {
                    Vec::new()
                };
                let key = KernelKey { id: self.id, spec_bytes };
                assert(key@ == self.key());
                let supported = raw.engine.info().features().contains(&self.desc.features);
                let desc = &self.desc;
                let threads = &self.threads;
                let consts = &self.spec_consts;
                proof {
                    raw.engine.lemma_cache();
                }
                let ghost pipelines = raw.engine.pipelines();
                let found = if self.desc.spec_descs.len() != 0 || !same_words(
                    &self.threads,
                    &self.desc.threads,
                ) {
                    let desc_fn = || -> (made: Result<KernelDesc, Error>)
                        ensures
                            if supported {
                                is_specialization(desc@, threads@, consts@, outcome_view(made))
                            } else {
                                outcome_view(made) == Err::<KernelDescView, Error>(
                                    Error::DeviceNotSupported,
                                )
                            },
                        {
                            if supported {
                                desc.specialize(clone_words(threads), consts.as_slice())
                            } else {
                                Err(Error::DeviceNotSupported)
                            }
                        };
                    assert forall|d: KernelDesc|
                        call_ensures(desc_fn, (), Ok::<KernelDesc, Error>(d)) implies d.wf() by {
                        assert(is_specialization(desc@, threads@, consts@, Ok(d@)));
                        assert(d@.push_descs == desc@.push_descs);
                    }
                    raw.engine.cached(key, desc_fn)
                } else {
                    let desc_fn = || -> (made: Result<KernelDesc, Error>)
                        ensures
                            if supported {
                                outcome_view(made) == Ok::<KernelDescView, Error>(desc@)
                            } else {
                                outcome_view(made) == Err::<KernelDescView, Error>(
                                    Error::DeviceNotSupported,
                                )
                            },
                        {
                            if supported {
                                Ok(desc.clone())
                            } else {
                                Err(Error::DeviceNotSupported)
                            }
                        };
                    raw.engine.cached(key, desc_fn)
                };
                proof {
                    raw.engine.lemma_cache();
                }
                match found {
                    Ok(position) => {
                        let desc = raw.engine.pipeline(position).desc.clone();
                        let kernel = Kernel {
                            device: raw.engine.id(),
                            pipeline: position,
                            desc,
                            groups: None,
                        };
                        proof {
                            if !has_key(before.cache, self.key()) {
                                assert(raw.engine.pipelines().drop_last() == pipelines);
                                assert forall|k: int| 0 <= k < before.cache.len() implies raw.engine@.cache[k]
                                    == before.cache[k] by {
                                    assert(raw.engine.pipelines().drop_last()[k]
                                        == raw.engine.pipelines()[k]);
                                }
                                assert(raw.engine@.cache.drop_last() =~= before.cache);
                                assert(raw.engine.pipelines()[position as int].wf());
                                assert(raw.engine@.cache =~= before.cache.push(
                                    PipelineView {
                                        key: self.key(),
                                        desc: kernel.desc@,
                                        push_consts_range: push_range(
                                            kernel.desc@.push_descs,
                                            kernel.desc@.slice_descs.len(),
                                        ) as u32,
                                    },
                                ));
                            }
                        }
                        Ok(kernel)
                    },
                    Err(e) => Err(e),
                }
            },
        }
    }
}

impl Kernel {
    /// The artifact is well formed.
    pub open spec fn wf(&self) -> bool {
        self.desc.wf()
    }

    /// A kernel of the same pipeline with the same extent.
    pub fn clone(&self) -> (r: Self)
        ensures
            r.device == self.device,
            r.pipeline == self.pipeline,
            r.desc@ == self.desc@,
            r.groups == self.groups,
    {
        Kernel {
            device: self.device,
            pipeline: self.pipeline,
            desc: self.desc.clone(),
            groups: self.groups,
        }
    }

    /// Whether the kernel is a pipeline of the engine.
    pub open spec fn fits(&self, engine: EngineView) -> bool {
        &&& self.wf()
        &&& self.device == engine.id
        &&& self.pipeline < engine.cache.len()
        &&& self.desc@ == engine.cache[self.pipeline as int].desc
        &&& self.groups is None
    }
}

/// What is submitted to the device for one dispatch.
#[derive(Debug)]
pub struct Dispatch {
    pub device: DeviceId,
    pub pipeline: usize,
    /// The number of workgroups along each dimension.
    pub groups: [u32; 3],
    /// The buffer of each binding, in order.
    pub buffers: Vec<DeviceBuffer>,
    /// The push-constant block.
    pub push_bytes: Vec<u8>,
}

pub struct DispatchView {
    pub device: DeviceId,
    pub pipeline: usize,
    pub groups: Seq<u32>,
    pub buffers: Seq<DeviceBufferView>,
    pub push_bytes: Seq<u8>,
}

impl View for Dispatch {
    type V = DispatchView;

    open spec fn view(&self) -> DispatchView {
        DispatchView {
            device: self.device,
            pipeline: self.pipeline,
            groups: self.groups@,
            buffers: self.buffers@.map_values(|b: DeviceBuffer| b@),
            push_bytes: self.push_bytes@,
        }
    }
}

/// The lesser of two numbers.
pub open spec fn least(a: nat, b: nat) -> nat {
    if a <= b {
        a
    } else {
        b
    }
}

/// Why a slice does not suit its binding, if it does not: it is of another
/// kind, or the kernel writes the binding and the slice cannot be written.
pub open spec fn kind_error(desc: SliceDescView, slice: SliceArgView, binding: int) -> Option<
    BindingMismatch,
> {
    if slice.scalar_type != desc.scalar_type {
        Some(
            BindingMismatch::ScalarType {
                binding: binding as usize,
                declared: desc.scalar_type,
                given: slice.scalar_type,
            },
        )
    } else if desc.mutable && !slice.mutable {
        Some(BindingMismatch::Mutability { binding: binding as usize })
    } else {
        None
    }
}

/// The error of the first of the first `n` slices that does not suit its
/// binding.
pub open spec fn first_kind_error(descs: Seq<SliceDescView>, slices: Seq<SliceArgView>, n: nat) -> Option<
    BindingMismatch,
>
    decreases n,
{
    if n == 0 {
        None
    } else {
        match first_kind_error(descs, slices, (n - 1) as nat) {
            Some(e) => Some(e),
            None => kind_error(descs[n - 1], slices[n - 1], n - 1),
        }
    }
}

/// Why a push constant does not suit its declaration, if it does not.
pub open spec fn push_error(desc: PushDescView, value: ScalarElem, index: int) -> Option<
    BindingMismatch,
> {
    if value.spec_scalar_type() != desc.scalar_type {
        Some(
            BindingMismatch::PushType {
                index: index as usize,
                declared: desc.scalar_type,
                given: value.spec_scalar_type(),
            },
        )
    } else {
        None
    }
}

/// The error of the first of the first `n` push constants that does not
/// suit its declaration.
pub open spec fn first_push_error(descs: Seq<PushDescView>, push: Seq<ScalarElem>, n: nat) -> Option<
    BindingMismatch,
>
    decreases n,
{
    if n == 0 {
        None
    } else {
        match first_push_error(descs, push, (n - 1) as nat) {
            Some(e) => Some(e),
            None => push_error(descs[n - 1], push[n - 1], n - 1),
        }
    }
}

/// The first argument that is not of the kind that the kernel declares:
/// the first such slice, else the first such push constant.
pub open spec fn kind_mismatch(
    desc: KernelDescView,
    slices: Seq<SliceArgView>,
    push: Seq<ScalarElem>,
) -> Option<BindingMismatch> {
    match first_kind_error(
        desc.slice_descs,
        slices,
        least(slices.len(), desc.slice_descs.len()),
    ) {
        Some(e) => Some(e),
        None => first_push_error(desc.push_descs, push, least(push.len(), desc.push_descs.len())),
    }
}

/// Whether the slices and the push constants that are bound are of the
/// kinds that the kernel declares, and every binding that the kernel
/// writes has a slice that may be written.
pub open spec fn kinds_match(
    desc: KernelDescView,
    slices: Seq<SliceArgView>,
    push: Seq<ScalarElem>,
) -> bool {
    kind_mismatch(desc, slices, push) is None
}

/// Why a slice cannot be bound for a kernel of `device`, if it cannot: it
/// is in host memory, or on another device, or its offset or length in
/// elements is more than 32 bits count.
pub open spec fn binding_error(device: DeviceId, slice: SliceArgView, binding: int) -> Option<
    BindingMismatch,
> {
    match slice.buffer {
        None => Some(BindingMismatch::SliceOnHost { binding: binding as usize }),
        Some(buffer) => if buffer.device != device {
            Some(
                BindingMismatch::Device {
                    binding: binding as usize,
                    expected: device,
                    found: buffer.device,
                },
            )
        } else if element_offset(slice) > u32::MAX || slice.len > u32::MAX {
            Some(BindingMismatch::Range { binding: binding as usize })
        } else {
            None
        },
    }
}

/// The error of the first of the first `n` slices that cannot be bound.
pub open spec fn first_binding_error(device: DeviceId, slices: Seq<SliceArgView>, n: nat) -> Option<
    BindingMismatch,
>
    decreases n,
{
    if n == 0 {
        None
    } else {
        match first_binding_error(device, slices, (n - 1) as nat) {
            Some(e) => Some(e),
            None => binding_error(device, slices[n - 1], n - 1),
        }
    }
}

/// The least length among the item slices of the first `n` bindings.
pub open spec fn item_count(slices: Seq<SliceArgView>, descs: Seq<SliceDescView>, n: nat) -> Option<
    usize,
>
    decreases n,
{
    if n == 0 {
        None
    } else {
        let before = item_count(slices, descs, (n - 1) as nat);
        if descs[n - 1].item {
            match before {
                Some(m) => if m <= slices[n - 1].len {
                    Some(m)
                } else {
                    Some(slices[n - 1].len)
                },
                None => Some(slices[n - 1].len),
            }
        } else {
            before
        }
    }
}

/// Whether a dimension after the first has more than one thread.
pub open spec fn beyond_linear(threads: Seq<u32>) -> bool {
    exists|i: int| 1 <= i < threads.len() && #[trigger] threads[i] > 1
}

/// The groups of a dispatch: the chosen ones; else as many along the
/// first dimension as cover the items, one thread for each.
pub open spec fn extent(preset: Option<Seq<u32>>, threads: Seq<u32>, items: Option<usize>) -> Result<
    Seq<u32>,
    ExtentError,
> {
    match preset {
        Some(groups) => Ok(groups),
        None => match items {
            Some(n) => if beyond_linear(threads) {
                Err(ExtentError::ThreadsNotLinear)
            } else {
                Ok(seq![ceil_div(n as nat, threads[0] as nat) as u32, 1u32, 1u32])
            },
            None => Err(ExtentError::NotProvided),
        },
    }
}

/// `n` zero bytes.
pub open spec fn zeros(n: nat) -> Seq<u8> {
    Seq::new(n, |i: int| 0u8)
}

/// The bytes extended with zeros to a multiple of four.
pub open spec fn pad4(bytes: Seq<u8>) -> Seq<u8> {
    bytes + zeros((round_up_4(bytes.len()) - bytes.len()) as nat)
}

/// Where the slice starts in its buffer's allocation, in elements.
pub open spec fn element_offset(slice: SliceArgView) -> nat {
    match slice.buffer {
        Some(buffer) => buffer.offset / slice.scalar_type.spec_size(),
        None => 0,
    }
}

/// For each of the first `n` slices, its offset and its length in elements,
/// each as a 32-bit word.
pub open spec fn slice_words(slices: Seq<SliceArgView>, n: nat) -> Seq<u8>
    decreases n,
{
    if n == 0 {
        Seq::empty()
    } else {
        slice_words(slices, (n - 1) as nat) + le_bytes(element_offset(slices[n - 1]), 4)
            + le_bytes(slices[n - 1].len as nat, 4)
    }
}

/// The push-constant block: the push constants, padded to a multiple of
/// four bytes, then the offset and length of each bound slice.
pub open spec fn push_block(
    desc: KernelDescView,
    slices: Seq<SliceArgView>,
    push: Seq<ScalarElem>,
) -> Seq<u8> {
    pad4(concat_bytes(push, least(push.len(), desc.push_descs.len()))) + slice_words(
        slices,
        least(slices.len(), desc.slice_descs.len()),
    )
}

/// The buffers of the first `n` slices.
pub open spec fn bound_buffers(slices: Seq<SliceArgView>, n: nat) -> Seq<DeviceBufferView> {
    Seq::new(n, |i: int| slices[i].buffer->Some_0)
}

/// The chosen groups extended to three dimensions with ones.
pub open spec fn groups_padded(groups: Seq<u32>) -> Seq<u32> {
    Seq::new(
        3,
        |i: int|
            if i < groups.len() {
                groups[i]
            } else {
                1u32
            },
    )
}

impl Kernel {
    /// What dispatching the slices and push constants gives: the error of
    /// the first slice that cannot be bound, else the error of the extent,
    /// else what is submitted.
    pub open spec fn outcome(&self, slices: Seq<SliceArgView>, push: Seq<ScalarElem>) -> Result<
        DispatchView,
        Error,
    > {
        let bound = least(slices.len(), self.desc@.slice_descs.len());
        let preset = match self.groups {
            Some(groups) => Some(groups@),
            None => None,
        };
        match first_binding_error(self.device, slices, bound) {
            Some(e) => Err(Error::BindingMismatch(e)),
            None => match extent(
                preset,
                self.desc@.threads,
                item_count(slices, self.desc@.slice_descs, bound),
            ) {
                Err(e) => Err(Error::ExtentUnspecified(e)),
                Ok(groups) => Ok(
                    DispatchView {
                        device: self.device,
                        pipeline: self.pipeline,
                        groups,
                        buffers: bound_buffers(slices, bound),
                        push_bytes: push_block(self.desc@, slices, push),
                    },
                ),
            },
        }
    }

    /// Sets the extent by the number of threads along each dimension.
    pub fn global_threads(self, global_threads: &[u32]) -> (r: Self)
        requires
            self.wf(),
            global_threads@.len() == self.desc@.threads.len(),
        ensures
            r.groups matches Some(groups) && groups@ == groups_for(
                global_threads@,
                self.desc@.threads,
            ),
            r.device == self.device,
            r.pipeline == self.pipeline,
            r.desc == self.desc,
    {
        let groups = global_threads_to_groups(global_threads, self.desc.threads.as_slice());
        Kernel {
            device: self.device,
            pipeline: self.pipeline,
            desc: self.desc,
            groups: Some(groups),
        }
    }

    /// Sets the extent by the number of groups along each dimension.
    pub fn groups(self, groups: &[u32]) -> (r: Self)
        requires
            self.wf(),
            groups@.len() == self.desc@.threads.len(),
        ensures
            r.groups matches Some(chosen) && chosen@ == groups_padded(groups@),
            r.device == self.device,
            r.pipeline == self.pipeline,
            r.desc == self.desc,
    {
        let n = groups.len();
        let x: u32 = if 0 < n {
            groups[0]
        } else {
            1
        };
        let y: u32 = if 1 < n {
            groups[1]
        } else {
            1
        };
        let z: u32 = if 2 < n {
            groups[2]
        } else {
            1
        };
        let chosen = [x, y, z];
        assert(chosen@ =~= groups_padded(groups@));
        Kernel {
            device: self.device,
            pipeline: self.pipeline,
            desc: self.desc,
            groups: Some(chosen),
        }
    }

    /// The workgroup size.
    pub fn threads(&self) -> (r: &[u32])
        ensures
            r@ == self.desc@.threads,
    {
        self.desc.threads.as_slice()
    }

    /// The capabilities that the kernel requires.
    pub fn features(&self) -> (r: Features)
        ensures
            r@ == self.desc@.features,
    {
        self.desc.features
    }

    /// The first argument that is not of the kind that the kernel declares,
    /// or that cannot be written where the kernel writes.
    pub fn binding_mismatch(&self, slices: &[KernelSliceArg], push_consts: &[ScalarElem]) -> (r:
        Option<BindingMismatch>)
        ensures
            r == kind_mismatch(self.desc@, arg_views(slices@), push_consts@),
    {
        let ghost args = arg_views(slices@);
        let ghost descs = self.desc@.slice_descs;
        let ghost pushes = self.desc@.push_descs;
        let bound = if slices.len() <= self.desc.slice_descs.len() {
            slices.len()
        } else {
            self.desc.slice_descs.len()
        };
        let mut i: usize = 0;
        while i < bound
            invariant
                i <= bound,
                bound == least(slices@.len(), self.desc.slice_descs@.len()),
                args == arg_views(slices@),
                descs == self.desc@.slice_descs,
                first_kind_error(descs, args, i as nat) is None,
            decreases bound - i,
        {
            let slice = &slices[i];
            let slice_desc = &self.desc.slice_descs[i];
            assert(args[i as int] == slice@);
            assert(descs[i as int] == slice_desc@);
            if slice.scalar_type() != slice_desc.scalar_type {
                proof {
                    lemma_kind_error_stays(descs, args, (i + 1) as nat, bound as nat);
                }
                return Some(
                    BindingMismatch::ScalarType {
                        binding: i,
                        declared: slice_desc.scalar_type,
                        given: slice.scalar_type(),
                    },
                );
            }
            if slice_desc.mutable && !slice.mutable() {
                proof {
                    lemma_kind_error_stays(descs, args, (i + 1) as nat, bound as nat);
                }
                return Some(BindingMismatch::Mutability { binding: i });
            }
            i = i + 1;
        }
        let count = if push_consts.len() <= self.desc.push_descs.len() {
            push_consts.len()
        } else {
            self.desc.push_descs.len()
        };
        let mut j: usize = 0;
        while j < count
            invariant
                j <= count,
                count == least(push_consts@.len(), self.desc.push_descs@.len()),
                pushes == self.desc@.push_descs,
                bound == least(slices@.len(), self.desc.slice_descs@.len()),
                args == arg_views(slices@),
                descs == self.desc@.slice_descs,
                first_kind_error(descs, args, bound as nat) is None,
                first_push_error(pushes, push_consts@, j as nat) is None,
            decreases count - j,
        {
            let push_desc = &self.desc.push_descs[j];
            assert(pushes[j as int] == push_desc@);
            if push_consts[j].scalar_type() != push_desc.scalar_type {
                proof {
                    assert(push_error(pushes[j as int], push_consts@[j as int], j as int) is Some);
                    assert(first_push_error(pushes, push_consts@, (j + 1) as nat) is Some);
                    lemma_push_error_stays(pushes, push_consts@, (j + 1) as nat, count as nat);
                }
                return Some(
                    BindingMismatch::PushType {
                        index: j,
                        declared: push_desc.scalar_type,
                        given: push_consts[j].scalar_type(),
                    },
                );
            }
            j = j + 1;
        }
        None
    }

    /// Whether the slices and push constants are of the kinds that the
    /// kernel declares, and every binding that the kernel writes has a slice
    /// that may be written.
    pub fn bindings_match(&self, slices: &[KernelSliceArg], push_consts: &[ScalarElem]) -> (r:
        bool)
        ensures
            r == kinds_match(self.desc@, arg_views(slices@), push_consts@),
    {
        self.binding_mismatch(slices, push_consts).is_none()
    }

    /// Validates the arguments and assembles what is submitted: the groups,
    /// the buffer of each binding and the push-constant block.
    pub fn dispatch(&self, slices: &[KernelSliceArg], push_consts: &[ScalarElem]) -> (r: Result<
        Dispatch,
        Error,
    >)
        requires
            self.wf(),
            kinds_match(self.desc@, arg_views(slices@), push_consts@),
        ensures
            match r {
                Ok(dispatch) => self.outcome(arg_views(slices@), push_consts@) == Ok::<
                    DispatchView,
                    Error,
                >(dispatch@),
                Err(e) => self.outcome(arg_views(slices@), push_consts@) == Err::<
                    DispatchView,
                    Error,
                >(e),
            },
    {
        let ghost args = arg_views(slices@);
        let ghost descs = self.desc@.slice_descs;
        let bound = if slices.len() <= self.desc.slice_descs.len() {
            slices.len()
        } else {
            self.desc.slice_descs.len()
        };
        let mut buffers: Vec<DeviceBuffer> = Vec::new();
        let mut items: Option<usize> = None;
        let mut i: usize = 0;
        while i < bound
            invariant
                i <= bound,
                bound == least(slices@.len(), self.desc.slice_descs@.len()),
                args == arg_views(slices@),
                descs == self.desc@.slice_descs,
                first_binding_error(self.device, args, i as nat) is None,
                items == item_count(args, descs, i as nat),
                items matches Some(n) ==> n <= u32::MAX,
                buffers@.map_values(|b: DeviceBuffer| b@) == bound_buffers(args, i as nat),
            decreases bound - i,
        {
            let slice = &slices[i];
            let slice_desc = &self.desc.slice_descs[i];
            assert(args[i as int] == slice@);
            assert(descs[i as int] == slice_desc@);
            let buffer = match slice.device_buffer() {
                Some(buffer) => *buffer,
                None => {
                    proof {
                        lemma_binding_error_stays(self.device, args, (i + 1) as nat, bound as nat);
                    }
                    return Err(
                        Error::BindingMismatch(BindingMismatch::SliceOnHost { binding: i }),
                    );
                },
            };
            let found = buffer.device();
            if found.index != self.device.index || found.handle != self.device.handle {
                proof {
                    lemma_binding_error_stays(self.device, args, (i + 1) as nat, bound as nat);
                }
                return Err(
                    Error::BindingMismatch(
                        BindingMismatch::Device { binding: i, expected: self.device, found },
                    ),
                );
            }
            let offset = buffer.offset() / slice.scalar_type().size();
            if offset > 0xffff_ffff || slice.len() > 0xffff_ffff {
                proof {
                    lemma_binding_error_stays(self.device, args, (i + 1) as nat, bound as nat);
                }
                return Err(Error::BindingMismatch(BindingMismatch::Range { binding: i }));
            }
            let ghost before = buffers@.map_values(|b: DeviceBuffer| b@);
            buffers.push(buffer);
            assert(buffers@.map_values(|b: DeviceBuffer| b@) =~= bound_buffers(
                args,
                (i + 1) as nat,
            )) by {
                assert(buffers@.map_values(|b: DeviceBuffer| b@) =~= before.push(buffer@));
            }
            if slice_desc.item {
                let len = slice.len();
                items = match items {
                    Some(least) => if least <= len {
                        Some(least)
                    } else {
                        Some(len)
                    },
                    None => Some(len),
                };
            }
            i = i + 1;
        }
        let groups: [u32; 3] = match self.groups {
            Some(groups) => groups,
            None => match items {
                Some(n) => {
                    if self.beyond_linear() {
                        return Err(Error::ExtentUnspecified(ExtentError::ThreadsNotLinear));
                    }
                    let x = groups_along(n as u32, self.desc.threads[0]);
                    let groups = [x, 1, 1];
                    assert(groups@ =~= seq![x, 1u32, 1u32]);
                    groups
                },
                None => {
                    return Err(Error::ExtentUnspecified(ExtentError::NotProvided));
                },
            },
        };
        let pushes = if push_consts.len() <= self.desc.push_descs.len() {
            push_consts.len()
        } else {
            self.desc.push_descs.len()
        };
        let mut push_bytes: Vec<u8> = Vec::new();
        let mut j: usize = 0;
        while j < pushes
            invariant
                j <= pushes <= push_consts@.len(),
                push_bytes@ == concat_bytes(push_consts@, j as nat),
            decreases pushes - j,
        {
            let mut part = push_consts[j].as_bytes();
            push_bytes.append(&mut part);
            j = j + 1;
        }
        let ghost user = push_bytes@;
        let mut padding: usize = 0;
        while push_bytes.len() % 4 != 0
            invariant
                padding < 4,
                push_bytes@ == user + zeros(padding as nat),
                user.len() + padding <= round_up_4(user.len()),
            decreases round_up_4(user.len()) - push_bytes@.len(),
        {
            push_bytes.push(0u8);
            padding = padding + 1;
            assert(push_bytes@ =~= user + zeros(padding as nat));
        }
        assert(push_bytes@ == pad4(user));
        let mut k: usize = 0;
        while k < bound
            invariant
                k <= bound,
                bound == least(slices@.len(), self.desc.slice_descs@.len()),
                args == arg_views(slices@),
                first_binding_error(self.device, args, bound as nat) is None,
                push_bytes@ == pad4(user) + slice_words(args, k as nat),
            decreases bound - k,
        {
            let slice = &slices[k];
            assert(args[k as int] == slice@);
            proof {
                lemma_bound_slice(self.device, args, bound as nat, k as int);
            }
            let offset: usize = match slice.device_buffer() {
                Some(buffer) => buffer.offset() / slice.scalar_type().size(),
                None => 0,
            };
            let mut first = bytes_of_bits(offset as u64, 4);
            let mut second = bytes_of_bits(slice.len() as u64, 4);
            push_bytes.append(&mut first);
            push_bytes.append(&mut second);
            assert(push_bytes@ =~= pad4(user) + slice_words(args, (k + 1) as nat)) by {
                assert(slice_words(args, (k + 1) as nat) == slice_words(args, k as nat) + le_bytes(
                    element_offset(args[k as int]),
                    4,
                ) + le_bytes(args[k as int].len as nat, 4));
            }
            k = k + 1;
        }
        Ok(Dispatch { device: self.device, pipeline: self.pipeline, groups, buffers, push_bytes })
    }

    fn beyond_linear(&self) -> (r: bool)
        ensures
            r == beyond_linear(self.desc@.threads),
    {
        let mut i: usize = 1;
        while i < self.desc.threads.len()
            invariant
                1 <= i,
                forall|k: int| 1 <= k < i && k < self.desc.threads@.len() ==> self.desc.threads@[k] <= 1,
            decreases self.desc.threads@.len() - i,
        {
            if self.desc.threads[i] > 1 {
                return true;
            }
            i = i + 1;
        }
        false
    }
}

/// Where none of the first `n` slices has an error, none of them has.
pub proof fn lemma_bound_slice(device: DeviceId, slices: Seq<SliceArgView>, n: nat, k: int)
    requires
        first_binding_error(device, slices, n) is None,
        0 <= k < n,
    ensures
        binding_error(device, slices[k], k) is None,
    decreases n,
{
    if k < n - 1 {
        lemma_bound_slice(device, slices, (n - 1) as nat, k);
    }
}

/// Once a slice does not suit its binding, the first error stays what it is.
pub proof fn lemma_kind_error_stays(
    descs: Seq<SliceDescView>,
    slices: Seq<SliceArgView>,
    m: nat,
    n: nat,
)
    requires
        m <= n,
        first_kind_error(descs, slices, m) is Some,
    ensures
        first_kind_error(descs, slices, n) == first_kind_error(descs, slices, m),
    decreases n - m,
{
    if m < n {
        lemma_kind_error_stays(descs, slices, m, (n - 1) as nat);
    }
}

/// Once a push constant does not suit its declaration, the first error
/// stays what it is.
pub proof fn lemma_push_error_stays(
    descs: Seq<PushDescView>,
    push: Seq<ScalarElem>,
    m: nat,
    n: nat,
)
    requires
        m <= n,
        first_push_error(descs, push, m) is Some,
    ensures
        first_push_error(descs, push, n) == first_push_error(descs, push, m),
    decreases n - m,
{
    if m < n {
        lemma_push_error_stays(descs, push, m, (n - 1) as nat);
    }
}

/// A read-only slice for a binding that the kernel writes does not match:
/// such arguments are not among those that a dispatch takes.
pub proof fn lemma_read_only_refused(
    desc: KernelDescView,
    slices: Seq<SliceArgView>,
    push: Seq<ScalarElem>,
    binding: int,
)
    requires
        0 <= binding < least(slices.len(), desc.slice_descs.len()),
        desc.slice_descs[binding].mutable,
        !slices[binding].mutable,
    ensures
        !kinds_match(desc, slices, push),
{
    let bound = least(slices.len(), desc.slice_descs.len());
    if first_kind_error(desc.slice_descs, slices, binding as nat) is Some {
        lemma_kind_error_stays(desc.slice_descs, slices, binding as nat, bound);
    } else {
        assert(first_kind_error(desc.slice_descs, slices, (binding + 1) as nat) is Some);
        lemma_kind_error_stays(desc.slice_descs, slices, (binding + 1) as nat, bound);
    }
}

/// Once a slice cannot be bound, the first error stays what it is.
pub proof fn lemma_binding_error_stays(device: DeviceId, slices: Seq<SliceArgView>, m: nat, n: nat)
    requires
        m <= n,
        first_binding_error(device, slices, m) is Some,
    ensures
        first_binding_error(device, slices, n) == first_binding_error(device, slices, m),
    decreases n - m,
{
    if m < n {
        lemma_binding_error_stays(device, slices, m, (n - 1) as nat);
    }
}

impl Engine {
    /// Takes a dispatch for submission. Fails on a lost device, and for a
    /// dispatch that was assembled for another device.
    pub fn dispatch(&self, command: &Dispatch) -> (r: Result<(), Error>)
        ensures
            match r {
                Ok(_) => !self@.lost && command.device == self@.id,
                Err(e) => if self@.lost {
                    e == Error::DeviceLost(self@.lost_error())
                } else {
                    &&& command.device != self@.id
                    &&& e == Error::BindingMismatch(
                        BindingMismatch::Command { expected: self@.id, found: command.device },
                    )
                },
            },
    {
        match self.wait() {
            Ok(_) => {
                let id = self.id();
                if command.device.index != id.index || command.device.handle != id.handle {
                    Err(
                        Error::BindingMismatch(
                            BindingMismatch::Command { expected: id, found: command.device },
                        ),
                    )
                } else {
                    Ok(())
                }
            },
            Err(e) => Err(Error::DeviceLost(e)),
        }
    }
}

/// Where the extent follows from the item slices, the groups along the
/// first dimension, times the threads of a group, cover the least length
/// of the item slices; and that length is no more than the length of any
/// item slice that is bound.
pub proof fn lemma_items_covered(
    kernel: Kernel,
    slices: Seq<SliceArgView>,
    push: Seq<ScalarElem>,
    dispatch: DispatchView,
    binding: int,
)
    requires
        kernel.wf(),
        kernel.groups is None,
        kernel.outcome(slices, push) == Ok::<DispatchView, Error>(dispatch),
        0 <= binding < least(slices.len(), kernel.desc@.slice_descs.len()),
        kernel.desc@.slice_descs[binding].item,
    ensures
        item_count(slices, kernel.desc@.slice_descs, least(slices.len(), kernel.desc@.slice_descs.len()))
            matches Some(items) && items <= slices[binding].len && dispatch.groups[0]
            * kernel.desc@.threads[0] >= items,
{
    let descs = kernel.desc@.slice_descs;
    let bound = least(slices.len(), descs.len());
    lemma_item_count_least(slices, descs, bound, binding);
    lemma_bound_slice(kernel.device, slices, bound, binding);
    let items = item_count(slices, descs, bound)->Some_0;
    lemma_ceil_div(items as nat, kernel.desc@.threads[0] as nat);
}

/// The item count is no more than the length of any item slice counted.
pub proof fn lemma_item_count_least(
    slices: Seq<SliceArgView>,
    descs: Seq<SliceDescView>,
    n: nat,
    binding: int,
)
    requires
        0 <= binding < n,
        descs[binding].item,
    ensures
        item_count(slices, descs, n) matches Some(items) && items <= slices[binding].len,
    decreases n,
{
    if binding < n - 1 {
        lemma_item_count_least(slices, descs, (n - 1) as nat, binding);
    }
}

/// Two builds with the same key on one device share one pipeline: the
/// second build, of a builder that has its values if it has constants,
/// finds the pipeline of the first and compiles nothing, so the cache has
/// missed at most once for the key.
pub proof fn lemma_build_shares_pipeline(
    first: KernelBuilder,
    second: KernelBuilder,
    start: EngineView,
    between: EngineView,
    end: EngineView,
    built: Kernel,
    again: Result<Kernel, Error>,
)
    requires
        first.key() == second.key(),
        second.desc@.spec_descs.len() != 0 ==> second.spec_consts@.len() != 0,
        first.builds(start, between, Ok(built)),
        second.builds(between, end, again),
        distinct_keys(between.cache),
    ensures
        again matches Ok(kernel) && kernel.pipeline == built.pipeline && kernel.desc@
            == built.desc@,
        end.cache == between.cache,
        between.cache.len() <= start.cache.len() + 1,
{
    assert(has_key(between.cache, second.key())) by {
        assert(between.cache[built.pipeline as int].key == second.key());
    }
}

/// On a cache miss the kernel that is built has the workgroup size of
/// its builder.
pub proof fn lemma_built_threads(
    builder: KernelBuilder,
    before: EngineView,
    after: EngineView,
    kernel: Kernel,
)
    requires
        builder.builds(before, after, Ok(kernel)),
        !has_key(before.cache, builder.key()),
    ensures
        kernel.desc@.threads == builder.threads@,
{
}

/// Specialization keeps the number of dimensions.
pub proof fn lemma_specialized_len(
    threads: Seq<u32>,
    descs: Seq<SpecDescView>,
    consts: Seq<ScalarElem>,
    n: nat,
)
    requires
        n <= descs.len(),
        forall|k: int|
            0 <= k < n ==> crate::artifact::thread_dim_ok(#[trigger] descs[k], threads.len()),
    ensures
        specialized_threads(threads, descs, consts, n).len() == threads.len(),
    decreases n,
{
    if n > 0 {
        lemma_specialized_len(threads, descs, consts, (n - 1) as nat);
    }
}

/// After specialization the size along a dimension is the value of the
/// last constant that names the dimension.
pub proof fn lemma_specialized_dim(
    threads: Seq<u32>,
    descs: Seq<SpecDescView>,
    consts: Seq<ScalarElem>,
    n: nat,
    i: int,
    dim: usize,
    value: u32,
)
    requires
        0 <= i < n <= descs.len(),
        forall|k: int|
            0 <= k < n ==> crate::artifact::thread_dim_ok(#[trigger] descs[k], threads.len()),
        descs[i].thread_dim == Some(dim),
        consts[i] == ScalarElem::U32(value),
        forall|j: int| i < j < n ==> (#[trigger] descs[j]).thread_dim != Some(dim),
    ensures
        specialized_threads(threads, descs, consts, n).len() == threads.len(),
        specialized_threads(threads, descs, consts, n)[dim as int] == value,
    decreases n,
{
    lemma_specialized_len(threads, descs, consts, n);
    lemma_specialized_len(threads, descs, consts, (n - 1) as nat);
    assert(crate::artifact::thread_dim_ok(descs[i], threads.len()));
    if i < n - 1 {
        lemma_specialized_dim(threads, descs, consts, (n - 1) as nat, i, dim, value);
        assert(crate::artifact::thread_dim_ok(descs[n - 1], threads.len()));
    }
}

} // verus!
