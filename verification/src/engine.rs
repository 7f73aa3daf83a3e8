//! The engine of one device: its description, its lost state and the
//! device allocations that the host has made on it.

use vstd::prelude::*;
use crate::artifact::KernelDesc;
use crate::cache::{KernelCache, KernelKey, Pipeline, PipelineView, distinct_keys, has_key};
use crate::error::{BindingMismatch, DeviceId, DeviceLost, Error};
use crate::features::{Feature, Features};

verus! {

/// What the enumeration reports of one physical device.
#[derive(Debug)]
pub struct PhysicalDevice {
    pub name: String,
    pub compute_queues: usize,
    pub transfer_queues: usize,
    pub features: Features,
}

/// What a device is asked for at start.
#[derive(Debug)]
pub struct DeviceOptions {
    pub index: usize,
    pub optimal_features: Features,
}

/// The description of a started device.
#[derive(Debug)]
pub struct DeviceInfo {
    index: usize,
    name: String,
    compute_queues: usize,
    transfer_queues: usize,
    features: Features,
}

pub struct DeviceInfoView {
    pub index: usize,
    pub name: Seq<char>,
    pub compute_queues: usize,
    pub transfer_queues: usize,
    pub features: Set<Feature>,
}

impl View for DeviceInfo {
    type V = DeviceInfoView;

    closed spec fn view(&self) -> DeviceInfoView {
        DeviceInfoView {
            index: self.index,
            name: self.name@,
            compute_queues: self.compute_queues,
            transfer_queues: self.transfer_queues,
            features: self.features@,
        }
    }
}

impl DeviceInfo {
    pub fn index(&self) -> (r: usize)
        ensures
            r == self@.index,
    {
        self.index
    }

    pub fn name(&self) -> (r: &String)
        ensures
            r@ == self@.name,
    {
        &self.name
    }

    pub fn compute_queues(&self) -> (r: usize)
        ensures
            r == self@.compute_queues,
    {
        self.compute_queues
    }

    pub fn transfer_queues(&self) -> (r: usize)
        ensures
            r == self@.transfer_queues,
    {
        self.transfer_queues
    }

    pub fn features(&self) -> (r: Features)
        ensures
            r@ == self@.features,
    {
        self.features
    }
}

/// The description that a device started with `options` gets, where
/// `devices` is what the enumeration found.
pub open spec fn started_info(
    options: DeviceOptions,
    devices: Seq<PhysicalDevice>,
) -> DeviceInfoView
    recommends
        options.index < devices.len(),
{
    let device = devices[options.index as int];
    DeviceInfoView {
        index: options.index,
        name: device.name@,
        compute_queues: device.compute_queues,
        transfer_queues: device.transfer_queues,
        features: device.features@.intersect(options.optimal_features@),
    }
}

/// A handle to a range of bytes of one allocation of a device.
#[derive(Clone, Copy, Debug, PartialEq, Eq, Structural)]
pub struct DeviceBuffer {
    device: DeviceId,
    alloc: usize,
    offset: usize,
    len: usize,
}

pub struct DeviceBufferView {
    pub device: DeviceId,
    pub alloc: nat,
    pub offset: nat,
    pub len: nat,
}

impl View for DeviceBuffer {
    type V = DeviceBufferView;

    closed spec fn view(&self) -> DeviceBufferView {
        DeviceBufferView {
            device: self.device,
            alloc: self.alloc as nat,
            offset: self.offset as nat,
            len: self.len as nat,
        }
    }
}

impl DeviceBufferView {
    /// The part of the buffer from `start` up to `end`.
    pub open spec fn part(self, start: nat, end: nat) -> DeviceBufferView
        recommends
            start <= end <= self.len,
    {
        DeviceBufferView { offset: self.offset + start, len: (end - start) as nat, ..self }
    }
}

impl DeviceBuffer {
    /// The length in bytes.
    pub fn len(&self) -> (r: usize)
        ensures
            r == self@.len,
    {
        self.len
    }

    /// Where the range starts in its allocation, in bytes.
    pub fn offset(&self) -> (r: usize)
        ensures
            r == self@.offset,
    {
        self.offset
    }

    /// The device that owns the allocation.
    pub fn device(&self) -> (r: DeviceId)
        ensures
            r == self@.device,
    {
        self.device
    }

    /// The part of the buffer from `start` up to `end`, in the same
    /// allocation; nothing where that is not a range of the buffer.
    pub fn slice(&self, start: usize, end: usize) -> (r: Option<DeviceBuffer>)
        ensures
            r is Some <==> start <= end <= self@.len && self@.offset + start <= usize::MAX,
            r matches Some(part) ==> part@ == self@.part(start as nat, end as nat),
    {
        if start > end || end > self.len {
            return None;
        }
        if start > usize::MAX - self.offset {
            return None;
        }
        Some(
            DeviceBuffer {
                device: self.device,
                alloc: self.alloc,
                offset: self.offset + start,
                len: end - start,
            },
        )
    }
}

/// The state of an engine: which device it drives, whether the device is
/// lost, the bytes of each allocation, and the pipelines built so far.
pub struct EngineView {
    pub id: DeviceId,
    pub info: DeviceInfoView,
    pub lost: bool,
    pub memory: Seq<Seq<u8>>,
    pub cache: Seq<PipelineView>,
}

impl EngineView {
    /// Whether `buffer` is a range of an allocation of this engine.
    pub open spec fn holds(self, buffer: DeviceBufferView) -> bool {
        &&& buffer.device == self.id
        &&& buffer.alloc < self.memory.len()
        &&& buffer.offset + buffer.len <= self.memory[buffer.alloc as int].len()
    }

    /// The bytes that `buffer` denotes.
    pub open spec fn contents(self, buffer: DeviceBufferView) -> Seq<u8>
        recommends
            self.holds(buffer),
    {
        self.memory[buffer.alloc as int].subrange(
            buffer.offset as int,
            (buffer.offset + buffer.len) as int,
        )
    }

    /// Whether `after` and `buffer` are what allocating `len` bytes gives:
    /// one more allocation, denoted by `buffer`, and all else as it was.
    pub open spec fn allocates(self, len: nat, after: EngineView, buffer: DeviceBufferView) -> bool {
        &&& !self.lost
        &&& self.kept_by(after)
        &&& after.lost == self.lost
        &&& after.cache == self.cache
        &&& after.memory.len() == self.memory.len() + 1
        &&& after.holds(buffer)
        &&& buffer == (DeviceBufferView {
            device: self.id,
            alloc: self.memory.len(),
            offset: 0,
            len,
        })
    }

    /// Whether `after` and `buffer` are what uploading `data` gives: a new
    /// allocation that holds `data`.
    pub open spec fn uploads(self, data: Seq<u8>, after: EngineView, buffer: DeviceBufferView) -> bool {
        &&& self.allocates(data.len(), after, buffer)
        &&& after.contents(buffer) == data
    }

    /// Whether `after` is what downloading `buffer` into a vector that held
    /// `before` gives: the bytes of the buffer, the vector being as long.
    pub open spec fn downloads(self, buffer: DeviceBufferView, before: Seq<u8>, after: Seq<u8>) -> bool {
        &&& !self.lost
        &&& self.holds(buffer)
        &&& before.len() == buffer.len
        &&& after == self.contents(buffer)
    }

    /// The error for a buffer that the engine does not hold.
    pub open spec fn foreign(self, buffer: DeviceBufferView) -> Error {
        Error::BindingMismatch(BindingMismatch::Buffer { expected: self.id, found: buffer.device })
    }

    /// The error that every operation on a lost device reports.
    pub open spec fn lost_error(self) -> DeviceLost {
        DeviceLost { index: self.id.index, handle: self.id.handle }
    }

    /// The engine `later` drives the same device, and every buffer of
    /// `self` is a buffer of `later`, with the same contents.
    pub open spec fn kept_by(self, later: EngineView) -> bool {
        &&& later.id == self.id
        &&& later.info == self.info
        &&& self.memory.len() <= later.memory.len()
        &&& forall|a: int| 0 <= a < self.memory.len() ==> later.memory[a] == self.memory[a]
    }
}

#[derive(Debug)]
pub struct Engine {
    info: DeviceInfo,
    handle: u64,
    lost: bool,
    memory: Vec<Vec<u8>>,
    cache: KernelCache,
}

impl View for Engine {
    type V = EngineView;

    closed spec fn view(&self) -> EngineView {
        EngineView {
            id: DeviceId { index: self.info.index, handle: self.handle },
            info: self.info@,
            lost: self.lost,
            memory: self.memory@.map_values(|m: Vec<u8>| m@),
            cache: self.cache@,
        }
    }
}

impl Engine {
    /// The description names the device that the engine drives, and no key
    /// occurs twice in the cache.
    pub closed spec fn wf(&self) -> bool {
        &&& self@.info.index == self@.id.index
        &&& self.cache.wf()
    }

    /// The pipelines, in the order in which they were built.
    pub closed spec fn pipelines(&self) -> Seq<Pipeline> {
        self.cache.pipelines()
    }

    /// The pipelines are what the view shows, each is well formed, and no
    /// key occurs twice.
    pub proof fn lemma_cache(&self)
        requires
            self.wf(),
        ensures
            self@.cache == self.pipelines().map_values(|p: Pipeline| p@),
            distinct_keys(self@.cache),
            forall|i: int| 0 <= i < self.pipelines().len() ==> (#[trigger] self.pipelines()[i]).wf(),
    {
    }

    /// Starts the device at `options.index` of `devices` with the features
    /// that it advertises among the optimal ones.
    pub fn new(options: DeviceOptions, devices: &Vec<PhysicalDevice>, handle: u64) -> (r: Result<
        Engine,
        Error,
    >)
        ensures
            match r {
                Ok(engine) => {
                    &&& options.index < devices@.len()
                    &&& engine.wf()
                    &&& engine@.id == DeviceId { index: options.index, handle }
                    &&& engine@.info == started_info(options, devices@)
                    &&& !engine@.lost
                    &&& engine@.memory.len() == 0
                    &&& engine@.cache.len() == 0
                },
                Err(e) => if devices@.len() == 0 {
                    e == Error::DeviceUnavailable
                } else {
                    options.index >= devices@.len() && e == Error::DeviceIndexOutOfRange {
                        index: options.index,
                        devices: devices@.len() as usize,
                    }
                },
            },
    {
        if devices.len() == 0 {
            return Err(Error::DeviceUnavailable);
        }
        if options.index >= devices.len() {
            return Err(
                Error::DeviceIndexOutOfRange { index: options.index, devices: devices.len() },
            );
        }
        let device = &devices[options.index];
        let info = DeviceInfo {
            index: options.index,
            name: device.name.clone(),
            compute_queues: device.compute_queues,
            transfer_queues: device.transfer_queues,
            features: device.features.intersection(&options.optimal_features),
        };
        let engine = Engine {
            info,
            handle,
            lost: false,
            memory: Vec::new(),
            cache: KernelCache::new(),
        };
        assert(engine@.memory =~= Seq::<Seq<u8>>::empty());
        Ok(engine)
    }

    /// The identifier that the engine was given at construction.
    pub fn handle(&self) -> (r: u64)
        ensures
            r == self@.id.handle,
    {
        self.handle
    }

    pub fn id(&self) -> (r: DeviceId)
        ensures
            r == self@.id,
    {
        DeviceId { index: self.info.index, handle: self.handle }
    }

    pub fn info(&self) -> (r: &DeviceInfo)
        ensures
            r@ == self@.info,
    {
        &self.info
    }

    pub fn is_lost(&self) -> (r: bool)
        ensures
            r == self@.lost,
    {
        self.lost
    }

    /// Succeeds unless the device is lost.
    pub fn wait(&self) -> (r: Result<(), DeviceLost>)
        ensures
            match r {
                Ok(_) => !self@.lost,
                Err(e) => self@.lost && e == self@.lost_error(),
            },
    {
        if self.lost {
            Err(DeviceLost { index: self.info.index, handle: self.handle })
        } else {
            Ok(())
        }
    }

    /// Whether `buffer` is a range of an allocation of this engine.
    pub fn holds(&self, buffer: &DeviceBuffer) -> (r: bool)
        ensures
            r == self@.holds(buffer@),
    {
        let id = self.id();
        if buffer.device.index != id.index || buffer.device.handle != id.handle {
            return false;
        }
        if buffer.alloc >= self.memory.len() {
            return false;
        }
        let size = self.memory[buffer.alloc].len();
        buffer.offset <= size && buffer.len <= size - buffer.offset
    }

    /// A fresh allocation of `len` bytes. Nothing is promised of its contents.
    pub fn uninit(&mut self, len: usize) -> (r: Result<DeviceBuffer, Error>)
        ensures
            match r {
                Ok(buffer) => old(self)@.allocates(len as nat, final(self)@, buffer@),
                Err(e) => {
                    &&& old(self)@.lost
                    &&& e == Error::DeviceLost(old(self)@.lost_error())
                    &&& final(self)@ == old(self)@
                },
            },
            final(self).wf() == old(self).wf(),
    {
        if self.lost {
            return Err(Error::DeviceLost(self.lost_error()));
        }
        let mut bytes: Vec<u8> = Vec::new();
        let mut i: usize = 0;
        while i < len
            invariant
                i <= len,
                bytes@.len() == i,
            decreases len - i,
        {
            bytes.push(0u8);
            i = i + 1;
        }
        Ok(self.allocate(bytes))
    }

    /// A fresh allocation that holds a copy of `data`.
    pub fn upload(&mut self, data: &[u8]) -> (r: Result<DeviceBuffer, Error>)
        ensures
            match r {
                Ok(buffer) => old(self)@.uploads(data@, final(self)@, buffer@),
                Err(e) => {
                    &&& old(self)@.lost
                    &&& e == Error::DeviceLost(old(self)@.lost_error())
                    &&& final(self)@ == old(self)@
                },
            },
            final(self).wf() == old(self).wf(),
    {
        if self.lost {
            return Err(Error::DeviceLost(self.lost_error()));
        }
        let mut bytes: Vec<u8> = Vec::new();
        let mut i: usize = 0;
        while i < data.len()
            invariant
                i <= data@.len(),
                bytes@ == data@.take(i as int),
            decreases data@.len() - i,
        {
            bytes.push(data[i]);
            i = i + 1;
            assert(bytes@ =~= data@.take(i as int));
        }
        assert(data@.take(data@.len() as int) =~= data@);
        let buffer = self.allocate(bytes);
        assert(self@.contents(buffer@) =~= data@);
        Ok(buffer)
    }

    /// Copies the bytes of `buffer` into `out`, which must be as long. Fails
    /// on a lost device, for a buffer that the engine does not hold, and
    /// for another length, in this order.
    pub fn download(&self, buffer: &DeviceBuffer, out: &mut Vec<u8>) -> (r: Result<(), Error>)
        ensures
            match r {
                Ok(_) => self@.downloads(buffer@, old(out)@, final(out)@),
                Err(e) => {
                    &&& final(out)@ == old(out)@
                    &&& if self@.lost {
                        e == Error::DeviceLost(self@.lost_error())
                    } else if !self@.holds(buffer@) {
                        e == self@.foreign(buffer@)
                    } else {
                        old(out)@.len() != buffer@.len && e == Error::InvalidLength {
                            expected: buffer@.len as usize,
                            found: old(out)@.len() as usize,
                        }
                    }
                },
            },
    {
        if self.lost {
            return Err(Error::DeviceLost(self.lost_error()));
        }
        if !self.holds(buffer) {
            return Err(self.foreign(buffer));
        }
        if out.len() != buffer.len {
            return Err(Error::InvalidLength { expected: buffer.len, found: out.len() });
        }
        let source = &self.memory[buffer.alloc];
        let size = source.len();
        let ghost wanted = self@.contents(buffer@);
        let mut i: usize = 0;
        while i < buffer.len
            invariant
                i <= buffer.len,
                out@.len() == buffer.len,
                buffer.offset + buffer.len <= source@.len() == size,
                wanted == source@.subrange(buffer.offset as int, buffer.offset + buffer.len),
                forall|k: int| 0 <= k < i ==> out@[k] == wanted[k],
            decreases buffer.len - i,
        {
            out.set(i, source[buffer.offset + i]);
            i = i + 1;
        }
        assert(out@ =~= wanted);
        Ok(())
    }

    /// A buffer on `target` with the bytes of `buffer`: a copy, or `buffer`
    /// itself where `target` drives the same device. Fails on a lost
    /// device, for a buffer that the engine does not hold, and on a lost
    /// target, in this order.
    pub fn transfer(&self, buffer: &DeviceBuffer, target: &mut Engine) -> (r: Result<
        DeviceBuffer,
        Error,
    >)
        ensures
            final(target).wf() == old(target).wf(),
            match r {
                Ok(moved) => {
                    &&& !self@.lost
                    &&& self@.holds(buffer@)
                    &&& if old(target)@.id == self@.id {
                        moved == *buffer && final(target)@ == old(target)@
                    } else {
                        old(target)@.uploads(self@.contents(buffer@), final(target)@, moved@)
                    }
                },
                Err(e) => {
                    &&& final(target)@ == old(target)@
                    &&& if self@.lost {
                        e == Error::DeviceLost(self@.lost_error())
                    } else if !self@.holds(buffer@) {
                        e == self@.foreign(buffer@)
                    } else {
                        &&& old(target)@.id != self@.id
                        &&& old(target)@.lost
                        &&& e == Error::DeviceLost(old(target)@.lost_error())
                    }
                },
            },
    {
        if self.lost {
            return Err(Error::DeviceLost(self.lost_error()));
        }
        if !self.holds(buffer) {
            return Err(self.foreign(buffer));
        }
        let here = self.id();
        let there = target.id();
        if here.index == there.index && here.handle == there.handle {
            return Ok(*buffer);
        }
        let mut staged: Vec<u8> = Vec::new();
        let source = &self.memory[buffer.alloc];
        let size = source.len();
        let ghost wanted = self@.contents(buffer@);
        let mut i: usize = 0;
        while i < buffer.len
            invariant
                i <= buffer.len,
                buffer.offset + buffer.len <= source@.len() == size,
                wanted == source@.subrange(buffer.offset as int, buffer.offset + buffer.len),
                staged@ == wanted.take(i as int),
            decreases buffer.len - i,
        {
            staged.push(source[buffer.offset + i]);
            i = i + 1;
            assert(staged@ =~= wanted.take(i as int));
        }
        assert(wanted.take(buffer.len as int) =~= wanted);
        target.upload(staged.as_slice())
    }

    /// How many pipelines were built: the number of cache misses so far.
    pub fn misses(&self) -> (r: usize)
        ensures
            r == self@.cache.len(),
    {
        self.cache.misses()
    }

    /// The pipeline at a position of the cache.
    pub fn pipeline(&self, position: usize) -> (r: &Pipeline)
        requires
            position < self@.cache.len(),
        ensures
            *r == self.pipelines()[position as int],
            r@ == self@.cache[position as int],
    {
        self.cache.get(position)
    }

    /// The position of the pipeline with the key. Where there is none yet,
    /// `desc_fn` is called, once, and its artifact becomes the new, last
    /// pipeline; where it fails, the cache stays as it was. On a lost device
    /// nothing is looked up or built.
    pub fn cached<F: FnOnce() -> Result<KernelDesc, Error>>(&mut self, key: KernelKey, desc_fn: F) -> (r:
        Result<usize, Error>)
        requires
            old(self).wf(),
            call_requires(desc_fn, ()),
            forall|d: KernelDesc| call_ensures(desc_fn, (), Ok::<KernelDesc, Error>(d)) ==> d.wf(),
        ensures
            final(self).wf(),
            final(self)@ == (EngineView { cache: final(self)@.cache, ..old(self)@ }),
            match r {
                Ok(i) => {
                    &&& !old(self)@.lost
                    &&& i < final(self)@.cache.len()
                    &&& final(self)@.cache[i as int].key == key@
                    &&& if has_key(old(self)@.cache, key@) {
                        final(self).pipelines() == old(self).pipelines()
                    } else {
                        &&& i == old(self)@.cache.len()
                        &&& final(self).pipelines().len() == old(self)@.cache.len() + 1
                        &&& final(self).pipelines().drop_last() == old(self).pipelines()
                        &&& call_ensures(
                            desc_fn,
                            (),
                            Ok::<KernelDesc, Error>(final(self).pipelines()[i as int].desc),
                        )
                    }
                },
                Err(e) => {
                    &&& final(self).pipelines() == old(self).pipelines()
                    &&& if old(self)@.lost {
                        e == Error::DeviceLost(old(self)@.lost_error())
                    } else {
                        &&& !has_key(old(self)@.cache, key@)
                        &&& call_ensures(desc_fn, (), Err::<KernelDesc, Error>(e))
                    }
                },
            },
    {
        if self.lost {
            return Err(Error::DeviceLost(self.lost_error()));
        }
        self.cache.cached(key, desc_fn)
    }

    fn foreign(&self, buffer: &DeviceBuffer) -> (r: Error)
        ensures
            r == self@.foreign(buffer@),
    {
        Error::BindingMismatch(
            BindingMismatch::Buffer { expected: self.id(), found: buffer.device },
        )
    }

    fn lost_error(&self) -> (r: DeviceLost)
        ensures
            r == self@.lost_error(),
    {
        DeviceLost { index: self.info.index, handle: self.handle }
    }

    fn allocate(&mut self, bytes: Vec<u8>) -> (r: DeviceBuffer)
        ensures
            old(self)@.kept_by(final(self)@),
            final(self)@.lost == old(self)@.lost,
            final(self)@.cache == old(self)@.cache,
            final(self)@.memory == old(self)@.memory.push(bytes@),
            final(self).wf() == old(self).wf(),
            r@ == (DeviceBufferView {
                device: old(self)@.id,
                alloc: old(self)@.memory.len(),
                offset: 0,
                len: bytes@.len(),
            }),
            final(self)@.holds(r@),
    {
        let alloc = self.memory.len();
        let len = bytes.len();
        let ghost content = bytes@;
        self.memory.push(bytes);
        assert(self@.memory =~= old(self)@.memory.push(content));
        DeviceBuffer { device: self.id(), alloc, offset: 0, len }
    }

    /// The device-lost event: from now on every operation fails.
    pub fn lose(&mut self)
        ensures
            final(self)@ == (EngineView { lost: true, ..old(self)@ }),
            final(self).wf() == old(self).wf(),
    {
        self.lost = true;
    }
}

/// What was uploaded is what is downloaded: after `data` is uploaded, a
/// download of the buffer gives `data`, whatever was allocated in between.
pub proof fn lemma_round_trip(
    start: EngineView,
    data: Seq<u8>,
    loaded: EngineView,
    buffer: DeviceBufferView,
    later: EngineView,
    before: Seq<u8>,
    after: Seq<u8>,
)
    requires
        start.uploads(data, loaded, buffer),
        loaded.kept_by(later),
        later.downloads(buffer, before, after),
    ensures
        after == data,
        later.holds(buffer),
{
}

/// What one engine keeps, and a later one keeps of it, the last keeps of
/// the first.
pub proof fn lemma_kept_by_transitive(a: EngineView, b: EngineView, c: EngineView)
    requires
        a.kept_by(b),
        b.kept_by(c),
    ensures
        a.kept_by(c),
{
}

/// A buffer that an engine holds is held, with the same bytes, by every
/// later state of the engine.
pub proof fn lemma_kept_buffer(a: EngineView, b: EngineView, buffer: DeviceBufferView)
    requires
        a.kept_by(b),
        a.holds(buffer),
    ensures
        b.holds(buffer),
        b.contents(buffer) == a.contents(buffer),
{
}

/// A part of a buffer that an engine holds is a buffer that the engine
/// holds, and its bytes are that part of the buffer's bytes.
pub proof fn lemma_part_held(engine: EngineView, buffer: DeviceBufferView, start: nat, end: nat)
    requires
        engine.holds(buffer),
        start <= end <= buffer.len,
    ensures
        engine.holds(buffer.part(start, end)),
        engine.contents(buffer.part(start, end)) == engine.contents(buffer).subrange(
            start as int,
            end as int,
        ),
{
    assert(engine.contents(buffer.part(start, end)) =~= engine.contents(buffer).subrange(
        start as int,
        end as int,
    ));
}

} // verus!
