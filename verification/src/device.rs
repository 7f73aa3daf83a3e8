//! Devices: the host, or a compute device with its engine.

use vstd::prelude::*;
use crate::engine::{
    DeviceBuffer, DeviceInfo, DeviceOptions, Engine, EngineView, PhysicalDevice, started_info,
};
use crate::error::{DeviceId, DeviceLost, Error};
use crate::features::{Feature, Features};

verus! {

/// Collects what a device is started with.
#[derive(Debug)]
pub struct DeviceBuilder {
    pub options: DeviceOptions,
}

/// A compute device: the owner of its engine.
#[derive(Debug)]
pub struct RawDevice {
    pub engine: Engine,
}

#[derive(Debug)]
pub enum DeviceInner {
    Host,
    Device(RawDevice),
}

/// The host, or a compute device.
#[derive(Debug)]
pub struct Device {
    pub inner: DeviceInner,
}

/// The set of all five capabilities.
pub open spec fn all_features() -> Set<Feature> {
    Set::<Feature>::empty().insert(Feature::ShaderInt8).insert(Feature::ShaderInt16).insert(
        Feature::ShaderInt64,
    ).insert(Feature::ShaderFloat16).insert(Feature::ShaderFloat64)
}

impl DeviceBuilder {
    /// Chooses the device at `index` of the enumeration.
    pub fn index(self, index: usize) -> (r: Self)
        ensures
            r.options.index == index,
            r.options.optimal_features == self.options.optimal_features,
    {
        DeviceBuilder {
            options: DeviceOptions { index, optimal_features: self.options.optimal_features },
        }
    }

    /// Starts the chosen device among `devices`, what the enumeration
    /// found, with `handle` as the identifier of its engine.
    pub fn build(self, devices: &Vec<PhysicalDevice>, handle: u64) -> (r: Result<Device, Error>)
        ensures
            match r {
                Ok(device) => {
                    &&& self.options.index < devices@.len()
                    &&& device.inner matches DeviceInner::Device(raw)
                    &&& raw.engine.wf()
                    &&& raw.engine@.id == DeviceId { index: self.options.index, handle }
                    &&& raw.engine@.info == started_info(self.options, devices@)
                    &&& !raw.engine@.lost
                    &&& raw.engine@.memory.len() == 0
                    &&& raw.engine@.cache.len() == 0
                },
                Err(e) => if devices@.len() == 0 {
                    e == Error::DeviceUnavailable
                } else {
                    self.options.index >= devices@.len() && e == Error::DeviceIndexOutOfRange {
                        index: self.options.index,
                        devices: devices@.len() as usize,
                    }
                },
            },
    {
        match RawDevice::new(self.options, devices, handle) {
            Ok(raw) => Ok(Device { inner: DeviceInner::Device(raw) }),
            Err(e) => Err(e),
        }
    }
}

impl RawDevice {
    pub fn new(options: DeviceOptions, devices: &Vec<PhysicalDevice>, handle: u64) -> (r: Result<
        Self,
        Error,
    >)
        ensures
            match r {
                Ok(raw) => {
                    &&& options.index < devices@.len()
                    &&& raw.engine.wf()
                    &&& raw.engine@.id == DeviceId { index: options.index, handle }
                    &&& raw.engine@.info == started_info(options, devices@)
                    &&& !raw.engine@.lost
                    &&& raw.engine@.memory.len() == 0
                    &&& raw.engine@.cache.len() == 0
                },
                Err(e) => if devices@.len() == 0 {
                    e == Error::DeviceUnavailable
                } else {
                    options.index >= devices@.len() && e == Error::DeviceIndexOutOfRange {
                        index: options.index,
                        devices: devices@.len() as usize,
                    }
                },
            },
    {
        match Engine::new(options, devices, handle) {
            Ok(engine) => Ok(RawDevice { engine }),
            Err(e) => Err(e),
        }
    }

    pub fn info(&self) -> (r: &DeviceInfo)
        ensures
            r@ == self.engine@.info,
    {
        self.engine.info()
    }

    pub fn wait(&self) -> (r: Result<(), DeviceLost>)
        ensures
            match r {
                Ok(_) => !self.engine@.lost,
                Err(e) => self.engine@.lost && e == self.engine@.lost_error(),
            },
    {
        self.engine.wait()
    }

    /// Whether the two are the same device: whether their engines are the same.
    pub fn same(&self, other: &RawDevice) -> (r: bool)
        ensures
            r == (self.engine@.id == other.engine@.id),
    {
        let a = self.engine.id();
        let b = other.engine.id();
        a.index == b.index && a.handle == b.handle
    }
}

impl DeviceInner {
    pub fn is_host(&self) -> (r: bool)
        ensures
            r == (self is Host),
    {
        match self {
            DeviceInner::Host => true,
            DeviceInner::Device(_) => false,
        }
    }

    pub fn is_device(&self) -> (r: bool)
        ensures
            r == (self is Device),
    {
        !self.is_host()
    }
}

impl Device {
    /// The state of the device's engine; nothing for the host.
    pub open spec fn engine(&self) -> Option<EngineView> {
        match self.inner {
            DeviceInner::Host => None,
            DeviceInner::Device(raw) => Some(raw.engine@),
        }
    }

    /// The host.
    pub fn host() -> (r: Self)
        ensures
            r.inner is Host,
    {
        Device { inner: DeviceInner::Host }
    }

    /// A builder that chooses the first device and asks for every capability.
    pub fn builder() -> (r: DeviceBuilder)
        ensures
            r.options.index == 0,
            r.options.optimal_features@ == all_features(),
    {
        DeviceBuilder {
            options: DeviceOptions {
                index: 0,
                optimal_features: Features::empty().with_shader_int8(true).with_shader_int16(
                    true,
                ).with_shader_int64(true).with_shader_float16(true).with_shader_float64(true),
            },
        }
    }

    pub fn is_host(&self) -> (r: bool)
        ensures
            r == (self.inner is Host),
    {
        self.inner.is_host()
    }

    pub fn is_device(&self) -> (r: bool)
        ensures
            r == (self.inner is Device),
    {
        self.inner.is_device()
    }

    pub fn inner(&self) -> (r: &DeviceInner)
        ensures
            *r == self.inner,
    {
        &self.inner
    }

    /// The description of the device; nothing for the host.
    pub fn info(&self) -> (r: Option<&DeviceInfo>)
        ensures
            match r {
                Some(info) => self.engine() matches Some(engine) && info@ == engine.info,
                None => self.inner is Host,
            },
    {
        match &self.inner {
            DeviceInner::Host => None,
            DeviceInner::Device(raw) => Some(raw.info()),
        }
    }

    /// Succeeds on the host, and on a device unless it is lost.
    pub fn wait(&self) -> (r: Result<(), DeviceLost>)
        ensures
            match r {
                Ok(_) => self.engine() matches Some(engine) ==> !engine.lost,
                Err(e) => self.engine() matches Some(engine) && engine.lost && e
                    == engine.lost_error(),
            },
    {
        match &self.inner {
            DeviceInner::Host => Ok(()),
            DeviceInner::Device(raw) => raw.wait(),
        }
    }

    /// Whether the two are the same device: both the host, or devices with
    /// the same engine.
    pub fn same(&self, other: &Device) -> (r: bool)
        ensures
            r == match (self.engine(), other.engine()) {
                (None, None) => true,
                (Some(a), Some(b)) => a.id == b.id,
                _ => false,
            },
    {
        match (&self.inner, &other.inner) {
            (DeviceInner::Host, DeviceInner::Host) => true,
            (DeviceInner::Device(a), DeviceInner::Device(b)) => a.same(b),
            _ => false,
        }
    }
}

impl DeviceBuffer {
    /// A fresh allocation of `len` bytes on the device. Nothing is promised
    /// of its contents.
    pub fn uninit(device: &mut RawDevice, len: usize) -> (r: Result<DeviceBuffer, Error>)
        ensures
            final(device).engine.wf() == old(device).engine.wf(),
            match r {
                Ok(buffer) => old(device).engine@.allocates(
                    len as nat,
                    final(device).engine@,
                    buffer@,
                ),
                Err(e) => {
                    &&& old(device).engine@.lost
                    &&& e == Error::DeviceLost(old(device).engine@.lost_error())
                    &&& final(device).engine@ == old(device).engine@
                },
            },
    {
        device.engine.uninit(len)
    }

    /// A fresh allocation on the device that holds a copy of `data`.
    pub fn upload(device: &mut RawDevice, data: &[u8]) -> (r: Result<DeviceBuffer, Error>)
        ensures
            final(device).engine.wf() == old(device).engine.wf(),
            match r {
                Ok(buffer) => old(device).engine@.uploads(
                    data@,
                    final(device).engine@,
                    buffer@,
                ),
                Err(e) => {
                    &&& old(device).engine@.lost
                    &&& e == Error::DeviceLost(old(device).engine@.lost_error())
                    &&& final(device).engine@ == old(device).engine@
                },
            },
    {
        device.engine.upload(data)
    }

    /// Copies the bytes of the buffer into `data`, which must be as long.
    /// Fails on a lost device, for a buffer that is not the device's, and
    /// for another length, in this order.
    pub fn download(&self, device: &RawDevice, data: &mut Vec<u8>) -> (r: Result<(), Error>)
        ensures
            match r {
                Ok(_) => device.engine@.downloads(self@, old(data)@, final(data)@),
                Err(e) => {
                    &&& final(data)@ == old(data)@
                    &&& if device.engine@.lost {
                        e == Error::DeviceLost(device.engine@.lost_error())
                    } else if !device.engine@.holds(self@) {
                        e == device.engine@.foreign(self@)
                    } else {
                        old(data)@.len() != self@.len && e == Error::InvalidLength {
                            expected: self@.len as usize,
                            found: old(data)@.len() as usize,
                        }
                    }
                },
            },
    {
        device.engine.download(self, data)
    }

    /// A buffer on `target` with the bytes of this one: a copy, or this
    /// buffer itself where `target` is the device that holds it. Fails on
    /// a lost device, for a buffer that is not the device's, and on a lost
    /// target, in this order.
    pub fn transfer(&self, device: &RawDevice, target: &mut RawDevice) -> (r: Result<
        DeviceBuffer,
        Error,
    >)
        ensures
            final(target).engine.wf() == old(target).engine.wf(),
            match r {
                Ok(moved) => {
                    &&& !device.engine@.lost
                    &&& device.engine@.holds(self@)
                    &&& if old(target).engine@.id == device.engine@.id {
                        moved == *self && final(target).engine@ == old(target).engine@
                    } else {
                        old(target).engine@.uploads(
                            device.engine@.contents(self@),
                            final(target).engine@,
                            moved@,
                        )
                    }
                },
                Err(e) => {
                    &&& final(target).engine@ == old(target).engine@
                    &&& if device.engine@.lost {
                        e == Error::DeviceLost(device.engine@.lost_error())
                    } else if !device.engine@.holds(self@) {
                        e == device.engine@.foreign(self@)
                    } else {
                        &&& old(target).engine@.id != device.engine@.id
                        &&& old(target).engine@.lost
                        &&& e == Error::DeviceLost(old(target).engine@.lost_error())
                    }
                },
            },
    {
        device.engine.transfer(self, &mut target.engine)
    }
}

impl PartialEq for RawDevice {
    fn eq(&self, other: &Self) -> (r: bool) {
        self.same(other)
    }
}

impl vstd::std_specs::cmp::PartialEqSpecImpl for RawDevice {
    open spec fn obeys_eq_spec() -> bool {
        true
    }

    open spec fn eq_spec(&self, other: &Self) -> bool {
        self.engine@.id == other.engine@.id
    }
}

impl PartialEq for Device {
    fn eq(&self, other: &Self) -> (r: bool) {
        self.same(other)
    }
}

impl vstd::std_specs::cmp::PartialEqSpecImpl for Device {
    open spec fn obeys_eq_spec() -> bool {
        true
    }

    open spec fn eq_spec(&self, other: &Self) -> bool {
        match (self.engine(), other.engine()) {
            (None, None) => true,
            (Some(a), Some(b)) => a.id == b.id,
            _ => false,
        }
    }
}

impl From<RawDevice> for Device {
    fn from(device: RawDevice) -> (r: Self) {
        Device { inner: DeviceInner::Device(device) }
    }
}

impl vstd::std_specs::convert::FromSpecImpl<RawDevice> for Device {
    open spec fn obeys_from_spec() -> bool {
        true
    }

    open spec fn from_spec(device: RawDevice) -> Self {
        Device { inner: DeviceInner::Device(device) }
    }
}

} // verus!
