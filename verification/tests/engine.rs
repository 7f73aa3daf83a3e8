use krnl::device::{Device, DeviceInner, RawDevice};
use krnl::engine::{DeviceBuffer, DeviceOptions, Engine, PhysicalDevice};
use krnl::error::{BindingMismatch, DeviceId, DeviceLost, Error};
use krnl::features::Features;

fn physical(name: &str, features: Features) -> PhysicalDevice {
    PhysicalDevice { name: String::from(name), compute_queues: 2, transfer_queues: 1, features }
}

fn two_devices() -> Vec<PhysicalDevice> {
    vec![
        physical("first", Features::empty().with_shader_int8(true).with_shader_float64(true)),
        physical("second", Features::empty()),
    ]
}

fn started(index: usize, handle: u64) -> RawDevice {
    let options = DeviceOptions {
        index,
        optimal_features: Features::empty().with_shader_int8(true).with_shader_int16(true),
    };
    RawDevice::new(options, &two_devices(), handle).unwrap()
}

#[test]
fn builder_defaults_to_first_device_and_all_features() {
    let b = Device::builder();
    assert_eq!(b.options.index, 0);
    let f = b.options.optimal_features;
    assert!(f.shader_int8() && f.shader_int16() && f.shader_int64());
    assert!(f.shader_float16() && f.shader_float64());
    assert_eq!(Device::builder().index(3).options.index, 3);
}

#[test]
fn build_starts_the_chosen_device() {
    let device = Device::builder().index(1).build(&two_devices(), 77).unwrap();
    assert!(device.is_device());
    assert!(!device.is_host());
    let info = device.info().unwrap();
    assert_eq!(info.index(), 1);
    assert_eq!(info.name(), "second");
    assert_eq!(info.compute_queues(), 2);
    assert_eq!(info.transfer_queues(), 1);
    assert_eq!(info.features(), Features::empty());
    assert_eq!(device.wait(), Ok(()));
    match device.inner() {
        DeviceInner::Device(raw) => {
            assert_eq!(raw.engine.handle(), 77);
            assert_eq!(raw.engine.id(), DeviceId { index: 1, handle: 77 });
            assert_eq!(raw.engine.misses(), 0);
        }
        DeviceInner::Host => panic!("expected a device"),
    }
}

#[test]
fn started_features_are_advertised_and_optimal() {
    let raw = started(0, 1);
    assert_eq!(raw.info().features(), Features::empty().with_shader_int8(true));
    let all = Device::builder().build(&two_devices(), 1).unwrap();
    assert_eq!(
        all.info().unwrap().features(),
        Features::empty().with_shader_int8(true).with_shader_float64(true)
    );
}

#[test]
fn index_out_of_range() {
    let r = Device::builder().index(2).build(&two_devices(), 1);
    assert_eq!(r.err(), Some(Error::DeviceIndexOutOfRange { index: 2, devices: 2 }));
    let r = Device::builder().index(9).build(&two_devices(), 1);
    assert_eq!(r.err(), Some(Error::DeviceIndexOutOfRange { index: 9, devices: 2 }));
}

#[test]
fn no_devices_is_unavailable() {
    let r = Device::builder().build(&Vec::new(), 1);
    assert_eq!(r.err(), Some(Error::DeviceUnavailable));
}

#[test]
fn host_device() {
    let host = Device::host();
    assert!(host.is_host());
    assert!(!host.is_device());
    assert!(host.info().is_none());
    assert_eq!(host.wait(), Ok(()));
    assert!(host.same(&Device::host()));
    assert!(host.inner().is_host());
}

#[test]
fn devices_are_the_same_by_engine() {
    let a = Device::builder().build(&two_devices(), 1).unwrap();
    let b = Device::builder().build(&two_devices(), 2).unwrap();
    assert!(a.same(&a));
    assert!(!a.same(&b));
    assert!(!a.same(&Device::host()));
    assert!(!Device::host().same(&b));
}

#[test]
fn upload_then_download_gives_the_bytes() {
    let mut raw = started(0, 5);
    let data = [1u8, 2, 3, 250, 0, 9];
    let buffer = DeviceBuffer::upload(&mut raw, &data).unwrap();
    assert_eq!(buffer.len(), 6);
    assert_eq!(buffer.offset(), 0);
    assert_eq!(buffer.device(), DeviceId { index: 0, handle: 5 });
    let other = DeviceBuffer::upload(&mut raw, &[7u8; 4]).unwrap();
    let mut out = vec![0u8; 6];
    assert_eq!(buffer.download(&raw, &mut out), Ok(()));
    assert_eq!(out, data);
    let mut out = vec![0u8; 4];
    assert_eq!(other.download(&raw, &mut out), Ok(()));
    assert_eq!(out, vec![7u8; 4]);
}

#[test]
fn upload_of_nothing() {
    let mut raw = started(0, 5);
    let buffer = DeviceBuffer::upload(&mut raw, &[]).unwrap();
    assert_eq!(buffer.len(), 0);
    let mut out = Vec::new();
    assert_eq!(buffer.download(&raw, &mut out), Ok(()));
    assert!(out.is_empty());
}

#[test]
fn download_with_other_length_is_invalid() {
    let mut raw = started(0, 5);
    let buffer = DeviceBuffer::upload(&mut raw, &[1, 2, 3]).unwrap();
    let mut short = vec![9u8; 2];
    assert_eq!(
        buffer.download(&raw, &mut short),
        Err(Error::InvalidLength { expected: 3, found: 2 })
    );
    assert_eq!(short, vec![9u8; 2]);
    let mut long = vec![9u8; 4];
    assert_eq!(
        buffer.download(&raw, &mut long),
        Err(Error::InvalidLength { expected: 3, found: 4 })
    );
    assert_eq!(long, vec![9u8; 4]);
}

#[test]
fn uninit_has_the_length() {
    let mut raw = started(0, 5);
    let buffer = DeviceBuffer::uninit(&mut raw, 12).unwrap();
    assert_eq!(buffer.len(), 12);
    assert!(raw.engine.holds(&buffer));
    let mut out = vec![1u8; 12];
    assert_eq!(buffer.download(&raw, &mut out), Ok(()));
}

#[test]
fn slice_shares_the_allocation() {
    let mut raw = started(0, 5);
    let buffer = DeviceBuffer::upload(&mut raw, &[10, 11, 12, 13, 14, 15]).unwrap();
    let part = buffer.slice(2, 5).unwrap();
    assert_eq!(part.len(), 3);
    assert_eq!(part.offset(), 2);
    assert_eq!(part.device(), buffer.device());
    let mut out = vec![0u8; 3];
    assert_eq!(part.download(&raw, &mut out), Ok(()));
    assert_eq!(out, vec![12, 13, 14]);
    let inner = part.slice(1, 3).unwrap();
    assert_eq!(inner.offset(), 3);
    let mut out = vec![0u8; 2];
    assert_eq!(inner.download(&raw, &mut out), Ok(()));
    assert_eq!(out, vec![13, 14]);
    assert_eq!(buffer.slice(0, 6), Some(buffer));
    assert_eq!(buffer.slice(6, 6).map(|b| b.len()), Some(0));
}

#[test]
fn slice_out_of_bounds_is_none() {
    let mut raw = started(0, 5);
    let buffer = DeviceBuffer::upload(&mut raw, &[1, 2, 3]).unwrap();
    assert_eq!(buffer.slice(0, 4), None);
    assert_eq!(buffer.slice(2, 1), None);
    assert_eq!(buffer.slice(4, 4), None);
}

#[test]
fn transfer_to_another_device_copies() {
    let mut a = started(0, 1);
    let mut b = started(1, 2);
    let buffer = DeviceBuffer::upload(&mut a, &[1, 2, 3, 4]).unwrap();
    let part = buffer.slice(1, 3).unwrap();
    let moved = part.transfer(&a, &mut b).unwrap();
    assert_eq!(moved.device(), DeviceId { index: 1, handle: 2 });
    assert_eq!(moved.len(), 2);
    assert_eq!(moved.offset(), 0);
    assert!(b.engine.holds(&moved));
    let mut out = vec![0u8; 2];
    assert_eq!(moved.download(&b, &mut out), Ok(()));
    assert_eq!(out, vec![2, 3]);
}

#[test]
fn transfer_to_the_same_device_is_the_same_buffer() {
    let mut a = started(0, 1);
    let buffer = DeviceBuffer::upload(&mut a, &[1, 2, 3, 4]).unwrap();
    let mut again = started(0, 1);
    let moved = buffer.transfer(&a, &mut again).unwrap();
    assert_eq!(moved, buffer);
}

#[test]
fn holds_tells_buffers_of_other_devices() {
    let mut a = started(0, 1);
    let b = started(1, 2);
    let buffer = DeviceBuffer::upload(&mut a, &[1, 2, 3, 4]).unwrap();
    assert!(a.engine.holds(&buffer));
    assert!(!b.engine.holds(&buffer));
}

#[test]
fn lost_device_fails_every_operation() {
    let mut raw = started(1, 0xabc);
    let buffer = DeviceBuffer::upload(&mut raw, &[1, 2]).unwrap();
    assert_eq!(raw.wait(), Ok(()));
    assert!(!raw.engine.is_lost());
    raw.engine.lose();
    assert!(raw.engine.is_lost());
    let lost = DeviceLost { index: 1, handle: 0xabc };
    assert_eq!(lost.index(), 1);
    assert_eq!(lost.handle(), 0xabc);
    assert_eq!(raw.wait(), Err(lost));
    assert_eq!(raw.wait(), Err(lost));
    assert_eq!(DeviceBuffer::upload(&mut raw, &[1]).err(), Some(Error::DeviceLost(lost)));
    assert_eq!(DeviceBuffer::uninit(&mut raw, 1).err(), Some(Error::DeviceLost(lost)));
    let mut out = vec![0u8; 2];
    assert_eq!(buffer.download(&raw, &mut out), Err(Error::DeviceLost(lost)));
    assert_eq!(out, vec![0, 0]);
    let mut other = started(0, 1);
    assert_eq!(buffer.transfer(&raw, &mut other).err(), Some(Error::DeviceLost(lost)));
    let device = Device { inner: DeviceInner::Device(raw) };
    assert_eq!(device.wait(), Err(lost));
}

#[test]
fn transfer_to_a_lost_device_fails() {
    let mut a = started(0, 1);
    let mut b = started(1, 2);
    let buffer = DeviceBuffer::upload(&mut a, &[1, 2]).unwrap();
    b.engine.lose();
    assert_eq!(
        buffer.transfer(&a, &mut b).err(),
        Some(Error::DeviceLost(DeviceLost { index: 1, handle: 2 }))
    );
}

#[test]
fn engine_new_reports_like_the_builder() {
    let options = DeviceOptions { index: 5, optimal_features: Features::empty() };
    assert_eq!(
        Engine::new(options, &two_devices(), 1).err(),
        Some(Error::DeviceIndexOutOfRange { index: 5, devices: 2 })
    );
}

#[test]
fn devices_compare_by_engine() {
    let a = Device::builder().build(&two_devices(), 1).unwrap();
    let b = Device::builder().build(&two_devices(), 2).unwrap();
    assert!(a == a);
    assert!(a != b);
    assert!(Device::host() == Device::host());
    assert!(a != Device::host());
    assert!(started(0, 4) == started(0, 4));
    assert!(started(0, 4) != started(0, 5));
}

#[test]
fn device_from_raw_device() {
    let device = Device::from(started(1, 8));
    assert!(device.is_device());
    assert_eq!(device.info().unwrap().index(), 1);
    assert_eq!(device.info().unwrap().name(), "second");
}

#[test]
fn buffer_of_another_device_is_refused() {
    let mut a = started(0, 1);
    let mut b = started(1, 2);
    let buffer = DeviceBuffer::upload(&mut a, &[1, 2, 3, 4]).unwrap();
    let foreign = Error::BindingMismatch(BindingMismatch::Buffer {
        expected: DeviceId { index: 1, handle: 2 },
        found: DeviceId { index: 0, handle: 1 },
    });
    let mut out = vec![0u8; 4];
    assert_eq!(buffer.download(&b, &mut out), Err(foreign));
    assert_eq!(out, vec![0u8; 4]);
    let mut c = started(0, 3);
    assert_eq!(buffer.transfer(&b, &mut c).err(), Some(foreign));
    let own = DeviceBuffer::upload(&mut b, &[9]).unwrap();
    let mut out = vec![0u8; 1];
    assert_eq!(own.download(&b, &mut out), Ok(()));
    assert_eq!(out, vec![9]);
}

#[test]
fn buffer_of_a_later_allocation_is_refused() {
    let mut a = started(0, 1);
    let fresh = started(0, 1);
    let buffer = DeviceBuffer::upload(&mut a, &[1, 2]).unwrap();
    let mut out = vec![0u8; 2];
    assert_eq!(
        buffer.download(&fresh, &mut out),
        Err(Error::BindingMismatch(BindingMismatch::Buffer {
            expected: DeviceId { index: 0, handle: 1 },
            found: DeviceId { index: 0, handle: 1 },
        }))
    );
    fresh.engine.is_lost();
}

#[test]
fn lost_comes_before_foreign_and_length() {
    let mut a = started(0, 1);
    let mut b = started(1, 2);
    let buffer = DeviceBuffer::upload(&mut a, &[1, 2]).unwrap();
    b.engine.lose();
    let mut out = vec![0u8; 9];
    assert_eq!(
        buffer.download(&b, &mut out),
        Err(Error::DeviceLost(DeviceLost { index: 1, handle: 2 }))
    );
    let c = started(1, 3);
    assert_eq!(
        buffer.download(&c, &mut out),
        Err(Error::BindingMismatch(BindingMismatch::Buffer {
            expected: DeviceId { index: 1, handle: 3 },
            found: DeviceId { index: 0, handle: 1 },
        }))
    );
}
