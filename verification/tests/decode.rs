use krnl::decode::{decode_desc, take_bool, take_option, take_string, take_u32, take_u64, take_words};
use krnl::error::Error;
use krnl::kernel::KernelBuilder;
use krnl::scalar::ScalarType;

type Specs = Vec<(String, u32, Option<u64>)>;
type Slices = Vec<(String, u32, bool, bool)>;
type Pushes = Vec<(String, u32)>;

fn blob(threads: Vec<u32>, specs: Specs, slices: Slices, pushes: Pushes) -> Vec<u8> {
    bincode::serialize(&(
        String::from("saxpy"),
        vec![0x0723_0203u32, 0x0001_0300, 7],
        (true, false, true, false, true),
        threads,
        true,
        specs,
        slices,
        pushes,
    ))
    .unwrap()
}

fn full_blob() -> Vec<u8> {
    blob(
        vec![64, 2],
        vec![(String::from("BLOCK"), 6, Some(0)), (String::from("scale"), 8, None)],
        vec![(String::from("y"), 8, true, true), (String::from("x"), 8, false, true)],
        vec![(String::from("alpha"), 8)],
    )
}

#[test]
fn from_bytes_reads_the_serialized_artifact() {
    let b = KernelBuilder::from_bytes(&full_blob(), 42).unwrap();
    assert_eq!(b.id, 42);
    assert!(b.spec_consts.is_empty());
    assert_eq!(b.threads, vec![64, 2]);
    let d = &b.desc;
    assert_eq!(d.name, "saxpy");
    assert_eq!(d.spirv, vec![0x0723_0203u32, 0x0001_0300, 7]);
    assert!(d.features.shader_int8() && d.features.shader_int64() && d.features.shader_float64());
    assert!(!d.features.shader_int16() && !d.features.shader_float16());
    assert_eq!(d.threads, vec![64, 2]);
    assert!(d.safe);
    assert_eq!(d.spec_descs.len(), 2);
    assert_eq!(d.spec_descs[0].name, "BLOCK");
    assert_eq!(d.spec_descs[0].scalar_type, ScalarType::U32);
    assert_eq!(d.spec_descs[0].thread_dim, Some(0));
    assert_eq!(d.spec_descs[1].name, "scale");
    assert_eq!(d.spec_descs[1].scalar_type, ScalarType::F32);
    assert_eq!(d.spec_descs[1].thread_dim, None);
    assert_eq!(d.slice_descs.len(), 2);
    assert_eq!(d.slice_descs[0].name, "y");
    assert!(d.slice_descs[0].mutable && d.slice_descs[0].item);
    assert_eq!(d.slice_descs[1].name, "x");
    assert!(!d.slice_descs[1].mutable && d.slice_descs[1].item);
    assert_eq!(d.push_descs.len(), 1);
    assert_eq!(d.push_descs[0].name, "alpha");
    assert_eq!(d.push_descs[0].scalar_type, ScalarType::F32);
    assert!(b.features().shader_int8());
    assert!(b.safe());
}

#[test]
fn from_bytes_refuses_trailing_bytes() {
    let mut bytes = full_blob();
    bytes.push(0);
    assert_eq!(KernelBuilder::from_bytes(&bytes, 1).err(), Some(Error::ArtifactDecode));
}

#[test]
fn from_bytes_refuses_truncated_bytes() {
    let bytes = full_blob();
    for len in 0..bytes.len() {
        assert_eq!(KernelBuilder::from_bytes(&bytes[..len], 1).err(), Some(Error::ArtifactDecode));
    }
}

#[test]
fn from_bytes_refuses_bad_thread_counts() {
    let none = blob(Vec::new(), Vec::new(), Vec::new(), Vec::new());
    assert_eq!(KernelBuilder::from_bytes(&none, 1).err(), Some(Error::ArtifactDecode));
    let four = blob(vec![1, 1, 1, 1], Vec::new(), Vec::new(), Vec::new());
    assert_eq!(KernelBuilder::from_bytes(&four, 1).err(), Some(Error::ArtifactDecode));
    let three = blob(vec![4, 4, 4], Vec::new(), Vec::new(), Vec::new());
    assert!(KernelBuilder::from_bytes(&three, 1).is_ok());
    let zero = blob(vec![4, 0], Vec::new(), Vec::new(), Vec::new());
    assert_eq!(KernelBuilder::from_bytes(&zero, 1).err(), Some(Error::ArtifactDecode));
}

#[test]
fn from_bytes_refuses_unknown_kind() {
    let bytes = blob(vec![1], Vec::new(), Vec::new(), vec![(String::from("p"), 12)]);
    assert_eq!(KernelBuilder::from_bytes(&bytes, 1).err(), Some(Error::ArtifactDecode));
    let bytes = blob(vec![1], Vec::new(), Vec::new(), vec![(String::from("p"), 11)]);
    let b = KernelBuilder::from_bytes(&bytes, 1).unwrap();
    assert_eq!(b.desc.push_descs[0].scalar_type, ScalarType::F64);
}

#[test]
fn from_bytes_refuses_thread_dim_out_of_range() {
    let bytes = blob(vec![8], vec![(String::from("n"), 6, Some(1))], Vec::new(), Vec::new());
    assert_eq!(KernelBuilder::from_bytes(&bytes, 1).err(), Some(Error::ArtifactDecode));
}

#[test]
fn decode_refuses_name_that_is_not_utf8() {
    let mut bytes = blob(vec![1], Vec::new(), Vec::new(), Vec::new());
    assert_eq!(&bytes[8..13], b"saxpy");
    assert!(decode_desc(&bytes).is_some());
    bytes[8] = 0xff;
    assert!(decode_desc(&bytes).is_none());
}

#[test]
fn decode_refuses_truth_value_above_one() {
    let mut bytes = blob(vec![1], Vec::new(), Vec::new(), Vec::new());
    let features_at = 8 + 5 + 8 + 12;
    assert_eq!(bytes[features_at], 1);
    bytes[features_at] = 2;
    assert!(decode_desc(&bytes).is_none());
}

#[test]
fn readers_on_plain_bytes() {
    let bytes = [1u8, 2, 3, 4, 5, 6, 7, 8, 9];
    assert_eq!(take_u32(&bytes, 0), Some((0x0403_0201, 4)));
    assert_eq!(take_u32(&bytes, 5), Some((0x0908_0706, 9)));
    assert_eq!(take_u32(&bytes, 6), None);
    assert_eq!(take_u64(&bytes, 1), Some((0x0908_0706_0504_0302, 9)));
    assert_eq!(take_u64(&bytes, 2), None);
    assert_eq!(take_bool(&bytes, 0), Some((true, 1)));
    assert_eq!(take_bool(&bytes, 1), None);
    assert_eq!(take_bool(&[0u8], 0), Some((false, 1)));
    assert_eq!(take_bool(&bytes, 9), None);
}

#[test]
fn string_reader_checks_length_and_encoding() {
    let mut bytes = vec![3u8, 0, 0, 0, 0, 0, 0, 0];
    bytes.extend_from_slice("h\u{e9}".as_bytes());
    bytes.push(b'!');
    assert_eq!(take_string(&bytes, 0), Some((String::from("h\u{e9}"), 11)));
    bytes[0] = 2;
    assert_eq!(take_string(&bytes, 0), None);
    bytes[0] = 5;
    assert_eq!(take_string(&bytes, 0), None);
    bytes[0] = 0;
    assert_eq!(take_string(&bytes, 0), Some((String::new(), 8)));
}

#[test]
fn list_and_option_readers() {
    let mut bytes = vec![2u8, 0, 0, 0, 0, 0, 0, 0];
    bytes.extend_from_slice(&7u32.to_le_bytes());
    bytes.extend_from_slice(&0x8000_0001u32.to_le_bytes());
    assert_eq!(take_words(&bytes, 0), Some((vec![7, 0x8000_0001], 16)));
    bytes[0] = 3;
    assert_eq!(take_words(&bytes, 0), None);
    let mut some = vec![1u8];
    some.extend_from_slice(&5u64.to_le_bytes());
    assert_eq!(take_option(&some, 0), Some((Some(5), 9)));
    assert_eq!(take_option(&[0u8], 0), Some((None, 1)));
    assert_eq!(take_option(&[2u8], 0), None);
    assert_eq!(take_option(&[1u8, 0], 0), None);
}
