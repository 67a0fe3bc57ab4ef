use xaynet_coordinator::codec::{ByteStream, DecodeError, MaskObjectBuffer};
use xaynet_coordinator::config::{BoundType, DataType, GroupType, MaskConfig, ModelType};
use xaynet_coordinator::masks::{weight_from_u64, MaskObject, MaskUnit, MaskVect};

pub fn mask_config() -> (MaskConfig, Vec<u8>) {
    // config.order() = 20_000_000_000_001 with this config, so the data
    // should be stored on 6 bytes.
    let config = MaskConfig {
        group_type: GroupType::Integer,
        data_type: DataType::I32,
        bound_type: BoundType::B0,
        model_type: ModelType::M3,
    };
    let bytes = vec![0x00, 0x02, 0x00, 0x03];
    (config, bytes)
}

fn weight(config: &MaskConfig, value: u64) -> Vec<u8> {
    weight_from_u64(config, value).unwrap()
}

pub fn mask_vect() -> (MaskVect, Vec<u8>) {
    let (config, mut bytes) = mask_config();
    let data = vec![
        weight(&config, 1),
        weight(&config, 2),
        weight(&config, 3),
        weight(&config, 4),
    ];
    let mask_vect = MaskVect::new(config, data);

    bytes.extend(vec![
        // number of elements
        0x00, 0x00, 0x00, 0x04, // data (1 weight => 6 bytes with this config)
        0x01, 0x00, 0x00, 0x00, 0x00, 0x00, // 1
        0x02, 0x00, 0x00, 0x00, 0x00, 0x00, // 2
        0x03, 0x00, 0x00, 0x00, 0x00, 0x00, // 3
        0x04, 0x00, 0x00, 0x00, 0x00, 0x00, // 4
    ]);

    (mask_vect, bytes)
}

pub fn mask_unit() -> (MaskUnit, Vec<u8>) {
    let (config, mut bytes) = mask_config();
    let data = weight(&config, 1);
    let mask_unit = MaskUnit::new(config, data);

    bytes.extend(vec![
        // number of elements
        0x00, 0x00, 0x00, 0x01, // data
        0x01, 0x00, 0x00, 0x00, 0x00, 0x00, // 1
    ]);
    (mask_unit, bytes)
}

pub fn mask_object() -> (MaskObject, Vec<u8>) {
    let (mask_vect, mask_vect_bytes) = mask_vect();
    let (mask_unit, mask_unit_bytes) = mask_unit();
    let obj = MaskObject::new(mask_vect, mask_unit);
    let bytes = [mask_vect_bytes.as_slice(), mask_unit_bytes.as_slice()].concat();

    (obj, bytes)
}

#[test]
fn serialize_mask_object() {
    let (mask_object, expected) = mask_object();
    let mut buf = vec![0xff; 46];
    mask_object.to_bytes(&mut buf);
    assert_eq!(buf, expected);
}

#[test]
fn deserialize_mask_object() {
    let (expected, bytes) = mask_object();
    assert_eq!(MaskObject::from_byte_slice(&bytes).unwrap(), expected);
}

#[test]
fn deserialize_mask_object_from_stream() {
    let (expected, bytes) = mask_object();
    let mut stream = ByteStream::new(bytes);
    assert_eq!(MaskObject::from_byte_stream(&mut stream).unwrap(), expected);
}

#[test]
fn serialize_mask_vect() {
    let (mask_vect, expected) = mask_vect();
    let mut buf = vec![0xff; expected.len()];
    mask_vect.to_bytes(&mut buf);
    assert_eq!(buf, expected);
}

#[test]
fn deserialize_mask_vect() {
    let (expected, bytes) = mask_vect();
    assert_eq!(MaskVect::from_byte_slice(&bytes).unwrap(), expected);
}

#[test]
fn deserialize_mask_vect_from_stream() {
    let (expected, bytes) = mask_vect();
    let mut stream = ByteStream::new(bytes);
    assert_eq!(MaskVect::from_byte_stream(&mut stream).unwrap(), expected);
}

#[test]
fn serialize_mask_unit() {
    let (mask_unit, expected) = mask_unit();
    let mut buf = vec![0xff; expected.len()];
    mask_unit.to_bytes(&mut buf);
    assert_eq!(buf, expected);
}

#[test]
fn deserialize_mask_unit() {
    let (expected, bytes) = mask_unit();
    assert_eq!(MaskUnit::from_byte_slice(&bytes).unwrap(), expected);
}

#[test]
fn deserialize_mask_unit_from_stream() {
    let (expected, bytes) = mask_unit();
    let mut stream = ByteStream::new(bytes);
    assert_eq!(MaskUnit::from_byte_stream(&mut stream).unwrap(), expected);
}

#[test]
fn reject_short_buffer() {
    let bytes = vec![0x00, 0x02, 0x00];
    assert_eq!(
        MaskVect::from_byte_slice(&bytes).unwrap_err(),
        DecodeError::TooShort
    );
}

#[test]
fn reject_unknown_config() {
    let (_, mut bytes) = mask_vect();
    // no group type is encoded as 9
    bytes[0] = 0x09;
    assert_eq!(
        MaskVect::from_byte_slice(&bytes).unwrap_err(),
        DecodeError::InvalidConfig
    );
}

#[test]
fn reject_trailing_bytes() {
    let (_, mut bytes) = mask_vect();
    bytes.push(0x00);
    assert_eq!(
        MaskVect::from_byte_slice(&bytes).unwrap_err(),
        DecodeError::TrailingBytes
    );
}

#[test]
fn reject_weight_out_of_range() {
    let (_, mut bytes) = mask_vect();
    // turn the first weight into the group order, 20_000_000_000_001,
    // which is one past the largest residue
    let order_le = [0x01, 0x40, 0xe5, 0x9c, 0x30, 0x12];
    bytes[8..14].copy_from_slice(&order_le);
    assert_eq!(
        MaskVect::from_byte_slice(&bytes).unwrap_err(),
        DecodeError::WeightOutOfRange
    );
}

#[test]
fn reject_unit_with_wrong_count() {
    let (_, mut bytes) = mask_unit();
    // a unit must announce exactly one element
    bytes[7] = 0x02;
    assert_eq!(
        MaskUnit::from_byte_slice(&bytes).unwrap_err(),
        DecodeError::InvalidUnitCount
    );
}

#[test]
fn stream_leaves_the_rest() {
    let (expected_vect, vect_bytes) = mask_vect();
    let (expected_unit, unit_bytes) = mask_unit();
    let mut bytes = vect_bytes;
    bytes.extend(unit_bytes);
    let mut stream = ByteStream::new(bytes);
    assert_eq!(MaskVect::from_byte_stream(&mut stream).unwrap(), expected_vect);
    assert_eq!(MaskUnit::from_byte_stream(&mut stream).unwrap(), expected_unit);
    assert_eq!(stream.left(), 0);
}

#[test]
fn buffer_regions() {
    let (_, bytes) = mask_object();
    let (_, vect_bytes) = mask_vect();
    let (_, unit_bytes) = mask_unit();
    let buffer = MaskObjectBuffer::new(bytes.clone()).unwrap();
    assert_eq!(buffer.unit_offset(), vect_bytes.len());
    assert_eq!(buffer.vect(), vect_bytes);
    assert_eq!(buffer.unit(), unit_bytes);
    assert_eq!(buffer.len(), bytes.len());
    assert!(buffer.check_buffer_length().is_ok());

    let mut writer = MaskObjectBuffer::new_unchecked(vec![0u8; bytes.len()]);
    writer.vect_mut(&vect_bytes);
    writer.unit_mut(&unit_bytes);
    assert_eq!(writer.inner, bytes);
}

#[test]
fn mask_object_buffer_rejects_short_input() {
    assert!(MaskObjectBuffer::new(vec![0x00, 0x02, 0x00, 0x03]).is_err());
}
