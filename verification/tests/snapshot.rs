use std::collections::HashMap;
use std::fmt::Debug;

use void_runtime::ecs::EntityId;
use void_runtime::input::ButtonState;
use void_runtime::snapshot::{Deserialize, Deserializer, Error, Serialize, SerializeMut, Serializer};
use void_runtime::text::TextId;
use void_runtime::snapshot_avec::AlignedBytes;

fn there_and_back_again<T: Serialize + Deserialize>(val: &T) -> T {
    let mut serializer = Serializer::new(Vec::new());
    val.serialize(&mut serializer).unwrap();
    let serialized = serializer.into_writer();

    let mut deserializer = Deserializer::new(serialized.as_slice());
    match T::deserialize(&mut deserializer) {
        Ok(v) => v,
        Err(e) => panic!("deserialize failed: {}", e.message()),
    }
}

fn there_and_back_in_place<T: Serialize + Deserialize>(mut val: T) -> T {
    let mut serializer = Serializer::new(Vec::new());
    val.serialize(&mut serializer).unwrap();
    let serialized = serializer.into_writer();

    let mut deserializer = Deserializer::new(serialized.as_slice());
    val.deserialize_in_place(&mut deserializer).unwrap();
    val
}

fn there_and_back_both<T: Serialize + Deserialize + Clone + Eq + Debug>(val: T) {
    let res = there_and_back_again(&val);
    assert_eq!(val, res);

    let res = there_and_back_in_place(val.clone());
    assert_eq!(val, res);
}

fn bytes_of<T: Serialize>(val: &T) -> Vec<u8> {
    let mut serializer = Serializer::new(Vec::new());
    val.serialize(&mut serializer).unwrap();
    serializer.into_writer()
}

#[test]
fn serialize_bool() {
    there_and_back_both(true);
}

#[test]
fn serialize_int() {
    there_and_back_both(123_u32);
}

#[test]
fn serialize_usize() {
    there_and_back_both(123_usize);
}

#[test]
fn serialize_option() {
    there_and_back_both(None::<u32>);
    there_and_back_both(Some(123_u32));
}

#[test]
fn serialize_array() {
    there_and_back_both([1, 2, 3]);
}

#[test]
fn serialize_boxed_bytes() {
    let bytes: Box<[u8]> = vec![1u8, 2, 3].into_boxed_slice();

    let res = there_and_back_again::<Box<[u8]>>(&bytes);

    assert_eq!(&bytes[..], &res[..]);
}

#[test]
fn serialize_string() {
    there_and_back_both(String::from("test"));
}

#[test]
fn serialize_vec_pod() {
    there_and_back_both(vec![1, 2, 3]);
}

#[test]
fn serialize_vec() {
    there_and_back_both(vec![
        String::from("test1"),
        String::from("test2"),
        String::from("test3"),
    ]);
}

#[test]
fn serialize_avec() {
    let bytes = [1u8, 2, 3];

    let mut vec = AlignedBytes::new();
    vec.extend_from_slice(&bytes);

    let res = there_and_back_again(&vec);

    assert_eq!(&bytes[..], res.as_slice());
}

#[test]
fn serialize_map() {
    there_and_back_both(HashMap::from([
        (String::from("test1"), 1),
        (String::from("test2"), 2),
        (String::from("test3"), 3),
    ]));
}

#[test]
fn serialize_multiple() {
    let map = HashMap::from([
        (String::from("test1"), 1),
        (String::from("test2"), 2),
        (String::from("test3"), 3),
    ]);

    let vec = vec![
        String::from("test1"),
        String::from("test2"),
        String::from("test3"),
    ];

    let array = [1, 2, 3];

    let mut serializer = Serializer::new(Vec::new());

    map.serialize(&mut serializer).unwrap();
    vec.serialize(&mut serializer).unwrap();
    array.serialize(&mut serializer).unwrap();

    let serialized = serializer.into_writer();

    let mut deserializer = Deserializer::new(serialized.as_slice());

    assert_eq!(map, HashMap::deserialize(&mut deserializer).unwrap());
    assert_eq!(vec, Vec::<String>::deserialize(&mut deserializer).unwrap());
    assert_eq!(array, <[i32; 3]>::deserialize(&mut deserializer).unwrap());
}

#[test]
fn map_is_length_then_entries() {
    let map = HashMap::from([(7_u8, 9_u16)]);
    assert_eq!(bytes_of(&map), vec![1, 0, 0, 0, 7, 9, 0]);
}

#[test]
fn map_with_repeated_key_keeps_last_value() {
    let bytes = [2u8, 0, 0, 0, 5, 1, 5, 2];
    let mut deserializer = Deserializer::new(&bytes[..]);
    let map: HashMap<u8, u8> = HashMap::deserialize(&mut deserializer).unwrap();
    assert_eq!(map, HashMap::from([(5, 2)]));
}

// ---------------------------------------------------------------- wire bytes

#[test]
fn integers_are_their_bytes_in_memory() {
    assert_eq!(bytes_of(&0x0102_0304_u32), 0x0102_0304_u32.to_ne_bytes().to_vec());
    assert_eq!(bytes_of(&-2_i16), (-2_i16).to_ne_bytes().to_vec());
    assert_eq!(bytes_of(&1_u64), 1_u64.to_ne_bytes().to_vec());
    assert_eq!(bytes_of(&-300_i64), (-300_i64).to_ne_bytes().to_vec());
    assert_eq!(bytes_of(&0xabcd_u16), 0xabcd_u16.to_ne_bytes().to_vec());
}

#[test]
fn bool_is_one_byte() {
    assert_eq!(bytes_of(&true), vec![1]);
    assert_eq!(bytes_of(&false), vec![0]);
}

#[test]
fn usize_is_written_as_u32() {
    assert_eq!(bytes_of(&7_usize), 7_u32.to_ne_bytes().to_vec());
}

#[test]
fn usize_too_large_is_refused() {
    let mut serializer = Serializer::new(Vec::new());
    let r = (u32::MAX as usize + 1).serialize(&mut serializer);
    match r {
        Err(Error::Serialize(m)) => assert_eq!(
            m,
            "Serializer::serialize_usize(4294967296) overflowed max length\n\
             out of range integral type conversion attempted"
        ),
        _ => panic!("expected a serialize error"),
    }
    assert!(serializer.into_writer().is_empty());
}

#[test]
fn option_has_a_tag_byte() {
    assert_eq!(bytes_of(&None::<u8>), vec![0]);
    assert_eq!(bytes_of(&Some(9_u8)), vec![1, 9]);
}

#[test]
fn string_is_length_then_bytes() {
    assert_eq!(bytes_of(&String::from("ab")), vec![2, 0, 0, 0, b'a', b'b']);
}

#[test]
fn vec_is_length_then_elements() {
    assert_eq!(bytes_of(&vec![1_u16, 2]), vec![2, 0, 0, 0, 1, 0, 2, 0]);
}

#[test]
fn array_has_no_length() {
    assert_eq!(bytes_of(&[1_u8, 2, 3]), vec![1, 2, 3]);
}

#[test]
fn tuple_is_its_fields_in_order() {
    assert_eq!(bytes_of(&(1_u8, 2_u16)), vec![1, 2, 0]);
    there_and_back_both((1_u8, String::from("x"), -5_i64));
}

#[test]
fn pod_vec_round_trip() {
    let v = vec![10_u32, 20, 30];
    let mut serializer = Serializer::new(Vec::new());
    serializer.serialize_pod_vec(&v).unwrap();
    let bytes = serializer.into_writer();
    assert_eq!(bytes, bytes_of(&v));
    let mut deserializer = Deserializer::new(bytes.as_slice());
    let back: Vec<u32> = deserializer.deserialize_pod_vec().unwrap();
    assert_eq!(back, v);
}

#[test]
fn uninit_bytes_round_trip() {
    let mut serializer = Serializer::new(Vec::new());
    serializer.serialize_uninit_bytes(&[5, 6, 7]).unwrap();
    let bytes = serializer.into_writer();
    assert_eq!(bytes, vec![5, 6, 7]);
    let mut deserializer = Deserializer::new(bytes.as_slice());
    let back = deserializer.deserialize_uninit_bytes(2).unwrap();
    assert_eq!(back, vec![5, 6]);
    let mut rest = [0u8; 1];
    deserializer.deserialize_into_uninit_bytes(&mut rest).unwrap();
    assert_eq!(rest, [7]);
}

// ---------------------------------------------------------------- errors

#[test]
fn truncated_input_is_refused() {
    let mut deserializer = Deserializer::new(&[1u8, 2][..]);
    assert!(u32::deserialize(&mut deserializer).is_err());
}

#[test]
fn bad_bool_byte_is_refused() {
    let mut deserializer = Deserializer::new(&[2u8][..]);
    assert!(bool::deserialize(&mut deserializer).is_err());
}

#[test]
fn bad_option_tag_is_refused() {
    let mut deserializer = Deserializer::new(&[7u8, 1][..]);
    assert!(Option::<u8>::deserialize(&mut deserializer).is_err());
}

#[test]
fn invalid_utf8_is_refused() {
    let mut deserializer = Deserializer::new(&[2u8, 0, 0, 0, 0xff, 0xfe][..]);
    assert!(String::deserialize(&mut deserializer).is_err());
}

#[test]
fn vec_shorter_than_its_length_is_refused() {
    let mut deserializer = Deserializer::new(&[3u8, 0, 0, 0, 1, 0][..]);
    assert!(Vec::<u16>::deserialize(&mut deserializer).is_err());
}

#[test]
fn vec_in_place_reuses_and_resizes() {
    let mut target = vec![String::from("a"), String::from("b"), String::from("c")];
    let bytes = bytes_of(&vec![String::from("x")]);
    let mut deserializer = Deserializer::new(bytes.as_slice());
    target.deserialize_in_place(&mut deserializer).unwrap();
    assert_eq!(target, vec![String::from("x")]);
}

#[test]
fn entity_id_round_trip_and_zero_is_refused() {
    let e = EntityId::new(0x0102);
    assert_eq!(bytes_of(&e), vec![2, 1, 0, 0, 0, 0, 0, 0]);
    assert_eq!(there_and_back_again(&e), e);
    let zeros = [0u8; 8];
    let mut deserializer = Deserializer::new(&zeros[..]);
    assert!(matches!(EntityId::deserialize(&mut deserializer), Err(Error::Deserialize(_))));
}

#[test]
fn text_id_round_trip_and_zero_is_refused() {
    let t = TextId::try_from(9).unwrap();
    assert_eq!(bytes_of(&t), vec![9, 0, 0, 0]);
    assert_eq!(there_and_back_again(&t), t);
    let zeros = [0u8; 4];
    let mut deserializer = Deserializer::new(&zeros[..]);
    assert!(TextId::deserialize(&mut deserializer).is_err());
}

#[test]
fn button_state_is_its_history_byte() {
    assert_eq!(bytes_of(&ButtonState(0b101)), vec![5]);
    assert_eq!(there_and_back_again(&ButtonState(3)).0, 3);
}

#[test]
fn vec_serialize_mut_writes_the_same_bytes() {
    let mut v = vec![1_u32, 2, 3];
    let mut serializer = Serializer::new(Vec::new());
    v.serialize_mut(&mut serializer).unwrap();
    assert_eq!(serializer.into_writer(), bytes_of(&v));
    assert_eq!(v, vec![1, 2, 3]);
}

#[test]
fn error_message_names_the_kind() {
    let e = Error::Write(String::from("disk full"));
    assert_eq!(e.message(), "snapshot error: Kind = Write, Error = disk full");
}

#[test]
fn pod_vec_is_length_then_element_bytes() {
    let v = vec![0x0102_0304_u32, 5];
    let mut serializer = Serializer::new(Vec::new());
    serializer.serialize_pod_vec(&v).unwrap();
    assert_eq!(serializer.into_writer(), vec![2, 0, 0, 0, 4, 3, 2, 1, 5, 0, 0, 0]);
}

#[test]
fn short_read_fills_what_there_is_then_fails() {
    let mut deserializer = Deserializer::new(&[1u8, 2][..]);
    let mut buf = [0u8; 4];
    match deserializer.deserialize_into_uninit_bytes(&mut buf) {
        Err(Error::Read(m)) => assert_eq!(m, "failed to fill whole buffer"),
        _ => panic!("expected a read error"),
    }
    assert_eq!(&buf[..2], &[1, 2]);
    let mut one = [0u8; 1];
    assert!(deserializer.deserialize_into_uninit_bytes(&mut one).is_err());
}

#[test]
fn aligned_bytes_write_their_alignment() {
    let vec = AlignedBytes::from_bytes(&[9, 8]);
    let bytes = bytes_of(&vec);
    assert_eq!(&bytes[..4], &2_u32.to_ne_bytes());
    let align = u32::from_ne_bytes([bytes[4], bytes[5], bytes[6], bytes[7]]);
    assert_eq!(align as usize, vec.alignment());
    assert!([32, 64, 128, 256].contains(&align));
    assert_eq!(&bytes[8..], &[9, 8]);
}

#[test]
fn vec_of_strings_reads_back_in_place_whatever_it_held() {
    let v = vec![String::from("test1"), String::from("test2"), String::from("test3")];
    let bytes = bytes_of(&v);
    for start in [vec![], vec![String::from("x")], vec![String::new(); 5]] {
        let mut w = start;
        let mut deserializer = Deserializer::new(bytes.as_slice());
        w.deserialize_in_place(&mut deserializer).unwrap();
        assert_eq!(w, v);
    }
}
