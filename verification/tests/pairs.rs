use vintage::record::get_values::GetValues;
use vintage::record::pairs::{
    bytes_lt, from_record_bytes, read_pair_len, to_record_bytes, write_pair_len, Pairs,
};
use vintage::record::params::Params;
use vintage::record::Record;

fn encoded(record: &Record) -> Vec<u8> {
    let mut bytes = vec![];
    record.write_bytes(&mut bytes);
    bytes
}

fn round_trip(record: Record) {
    let bytes = encoded(&record);
    assert_eq!(Record::from_bytes(record.type_id(), bytes), Ok(record));
}

#[test]
fn empty_params() {
    assert_eq!(encoded(&Record::Params(Params::default())), Vec::<u8>::new());
    round_trip(Record::Params(Params::default()));
}

#[test]
fn one_pair_with_an_empty_value() {
    let record = Record::Params(Params::default().add("NAME", ""));
    assert_eq!(encoded(&record), vec![4, 0, b'N', b'A', b'M', b'E']);
    round_trip(record);
}

#[test]
fn a_name_of_200_bytes() {
    let name = "n".repeat(200);
    let record = Record::Params(Params::default().add(&name, "v"));
    let bytes = encoded(&record);
    assert_eq!(&bytes[..5], &[0x80, 0, 0, 200, 1]);
    assert_eq!(bytes.len(), 4 + 1 + 200 + 1);
    round_trip(record);
}

#[test]
fn lengths_up_to_127_take_one_byte_and_longer_ones_four() {
    for (len, expected) in [
        (0usize, vec![0u8]),
        (1, vec![1]),
        (126, vec![126]),
        (127, vec![127]),
        (128, vec![0x80, 0, 0, 128]),
        (255, vec![0x80, 0, 0, 255]),
        (256, vec![0x80, 0, 1, 0]),
        (65535, vec![0x80, 0, 0xff, 0xff]),
        (65536, vec![0x80, 1, 0, 0]),
        (5 * 65535, vec![0x80, 4, 0xff, 0xfb]),
        (0x0102_0304, vec![0x81, 2, 3, 4]),
    ] {
        let value = "v".repeat(len);
        let mut bytes = vec![];
        write_pair_len("", &value, &mut bytes);
        assert_eq!(bytes[0], 0);
        assert_eq!(&bytes[1..], expected.as_slice());
        if len <= 127 {
            assert_eq!(bytes.len(), 2);
        } else {
            assert_eq!(bytes.len(), 5);
            assert!(bytes[1] & 0x80 != 0);
        }
        assert_eq!(read_pair_len(&bytes, 0), Ok((0, 1)));
        assert_eq!(read_pair_len(&bytes, 1), Ok((len as u32, bytes.len())));

        let mut bytes = vec![];
        write_pair_len(&value, "", &mut bytes);
        assert_eq!(&bytes[..bytes.len() - 1], expected.as_slice());
        assert_eq!(bytes[bytes.len() - 1], 0);
    }
}

#[test]
fn reading_lengths() {
    assert_eq!(read_pair_len(&[0x7f], 0), Ok((127, 1)));
    assert_eq!(read_pair_len(&[9, 0xff, 0xff, 0xff, 0xff], 1), Ok((0x7fff_ffff, 5)));
    assert_eq!(read_pair_len(&[0x80, 0, 0, 5, 1], 0), Ok((5, 4)));
    assert!(read_pair_len(&[], 0).is_err());
    assert!(read_pair_len(&[1], 1).is_err());
    assert!(read_pair_len(&[0x80, 0, 0], 0).is_err());
}

#[test]
fn values_of_every_boundary_length_come_back() {
    for len in [0usize, 127, 128, 65535, 65536, 5 * 65535] {
        let value = "x".repeat(len);
        round_trip(Record::Params(
            Params::default().add("A", &value).add(&value, "B").add("C", ""),
        ));
    }
}

#[test]
fn pairs_are_written_in_the_order_in_which_they_were_set() {
    let params = Params::default().add("b", "1").add("a", "2").add("b", "3");
    assert_eq!(
        encoded(&Record::Params(params.clone())),
        vec![1, 1, b'b', b'3', 1, 1, b'a', b'2']
    );
    assert_eq!(params.get("b"), Some("3"));
    assert_eq!(params.get("a"), Some("2"));
    assert_eq!(params.get("c"), None);
}

#[test]
fn a_name_that_comes_twice_takes_the_later_value() {
    let bytes = vec![1, 1, b'a', b'1', 1, 1, b'b', b'2', 1, 1, b'a', b'3'];
    let pairs = from_record_bytes(bytes).unwrap();
    assert_eq!(pairs.len(), 2);
    assert_eq!((pairs.name_at(0), pairs.value_at(0)), ("a", "3"));
    assert_eq!((pairs.name_at(1), pairs.value_at(1)), ("b", "2"));
    let mut out = vec![9];
    to_record_bytes(&pairs, &mut out);
    assert_eq!(out, vec![9, 1, 1, b'a', b'3', 1, 1, b'b', b'2']);
}

#[test]
fn names_that_are_not_ascii() {
    let record = Record::Params(Params::default().add("clé", "värde").add("鍵", "値"));
    let bytes = encoded(&record);
    assert_eq!(bytes[0], 4);
    assert_eq!(bytes[1], 6);
    round_trip(record);
}

#[test]
fn the_map() {
    let mut pairs = Pairs::new();
    assert_eq!(pairs.len(), 0);
    pairs.insert("one".into(), "1".into());
    pairs.insert("two".into(), "2".into());
    pairs.insert("one".into(), "uno".into());
    assert_eq!(pairs.len(), 2);
    assert_eq!(pairs.find("one"), Some(0));
    assert_eq!(pairs.find("two"), Some(1));
    assert_eq!(pairs.find("three"), None);
    assert_eq!(pairs.get("one"), Some("uno"));
    assert_eq!(pairs.clone(), pairs);
    assert_eq!(pairs.remove("one"), Some("uno".to_string()));
    assert_eq!(pairs.remove("one"), None);
    assert_eq!(pairs.len(), 1);
    assert_eq!(pairs.name_at(0), "two");
    let taken = pairs.take();
    assert_eq!(pairs.len(), 0);
    assert_eq!(pairs, Pairs::default());
    assert_eq!(taken.get("two"), Some("2"));
}

#[test]
fn placing_names_in_order() {
    let pairs = Pairs::new()
        .place("m".into(), "1".into())
        .place("z".into(), "2".into())
        .place("a".into(), "3".into())
        .place("mm".into(), "4".into())
        .place("M".into(), "5".into())
        .place("m".into(), "6".into());
    let names: Vec<&str> = (0..pairs.len()).map(|i| pairs.name_at(i)).collect();
    assert_eq!(names, vec!["M", "a", "m", "mm", "z"]);
    assert_eq!(pairs.get("m"), Some("6"));
}

#[test]
fn the_order_of_strings() {
    assert!(bytes_lt(b"", b"a"));
    assert!(!bytes_lt(b"", b""));
    assert!(!bytes_lt(b"a", b""));
    assert!(bytes_lt(b"a", b"b"));
    assert!(!bytes_lt(b"b", b"a"));
    assert!(bytes_lt(b"a", b"ab"));
    assert!(!bytes_lt(b"ab", b"a"));
    assert!(!bytes_lt(b"ab", b"ab"));
    assert!(bytes_lt(b"Z", b"a"));
    for (a, b) in [("Location", "Status"), ("Content-Type", "Status"), ("a", "é")] {
        assert_eq!(bytes_lt(a.as_bytes(), b.as_bytes()), a < b);
        assert_eq!(bytes_lt(b.as_bytes(), a.as_bytes()), b < a);
    }
}

#[test]
fn get_values_names() {
    let record = GetValues::default().add("B").add("A").add("B");
    assert_eq!(record.get_variables(), vec!["B".to_string(), "A".to_string()]);
    assert_eq!(
        encoded(&Record::GetValues(record)),
        vec![1, 0, b'B', 1, 0, b'A']
    );
}
