use transmission_proxy::codec::{decode, encode, Bencode};

fn roundtrip(input: &[u8]) {
    let bytes: Vec<u8> = input.to_vec();
    let v = decode(&bytes).expect("canonical input must decode");
    let out = encode(&v);
    assert_eq!(out, bytes);
}

#[test]
fn decode_integer() {
    let v = decode(&b"i42e".to_vec()).unwrap();
    assert!(matches!(v, Bencode::Int(42)));
}

#[test]
fn decode_negative_integer() {
    let v = decode(&b"i-7e".to_vec()).unwrap();
    assert!(matches!(v, Bencode::Int(-7)));
}

#[test]
fn decode_zero() {
    let v = decode(&b"i0e".to_vec()).unwrap();
    assert!(matches!(v, Bencode::Int(0)));
}

#[test]
fn decode_extreme_integers() {
    let v = decode(&b"i9223372036854775807e".to_vec()).unwrap();
    assert!(matches!(v, Bencode::Int(i64::MAX)));
    let v = decode(&b"i-9223372036854775808e".to_vec()).unwrap();
    assert!(matches!(v, Bencode::Int(i64::MIN)));
}

#[test]
fn reject_integer_overflow() {
    assert!(decode(&b"i9223372036854775808e".to_vec()).is_err());
    assert!(decode(&b"i99999999999999999999999999e".to_vec()).is_err());
}

#[test]
fn reject_leading_zero() {
    assert!(decode(&b"i01e".to_vec()).is_err());
    assert!(decode(&b"i-0e".to_vec()).is_err());
    assert!(decode(&b"01:x".to_vec()).is_err());
}

#[test]
fn decode_byte_string() {
    let v = decode(&b"4:spam".to_vec()).unwrap();
    match v {
        Bencode::Bytes(b) => assert_eq!(b, b"spam".to_vec()),
        _ => panic!("expected bytes"),
    }
}

#[test]
fn decode_empty_byte_string() {
    let v = decode(&b"0:".to_vec()).unwrap();
    match v {
        Bencode::Bytes(b) => assert!(b.is_empty()),
        _ => panic!("expected bytes"),
    }
}

#[test]
fn reject_truncated_string() {
    assert!(decode(&b"4:ab".to_vec()).is_err());
    assert!(decode(&b"4".to_vec()).is_err());
    assert!(decode(&b"4:".to_vec()).is_err());
}

#[test]
fn decode_list() {
    let v = decode(&b"l4:spami7ee".to_vec()).unwrap();
    match v {
        Bencode::List(items) => {
            assert_eq!(items.len(), 2);
            assert!(matches!(items[1], Bencode::Int(7)));
        }
        _ => panic!("expected list"),
    }
}

#[test]
fn decode_dict_sorted() {
    let v = decode(&b"d3:aaai1e3:bbbi2ee".to_vec()).unwrap();
    match v {
        Bencode::Dict(pairs) => {
            assert_eq!(pairs.len(), 2);
            assert_eq!(pairs[0].0, b"aaa".to_vec());
            assert_eq!(pairs[1].0, b"bbb".to_vec());
        }
        _ => panic!("expected dict"),
    }
}

#[test]
fn reject_unsorted_dict() {
    assert!(decode(&b"d3:bbbi1e3:aaai2ee".to_vec()).is_err());
}

#[test]
fn reject_duplicate_keys() {
    assert!(decode(&b"d1:ai1e1:ai2ee".to_vec()).is_err());
}

#[test]
fn reject_trailing_bytes() {
    assert!(decode(&b"i1ex".to_vec()).is_err());
}

#[test]
fn reject_empty_input() {
    assert!(decode(&Vec::new()).is_err());
}

#[test]
fn roundtrip_samples() {
    roundtrip(b"i42e");
    roundtrip(b"i-9223372036854775808e");
    roundtrip(b"0:");
    roundtrip(b"4:spam");
    roundtrip(b"le");
    roundtrip(b"de");
    roundtrip(b"l4:spami7eli1eee");
    roundtrip(b"d8:announce12:http://old/x4:infod4:name3:fooee");
    roundtrip(b"d8:announce12:http://old/x13:announce-listll12:http://old/xee4:infod6:lengthi123e4:name3:fooee");
}
