use ruuvi_exporter::addr::{Address, InvalidAddress};

fn err_text(r: Result<Address, InvalidAddress>) -> String {
    match r {
        Ok(a) => panic!("unexpected address {:?}", a),
        Err(e) => e.0,
    }
}

#[test]
fn any_is_all_zeros() {
    let a = Address::any();
    assert_eq!(a.0, [0; 6]);
    assert_eq!(a.to_string(), "00:00:00:00:00:00");
    assert_eq!(Address::default(), a);
}

#[test]
fn new_keeps_bytes() {
    let a = Address::new([0xC4, 0x47, 0x33, 0x92, 0xF2, 0x96]);
    assert_eq!(a.0, [0xC4, 0x47, 0x33, 0x92, 0xF2, 0x96]);
    assert_eq!(*a.bytes(), [0xC4, 0x47, 0x33, 0x92, 0xF2, 0x96]);
}

#[test]
fn display_is_upper_case_colon_hex() {
    let a = Address::new([0x01, 0x23, 0x45, 0x67, 0x89, 0xab]);
    assert_eq!(a.to_string(), "01:23:45:67:89:AB");
    let b = Address::new([0xff, 0x0f, 0xf0, 0x00, 0x10, 0x01]);
    assert_eq!(b.to_string(), "FF:0F:F0:00:10:01");
}

#[test]
fn parse_valid_address() {
    let a = Address::from_str("C4:47:33:92:F2:96").unwrap();
    assert_eq!(a.0, [0xC4, 0x47, 0x33, 0x92, 0xF2, 0x96]);
    let b: Address = "c4:47:33:92:f2:96".parse().unwrap();
    assert_eq!(b, a);
}

#[test]
fn parse_accepts_what_hex_fields_accept() {
    // one digit, a plus sign and leading zeros are all read as hexadecimal numbers
    let a = Address::from_str("1:+2:003:0004:5:ff").unwrap();
    assert_eq!(a.0, [1, 2, 3, 4, 5, 255]);
}

#[test]
fn parse_reports_first_bad_field() {
    assert_eq!(err_text(Address::from_str("C4:zz:33:92:F2:96")), "zz");
    assert_eq!(err_text(Address::from_str("C4:100:33:92:F2:96")), "100");
    assert_eq!(err_text(Address::from_str("C4::33:92:F2:96")), "");
    assert_eq!(err_text(Address::from_str("C4:-1:33:92:F2:96")), "-1");
    assert_eq!(err_text(Address::from_str("C4:+:33:92:F2:96")), "+");
    // the bad field is reported even where there are too many fields
    assert_eq!(err_text(Address::from_str("1:2:3:4:5:6:x")), "x");
    assert_eq!(err_text(Address::from_str("")), "");
}

#[test]
fn parse_reports_whole_text_for_wrong_field_count() {
    assert_eq!(err_text(Address::from_str("C4:47:33")), "C4:47:33");
    assert_eq!(err_text(Address::from_str("1:2:3:4:5:6:7")), "1:2:3:4:5:6:7");
    assert_eq!(err_text(Address::from_str("C4")), "C4");
}

#[test]
fn address_round_trip_through_text() {
    for seed in 0u16..300 {
        let b = (seed % 256) as u8;
        let bytes = [b, b.wrapping_mul(7), b ^ 0x5a, 255 - b, b.wrapping_add(13), (seed / 2) as u8];
        let a = Address::new(bytes);
        assert_eq!(Address::from_str(&a.to_string()).unwrap(), a);
    }
}

#[test]
fn conversions_between_bytes_and_address() {
    let bytes = [9u8, 8, 7, 6, 5, 4];
    let a: Address = Address::from(bytes);
    assert_eq!(a.0, bytes);
    let back: [u8; 6] = a.into();
    assert_eq!(back, bytes);
}

#[test]
fn invalid_address_message() {
    let e = InvalidAddress("zz".to_string());
    assert_eq!(e.to_string(), "invalid Bluetooth address: zz");
}

#[test]
fn address_derefs_to_its_bytes() {
    let a = Address::new([0xC4, 0x47, 0x33, 0x92, 0xF2, 0x96]);
    assert_eq!(a[0], 0xC4);
    assert_eq!(a.len(), 6);
}

#[test]
fn lower_case_address_text_reads_back() {
    for seed in 0u16..300 {
        let b = (seed % 256) as u8;
        let a = Address::new([b, 255 - b, b ^ 0xa5, b.wrapping_mul(3), 0xab, (seed / 3) as u8]);
        assert_eq!(Address::from_str(&a.to_string().to_lowercase()).unwrap(), a);
    }
}
