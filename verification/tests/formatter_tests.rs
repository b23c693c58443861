use h2gb::error::H2Error;
use h2gb::generic_number::context::{Context, Endian};
use h2gb::generic_number::generic_formatter::binary_formatter::BinaryFormatter;
use h2gb::generic_number::generic_formatter::decimal_formatter::DecimalFormatter;
use h2gb::generic_number::generic_formatter::hex_formatter::HexFormatter;
use h2gb::generic_number::generic_formatter::octal_formatter::OctalFormatter;
use h2gb::generic_number::generic_formatter::scientific_formatter::ScientificFormatter;
use h2gb::generic_number::generic_number::GenericNumber;
use h2gb::generic_number::generic_reader::GenericReader;

#[test]
fn test_binary_i8() {
    let data = b"\x00\x00\x12\xab\xFF\xFF\xFF\xFF".to_vec();

    let tests = vec![
        // index    prefix      padded   expected
        (0, true, true, "0b00000000"),
        (1, true, true, "0b00000000"),
        (2, true, true, "0b00010010"),
        (3, true, true, "0b10101011"),
        (4, true, true, "0b11111111"),
        (5, true, true, "0b11111111"),
        (0, false, false, "0"),
        (1, false, false, "0"),
        (2, false, false, "10010"),
        (3, false, false, "10101011"),
        (4, false, false, "11111111"),
        (5, false, false, "11111111"),
    ];

    for (index, padded, prefix, expected) in tests {
        let context = Context::new_at(&data, index);
        let number = GenericReader::U8.read(context).unwrap();

        assert_eq!(
            expected,
            BinaryFormatter::new(prefix, padded).render(number).unwrap(),
        );
    }
}

#[test]
fn test_binary_signed_is_twos_complement() {
    let data = b"\x80\xff\xfe".to_vec();
    let n = GenericReader::I8.read(Context::new(&data)).unwrap();
    assert_eq!(GenericNumber::I8(-128), n);
    assert_eq!("0b10000000", BinaryFormatter::pretty().render(n).unwrap());
    let n = GenericReader::I16(Endian::Big).read(Context::new_at(&data, 1)).unwrap();
    assert_eq!(GenericNumber::I16(-2), n);
    assert_eq!("0b1111111111111110", BinaryFormatter::pretty().render(n).unwrap());
    assert_eq!("1111111111111110", BinaryFormatter::new(false, false).render(n).unwrap());
}

#[test]
fn test_octal_u8() {
    let data = b"\x00\x7F\x80\xFF".to_vec();

    let tests = vec![
        (0, false, false, "0"),
        (1, false, false, "177"),
        (2, false, false, "200"),
        (3, false, false, "377"),
        (0, false, true, "000"),
        (1, false, true, "177"),
        (2, false, true, "200"),
        (3, false, true, "377"),
        (0, true, false, "0o0"),
        (1, true, false, "0o177"),
        (2, true, false, "0o200"),
        (3, true, false, "0o377"),
        (0, true, true, "0o000"),
        (1, true, true, "0o177"),
        (2, true, true, "0o200"),
        (3, true, true, "0o377"),
    ];

    for (index, prefix, padded, expected) in tests {
        let context = Context::new_at(&data, index);
        let number = GenericReader::U8.read(context).unwrap();

        assert_eq!(
            expected,
            OctalFormatter::new(prefix, padded).render(number).unwrap(),
        );
    }
}

#[test]
fn test_octal_u16() {
    let data = b"\x00\x00\x12\x34\xFF\xFF\xFF\xFF".to_vec();

    let tests = vec![
        (0, false, false, "0"),
        (2, false, false, "11064"),
        (4, false, false, "177777"),
        (0, false, true, "000000"),
        (2, false, true, "011064"),
        (4, false, true, "177777"),
        (0, true, false, "0o0"),
        (2, true, false, "0o11064"),
        (4, true, false, "0o177777"),
        (0, true, true, "0o000000"),
        (2, true, true, "0o011064"),
        (4, true, true, "0o177777"),
    ];

    for (index, prefix, padded, expected) in tests {
        let context = Context::new_at(&data, index);
        let number = GenericReader::U16(Endian::Big).read(context).unwrap();

        assert_eq!(
            expected,
            OctalFormatter::new(prefix, padded).render(number).unwrap(),
        );
    }
}

#[test]
fn test_octal_u32() {
    let data = b"\x00\x00\x12\x34\xFF\xFF\xFF\xFF".to_vec();

    let tests = vec![
        (0, false, false, "11064"),
        (2, false, false, "2215177777"),
        (4, false, false, "37777777777"),
        (0, false, true, "00000011064"),
        (2, false, true, "02215177777"),
        (4, false, true, "37777777777"),
        (0, true, false, "0o11064"),
        (2, true, false, "0o2215177777"),
        (4, true, false, "0o37777777777"),
        (0, true, true, "0o00000011064"),
        (2, true, true, "0o02215177777"),
        (4, true, true, "0o37777777777"),
    ];

    for (index, prefix, padded, expected) in tests {
        let context = Context::new_at(&data, index);
        let number = GenericReader::U32(Endian::Big).read(context).unwrap();

        assert_eq!(
            expected,
            OctalFormatter::new(prefix, padded).render(number).unwrap(),
        );
    }
}

#[test]
fn test_octal_u64() {
    let data =
        b"\x00\x00\x12\x34\xFF\xFF\xFF\xFF\xFF\xFF\xFF\xFF\xFF\xFF\xFF\xFF".to_vec();

    let tests = vec![
        (0, false, false, "443237777777777"),
        (8, false, false, "1777777777777777777777"),
        (0, false, true, "0000000443237777777777"),
        (8, false, true, "1777777777777777777777"),
        (0, true, false, "0o443237777777777"),
        (8, true, false, "0o1777777777777777777777"),
        (0, true, true, "0o0000000443237777777777"),
        (8, true, true, "0o1777777777777777777777"),
    ];

    for (index, prefix, padded, expected) in tests {
        let context = Context::new_at(&data, index);
        let number = GenericReader::U64(Endian::Big).read(context).unwrap();

        assert_eq!(
            expected,
            OctalFormatter::new(prefix, padded).render(number).unwrap(),
        );
    }
}

#[test]
fn test_octal_pretty_and_u128_width() {
    assert_eq!("0o40", OctalFormatter::pretty().render(GenericNumber::U8(32)).unwrap());
    let padded = OctalFormatter::new(false, true).render(GenericNumber::U128(1)).unwrap();
    assert_eq!(43, padded.len());
    assert_eq!("0000000000000000000000000000000000000000001", padded);
    let all = OctalFormatter::new(false, true).render(GenericNumber::I128(-1)).unwrap();
    assert_eq!("3777777777777777777777777777777777777777777", all);
}

#[test]
fn test_scientific_u32() {
    let data =
        b"\x00\x00\x00\x00\x7f\xff\xff\xff\x80\x00\x00\x00\xff\xff\xff\xff".to_vec();

    let tests = vec![
        (0, false, "0e0"),
        (4, false, "2.147483647e9"),
        (8, false, "2.147483648e9"),
        (12, false, "4.294967295e9"),
        (0, true, "0E0"),
        (4, true, "2.147483647E9"),
        (8, true, "2.147483648E9"),
        (12, true, "4.294967295E9"),
    ];

    for (index, uppercase, expected) in tests {
        let context = Context::new_at(&data, index);
        let number = GenericReader::U32(Endian::Big).read(context).unwrap();

        assert_eq!(
            expected,
            ScientificFormatter::new(uppercase).render(number).unwrap(),
        );
    }
}

#[test]
fn test_scientific_i32() {
    let data =
        b"\x00\x00\x00\x00\x7f\xff\xff\xff\x80\x00\x00\x00\xff\xff\xff\xff".to_vec();

    let tests = vec![
        (0, false, "0e0"),
        (4, false, "2.147483647e9"),
        (8, false, "-2.147483648e9"),
        (12, false, "-1e0"),
        (0, true, "0E0"),
        (4, true, "2.147483647E9"),
        (8, true, "-2.147483648E9"),
        (12, true, "-1E0"),
    ];

    for (index, uppercase, expected) in tests {
        let context = Context::new_at(&data, index);
        let number = GenericReader::I32(Endian::Big).read(context).unwrap();

        assert_eq!(
            expected,
            ScientificFormatter::new(uppercase).render(number).unwrap(),
        );
    }
}

#[test]
fn test_scientific_matches_std_on_many_values() {
    let values: Vec<u128> = vec![
        0, 1, 9, 10, 11, 99, 100, 101, 110, 1000, 1200, 12345, 1000000, 1234500,
        u64::MAX as u128, u128::MAX, 100000000000000000000000000000000000000,
    ];
    for v in values {
        assert_eq!(
            format!("{:e}", v),
            ScientificFormatter::pretty().render(GenericNumber::U128(v)).unwrap(),
        );
        assert_eq!(
            format!("{:E}", v),
            ScientificFormatter::new(true).render(GenericNumber::U128(v)).unwrap(),
        );
    }
    let signed: Vec<i128> = vec![i128::MIN, -1, -10, -1200, -99, 0, 7, i128::MAX];
    for v in signed {
        assert_eq!(
            format!("{:e}", v),
            ScientificFormatter::pretty().render(GenericNumber::I128(v)).unwrap(),
        );
    }
    assert_eq!("1e2", ScientificFormatter::pretty().render(GenericNumber::U64(100)).unwrap());
}

#[test]
fn test_radix_formatters_match_std() {
    let values: Vec<i64> = vec![i64::MIN, -1, -255, 0, 1, 8, 255, 4096, i64::MAX];
    for v in values {
        let n = GenericNumber::I64(v);
        assert_eq!(format!("{:#018x}", v), HexFormatter::pretty().render(n).unwrap());
        assert_eq!(format!("{:X}", v), HexFormatter::new(true, false, false).render(n).unwrap());
        assert_eq!(format!("{:o}", v), OctalFormatter::new(false, false).render(n).unwrap());
        assert_eq!(format!("{:022o}", v), OctalFormatter::new(false, true).render(n).unwrap());
        assert_eq!(format!("{:064b}", v), BinaryFormatter::new(false, true).render(n).unwrap());
        assert_eq!(format!("{}", v), DecimalFormatter::new().render(n).unwrap());
    }
    let n = GenericNumber::I128(i128::MIN);
    assert_eq!(format!("{}", i128::MIN), DecimalFormatter::new().render(n).unwrap());
    assert_eq!(format!("{:x}", i128::MIN), HexFormatter::new(false, false, false).render(n).unwrap());
}

#[test]
fn test_hex_options() {
    let data = b"\x00\xab".to_vec();
    let number = GenericReader::U16(Endian::Big).read(Context::new_at(&data, 0)).unwrap();
    assert_eq!("0x00ab", HexFormatter::pretty().render(number).unwrap());
    assert_eq!("00AB", HexFormatter::new(true, false, true).render(number).unwrap());
    assert_eq!("0xab", HexFormatter::new(false, true, false).render(number).unwrap());
}

#[test]
fn test_decimal_signedness() {
    let data = b"\xFF\xFF".to_vec();
    let unsigned = GenericReader::U8.read(Context::new_at(&data, 0)).unwrap();
    assert_eq!("255", DecimalFormatter::new().render(unsigned).unwrap());
    let signed = GenericReader::I8.read(Context::new_at(&data, 0)).unwrap();
    assert_eq!("-1", DecimalFormatter::new().render(signed).unwrap());
}

#[test]
fn test_formatters_refuse_floats_and_characters() {
    let float = GenericNumber::F32(0x40490fdb);
    let double = GenericNumber::F64(0x400921fb54442d18);
    let character = GenericNumber::Char('A', 1);
    for n in vec![float, double, character] {
        assert_eq!(Err(H2Error::BadFormatter), BinaryFormatter::pretty().render(n));
        assert_eq!(Err(H2Error::BadFormatter), OctalFormatter::pretty().render(n));
        assert_eq!(Err(H2Error::BadFormatter), HexFormatter::pretty().render(n));
    }
    assert_eq!(Err(H2Error::BadFormatter), ScientificFormatter::pretty().render(character));
    assert_eq!(Err(H2Error::BadFormatter), DecimalFormatter::new().render(character));
    assert_eq!(Err(H2Error::FloatRendering), ScientificFormatter::pretty().render(double));
    assert_eq!(Err(H2Error::FloatRendering), DecimalFormatter::new().render(float));
}

#[test]
fn test_reader_byte_orders_and_bounds() {
    let data = b"\x01\x02\x03\x04\x05\x06\x07\x08".to_vec();
    let c = Context::new(&data);
    assert_eq!(Ok(GenericNumber::U8(0x01)), GenericReader::U8.read(c));
    assert_eq!(Ok(GenericNumber::U16(0x0102)), GenericReader::U16(Endian::Big).read(c));
    assert_eq!(Ok(GenericNumber::U16(0x0201)), GenericReader::U16(Endian::Little).read(c));
    assert_eq!(Ok(GenericNumber::U32(0x01020304)), GenericReader::U32(Endian::Big).read(c));
    assert_eq!(Ok(GenericNumber::U32(0x04030201)), GenericReader::U32(Endian::Little).read(c));
    assert_eq!(
        Ok(GenericNumber::U64(0x0102030405060708)),
        GenericReader::U64(Endian::Big).read(c)
    );
    assert_eq!(
        Ok(GenericNumber::U64(0x0807060504030201)),
        GenericReader::U64(Endian::Little).read(c)
    );
    assert_eq!(Ok(GenericNumber::F32(0x01020304)), GenericReader::F32(Endian::Big).read(c));
    assert_eq!(Err(H2Error::ReadOutOfBounds), GenericReader::U128(Endian::Big).read(c));
    assert_eq!(Err(H2Error::ReadOutOfBounds), GenericReader::U16(Endian::Big).read(c.at(7)));
    assert_eq!(Ok(GenericNumber::U16(0x0708)), GenericReader::U16(Endian::Big).read(c.at(6)));
    assert_eq!(Err(H2Error::ReadOutOfBounds), GenericReader::U8.read(c.at(8)));
    assert_eq!(Err(H2Error::ReadOutOfBounds), GenericReader::U8.read(c.at(u64::MAX)));
    // the cursor that was handed over is where it was
    assert_eq!(0, c.position());
    assert_eq!(Ok(GenericNumber::U8(0x01)), GenericReader::U8.read(c));
}

#[test]
fn test_reader_128_bits() {
    let data: Vec<u8> = (1..=16).collect();
    let c = Context::new(&data);
    assert_eq!(
        Ok(GenericNumber::U128(0x0102030405060708090a0b0c0d0e0f10)),
        GenericReader::U128(Endian::Big).read(c)
    );
    assert_eq!(
        Ok(GenericNumber::U128(0x100f0e0d0c0b0a090807060504030201)),
        GenericReader::U128(Endian::Little).read(c)
    );
    let ones = vec![0xffu8; 16];
    assert_eq!(
        Ok(GenericNumber::I128(-1)),
        GenericReader::I128(Endian::Little).read(Context::new(&ones))
    );
    let mut low = vec![0u8; 16];
    low[0] = 0x80;
    assert_eq!(
        Ok(GenericNumber::I128(i128::MIN)),
        GenericReader::I128(Endian::Big).read(Context::new(&low))
    );
}

#[test]
fn test_exponent_f64() {
    let data = b"\x40\x09\x1e\xb8\x51\xeb\x85\x1f\x40\x09\x33\x33\x33\x33\x33\x33".to_vec();

    let tests = vec![
        // index  uppercase expected
        (0, false, "3.14e0"),
        (8, false, "3.15e0"),
        (0, true, "3.14E0"),
        (8, true, "3.15E0"),
    ];

    for (index, uppercase, expected) in tests {
        let context = Context::new_at(&data, index);
        let number = GenericReader::F64(Endian::Big).read(context).unwrap();
        // the engine hands the bits on; their text is made outside of it
        assert_eq!(
            Err(H2Error::FloatRendering),
            ScientificFormatter::new(uppercase).render(number)
        );
        let bits = match number {
            GenericNumber::F64(bits) => bits,
            _ => panic!("read something else than a 64-bit float"),
        };
        let text = if uppercase {
            format!("{:E}", f64::from_bits(bits))
        } else {
            format!("{:e}", f64::from_bits(bits))
        };
        assert_eq!(expected, text);
    }
}

#[test]
fn test_number_conversions() {
    assert_eq!(Ok(255), GenericNumber::U8(255).as_u64());
    assert_eq!(Ok(u64::MAX), GenericNumber::U64(u64::MAX).as_u64());
    assert_eq!(Err(H2Error::NotConvertible), GenericNumber::U128(1).as_u64());
    assert_eq!(Err(H2Error::NotConvertible), GenericNumber::I8(1).as_u64());
    assert_eq!(Err(H2Error::NotConvertible), GenericNumber::F32(1).as_u64());
    assert_eq!(Ok(-1), GenericNumber::I8(-1).as_i64());
    assert_eq!(Ok(i64::MIN), GenericNumber::I64(i64::MIN).as_i64());
    assert_eq!(Err(H2Error::NotConvertible), GenericNumber::I128(1).as_i64());
    assert_eq!(Err(H2Error::NotConvertible), GenericNumber::U8(1).as_i64());
    let data = b"\x01\x02\x03\x04\x05\x06\x07\x08".to_vec();
    let c = Context::new(&data);
    assert_eq!(Ok(0x01), GenericReader::U8.read(c).unwrap().as_u64());
    assert_eq!(Ok(0x0102), GenericReader::U16(Endian::Big).read(c).unwrap().as_u64());
    assert_eq!(Ok(0x01020304), GenericReader::U32(Endian::Big).read(c).unwrap().as_u64());
    assert_eq!(
        Ok(0x0102030405060708),
        GenericReader::U64(Endian::Big).read(c).unwrap().as_u64()
    );
}

#[test]
fn test_every_format_of_one_number() {
    let buffer = b"ABCD".to_vec();
    let context = Context::new_at(&buffer, 0);
    let d = GenericReader::U32(Endian::Big);
    let number = d.read(context).unwrap();

    assert_eq!("0x41424344", HexFormatter::pretty().render(number).unwrap());
    assert_eq!("1094861636", DecimalFormatter::new().render(number).unwrap());
    assert_eq!("0o10120441504", OctalFormatter::pretty().render(number).unwrap());
    assert_eq!(
        "0b01000001010000100100001101000100",
        BinaryFormatter::pretty().render(number).unwrap()
    );
    assert_eq!("1.094861636e9", ScientificFormatter::pretty().render(number).unwrap());
    assert_eq!("0b00001111", BinaryFormatter::pretty().render(GenericNumber::U8(15)).unwrap());
}
