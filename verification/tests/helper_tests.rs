use h2gb::action::buffer_create_empty::zeroed;
use h2gb::bytes::copy_of;
use h2gb::datatype::basic_type::character::Character;
use h2gb::datatype::basic_type::ipv4::push_ipv4;
use h2gb::datatype::basic_type::ipv6::push_groups;
use h2gb::datatype::complex_type::h2array::H2Array;
use h2gb::datatype::{maybe_round_up_checked, H2Type, ResolveOffset};
use h2gb::error::H2Error;
use h2gb::generic_number::context::{Context, Endian};
use h2gb::generic_number::generic_formatter::binary_formatter::BinaryFormatter;
use h2gb::generic_number::generic_formatter::hex_formatter::HexFormatter;
use h2gb::generic_number::generic_formatter::octal_formatter::OctalFormatter;
use h2gb::generic_number::generic_formatter::scientific_formatter::ScientificFormatter;
use h2gb::generic_number::generic_formatter::{bits_of, render_radix, GenericFormatter};
use h2gb::generic_number::generic_number::{signed_parts, GenericNumber};
use h2gb::generic_number::generic_reader::GenericReader;
use h2gb::h2project::h2buffer::copy_transformations;
use h2gb::sized_number::sized_display::SizedDisplay;
use h2gb::text::{digit_to_char, digits_of, push_chars, push_number};
use h2gb::transformation::key_or_iv::to_array;
use h2gb::transformation::transform_aes::decrypted;
use h2gb::transformation::transform_base64::{
    check_base64, from_base64, sextet_of, symbol_of, to_base64,
};
use h2gb::transformation::transform_hex::{
    check_hex, from_hex, hex_digit_of, hex_value_of, to_hex,
};
use h2gb::transformation::transform_xor::xor;
use h2gb::transformation::Transformation;

#[test]
fn test_digits() {
    assert_eq!('0', digit_to_char(0, false));
    assert_eq!('9', digit_to_char(9, true));
    assert_eq!('a', digit_to_char(10, false));
    assert_eq!('A', digit_to_char(10, true));
    assert_eq!('z', digit_to_char(35, false));
    assert_eq!('Z', digit_to_char(35, true));
    assert_eq!(vec!['0'], digits_of(0, 10, false));
    assert_eq!(vec!['1', '0', '0'], digits_of(100, 10, false));
    assert_eq!(vec!['f', 'f'], digits_of(255, 16, false));
    assert_eq!(vec!['F', 'F'], digits_of(255, 16, true));
    assert_eq!(vec!['1', '0', '1'], digits_of(5, 2, false));
    assert_eq!(39, digits_of(u128::MAX, 10, false).len());
    assert_eq!(128, digits_of(u128::MAX, 2, false).len());
    let mut s = String::from("x");
    push_number(&mut s, 5, 10, false, 3);
    assert_eq!("x005", s);
    push_number(&mut s, 1234, 10, false, 3);
    assert_eq!("x0051234", s);
    push_number(&mut s, 0, 16, false, 0);
    assert_eq!("x00512340", s);
    push_chars(&mut s, &vec!['a', 'b']);
    assert_eq!("x00512340ab", s);
}

#[test]
fn test_render_radix() {
    assert_eq!(
        Ok("0x00ff".to_string()),
        render_radix(GenericNumber::U16(255), 16, false, Some('x'), 4)
    );
    assert_eq!(Ok("FF".to_string()), render_radix(GenericNumber::U16(255), 16, true, None, 0));
    assert_eq!(Ok("zz".to_string()), render_radix(GenericNumber::U16(1295), 36, false, None, 0));
    assert_eq!(
        Err(H2Error::BadFormatter),
        render_radix(GenericNumber::Char('a', 1), 16, true, None, 0)
    );
    assert_eq!(8, bits_of(&GenericNumber::I8(0)));
    assert_eq!(16, bits_of(&GenericNumber::U16(0)));
    assert_eq!(32, bits_of(&GenericNumber::I32(0)));
    assert_eq!(64, bits_of(&GenericNumber::U64(0)));
    assert_eq!(128, bits_of(&GenericNumber::I128(0)));
}

#[test]
fn test_number_parts() {
    assert_eq!(Some(0xff), GenericNumber::I8(-1).raw_bits());
    assert_eq!(Some(0x80), GenericNumber::I8(-128).raw_bits());
    assert_eq!(Some(0xfffe), GenericNumber::I16(-2).raw_bits());
    assert_eq!(Some(0x8000_0000), GenericNumber::I32(i32::MIN).raw_bits());
    assert_eq!(Some(u64::MAX as u128), GenericNumber::I64(-1).raw_bits());
    assert_eq!(Some(u128::MAX), GenericNumber::I128(-1).raw_bits());
    assert_eq!(Some(1u128 << 127), GenericNumber::I128(i128::MIN).raw_bits());
    assert_eq!(Some(7), GenericNumber::U8(7).raw_bits());
    assert_eq!(None, GenericNumber::F32(7).raw_bits());
    assert_eq!(None, GenericNumber::Char('a', 1).raw_bits());
    assert_eq!(Some((true, 1)), GenericNumber::I8(-1).sign_and_magnitude());
    assert_eq!(Some((false, 1)), GenericNumber::I8(1).sign_and_magnitude());
    assert_eq!(Some((true, 1u128 << 127)), GenericNumber::I128(i128::MIN).sign_and_magnitude());
    assert_eq!(Some((false, u128::MAX)), GenericNumber::U128(u128::MAX).sign_and_magnitude());
    assert_eq!(None, GenericNumber::F64(1).sign_and_magnitude());
    assert_eq!((true, 5), signed_parts(-5));
    assert_eq!((false, 0), signed_parts(0));
    assert_eq!((true, 1u128 << 127), signed_parts(i128::MIN));
}

#[test]
fn test_context_reads() {
    let data = b"\x01\x02\x03".to_vec();
    let c = Context::new(&data);
    assert_eq!(3, c.len());
    assert_eq!(Ok(1), c.read_u8());
    assert_eq!(Ok(3), c.at(2).read_u8());
    assert_eq!(Err(H2Error::ReadOutOfBounds), c.at(3).read_u8());
    assert_eq!(Ok(0x010203), c.read_unsigned(3, Endian::Big));
    assert_eq!(Ok(0x030201), c.read_unsigned(3, Endian::Little));
    assert_eq!(Ok(0), c.read_unsigned(0, Endian::Little));
    assert_eq!(Ok(0), c.at(3).read_unsigned(0, Endian::Big));
    assert_eq!(Err(H2Error::ReadOutOfBounds), c.at(4).read_unsigned(0, Endian::Big));
    assert_eq!(Err(H2Error::ReadOutOfBounds), c.read_unsigned(4, Endian::Big));
    assert_eq!(Endian::Big, GenericReader::U8.endian());
    assert_eq!(Endian::Little, GenericReader::F64(Endian::Little).endian());
    assert_eq!(16, GenericReader::I128(Endian::Big).size());
}

#[test]
fn test_display_options() {
    assert_eq!(HexFormatter::pretty(), SizedDisplay::Hex(Default::default()).to_options());
    assert_eq!(
        OctalFormatter::new(true, true),
        SizedDisplay::Octal(OctalFormatter { prefix: true, padded: true }).to_options()
    );
    assert_eq!(
        BinaryFormatter::pretty(),
        SizedDisplay::Binary(BinaryFormatter { prefix: true, padded: true }).to_options()
    );
    assert_eq!(
        ScientificFormatter::new(true),
        SizedDisplay::Scientific(ScientificFormatter { uppercase: true }).to_options()
    );
    assert!(matches!(SizedDisplay::Decimal.to_options(), GenericFormatter::Decimal(_)));
    assert_eq!(Ok("-3".to_string()), SizedDisplay::Decimal.to_string(GenericNumber::I8(-3)));
}

#[test]
fn test_rounding() {
    assert_eq!(Ok(8), maybe_round_up_checked(5, Some(4)));
    assert_eq!(Ok(8), maybe_round_up_checked(8, Some(4)));
    assert_eq!(Ok(0), maybe_round_up_checked(0, Some(4)));
    assert_eq!(Ok(5), maybe_round_up_checked(5, None));
    assert_eq!(Ok(5), maybe_round_up_checked(5, Some(0)));
    assert_eq!(Ok(5), maybe_round_up_checked(5, Some(1)));
    assert_eq!(Err(H2Error::SizeOverflow), maybe_round_up_checked(u64::MAX, Some(2)));
    assert_eq!(Ok(u64::MAX - 1), maybe_round_up_checked(u64::MAX - 2, Some(2)));
}

#[test]
fn test_array_parts() {
    let a = H2Array::new(3, H2Type::from(Character::new())).unwrap();
    let data = b"xyz".to_vec();
    let d = ResolveOffset::Dynamic(Context::new(&data));
    assert!(a.is_static());
    assert_eq!(Ok(3), a.size(&d));
    let children = a.resolve_partial(&d).unwrap();
    assert_eq!(3, children.len());
    assert_eq!(1..2, children[1].offset);
    assert_eq!(Some("1".to_string()), children[1].field_name);
    let leaves = a.resolve_children(&d, &children).unwrap();
    assert_eq!(3, leaves.len());
    assert_eq!(2..3, leaves[2].offset);
    assert_eq!(None, leaves[2].field_name);
    assert_eq!("[x, y, z]", a.to_string(&d).unwrap());
    let copy = children[1].clone();
    assert_eq!(children[1].offset, copy.offset);
    assert_eq!(children[1].field_name, copy.field_name);
}

#[test]
fn test_decryption_outcome() {
    assert_eq!(Ok(vec![1, 2, 3]), decrypted(Some(vec![1, 2, 3])));
    assert_eq!(Ok(vec![]), decrypted(Some(vec![])));
    assert_eq!(Err(H2Error::TransformFailed), decrypted(None));
}

#[test]
fn test_byte_helpers() {
    assert_eq!(vec![1, 2, 3], copy_of(&[1, 2, 3]));
    assert_eq!(Vec::<u8>::new(), copy_of(&[]));
    assert_eq!(vec![0u8; 5], zeroed(5));
    assert_eq!(Vec::<u8>::new(), zeroed(0));
    assert_eq!([1u8, 2, 3], to_array::<3>(&vec![1, 2, 3]));
    let stack = vec![Transformation::FromHex, Transformation::Xor(vec![1, 2])];
    let copy = copy_transformations(&stack);
    assert_eq!(2, copy.len());
    assert!(matches!(copy[0], Transformation::FromHex));
    assert!(matches!(&copy[1], Transformation::Xor(k) if k == &vec![1, 2]));
    assert_eq!(Ok(vec![0, 0]), xor(&vec![1, 2], &vec![1, 2]));
    assert_eq!(Ok(vec![]), xor(&vec![1], &vec![]));
    assert_eq!(Err(H2Error::BadKeyLength), xor(&vec![], &vec![1]));
}

#[test]
fn test_hex_helpers() {
    assert_eq!(Some(0), hex_value_of(b'0'));
    assert_eq!(Some(9), hex_value_of(b'9'));
    assert_eq!(Some(10), hex_value_of(b'a'));
    assert_eq!(Some(15), hex_value_of(b'f'));
    assert_eq!(Some(10), hex_value_of(b'A'));
    assert_eq!(Some(15), hex_value_of(b'F'));
    assert_eq!(None, hex_value_of(b'g'));
    assert_eq!(None, hex_value_of(b'G'));
    assert_eq!(None, hex_value_of(b' '));
    assert_eq!(b'0', hex_digit_of(0));
    assert_eq!(b'9', hex_digit_of(9));
    assert_eq!(b'a', hex_digit_of(10));
    assert_eq!(b'f', hex_digit_of(15));
    assert!(check_hex(&b"0aF9".to_vec()));
    assert!(!check_hex(&b"0aF".to_vec()));
    assert_eq!(Ok(vec![0x0a, 0xf9]), from_hex(&b"0aF9".to_vec()));
    assert_eq!(b"0af9".to_vec(), to_hex(&vec![0x0a, 0xf9]));
}

#[test]
fn test_base64_helpers() {
    let alphabet = b"ABCDEFGHIJKLMNOPQRSTUVWXYZabcdefghijklmnopqrstuvwxyz0123456789+/";
    for (v, c) in alphabet.iter().enumerate() {
        assert_eq!(*c, symbol_of(v as u8));
        assert_eq!(Some(v as u8), sextet_of(*c));
    }
    for c in 0..=255u8 {
        assert_eq!(alphabet.contains(&c), sextet_of(c).is_some());
    }
    assert!(check_base64(&b"QUJD".to_vec()));
    assert!(!check_base64(&b"QUJ".to_vec()));
    assert_eq!(Ok(b"ABC".to_vec()), from_base64(&b"QUJD".to_vec()));
    assert_eq!(b"QUJD".to_vec(), to_base64(&b"ABC".to_vec()));
}

#[test]
fn test_address_helpers() {
    let mut s = String::from(">");
    push_ipv4(&mut s, 0x7f000001);
    assert_eq!(">127.0.0.1", s);
    let groups: Vec<u16> = vec![0, 0xa, 0xbc, 0xdef0];
    push_groups(&mut s, &groups, 1, 4);
    assert_eq!(">127.0.0.1a:bc:def0", s);
    push_groups(&mut s, &groups, 2, 2);
    assert_eq!(">127.0.0.1a:bc:def0", s);
    push_groups(&mut s, &groups, 0, 1);
    assert_eq!(">127.0.0.1a:bc:def00", s);
}
