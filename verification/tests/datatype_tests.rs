use h2gb::datatype::basic_type::character::Character;
use h2gb::datatype::basic_type::h2number::H2Number;
use h2gb::datatype::basic_type::h2pointer::H2Pointer;
use h2gb::datatype::basic_type::ipv4::IPv4;
use h2gb::datatype::basic_type::ipv6::IPv6;
use h2gb::datatype::basic_type::unicode::Unicode;
use h2gb::datatype::basic_type::ntstring::NTString;
use h2gb::datatype::complex_type::h2array::H2Array;
use h2gb::datatype::composite::h2simple::H2Simple;
use h2gb::datatype::{Align, H2Type, H2Types, ResolveOffset};
use h2gb::error::{ErrorKind, H2Error};
use h2gb::generic_number::context::{Context, Endian};
use h2gb::generic_number::generic_reader::GenericReader;
use h2gb::sized_number::sized_display::SizedDisplay;

fn number(definition: GenericReader, display: SizedDisplay) -> H2Type {
    H2Type::new(H2Types::H2Number(H2Number::new(definition, display)))
}

fn aligned_number(alignment: u64, definition: GenericReader, display: SizedDisplay) -> H2Type {
    H2Type::new_aligned(Some(alignment), H2Types::H2Number(H2Number::new(definition, display)))
}

fn array(length: u64, element: H2Type) -> H2Type {
    H2Type::new(H2Types::H2Array(H2Array::new(length, element).unwrap()))
}

#[test]
fn test_u8_hex() {
    let data = b"\x00\x7f\x80\xff".to_vec();

    let t = H2Number::new(GenericReader::U8, SizedDisplay::Hex(Default::default()));

    let c = Context::new(&data);

    assert_eq!(1, t.size());
    assert_eq!(0, t.related(&ResolveOffset::Dynamic(c)).unwrap().len());
    assert_eq!("0x00", t.to_string(&ResolveOffset::Dynamic(c.at(0))).unwrap());
    assert_eq!("0x7f", t.to_string(&ResolveOffset::Dynamic(c.at(1))).unwrap());
    assert_eq!("0x80", t.to_string(&ResolveOffset::Dynamic(c.at(2))).unwrap());
    assert_eq!("0xff", t.to_string(&ResolveOffset::Dynamic(c.at(3))).unwrap());
}

#[test]
fn test_i16_decimal() {
    let data = b"\x00\x00\x7f\xff\x80\x00\xff\xff".to_vec();

    let t = H2Number::new(GenericReader::I16(Endian::Big), SizedDisplay::Decimal);

    let c = Context::new(&data);

    assert_eq!(2, t.size());
    assert_eq!(0, t.related(&ResolveOffset::Dynamic(c.at(0))).unwrap().len());
    assert_eq!("0", t.to_string(&ResolveOffset::Dynamic(c.at(0))).unwrap());
    assert_eq!("32767", t.to_string(&ResolveOffset::Dynamic(c.at(2))).unwrap());
    assert_eq!("-32768", t.to_string(&ResolveOffset::Dynamic(c.at(4))).unwrap());
    assert_eq!("-1", t.to_string(&ResolveOffset::Dynamic(c.at(6))).unwrap());
}

#[test]
fn character_test_character() {
    let data = b"\x00\x1F\x20\x41\x42\x7e\x7f\x80\xff".to_vec();
    let offset = ResolveOffset::Dynamic(Context::new(&data));

    assert_eq!("<invalid>", Character::new().to_string(&offset.at(0)).unwrap());
    assert_eq!("<invalid>", Character::new().to_string(&offset.at(1)).unwrap());
    assert_eq!(" ", Character::new().to_string(&offset.at(2)).unwrap());
    assert_eq!("A", Character::new().to_string(&offset.at(3)).unwrap());
    assert_eq!("B", Character::new().to_string(&offset.at(4)).unwrap());
    assert_eq!("~", Character::new().to_string(&offset.at(5)).unwrap());
    assert_eq!("<invalid>", Character::new().to_string(&offset.at(6)).unwrap());
    assert_eq!("<invalid>", Character::new().to_string(&offset.at(7)).unwrap());
    assert_eq!("<invalid>", Character::new().to_string(&offset.at(8)).unwrap());
}

#[test]
fn test_character_past_the_end() {
    let data = b"AB".to_vec();
    let offset = ResolveOffset::Dynamic(Context::new(&data));
    assert_eq!(Err(H2Error::ReadOutOfBounds), Character::new().to_string(&offset.at(2)));
    assert_eq!(ErrorKind::OutOfBounds, H2Error::ReadOutOfBounds.kind());
}

#[test]
fn mod_test_character() {
    let t = H2Type::new(H2Types::Character(Character::new()));
    let data = b"ABCD".to_vec();
    let s_offset = ResolveOffset::Static(0);
    let d_offset = ResolveOffset::Dynamic(Context::new(&data));

    assert_eq!(1, t.size(&s_offset, Align::No).unwrap());
    assert_eq!(1, t.size(&d_offset, Align::No).unwrap());

    assert_eq!("A", t.to_string(&d_offset.at(0)).unwrap());
    assert_eq!("B", t.to_string(&d_offset.at(1)).unwrap());
    assert_eq!("C", t.to_string(&d_offset.at(2)).unwrap());
    assert_eq!("D", t.to_string(&d_offset.at(3)).unwrap());

    assert_eq!(0, t.children(&s_offset).unwrap().len());
    assert_eq!(0, t.children(&d_offset).unwrap().len());

    let resolved = t.fully_resolve(&s_offset).unwrap();
    assert_eq!(1, resolved.len());
    assert_eq!(0..1, resolved[0].offset);
    assert_eq!("Character", resolved[0].to_string(&s_offset).unwrap());

    let resolved = t.fully_resolve(&s_offset.at(1)).unwrap();
    assert_eq!(1, resolved.len());
    assert_eq!(1..2, resolved[0].offset);
    assert_eq!("Character", resolved[0].to_string(&s_offset).unwrap());

    let resolved = t.fully_resolve(&d_offset).unwrap();
    assert_eq!(1, resolved.len());
    assert_eq!(0..1, resolved[0].offset);
    assert_eq!("A", resolved[0].to_string(&d_offset).unwrap());

    let resolved = t.fully_resolve(&d_offset.at(1)).unwrap();
    assert_eq!(1, resolved.len());
    assert_eq!(1..2, resolved[0].offset);
    assert_eq!("B", resolved[0].to_string(&d_offset).unwrap());
}

#[test]
fn test_array() {
    let data = b"AAAABBBBCCCCDDDD".to_vec();
    let s_offset = ResolveOffset::Static(0);
    let d_offset = ResolveOffset::Dynamic(Context::new(&data));

    // An array of 4 32-bit unsigned integers
    let t = array(4, number(GenericReader::U32(Endian::Big), SizedDisplay::Hex(Default::default())));

    assert_eq!(true, t.is_static());
    assert_eq!(16, t.size(&s_offset, Align::No).unwrap());

    assert_eq!(4, t.children(&s_offset).unwrap().len());
    assert_eq!(4, t.children(&d_offset).unwrap().len());

    let resolved = t.fully_resolve(&d_offset).unwrap();
    assert_eq!(4, resolved.len());

    assert_eq!(0..4, resolved[0].offset);
    assert_eq!("0x41414141", resolved[0].to_string(&d_offset).unwrap());

    assert_eq!(4..8, resolved[1].offset);
    assert_eq!("0x42424242", resolved[1].to_string(&d_offset).unwrap());

    assert_eq!(8..12, resolved[2].offset);
    assert_eq!("0x43434343", resolved[2].to_string(&d_offset).unwrap());

    assert_eq!(12..16, resolved[3].offset);
    assert_eq!("0x44444444", resolved[3].to_string(&d_offset).unwrap());
}

#[test]
fn test_nested_array() {
    let data = b"\x00\x00\x00\x00\x7f\x7f\x7f\x7f\x80\x80\xff\xff".to_vec();
    let s_offset = ResolveOffset::Static(0);
    let d_offset = ResolveOffset::Dynamic(Context::new(&data));

    // An array of 4 3-element I8 arrays that will print as decimal
    let t = array(4, array(3, number(GenericReader::I8, SizedDisplay::Decimal)));

    assert_eq!(12, t.size(&s_offset, Align::No).unwrap());
    assert_eq!(12, t.size(&d_offset, Align::No).unwrap());

    // Should have 4 direct children
    assert_eq!(4, t.children(&s_offset).unwrap().len());
    assert_eq!(4, t.children(&d_offset).unwrap().len());

    // And a total length of 12
    let resolved = t.fully_resolve(&d_offset).unwrap();
    assert_eq!(12, resolved.len());

    assert_eq!("0", resolved[0].to_string(&d_offset).unwrap());
    assert_eq!("0", resolved[1].to_string(&d_offset).unwrap());
    assert_eq!("0", resolved[2].to_string(&d_offset).unwrap());
    assert_eq!("0", resolved[3].to_string(&d_offset).unwrap());

    assert_eq!("127", resolved[4].to_string(&d_offset).unwrap());
    assert_eq!("127", resolved[5].to_string(&d_offset).unwrap());
    assert_eq!("127", resolved[6].to_string(&d_offset).unwrap());
    assert_eq!("127", resolved[7].to_string(&d_offset).unwrap());

    assert_eq!("-128", resolved[8].to_string(&d_offset).unwrap());
    assert_eq!("-128", resolved[9].to_string(&d_offset).unwrap());
    assert_eq!("-1", resolved[10].to_string(&d_offset).unwrap());
    assert_eq!("-1", resolved[11].to_string(&d_offset).unwrap());

    assert_eq!(
        "[[0, 0, 0], [0, 127, 127], [127, 127, -128], [-128, -1, -1]]",
        t.to_string(&d_offset).unwrap()
    );
    assert_eq!(
        "[[Number, Number, Number], [Number, Number, Number], [Number, Number, Number], [Number, Number, Number]]",
        t.to_string(&s_offset).unwrap()
    );
}

#[test]
fn test_alignment() {
    let data = b"AAAABBBBCCCCDDDD".to_vec();
    let s_offset = ResolveOffset::Static(0);
    let d_offset = ResolveOffset::Dynamic(Context::new(&data));

    // An array of 4 8-bit unsigned integers, each aligned to 4 bytes
    let t = array(4, aligned_number(4, GenericReader::U8, SizedDisplay::Hex(Default::default())));

    // Even though it's 4x U8 values, with padding it should be 16
    assert_eq!(16, t.size(&s_offset, Align::No).unwrap());
    assert_eq!(16, t.size(&d_offset, Align::No).unwrap());

    let children = t.children(&d_offset).unwrap();
    assert_eq!(4, children.len());
    assert_eq!(0..1, children[0].offset);
    assert_eq!("0x41", children[0].to_string(&d_offset).unwrap());
    assert_eq!(Some("0".to_string()), children[0].field_name);
    assert_eq!(Some("3".to_string()), children[3].field_name);

    let resolved = t.fully_resolve(&d_offset).unwrap();
    assert_eq!(4, resolved.len());

    assert_eq!(0..1, resolved[0].offset);
    assert_eq!("0x41", resolved[0].to_string(&d_offset).unwrap());

    assert_eq!(4..5, resolved[1].offset);
    assert_eq!("0x42", resolved[1].to_string(&d_offset).unwrap());

    assert_eq!(8..9, resolved[2].offset);
    assert_eq!("0x43", resolved[2].to_string(&d_offset).unwrap());

    assert_eq!(12..13, resolved[3].offset);
    assert_eq!("0x44", resolved[3].to_string(&d_offset).unwrap());

    assert_eq!("[0x41, 0x42, 0x43, 0x44]", t.to_string(&d_offset).unwrap());
}

#[test]
fn test_array_not_starting_at_zero() {
    let data = b"\x00\x00\x00\x00\x00\x00\x00\x00AAAABBBBCCCCDDDD".to_vec();
    let d_offset = ResolveOffset::Dynamic(Context::new(&data));
    let t = array(4, number(GenericReader::U32(Endian::Big), SizedDisplay::Hex(Default::default())));
    let resolved = t.fully_resolve(&d_offset.at(8)).unwrap();
    assert_eq!(4, resolved.len());
    assert_eq!(8..12, resolved[0].offset);
    assert_eq!(20..24, resolved[3].offset);
    assert_eq!("0x44444444", resolved[3].to_string(&d_offset).unwrap());
    // the last element does not fit the data any more
    assert_eq!(Err(H2Error::ReadOutOfBounds), t.to_string(&d_offset.at(12)));
}

#[test]
fn test_aligned_size() {
    let t = aligned_number(4, GenericReader::U8, SizedDisplay::Decimal);
    let s = ResolveOffset::Static(0);
    assert_eq!(Ok(1), t.size(&s, Align::No));
    assert_eq!(Ok(4), t.size(&s, Align::Yes));
    assert_eq!(Ok(4), t.aligned_size(&s));
    let t = aligned_number(4, GenericReader::U64(Endian::Little), SizedDisplay::Decimal);
    assert_eq!(Ok(8), t.aligned_size(&s));
    let t = aligned_number(3, GenericReader::U64(Endian::Little), SizedDisplay::Decimal);
    assert_eq!(Ok(9), t.aligned_size(&s));
    let t = aligned_number(0, GenericReader::U16(Endian::Little), SizedDisplay::Decimal);
    assert_eq!(Ok(2), t.aligned_size(&s));
    let t = number(GenericReader::U16(Endian::Little), SizedDisplay::Decimal);
    assert_eq!(Ok(2), t.aligned_size(&s));
    let t = aligned_number(u64::MAX, GenericReader::U16(Endian::Little), SizedDisplay::Decimal);
    assert_eq!(Ok(u64::MAX), t.aligned_size(&s));
}

#[test]
fn test_empty_array_is_refused() {
    let element = number(GenericReader::U8, SizedDisplay::Decimal);
    assert_eq!(Some(H2Error::EmptyArray), H2Array::new(0, element).err());
    assert_eq!(ErrorKind::InvalidArgument, H2Error::EmptyArray.kind());
}

#[test]
fn test_sizes_that_do_not_fit() {
    let s = ResolveOffset::Static(0);
    let t = array(u64::MAX, number(GenericReader::U16(Endian::Big), SizedDisplay::Decimal));
    assert_eq!(Err(H2Error::SizeOverflow), t.size(&s, Align::No));
    let t = array(u64::MAX, number(GenericReader::U8, SizedDisplay::Decimal));
    assert_eq!(Ok(u64::MAX), t.size(&s, Align::No));
    let t = array(2, number(GenericReader::U8, SizedDisplay::Decimal));
    assert_eq!(Some(H2Error::SizeOverflow), t.children(&s.at(u64::MAX - 1)).err());
    assert_eq!(2, t.children(&s.at(u64::MAX - 2)).unwrap().len());
    let c = H2Type::new(H2Types::Character(Character::new()));
    assert_eq!(Some(H2Error::SizeOverflow), c.fully_resolve(&s.at(u64::MAX)).err());
}

#[test]
fn test_leaves_cover_a_static_type_in_order() {
    let t = array(3, H2Type::new_aligned(Some(8), H2Types::H2Array(
        H2Array::new(2, aligned_number(4, GenericReader::U16(Endian::Big), SizedDisplay::Decimal)).unwrap(),
    )));
    let s = ResolveOffset::Static(100);
    let size = t.size(&s, Align::No).unwrap();
    assert_eq!(24, size);
    let children = t.children(&s).unwrap();
    let mut sum = 0;
    for c in children.iter() {
        sum += c.field_type.aligned_size(&s.at(c.offset.start)).unwrap();
    }
    assert_eq!(size, sum);
    let leaves = t.fully_resolve(&s).unwrap();
    assert_eq!(6, leaves.len());
    assert_eq!(100, leaves[0].offset.start);
    let mut last_end = 100;
    for leaf in leaves.iter() {
        assert!(last_end <= leaf.offset.start);
        assert!(leaf.offset.start <= leaf.offset.end);
        assert!(leaf.offset.end <= 100 + size);
        last_end = leaf.offset.end;
    }
    let ranges: Vec<(u64, u64)> = leaves.iter().map(|l| (l.offset.start, l.offset.end)).collect();
    assert_eq!(
        vec![(100, 102), (104, 106), (108, 110), (112, 114), (116, 118), (120, 122)],
        ranges
    );
}

#[test]
fn test_ntstring() {
    let data = b"hi\0there\0x".to_vec();
    let d = ResolveOffset::Dynamic(Context::new(&data));
    let s = ResolveOffset::Static(0);
    let t = H2Type::new(H2Types::NTString(NTString::new()));
    assert_eq!(false, t.is_static());
    assert_eq!(Ok(3), t.size(&d, Align::No));
    assert_eq!(Ok(6), t.size(&d.at(3), Align::No));
    assert_eq!(Ok(1), t.size(&d.at(2), Align::No));
    assert_eq!(Err(H2Error::ReadOutOfBounds), t.size(&d.at(9), Align::No));
    assert_eq!(Err(H2Error::ReadOutOfBounds), t.size(&d.at(50), Align::No));
    assert_eq!(Err(H2Error::NeedsDynamicContext), t.size(&s, Align::No));
    assert_eq!(ErrorKind::NeedsDynamicContext, H2Error::NeedsDynamicContext.kind());
    assert_eq!("hi", t.to_string(&d).unwrap());
    assert_eq!("there", t.to_string(&d.at(3)).unwrap());
    assert_eq!("", t.to_string(&d.at(8)).unwrap());
    assert_eq!("NTString", t.to_string(&s).unwrap());
    let leaves = t.fully_resolve(&d.at(3)).unwrap();
    assert_eq!(1, leaves.len());
    assert_eq!(3..9, leaves[0].offset);
}

#[test]
fn test_dynamic_array() {
    let data = b"hi\0there\0x\0".to_vec();
    let d = ResolveOffset::Dynamic(Context::new(&data));
    let s = ResolveOffset::Static(0);
    let t = array(3, H2Type::new(H2Types::NTString(NTString::new())));
    assert_eq!(false, t.is_static());
    assert_eq!(Ok(11), t.size(&d, Align::No));
    assert_eq!(Err(H2Error::NeedsDynamicContext), t.size(&s, Align::No));
    assert_eq!(Some(H2Error::NeedsDynamicContext), t.fully_resolve(&s).err());
    assert_eq!("[hi, there, x]", t.to_string(&d).unwrap());
    let leaves = t.fully_resolve(&d).unwrap();
    let ranges: Vec<(u64, u64)> = leaves.iter().map(|l| (l.offset.start, l.offset.end)).collect();
    assert_eq!(vec![(0, 3), (3, 9), (9, 11)], ranges);
    let four = array(4, H2Type::new(H2Types::NTString(NTString::new())));
    assert_eq!(Err(H2Error::ReadOutOfBounds), four.size(&d, Align::No));
    let aligned = array(2, H2Type::new_aligned(Some(4), H2Types::NTString(NTString::new())));
    assert_eq!(Ok(12), aligned.size(&d, Align::No));
    let leaves = aligned.fully_resolve(&d).unwrap();
    let ranges: Vec<(u64, u64)> = leaves.iter().map(|l| (l.offset.start, l.offset.end)).collect();
    assert_eq!(vec![(0, 3), (4, 9)], ranges);
}

#[test]
fn test_static_array() {
    let t = array(5, H2Type::new(H2Types::Character(Character::new())));
    let s = ResolveOffset::Static(7);
    assert_eq!(Ok(5), t.size(&s, Align::No));
    assert_eq!("[Character, Character, Character, Character, Character]", t.to_string(&s).unwrap());
    let leaves = t.fully_resolve(&s).unwrap();
    assert_eq!(5, leaves.len());
    assert_eq!(11..12, leaves[4].offset);
}

#[test]
fn test_aligned_array() {
    let inner = H2Array::new(3, number(GenericReader::U8, SizedDisplay::Decimal)).unwrap();
    let t = H2Type::new_aligned(Some(8), H2Types::H2Array(inner));
    let s = ResolveOffset::Static(0);
    assert_eq!(Ok(3), t.size(&s, Align::No));
    assert_eq!(Ok(8), t.size(&s, Align::Yes));
}

#[test]
fn test_simple() {
    let t = H2Simple::new(number(GenericReader::U32(Endian::Big), SizedDisplay::Decimal));
    assert_eq!(Ok(4), t.size());

    let (resolved, next) = t.resolve(0, None).unwrap();
    assert_eq!(1, resolved.len());
    assert_eq!(0, resolved[0].offset.start);
    assert_eq!(None, resolved[0].field_name);
    assert_eq!(4, next);

    let (resolved, next) = t.resolve(10, Some("field".to_string())).unwrap();
    assert_eq!(10..14, resolved[0].offset);
    assert_eq!(Some("field".to_string()), resolved[0].field_name);
    assert_eq!(14, next);
    assert_eq!(Some(H2Error::SizeOverflow), t.resolve(u64::MAX - 3, None).err());
    let d = H2Simple::new(H2Type::new(H2Types::NTString(NTString::new())));
    assert_eq!(Err(H2Error::NeedsDynamicContext), d.size());
}

#[test]
fn test_related_is_empty() {
    let t = array(2, number(GenericReader::U8, SizedDisplay::Decimal));
    assert_eq!(0, t.related(&ResolveOffset::Static(0)).unwrap().len());
}

#[test]
fn test_static_struct() {
    let t = H2Simple::new(array(2, number(GenericReader::U16(Endian::Big), SizedDisplay::Decimal)));
    assert_eq!(Ok(4), t.size());
    let (resolved, next) = t.resolve(8, Some("pair".to_string())).unwrap();
    assert_eq!(8..12, resolved[0].offset);
    assert_eq!(12, next);
}

#[test]
fn test_dynamic_struct() {
    let t = H2Simple::new(array(2, H2Type::new(H2Types::NTString(NTString::new()))));
    assert_eq!(Err(H2Error::NeedsDynamicContext), t.size());
    assert_eq!(Some(H2Error::NeedsDynamicContext), t.resolve(0, None).err());
}

#[test]
fn test_enum() {
    let kinds = vec![
        number(GenericReader::U8, SizedDisplay::Decimal),
        H2Type::new(H2Types::Character(Character::new())),
        H2Type::new(H2Types::NTString(NTString::new())),
        array(1, number(GenericReader::U8, SizedDisplay::Decimal)),
    ];
    let fixed: Vec<bool> = kinds.iter().map(|k| k.is_static()).collect();
    assert_eq!(vec![true, true, false, true], fixed);
    assert!(matches!(kinds[1].field_type(), H2Types::Character(_)));
}

#[test]
fn test_from_conversions() {
    let t = H2Type::from(Character::new());
    assert_eq!(None, t.byte_alignment);
    assert!(matches!(t.field, H2Types::Character(_)));
    let t = H2Type::from((4, H2Number::new(GenericReader::U8, SizedDisplay::Decimal)));
    assert_eq!(Some(4), t.byte_alignment);
    assert_eq!(Ok(4), t.aligned_size(&ResolveOffset::from(0)));
    let t = H2Type::from(H2Array::new(2, H2Type::from(Character::new())).unwrap());
    assert_eq!(Ok(2), t.size(&ResolveOffset::from(0), Align::No));
    let t = H2Type::from((8, H2Array::new(2, H2Type::from(NTString::new())).unwrap()));
    assert_eq!(Some(8), t.byte_alignment);
    let data = b"AB".to_vec();
    let d = ResolveOffset::from(Context::new(&data));
    assert_eq!("A", H2Type::from(Character::new()).to_string(&d).unwrap());
    assert_eq!(0, d.position());
    assert_eq!(7, ResolveOffset::from(7).position());
}

#[test]
fn test_pointer() {
    let data = b"\x00\x00\x00\x04ABCD".to_vec();
    let d = ResolveOffset::Dynamic(Context::new(&data));
    let s = ResolveOffset::Static(0);
    let t = H2Type::from(H2Pointer::new(
        GenericReader::U32(Endian::Big),
        SizedDisplay::Hex(Default::default()),
        H2Type::from(Character::new()),
    ));
    assert!(t.is_static());
    assert_eq!(Ok(4), t.size(&s, Align::No));
    assert_eq!("Pointer", t.to_string(&s).unwrap());
    assert_eq!("0x00000004", t.to_string(&d).unwrap());
    assert_eq!(0, t.children(&d).unwrap().len());
    let related = t.related(&d).unwrap();
    assert_eq!(1, related.len());
    assert_eq!(4, related[0].0);
    assert_eq!("A", related[0].1.to_string(&d.at(related[0].0)).unwrap());
    assert_eq!(Some(H2Error::NeedsDynamicContext), t.related(&s).err());
    assert_eq!(Some(H2Error::ReadOutOfBounds), t.related(&d.at(6)).err());
    let signed = H2Type::from(H2Pointer::new(
        GenericReader::I32(Endian::Big),
        SizedDisplay::Decimal,
        H2Type::from(Character::new()),
    ));
    assert_eq!(Some(H2Error::NotConvertible), signed.related(&d).err());
    let leaves = t.fully_resolve(&d).unwrap();
    assert_eq!(1, leaves.len());
    assert_eq!(0..4, leaves[0].offset);
}

#[test]
fn test_ipv4() {
    let data = b"\xc0\x00\x02\x80\x00\x00\x00\x00\xff\xff\xff\xff".to_vec();
    let d = ResolveOffset::Dynamic(Context::new(&data));
    let s = ResolveOffset::Static(0);
    let t = H2Type::from(IPv4::new(Endian::Big));
    assert!(t.is_static());
    assert_eq!(Ok(4), t.size(&s, Align::No));
    assert_eq!("IPv4", t.to_string(&s).unwrap());
    assert_eq!("192.0.2.128", t.to_string(&d).unwrap());
    assert_eq!("0.0.0.0", t.to_string(&d.at(4)).unwrap());
    assert_eq!("255.255.255.255", t.to_string(&d.at(8)).unwrap());
    assert_eq!("2.128.0.0", t.to_string(&d.at(2)).unwrap());
    assert_eq!(Err(H2Error::ReadOutOfBounds), t.to_string(&d.at(9)));
    let little = H2Type::from(IPv4::new(Endian::Little));
    assert_eq!("128.2.0.192", little.to_string(&d).unwrap());
    assert_eq!(0, t.children(&d).unwrap().len());
    let pair = array(2, H2Type::from(IPv4::new(Endian::Big)));
    assert_eq!("[192.0.2.128, 0.0.0.0]", pair.to_string(&d).unwrap());
}

fn address(groups: [u16; 8]) -> Vec<u8> {
    let mut data = Vec::new();
    for g in groups.iter() {
        data.push((g >> 8) as u8);
        data.push((g & 0xff) as u8);
    }
    data
}

#[test]
fn test_ipv6() {
    let cases: Vec<([u16; 8], &str)> = vec![
        ([0, 0, 0, 0, 0, 0, 0, 0], "::"),
        ([0, 0, 0, 0, 0, 0, 0, 1], "::1"),
        ([1, 0, 0, 0, 0, 0, 0, 0], "1::"),
        ([0x2001, 0xdb8, 0, 0, 0, 0, 0, 1], "2001:db8::1"),
        ([0x2001, 0xdb8, 0, 0, 1, 0, 0, 1], "2001:db8::1:0:0:1"),
        ([1, 0, 0, 2, 0, 0, 0, 3], "1:0:0:2::3"),
        ([1, 0, 0, 0, 2, 0, 0, 3], "1::2:0:0:3"),
        ([1, 0, 2, 0, 3, 0, 4, 0], "1:0:2:0:3:0:4:0"),
        ([0, 1, 0, 1, 0, 1, 0, 1], "0:1:0:1:0:1:0:1"),
        ([0xfe80, 0, 0, 0, 0, 0, 0, 0], "fe80::"),
        ([0, 0, 1, 2, 3, 4, 5, 6], "::1:2:3:4:5:6"),
        ([1, 2, 3, 4, 5, 6, 0, 0], "1:2:3:4:5:6::"),
        ([0xffff, 0xffff, 0xffff, 0xffff, 0xffff, 0xffff, 0xffff, 0xffff],
            "ffff:ffff:ffff:ffff:ffff:ffff:ffff:ffff"),
        ([0xabcd, 0x0001, 0x0010, 0x0100, 0x1000, 0, 0xa, 0xb], "abcd:1:10:100:1000:0:a:b"),
        ([0, 0, 0, 0, 0, 0xffff, 0xc000, 0x0280], "::ffff:192.0.2.128"),
        ([0, 0, 0, 0, 0, 0xffff, 0, 0], "::ffff:0.0.0.0"),
        ([0, 0, 0, 0, 0, 0xfffe, 0xc000, 0x0280], "::fffe:c000:280"),
        ([0, 0, 0, 0, 0, 0, 0xc000, 0x0280], "::c000:280"),
    ];
    let t = H2Type::from(IPv6::new(Endian::Big));
    let little = H2Type::from(IPv6::new(Endian::Little));
    for (groups, expected) in cases {
        let data = address(groups);
        let d = ResolveOffset::Dynamic(Context::new(&data));
        assert_eq!(expected, t.to_string(&d).unwrap());
        let mut reversed = data.clone();
        reversed.reverse();
        let r = ResolveOffset::Dynamic(Context::new(&reversed));
        assert_eq!(expected, little.to_string(&r).unwrap());
        assert_eq!(Err(H2Error::ReadOutOfBounds), t.to_string(&d.at(1)));
    }
    let s = ResolveOffset::Static(0);
    assert_eq!("IPv6", t.to_string(&s).unwrap());
    assert_eq!(Ok(16), t.size(&s, Align::No));
    assert!(t.is_static());
}

#[test]
fn test_unicode() {
    let data = b"\x00\x41\x26\x3a\xd8\x00\xdf\xff\xe0\x00\xff\xfd\xd7\xff".to_vec();
    let d = ResolveOffset::Dynamic(Context::new(&data));
    let s = ResolveOffset::Static(0);
    let t = H2Type::from(Unicode::new(Endian::Big));
    assert!(t.is_static());
    assert_eq!(Ok(2), t.size(&d, Align::No));
    assert_eq!("Unicode", t.to_string(&s).unwrap());
    assert_eq!("A", t.to_string(&d).unwrap());
    assert_eq!("\u{263a}", t.to_string(&d.at(2)).unwrap());
    assert_eq!("<invalid>", t.to_string(&d.at(4)).unwrap());
    assert_eq!("<invalid>", t.to_string(&d.at(6)).unwrap());
    assert_eq!("\u{e000}", t.to_string(&d.at(8)).unwrap());
    assert_eq!("\u{fffd}", t.to_string(&d.at(10)).unwrap());
    assert_eq!("\u{d7ff}", t.to_string(&d.at(12)).unwrap());
    assert_eq!(Err(H2Error::ReadOutOfBounds), t.to_string(&d.at(13)));
    let little = H2Type::from(Unicode::new(Endian::Little));
    assert_eq!("\u{4100}", little.to_string(&d).unwrap());
    assert_eq!("\u{3a26}", little.to_string(&d.at(2)).unwrap());
}
