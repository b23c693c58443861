use h2gb::error::{ErrorKind, H2Error};
use h2gb::h2project::h2buffer::{H2Buffer, H2Layer};
use h2gb::transformation::transform_aes::AESSettings;
use h2gb::transformation::Transformation;

fn populated(data: Vec<u8>) -> H2Buffer {
    let mut b = H2Buffer::new(data, 0).unwrap();
    b.layers.push(H2Layer::new("layer".to_string(), "buffer".to_string()));
    b
}

#[test]
fn test_new_buffer() {
    assert_eq!(Some(H2Error::EmptyBuffer), H2Buffer::new(vec![], 0).err());
    assert_eq!(ErrorKind::InvalidArgument, H2Error::EmptyBuffer.kind());
    let b = H2Buffer::new(b"ABCD".to_vec(), 0x4000).unwrap();
    assert_eq!(4, b.len());
    assert_eq!(0x4000, b.base_address);
    assert!(!b.is_populated());
    assert_eq!(0, b.transformations.len());
    assert!(populated(vec![1]).is_populated());
    assert_eq!(Err(H2Error::NotImplemented), b.clone_deep());
}

#[test]
fn test_clone_shallow() {
    let mut b = populated(b"41424344".to_vec());
    b.layers.clear();
    b.transform(Transformation::FromHex).unwrap();
    b.layers.push(H2Layer::new("layer".to_string(), "buffer".to_string()));
    let c = b.clone_shallow(None).unwrap();
    assert_eq!(b"ABCD".to_vec(), c.data);
    assert_eq!(0, c.base_address);
    assert_eq!(1, c.transformations.len());
    assert!(matches!(c.transformations[0], Transformation::FromHex));
    assert!(!c.is_populated());
    let c = b.clone_shallow(Some(0x100)).unwrap();
    assert_eq!(0x100, c.base_address);
}

#[test]
fn test_clone_partial() {
    let b = H2Buffer::new(b"ABCDEFGH".to_vec(), 0x1000).unwrap();
    let c = b.clone_partial(2..5, None).unwrap();
    assert_eq!(b"CDE".to_vec(), c.data);
    assert_eq!(0x1002, c.base_address);
    let c = b.clone_partial(0..8, Some(7)).unwrap();
    assert_eq!(b"ABCDEFGH".to_vec(), c.data);
    assert_eq!(7, c.base_address);
    assert_eq!(Some(H2Error::RangeOutOfBounds), b.clone_partial(2..9, None).err());
    assert_eq!(ErrorKind::OutOfBounds, H2Error::RangeOutOfBounds.kind());
    assert_eq!(Some(H2Error::EmptyBuffer), b.clone_partial(3..3, None).err());
    let high = H2Buffer::new(b"AB".to_vec(), usize::MAX).unwrap();
    assert_eq!(Some(H2Error::SizeOverflow), high.clone_partial(1..2, None).err());
    assert_eq!(usize::MAX, high.clone_partial(0..1, None).unwrap().base_address);
    assert_eq!(5, high.clone_partial(1..2, Some(5)).unwrap().base_address);
}

#[test]
fn test_edit() {
    let mut b = H2Buffer::new(b"ABCDEFGH".to_vec(), 0).unwrap();
    assert_eq!(Ok(b"CD".to_vec()), b.edit(b"xy".to_vec(), 2));
    assert_eq!(b"ABxyEFGH".to_vec(), b.data);
    assert_eq!(Ok(b"GH".to_vec()), b.edit(b"..".to_vec(), 6));
    assert_eq!(b"ABxyEF..".to_vec(), b.data);
    assert_eq!(Err(H2Error::RangeOutOfBounds), b.edit(b"..".to_vec(), 7));
    assert_eq!(Err(H2Error::RangeOutOfBounds), b.edit(b".".to_vec(), usize::MAX));
    assert_eq!(Err(H2Error::RangeOutOfBounds), b.edit(vec![], 9));
    assert_eq!(Err(H2Error::EmptyEdit), b.edit(vec![], 3));
    assert_eq!(ErrorKind::InvalidArgument, H2Error::EmptyEdit.kind());
    assert_eq!(b"ABxyEF..".to_vec(), b.data);
    // an edit gives back what it replaced, so it can be taken back
    let replaced = b.edit(b"12345678".to_vec(), 0).unwrap();
    assert_eq!(Ok(b"12345678".to_vec()), b.edit(replaced, 0));
    assert_eq!(b"ABxyEF..".to_vec(), b.data);
    let mut p = populated(b"ABCD".to_vec());
    assert_eq!(Err(H2Error::BufferPopulated), p.edit(b"x".to_vec(), 0));
    assert_eq!(b"ABCD".to_vec(), p.data);
}

#[test]
fn test_transform_and_undo() {
    let mut b = H2Buffer::new(b"4a4B4c".to_vec(), 0).unwrap();
    let replaced = b.transform(Transformation::FromHex).unwrap();
    assert_eq!(b"4a4B4c".to_vec(), replaced);
    assert_eq!(b"JKL".to_vec(), b.data);
    assert_eq!(1, b.transformations.len());
    let t = b.transform_undo(replaced).unwrap();
    assert!(matches!(t, Transformation::FromHex));
    assert_eq!(b"4a4B4c".to_vec(), b.data);
    assert_eq!(0, b.transformations.len());
    assert_eq!(Some(H2Error::NoTransformations), b.transform_undo(vec![1]).err());
    assert_eq!(ErrorKind::PreconditionViolated, H2Error::NoTransformations.kind());
}

#[test]
fn test_transform_fails_without_a_change() {
    let mut b = H2Buffer::new(b"not hex!".to_vec(), 0).unwrap();
    assert_eq!(Err(H2Error::TransformFailed), b.transform(Transformation::FromHex));
    assert_eq!(ErrorKind::TransformError, H2Error::TransformFailed.kind());
    assert_eq!(b"not hex!".to_vec(), b.data);
    assert_eq!(0, b.transformations.len());
    assert_eq!(Err(H2Error::BadKeyLength), b.transform(Transformation::Xor(vec![])));
    let mut p = populated(b"4142".to_vec());
    assert_eq!(Err(H2Error::BufferPopulated), p.transform(Transformation::FromHex));
    assert_eq!(ErrorKind::PreconditionViolated, H2Error::BufferPopulated.kind());
    assert_eq!(b"4142".to_vec(), p.data);
    assert_eq!(Some(H2Error::BufferPopulated), p.transform_undo(vec![1]).err());
    assert_eq!(Some(H2Error::BufferPopulated), p.untransform().err());
    assert_eq!(Err(H2Error::BufferPopulated), p.untransform_undo(vec![1], Transformation::Null));
}

#[test]
fn test_a_buffer_never_becomes_empty() {
    // sixteen bytes that decrypt to padding alone
    let settings = AESSettings::new(b"AAAAAAAAAAAAAAAA".to_vec(), None).unwrap();
    let cipher = b"\x05\x15\xbe\x1d\x9a\xfb\x4c\x54\xa2\x03\x90\x97\x3f\x58\x28\xd8".to_vec();
    assert_eq!(Ok(vec![]), Transformation::FromAES(settings).transform(&cipher));
    let mut b = H2Buffer::new(cipher.clone(), 0).unwrap();
    assert_eq!(Err(H2Error::EmptyBuffer), b.transform(Transformation::FromAES(settings)));
    assert_eq!(cipher, b.data);
    assert_eq!(0, b.transformations.len());
    // no text spells no bytes
    let mut b = H2Buffer::new(b"x".to_vec(), 0).unwrap();
    b.transform(Transformation::Xor(vec![1])).unwrap();
    b.transformations.push(Transformation::FromHex);
    b.data.clear();
    assert_eq!(Some(H2Error::EmptyBuffer), b.untransform().err());
    assert_eq!(2, b.transformations.len());
    let mut b = H2Buffer::new(b"41".to_vec(), 0).unwrap();
    b.transform(Transformation::FromHex).unwrap();
    assert_eq!(Some(H2Error::EmptyBuffer), b.transform_undo(vec![]).err());
    assert_eq!(b"A".to_vec(), b.data);
    assert_eq!(1, b.transformations.len());
    assert_eq!(Err(H2Error::EmptyBuffer), b.untransform_undo(vec![], Transformation::Null));
    assert_eq!(b"A".to_vec(), b.data);
    assert_eq!(1, b.transformations.len());
}

#[test]
fn test_untransform_and_undo() {
    let mut b = H2Buffer::new(b"4a4b4c".to_vec(), 0).unwrap();
    assert_eq!(Some(H2Error::NoTransformations), b.untransform().err());
    b.transform(Transformation::FromHex).unwrap();
    b.transform(Transformation::Xor(vec![0x20])).unwrap();
    assert_eq!(b"jkl".to_vec(), b.data);
    let (replaced, t) = b.untransform().unwrap();
    assert_eq!(b"jkl".to_vec(), replaced);
    assert!(matches!(t, Transformation::Xor(_)));
    assert_eq!(b"JKL".to_vec(), b.data);
    assert_eq!(1, b.transformations.len());
    b.untransform_undo(replaced, t).unwrap();
    assert_eq!(b"jkl".to_vec(), b.data);
    assert_eq!(2, b.transformations.len());
    b.untransform().unwrap();
    let (replaced, t) = b.untransform().unwrap();
    assert_eq!(b"JKL".to_vec(), replaced);
    assert!(matches!(t, Transformation::FromHex));
    assert_eq!(b"4a4b4c".to_vec(), b.data);
    assert_eq!(0, b.transformations.len());
}

#[test]
fn test_untransform_of_a_one_way_transformation() {
    let settings = AESSettings::new(b"AAAAAAAAAAAAAAAA".to_vec(), None).unwrap();
    let cipher =
        b"\x6c\x97\x52\xb3\x06\xde\xc3\xaa\x5d\x4d\x0e\xe7\x98\xcc\xd9\xb0".to_vec();
    let mut b = H2Buffer::new(cipher.clone(), 0).unwrap();
    assert_eq!(Ok(cipher.clone()), b.transform(Transformation::FromAES(settings)));
    assert_eq!(b"Hello world!".to_vec(), b.data);
    assert_eq!(Some(H2Error::NotInvertible), b.untransform().err());
    assert_eq!(ErrorKind::NotInvertible, H2Error::NotInvertible.kind());
    assert_eq!(b"Hello world!".to_vec(), b.data);
    assert_eq!(1, b.transformations.len());
    b.transform_undo(cipher.clone()).unwrap();
    assert_eq!(cipher, b.data);
}

#[test]
fn test_rebase() {
    let mut b = H2Buffer::new(vec![1], 0x10).unwrap();
    assert_eq!(Ok(0x10), b.rebase(0x20));
    assert_eq!(0x20, b.base_address);
    assert_eq!(vec![1], b.data);
}

#[test]
fn test_transformations() {
    let t = Transformation::FromHex;
    assert!(t.check(&b"00ff".to_vec()));
    assert!(t.check(&b"00FF".to_vec()));
    assert!(!t.check(&b"00f".to_vec()));
    assert!(!t.check(&b"0g".to_vec()));
    assert!(t.check(&vec![]));
    assert_eq!(Ok(vec![0x00, 0xff, 0xab, 0xAB]), t.transform(&b"00ffabAB".to_vec()));
    assert_eq!(Err(H2Error::TransformFailed), t.transform(&b"0".to_vec()));
    assert_eq!(Err(H2Error::TransformFailed), t.transform(&b"0/".to_vec()));
    assert_eq!(Err(H2Error::TransformFailed), t.transform(&b"0:".to_vec()));
    assert_eq!(Err(H2Error::TransformFailed), t.transform(&b"@0".to_vec()));
    assert_eq!(Err(H2Error::TransformFailed), t.transform(&b"G0".to_vec()));
    assert_eq!(Err(H2Error::TransformFailed), t.transform(&b"`0".to_vec()));
    assert_eq!(Ok(b"00ffab09".to_vec()), t.untransform(&vec![0x00, 0xff, 0xab, 0x09]));
    assert!(t.is_two_way());

    let x = Transformation::Xor(vec![0x01, 0xff]);
    assert!(x.check(&vec![1, 2, 3]));
    assert_eq!(Ok(vec![0x00, 0xfd, 0x02]), x.transform(&vec![1, 2, 3]));
    assert_eq!(Ok(vec![1, 2, 3]), x.untransform(&vec![0x00, 0xfd, 0x02]));
    assert!(!Transformation::Xor(vec![]).check(&vec![1]));
    assert_eq!(Err(H2Error::BadKeyLength), Transformation::Xor(vec![]).untransform(&vec![1]));

    let n = Transformation::Null;
    assert_eq!(Ok(vec![1, 2, 3]), n.transform(&vec![1, 2, 3]));
    assert_eq!(Ok(vec![1, 2, 3]), n.untransform(&vec![1, 2, 3]));
    assert!(n.check(&vec![]));

    let settings = AESSettings::new(vec![0x41; 32], None).unwrap();
    let a = Transformation::FromAES(settings);
    assert!(!a.is_two_way());
    assert!(a.check(&vec![]));
    assert_eq!(Err(H2Error::NotInvertible), a.untransform(&vec![0; 16]));
    assert_eq!(Err(H2Error::TransformFailed), a.transform(&vec![0; 15]));
}

#[test]
fn test_untransform_inverts_transform() {
    let inputs: Vec<Vec<u8>> =
        vec![b"00".to_vec(), b"deadbeef".to_vec(), b"0123456789abcdef".to_vec()];
    for x in inputs {
        let t = Transformation::FromHex;
        assert!(t.check(&x));
        assert_eq!(Ok(x.clone()), t.untransform(&t.transform(&x).unwrap()));
        let k = Transformation::Xor(b"key".to_vec());
        assert_eq!(Ok(x.clone()), k.untransform(&k.transform(&x).unwrap()));
    }
    // upper-case digits are accepted, and written back in lower case
    let t = Transformation::FromHex;
    assert_eq!(Ok(b"ab".to_vec()), t.untransform(&t.transform(&b"AB".to_vec()).unwrap()));
}

#[test]
fn test_error_messages() {
    assert_eq!("Can't create a buffer of zero length", H2Error::EmptyBuffer.message());
    assert_eq!("Buffer contains data", H2Error::BufferPopulated.message());
    assert_eq!("Can't edit zero bytes", H2Error::EmptyEdit.message());
    assert_eq!("Editing data into buffer is too long", H2Error::RangeOutOfBounds.message());
    assert_eq!("Buffer has no transformations", H2Error::NoTransformations.message());
    assert_eq!("Failed to apply or undo: missing context", H2Error::MissingContext.message());
    assert_eq!(ErrorKind::BadFormatter, H2Error::BadFormatter.kind());
    assert_eq!(ErrorKind::BadFormatter, H2Error::FloatRendering.kind());
    assert_eq!(ErrorKind::OutOfBounds, H2Error::SizeOverflow.kind());
    assert_eq!(ErrorKind::InvalidArgument, H2Error::BadKeyLength.kind());
    assert_eq!(ErrorKind::PreconditionViolated, H2Error::NoSuchBuffer.kind());
    assert_eq!(ErrorKind::PreconditionViolated, H2Error::NothingToUndo.kind());
    assert_eq!(ErrorKind::PreconditionViolated, H2Error::NothingToRedo.kind());
}
