use flatipc::flat::{push_zeros, window, Reader};
use flatipc::little_endian::{load_le, store_le};
use flatipc::IpcSafe;

fn image<T: IpcSafe>(value: &T) -> Vec<u8> {
    let mut out = Vec::new();
    value.store(&mut out);
    out
}

fn survives<T: IpcSafe + PartialEq + std::fmt::Debug>(value: T) {
    let bytes = image(&value);
    assert_eq!(bytes.len(), T::size());
    assert_eq!(T::load(&bytes), value);
}

#[test]
fn numbers_are_stored_low_byte_first() {
    let mut out = vec![0xaa];
    store_le(0x0102_0304, 4, &mut out);
    assert_eq!(out, [0xaa, 4, 3, 2, 1]);
    store_le(0x0102_0304, 2, &mut out);
    assert_eq!(out, [0xaa, 4, 3, 2, 1, 4, 3]);
    store_le(7, 0, &mut out);
    assert_eq!(out.len(), 7);
    store_le(u128::MAX, 16, &mut out);
    assert_eq!(&out[7..], &[0xff; 16]);

    assert_eq!(load_le(&[]), 0);
    assert_eq!(load_le(&[4, 3, 2, 1]), 0x0102_0304);
    assert_eq!(load_le(&[0, 0, 0, 0, 0, 0, 0, 0, 1]), 1 << 64);
    assert_eq!(load_le(&[0xff; 16]), u128::MAX);
}

#[test]
fn unsigned_integers_have_their_little_endian_image() {
    assert_eq!(image(&0x12u8), [0x12]);
    assert_eq!(image(&0x1234u16), [0x34, 0x12]);
    assert_eq!(image(&42u32), [42, 0, 0, 0]);
    assert_eq!(image(&0x0102_0304_0506_0708u64), [8, 7, 6, 5, 4, 3, 2, 1]);
    assert_eq!(image(&1u128), [1, 0, 0, 0, 0, 0, 0, 0, 0, 0, 0, 0, 0, 0, 0, 0]);
    assert_eq!(image(&0x0102usize), [2, 1, 0, 0, 0, 0, 0, 0]);
    assert_eq!(u32::load(&[42, 0, 0, 0]), 42);
    assert_eq!(u16::load(&[0x34, 0x12]), 0x1234);
}

#[test]
fn signed_integers_are_stored_in_twos_complement() {
    assert_eq!(image(&-1i8), [0xff]);
    assert_eq!(image(&-2i16), [0xfe, 0xff]);
    assert_eq!(image(&i32::MIN), [0, 0, 0, 0x80]);
    assert_eq!(image(&-1i64), [0xff; 8]);
    assert_eq!(image(&-1i128), [0xff; 16]);
    assert_eq!(image(&-3isize), [0xfd, 0xff, 0xff, 0xff, 0xff, 0xff, 0xff, 0xff]);
    assert_eq!(image(&5i32), [5, 0, 0, 0]);
    assert_eq!(i16::load(&[0xfe, 0xff]), -2);
    assert_eq!(i32::load(&[0, 0, 0, 0x80]), i32::MIN);
}

#[test]
fn sizes_are_those_of_the_images() {
    assert_eq!(u8::size(), 1);
    assert_eq!(i8::size(), 1);
    assert_eq!(u16::size(), 2);
    assert_eq!(i16::size(), 2);
    assert_eq!(u32::size(), 4);
    assert_eq!(i32::size(), 4);
    assert_eq!(u64::size(), 8);
    assert_eq!(i64::size(), 8);
    assert_eq!(u128::size(), 16);
    assert_eq!(i128::size(), 16);
    assert_eq!(usize::size(), 8);
    assert_eq!(isize::size(), 8);
    assert_eq!(bool::size(), 1);
    assert_eq!(char::size(), 4);
    assert_eq!(<Option<u32>>::size(), 5);
    assert_eq!(<Result<u8, u64>>::size(), 9);
    assert_eq!(<[u16; 5]>::size(), 10);
    assert_eq!(<[Option<[u8; 3]>; 2]>::size(), 8);
    assert_eq!(<flatipc::Vec<10>>::size(), 18);
}

#[test]
fn every_integer_survives() {
    for value in [0u8, 1, 0x7f, 0x80, u8::MAX] {
        survives(value);
        survives(value as i8);
    }
    for value in [0u16, 0xff, 0x100, 0x7fff, 0x8000, u16::MAX] {
        survives(value);
        survives(value as i16);
    }
    for value in [0u32, 42, 0x7fff_ffff, 0x8000_0000, u32::MAX] {
        survives(value);
        survives(value as i32);
    }
    for value in [0u64, 1 << 32, i64::MAX as u64, 1 << 63, u64::MAX] {
        survives(value);
        survives(value as i64);
        survives(value as usize);
        survives(value as isize);
    }
    for value in [0u128, 1 << 64, i128::MAX as u128, 1 << 127, u128::MAX] {
        survives(value);
        survives(value as i128);
    }
}

#[test]
fn truth_values_take_one_byte() {
    assert_eq!(image(&true), [1]);
    assert_eq!(image(&false), [0]);
    assert!(bool::load(&[1]));
    assert!(bool::load(&[2]));
    assert!(bool::load(&[0xff]));
    assert!(!bool::load(&[0]));
    survives(true);
    survives(false);
}

#[test]
fn characters_are_stored_by_their_scalar_value() {
    assert_eq!(image(&'A'), [0x41, 0, 0, 0]);
    assert_eq!(image(&'é'), [0xe9, 0, 0, 0]);
    assert_eq!(image(&'\u{10ffff}'), [0xff, 0xff, 0x10, 0]);
    for value in ['\0', 'a', '\u{d7ff}', '\u{e000}', '\u{1f600}', char::MAX] {
        survives(value);
    }
    assert_eq!(char::load(&[0x00, 0xd8, 0, 0]), '\0');
    assert_eq!(char::load(&[0, 0, 0x11, 0]), '\0');
    assert_eq!(char::load(&[0xff, 0xff, 0xff, 0xff]), '\0');
}

#[test]
fn an_option_is_a_tag_and_room_for_the_value() {
    assert_eq!(image(&Some(0x0102u16)), [1, 2, 1]);
    assert_eq!(image(&None::<u16>), [0, 0, 0]);
    assert_eq!(image(&Some(Some(7u8))), [1, 1, 7]);
    assert_eq!(image(&Some(None::<u8>)), [1, 0, 0]);
    assert_eq!(<Option<u16>>::load(&[1, 2, 1]), Some(0x0102));
    assert_eq!(<Option<u16>>::load(&[9, 2, 1]), Some(0x0102));
    assert_eq!(<Option<u16>>::load(&[0, 2, 1]), None);
    survives(Some(-5i64));
    survives(None::<i64>);
    survives(Some([Some(true), None, Some(false)]));
}

#[test]
fn a_result_is_a_tag_and_room_for_the_larger_side() {
    assert_eq!(image(&Ok::<u8, u32>(7)), [0, 7, 0, 0, 0]);
    assert_eq!(image(&Err::<u8, u32>(0x0102_0304)), [1, 4, 3, 2, 1]);
    assert_eq!(image(&Ok::<u32, u8>(0x0102_0304)), [0, 4, 3, 2, 1]);
    assert_eq!(image(&Err::<u32, u8>(7)), [1, 7, 0, 0, 0]);
    assert_eq!(<Result<u8, u32>>::load(&[0, 7, 9, 9, 9]), Ok(7));
    assert_eq!(<Result<u8, u32>>::load(&[5, 4, 3, 2, 1]), Err(0x0102_0304));
    survives(Ok::<i16, bool>(-300));
    survives(Err::<i16, bool>(true));
    survives(Ok::<Option<u8>, [u16; 2]>(Some(3)));
    survives(Err::<Option<u8>, [u16; 2]>([9, 10]));
}

#[test]
fn an_array_is_its_elements_in_order() {
    assert_eq!(image(&[1u16, 2, 3]), [1, 0, 2, 0, 3, 0]);
    assert_eq!(image(&[[1u8, 2], [3, 4]]), [1, 2, 3, 4]);
    assert_eq!(image(&[0u32; 0]), [0u8; 0]);
    assert_eq!(<[u16; 3]>::load(&[1, 0, 2, 0, 3, 0]), [1, 2, 3]);
    survives([1u32, 2, 3, u32::MAX]);
    survives([[-1i8; 3]; 2]);
    survives([0u64; 0]);
    survives([Some('x'), None]);
}

#[test]
fn the_fixed_vector_is_stored_with_its_length() {
    let mut vec = flatipc::Vec::<4>::new();
    assert!(vec.push(7));
    assert!(vec.push(9));
    assert_eq!(image(&vec), [2, 0, 0, 0, 0, 0, 0, 0, 7, 9, 0, 0]);
    let back = <flatipc::Vec<4>>::load(&image(&vec));
    assert_eq!(back.len(), 2);
    assert_eq!(back.get(0), Some(7));
    assert_eq!(back.get(1), Some(9));
    assert_eq!(back.get(2), None);

    let foreign = <flatipc::Vec<4>>::load(&[9, 0, 0, 0, 0, 0, 0, 0, 1, 2, 3, 4]);
    assert_eq!(foreign.len(), 4);
    assert_eq!(foreign.get(3), Some(4));
    assert_eq!(foreign.get(4), None);
}

#[test]
fn images_of_the_wrong_length_are_read_without_panic() {
    assert_eq!(u32::load(&[]), 0);
    assert_eq!(u32::load(&[1, 2, 3]), 0);
    assert_eq!(u32::load(&[1, 2, 3, 4, 5]), 0);
    assert_eq!(i64::load(&[1]), 0);
    assert_eq!(isize::load(&[1]), 0);
    assert!(!bool::load(&[]));
    assert!(!bool::load(&[1, 1]));
    assert_eq!(char::load(&[0x41]), '\0');
    assert_eq!(<Option<u32>>::load(&[]), None);
    assert_eq!(<Option<u32>>::load(&[1]), Some(0));
    assert_eq!(<Result<u8, u8>>::load(&[]), Ok(0));
    assert_eq!(<[u16; 2]>::load(&[1, 0]), [1, 0]);
    assert_eq!(<flatipc::Vec<2>>::load(&[]).len(), 0);
}

#[test]
fn zeros_are_appended() {
    let mut out = vec![1, 2];
    push_zeros(&mut out, 3);
    assert_eq!(out, [1, 2, 0, 0, 0]);
    push_zeros(&mut out, 0);
    assert_eq!(out, [1, 2, 0, 0, 0]);
}

#[test]
fn a_window_is_cut_off_at_the_end() {
    let bytes = [0u8, 1, 2, 3, 4];
    assert_eq!(window(&bytes, 0, 5), &bytes[..]);
    assert_eq!(window(&bytes, 1, 2), &[1, 2]);
    assert_eq!(window(&bytes, 3, 2), &[3, 4]);
    assert_eq!(window(&bytes, 3, 3), &[3, 4]);
    assert_eq!(window(&bytes, 5, 1), &[0u8; 0]);
    assert_eq!(window(&bytes, 6, 1), &[0u8; 0]);
    assert_eq!(window(&bytes, 2, 0), &[0u8; 0]);
    assert_eq!(window(&bytes, usize::MAX, usize::MAX), &[0u8; 0]);
    assert_eq!(window(&bytes, 1, usize::MAX), &[1, 2, 3, 4]);
}

#[test]
fn a_reader_takes_field_after_field() {
    let bytes = [7u8, 1, 0, 0xff, 0xff, 0xff, 0xff, 9, 9, 1, 5, 0];
    let mut reader = Reader::new(&bytes);
    assert_eq!(reader.take::<u8>(), 7);
    assert_eq!(reader.take::<u16>(), 1);
    assert_eq!(reader.take::<i32>(), -1);
    reader.skip(2);
    assert_eq!(reader.take::<Option<u16>>(), Some(5));
    assert_eq!(reader.take::<u8>(), 0);
    assert_eq!(reader.take::<u32>(), 0);
}

#[test]
fn a_tuple_is_its_members_in_order() {
    assert_eq!(image(&()), [0u8; 0]);
    assert_eq!(image(&(7u8,)), [7]);
    assert_eq!(image(&(7u8, 0x0102u16)), [7, 2, 1]);
    assert_eq!(image(&(true, -1i8, 'A')), [1, 0xff, 0x41, 0, 0, 0]);
    assert_eq!(image(&(1u8, (2u8, 3u8), [4u8, 5], Some(6u8))), [1, 2, 3, 4, 5, 1, 6]);
    assert_eq!(<()>::size(), 0);
    assert_eq!(<(u8,)>::size(), 1);
    assert_eq!(<(u8, u16)>::size(), 3);
    assert_eq!(<(u8, u16, u32)>::size(), 7);
    assert_eq!(<(u8, u16, u32, u64)>::size(), 15);
    assert_eq!(<(u8, u16)>::load(&[7, 2, 1]), (7, 0x0102));
    survives(());
    survives((9u64,));
    survives((9u64, Some(-3i16)));
    survives((false, [1u16, 2], 'z'));
    survives((u128::MAX, (1u8, 2u8), Ok::<u8, bool>(3), isize::MIN));
}
