use foreign_buffer::fstring::{ForeignString, ValidationError};

#[test]
fn host_string_conversion_tracks_both_lengths() {
    let fstring = ForeignString::from_host_string("hello").unwrap();
    assert_eq!(fstring.printable_length(), 5);
    assert_eq!(fstring.storage_length(), 6);
    assert_eq!(fstring.render(), "hello");
    assert_eq!(fstring.byte_at(5), 0);
}

#[test]
fn interior_terminator_is_rejected() {
    let result = ForeignString::from_host_string("a\0b");
    assert_eq!(result.unwrap_err(), ValidationError::InteriorTerminator);
}

#[test]
fn empty_host_string_still_gets_a_terminator() {
    let fstring = ForeignString::from_host_string("").unwrap();
    assert_eq!(fstring.printable_length(), 0);
    assert_eq!(fstring.storage_length(), 1);
    assert_eq!(fstring.render(), "");
}

#[test]
fn multibyte_text_round_trips_through_the_buffer() {
    let fstring = ForeignString::from_host_string("h\u{e9}llo").unwrap();
    // The accented character takes two bytes of storage.
    assert_eq!(fstring.printable_length(), 6);
    assert_eq!(fstring.storage_length(), 7);
    let back = fstring.to_host_string().unwrap();
    assert_eq!(back, "h\u{e9}llo");
}

#[test]
fn invalid_encoding_is_rejected_on_read_back() {
    let mut fstring = ForeignString::allocate_fixed(1);
    fstring.set_byte(0, 0xff);
    let result = fstring.to_host_string();
    assert_eq!(result.unwrap_err(), ValidationError::InvalidEncoding);
}

#[test]
fn allocate_fixed_is_zero_filled() {
    let fstring = ForeignString::allocate_fixed(3);
    assert_eq!(fstring.printable_length(), 3);
    assert_eq!(fstring.storage_length(), 4);
    for i in 0..4usize {
        assert_eq!(fstring.byte_at(i), 0);
    }
}

#[test]
fn fill_in_place_then_read_back() {
    let mut fstring = ForeignString::allocate_fixed(3);
    fstring.set_byte(0, b'a');
    fstring.set_byte(1, b'b');
    fstring.set_byte(2, b'c');
    assert_eq!(fstring.render(), "abc");
    assert_eq!(fstring.to_host_string().unwrap(), "abc");
}

#[test]
fn storage_adoption_stops_at_the_first_terminator() {
    let fstring = ForeignString::from_host_string("hi").unwrap();
    let storage = fstring.into_storage();
    assert_eq!(storage, vec![b'h', b'i', 0]);

    let adopted = ForeignString::from_storage(vec![b'o', b'k', 0, b'x']).unwrap();
    assert_eq!(adopted.printable_length(), 2);
    assert_eq!(adopted.storage_length(), 3);
    assert_eq!(adopted.render(), "ok");

    assert!(ForeignString::from_storage(vec![b'n', b'o']).is_none());
}
