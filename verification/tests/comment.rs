use tivars::error::DecodeError;
use tivars::file::File;
use tivars::mode::VariableReadOptions;
use tivars::payload::{Payload, Real, Variable};


fn wrap(payload: Real) -> Variable<Real> {
    Variable::new(payload).ok().unwrap()
}

fn empty_file() -> File<Real> {
    let payload = Real::from_bytes(&[], &VariableReadOptions).unwrap();
    File::new(wrap(payload))
}

fn file_with_region(region: [u8; 42]) -> File<Real> {
    let mut file = empty_file();
    *file.comment_raw_mut() = region;
    file
}

#[test]
fn hello_zero_terminated() {
    let mut file = file_with_region([0xAA; 42]);
    file.set_comment("hello", true);
    assert_eq!(&file.comment_raw()[..6], b"hello\0");
    assert_eq!(file.comment_length(), 5);
    assert!(file.is_comment_zero_terminated());
    assert_eq!(file.comment(false), Ok(String::from("hello")));
    assert_eq!(file.comment(true), Ok(String::from("hello")));
}

#[test]
fn zero_terminated_text_leaves_the_rest_of_the_region() {
    let mut file = file_with_region([0xAA; 42]);
    file.set_comment("hello", true);
    assert_eq!(&file.comment_raw()[6..], &[0xAAu8; 36][..]);
}

#[test]
fn region_of_spaces_is_an_empty_padded_comment() {
    let file = file_with_region([b' '; 42]);
    assert!(!file.is_comment_zero_terminated());
    assert_eq!(file.comment_length(), 0);
    assert_eq!(file.comment(true), Ok(String::new()));
    assert_eq!(file.comment(false), Ok(" ".repeat(42)));
}

#[test]
fn region_of_spaces_made_zero_terminated() {
    let mut file = file_with_region([b' '; 42]);
    file.make_comment_zero_terminated();
    assert!(file.is_comment_zero_terminated());
    // The padding begins at the start of the region, so the zero byte goes there.
    assert_eq!(file.comment_raw()[0], 0);
    assert_eq!(&file.comment_raw()[1..], &[b' '; 41][..]);
    assert_eq!(file.comment_length(), 0);
    assert_eq!(file.comment(false), Ok(String::new()));
}

#[test]
fn padded_text() {
    let mut file = empty_file();
    file.set_comment("hi", false);
    let mut expected = [b' '; 42];
    expected[0] = b'h';
    expected[1] = b'i';
    assert_eq!(file.comment_raw(), &expected);
    assert!(!file.is_comment_zero_terminated());
    assert_eq!(file.comment_length(), 2);
    assert_eq!(file.comment(true), Ok(String::from("hi")));
    assert_eq!(file.comment(false), Ok(format!("hi{}", " ".repeat(40))));
}

#[test]
fn trimming_keeps_spaces_inside_the_text() {
    let mut file = empty_file();
    file.set_comment("  a b  ", false);
    assert_eq!(file.comment_length(), 5);
    assert_eq!(file.comment(true), Ok(String::from("  a b")));
}

#[test]
fn trimming_does_nothing_to_zero_terminated_text() {
    let mut file = empty_file();
    file.set_comment("hi  ", true);
    assert_eq!(file.comment(true), Ok(String::from("hi  ")));
    assert_eq!(file.comment(false), Ok(String::from("hi  ")));
    assert_eq!(file.comment_length(), 4);
}

#[test]
fn text_that_fills_the_region() {
    let text = "abcdefghijklmnopqrstuvwxyzABCDEFGHIJKLMNOP";
    assert_eq!(text.len(), 42);
    let mut file = empty_file();
    file.set_comment(text, true);
    assert_eq!(&file.comment_raw()[..], text.as_bytes());
    assert!(!file.is_comment_zero_terminated());
    assert_eq!(file.comment_length(), 42);
    assert_eq!(file.comment(false), Ok(String::from(text)));
    assert_eq!(file.comment(true), Ok(String::from(text)));
}

#[test]
fn text_of_forty_one_bytes_has_room_for_the_zero_byte() {
    let text = "a".repeat(41);
    let mut file = file_with_region([b'x'; 42]);
    file.set_comment(&text, true);
    assert_eq!(file.comment_raw()[41], 0);
    assert_eq!(file.comment_length(), 41);
    assert_eq!(file.comment(false), Ok(text));
}

#[test]
fn longer_text_is_cut_to_the_region() {
    let text = "0123456789".repeat(5);
    let mut file = empty_file();
    file.set_comment(&text, false);
    assert_eq!(&file.comment_raw()[..], &text.as_bytes()[..42]);
    assert_eq!(file.comment_length(), 42);
    assert_eq!(file.comment(true), Ok(String::from(&text[..42])));
    file.set_comment(&text, true);
    assert_eq!(&file.comment_raw()[..], &text.as_bytes()[..42]);
    assert!(!file.is_comment_zero_terminated());
}

#[test]
fn empty_text_zero_terminated() {
    let mut file = file_with_region([b'x'; 42]);
    file.set_comment("", true);
    assert_eq!(file.comment_raw()[0], 0);
    assert_eq!(&file.comment_raw()[1..], &[b'x'; 41][..]);
    assert_eq!(file.comment_length(), 0);
    assert_eq!(file.comment(false), Ok(String::new()));
}

#[test]
fn empty_text_padded() {
    let mut file = file_with_region([b'x'; 42]);
    file.set_comment("", false);
    assert_eq!(file.comment_raw(), &[b' '; 42]);
}

#[test]
fn stored_text_is_read_back() {
    for text in ["", "a", "hello", "two words", "gr\u{fc}n \u{2713} \u{1F600}", " lead", "trail  "] {
        let mut file = file_with_region([b'#'; 42]);
        file.set_comment(text, true);
        assert_eq!(file.comment(false), Ok(String::from(text)));
        assert_eq!(file.comment_length(), text.len());
    }
}

#[test]
fn stored_text_of_forty_two_bytes_is_read_back() {
    // 14 characters of three bytes each
    let text = "\u{20AC}".repeat(14);
    assert_eq!(text.len(), 42);
    let mut file = empty_file();
    file.set_comment(&text, true);
    assert_eq!(file.comment(false), Ok(text));
}

#[test]
fn text_with_the_character_nul_is_cut_there() {
    let mut file = empty_file();
    file.set_comment("a\0b", true);
    assert_eq!(&file.comment_raw()[..4], b"a\0b\0");
    assert_eq!(file.comment(false), Ok(String::from("a")));
    assert_eq!(file.comment_length(), 1);
}

#[test]
fn comment_ends_at_the_first_zero_byte() {
    let mut region = [b' '; 42];
    region[..7].copy_from_slice(b"ab\0cd\0e");
    let file = file_with_region(region);
    assert!(file.is_comment_zero_terminated());
    assert_eq!(file.comment_length(), 2);
    assert_eq!(file.comment(true), Ok(String::from("ab")));
}

#[test]
fn zero_byte_at_the_end_of_the_region() {
    let mut region = [b'z'; 42];
    region[41] = 0;
    let file = file_with_region(region);
    assert!(file.is_comment_zero_terminated());
    assert_eq!(file.comment_length(), 41);
    assert_eq!(file.comment(false), Ok("z".repeat(41)));
}

#[test]
fn comment_that_is_not_utf8() {
    let mut region = [0u8; 42];
    region[0] = 0xFF;
    region[1] = b'a';
    let file = file_with_region(region);
    assert_eq!(file.comment(false), Err(DecodeError::InvalidCommentEncoding));
    assert_eq!(file.comment(true), Err(DecodeError::InvalidCommentEncoding));
    assert_eq!(file.comment_length(), 2);
}

#[test]
fn bytes_behind_the_zero_byte_need_not_be_utf8() {
    let mut region = [0xFFu8; 42];
    region[..3].copy_from_slice(b"ok\0");
    let file = file_with_region(region);
    assert_eq!(file.comment(false), Ok(String::from("ok")));
}

#[test]
fn padded_comment_that_is_not_utf8() {
    let mut region = [b' '; 42];
    region[0] = 0xC3;
    let file = file_with_region(region);
    assert_eq!(file.comment(true), Err(DecodeError::InvalidCommentEncoding));
    assert_eq!(file.comment(false), Err(DecodeError::InvalidCommentEncoding));
}

#[test]
fn character_cut_in_the_middle_is_not_utf8() {
    let text = format!("{}\u{e9}", "a".repeat(41));
    assert_eq!(text.len(), 43);
    let mut file = empty_file();
    file.set_comment(&text, true);
    assert_eq!(file.comment_raw()[41], 0xC3);
    assert_eq!(file.comment(false), Err(DecodeError::InvalidCommentEncoding));
}

#[test]
fn padding_becomes_termination() {
    let mut file = empty_file();
    file.set_comment("hi", false);
    file.make_comment_zero_terminated();
    let mut expected = [b' '; 42];
    expected[..3].copy_from_slice(b"hi\0");
    assert_eq!(file.comment_raw(), &expected);
    assert_eq!(file.comment(false), Ok(String::from("hi")));
}

#[test]
fn one_space_of_padding_becomes_the_zero_byte() {
    let mut region = [b'q'; 42];
    region[41] = b' ';
    let mut file = file_with_region(region);
    file.make_comment_zero_terminated();
    region[41] = 0;
    assert_eq!(file.comment_raw(), &region);
    assert_eq!(file.comment_length(), 41);
}

#[test]
fn full_region_cannot_be_zero_terminated() {
    let mut file = file_with_region([b'q'; 42]);
    file.make_comment_zero_terminated();
    assert_eq!(file.comment_raw(), &[b'q'; 42]);
    assert!(!file.is_comment_zero_terminated());
}

#[test]
fn zero_terminated_comment_stays_when_made_zero_terminated() {
    let mut region = [b' '; 42];
    region[..4].copy_from_slice(b"abc\0");
    let mut file = file_with_region(region);
    file.make_comment_zero_terminated();
    assert_eq!(file.comment_raw(), &region);
}

#[test]
fn making_zero_terminated_twice_is_making_it_once() {
    for start in [[b' '; 42], [b'q'; 42], [0u8; 42]] {
        let mut region = start;
        region[..2].copy_from_slice(b"hi");
        let mut once = file_with_region(region);
        once.make_comment_zero_terminated();
        let mut twice = file_with_region(region);
        twice.make_comment_zero_terminated();
        twice.make_comment_zero_terminated();
        assert_eq!(once.comment_raw(), twice.comment_raw());
    }
}

#[test]
fn termination_becomes_padding() {
    let mut file = file_with_region([0xAA; 42]);
    file.set_comment("hello", true);
    file.make_comment_padded();
    let mut expected = [b' '; 42];
    expected[..5].copy_from_slice(b"hello");
    assert_eq!(file.comment_raw(), &expected);
    assert!(!file.is_comment_zero_terminated());
    assert_eq!(file.comment_length(), 5);
    assert_eq!(file.comment(true), Ok(String::from("hello")));
}

#[test]
fn padded_comment_stays_when_made_padded() {
    let mut region = [b' '; 42];
    region[..3].copy_from_slice(b"abc");
    let mut file = file_with_region(region);
    file.make_comment_padded();
    assert_eq!(file.comment_raw(), &region);
}

#[test]
fn zero_byte_at_the_start_is_padded_to_an_empty_comment() {
    let mut file = file_with_region([0u8; 42]);
    file.make_comment_padded();
    assert_eq!(file.comment_raw(), &[b' '; 42]);
}

#[test]
fn making_padded_twice_is_making_it_once() {
    for start in [[b' '; 42], [b'q'; 42], [0u8; 42]] {
        let mut region = start;
        region[..3].copy_from_slice(b"hi\0");
        let mut once = file_with_region(region);
        once.make_comment_padded();
        let mut twice = file_with_region(region);
        twice.make_comment_padded();
        twice.make_comment_padded();
        assert_eq!(once.comment_raw(), twice.comment_raw());
    }
}

#[test]
fn padding_and_termination_turn_into_each_other() {
    let mut file = empty_file();
    file.set_comment("note", false);
    let padded = *file.comment_raw();
    file.make_comment_zero_terminated();
    assert_eq!(file.comment(false), Ok(String::from("note")));
    file.make_comment_padded();
    assert_eq!(file.comment_raw(), &padded);
}

#[test]
fn comment_region_is_written_through_the_raw_accessor() {
    let mut file = empty_file();
    file.comment_raw_mut()[0] = b'!';
    file.comment_raw_mut()[1] = 0;
    assert_eq!(file.comment_raw()[0], b'!');
    assert_eq!(file.comment(false), Ok(String::from("!")));
}

#[test]
fn comment_changes_leave_the_rest_of_the_file() {
    let payload = Real::from_bytes(&[1, 2, 3], &VariableReadOptions).unwrap();
    let mut file = File::new(wrap(payload));
    let before = file.bytes();
    file.set_comment("hello", false);
    file.make_comment_zero_terminated();
    file.make_comment_padded();
    let after = file.bytes();
    assert_eq!(&after[..11], &before[..11]);
    assert_eq!(&after[53..], &before[53..]);
    assert_eq!(file.variable_length(), 3);
    assert_eq!(file.checksum(), 6);
}
