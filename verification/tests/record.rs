use cgroup_oom::record::{registration_record, MINUS, SEPARATOR, ZERO};

fn has_record_shape(bytes: &[u8]) -> bool {
    let parts: Vec<&[u8]> = bytes.split(|b| *b == b' ').collect();
    parts.len() == 2
        && parts.iter().all(|p| !p.is_empty() && p.iter().all(|b| b.is_ascii_digit()))
}

#[test]
fn the_bytes_are_those_of_the_characters() {
    assert_eq!(SEPARATOR, b' ');
    assert_eq!(MINUS, b'-');
    assert_eq!(ZERO, b'0');
}

#[test]
fn record_of_seven_and_five() {
    assert_eq!(registration_record(7, 5), b"7 5".to_vec());
}

#[test]
fn the_event_descriptor_comes_first() {
    assert_eq!(registration_record(12, 3), b"12 3".to_vec());
    assert_eq!(registration_record(3, 12), b"3 12".to_vec());
}

#[test]
fn record_of_zero() {
    assert_eq!(registration_record(0, 0), b"0 0".to_vec());
}

#[test]
fn record_of_round_numbers() {
    assert_eq!(registration_record(10, 100), b"10 100".to_vec());
    assert_eq!(registration_record(1000, 9), b"1000 9".to_vec());
    assert_eq!(registration_record(1024, 65535), b"1024 65535".to_vec());
}

#[test]
fn record_of_the_largest_numbers() {
    assert_eq!(registration_record(i32::MAX, i32::MAX), b"2147483647 2147483647".to_vec());
}

#[test]
fn negative_numbers_carry_a_minus_sign() {
    assert_eq!(registration_record(-1, 5), b"-1 5".to_vec());
    assert_eq!(registration_record(5, i32::MIN), b"5 -2147483648".to_vec());
}

#[test]
fn the_record_reads_as_the_standard_formatting_does() {
    for (event, control) in [(0, 1), (3, 4), (9, 10), (99, 100), (4096, 17), (-7, 123456789)] {
        let expected = format!("{} {}", event, control);
        assert_eq!(registration_record(event, control), expected.into_bytes());
    }
}

#[test]
fn records_of_descriptors_have_the_shape_of_a_record() {
    for event in [0, 1, 9, 10, 11, 99, 100, 1023, 65536, i32::MAX] {
        for control in [0, 5, 10, 4095, i32::MAX] {
            let payload = registration_record(event, control);
            assert!(has_record_shape(&payload));
            assert_ne!(payload.last(), Some(&b'\n'));
        }
    }
}
