use fix_session::field::FixFloat;

fn float_from(negative: bool, int_digits: &[u8], frac_digits: &[u8]) -> FixFloat {
    FixFloat { negative, int_digits: int_digits.to_vec(), frac_digits: frac_digits.to_vec() }
}

#[test]
fn test_float_write() {
    struct TestCase<'a> {
        field: FixFloat,
        val: &'a str,
    }
    let tests = vec![TestCase { field: float_from(false, b"5", b""), val: "5" }];
    for test in tests.iter() {
        let b = test.field.write();
        assert_eq!(b, test.val.as_bytes(), "got {:?}; want {}", b, test.val);
    }
}

#[test]
fn test_float_read() {
    struct TestCase<'a> {
        bytes: &'a [u8],
        // canonical rendering of the numeric value the field must hold
        // after the read; errors must leave the default (zero) untouched
        value: &'a [u8],
        expect_error: bool,
    }
    let tests = vec![
        TestCase { bytes: "15".as_bytes(), value: b"15", expect_error: false },
        TestCase { bytes: "99.9".as_bytes(), value: b"99.9", expect_error: false },
        TestCase { bytes: "0.00".as_bytes(), value: b"0", expect_error: false },
        TestCase { bytes: "-99.9".as_bytes(), value: b"-99.9", expect_error: false },
        TestCase { bytes: "-99.9.9".as_bytes(), value: b"0", expect_error: true },
        TestCase { bytes: "blah".as_bytes(), value: b"0", expect_error: true },
        TestCase { bytes: "1.a1".as_bytes(), value: b"0", expect_error: true },
        TestCase { bytes: "+200.00".as_bytes(), value: b"0", expect_error: true },
    ];
    for test in tests.iter() {
        let mut field = FixFloat::default();
        let err = field.read(test.bytes);
        assert_eq!(test.expect_error, err.is_err());
        assert_eq!(test.value, field.write().as_slice());
    }
}

#[test]
fn read_accepts_the_decimal_grammar() {
    let accepted: &[&[u8]] = &[b"0", b"7", b"007", b"15", b"99.9", b"0.00", b"-1", b"-99.9",
        b"123456789012345678901234567890", b"-0.5", b"10.010"];
    for bytes in accepted {
        let mut field = FixFloat::default();
        assert!(field.read(bytes).is_ok(), "{:?} must be accepted", bytes);
    }
}

#[test]
fn read_rejects_everything_else() {
    let rejected: &[&[u8]] = &[b"", b"-", b".", b"5.", b".5", b"+1", b"1..2", b"1.2.3", b"1e5",
        b" 1", b"1 ", b"--1", b"1-2", b"-.5", b"-5."];
    for bytes in rejected {
        let mut field = float_from(true, b"42", b"25");
        assert!(field.read(bytes).is_err(), "{:?} must be rejected", bytes);
        // the prior value is left untouched on error
        assert_eq!(field.write(), b"-42.25".to_vec());
    }
}

#[test]
fn read_normalizes_to_canonical_form() {
    let cases: &[(&[u8], &[u8])] = &[
        (b"5.0", b"5"),
        (b"00123", b"123"),
        (b"1.500", b"1.5"),
        (b"-0.00", b"0"),
        (b"-0", b"0"),
        (b"000.000", b"0"),
        (b"0.010", b"0.01"),
        (b"-007.100", b"-7.1"),
    ];
    for (input, canonical) in cases {
        let mut field = FixFloat::default();
        assert!(field.read(input).is_ok());
        assert_eq!(field.write().as_slice(), *canonical);
    }
}

#[test]
fn write_then_read_round_trips() {
    let fields = [
        float_from(false, b"0", b""),
        float_from(false, b"5", b""),
        float_from(true, b"99", b"9"),
        float_from(false, b"0", b"125"),
        float_from(true, b"12030", b"00405"),
    ];
    for field in fields.iter() {
        let written = field.write();
        let mut back = FixFloat::default();
        assert!(back.read(written.as_slice()).is_ok());
        assert_eq!(back.negative, field.negative);
        assert_eq!(back.int_digits, field.int_digits);
        assert_eq!(back.frac_digits, field.frac_digits);
        // a second trip renders identical bytes
        assert_eq!(back.write(), written);
    }
}
