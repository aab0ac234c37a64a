use sdf::error::Error;
use sdf::file::Channel;
use sdf::text::{decimal_text, list_text};

#[test]
fn error_from_each_code() {
    let text = || "what went wrong".to_string();
    assert!(matches!(Error::from_i32(-1, text()), Error::EndOfFile(m) if m == "what went wrong"));
    assert!(matches!(Error::from_i32(1, text()), Error::BadArg(m) if m == "what went wrong"));
    assert!(
        matches!(Error::from_i32(2, text()), Error::UnsupportedFormat(m) if m == "what went wrong")
    );
    assert!(matches!(Error::from_i32(3, text()), Error::MissingIndex(m) if m == "what went wrong"));
    assert!(
        matches!(Error::from_i32(4, text()), Error::UnknownException(m) if m == "what went wrong")
    );
    assert!(
        matches!(Error::from_i32(5, text()), Error::NotImplemented(m) if m == "what went wrong")
    );
    assert!(matches!(Error::from_i32(6, text()), Error::Runtime(m) if m == "what went wrong"));
    assert!(matches!(
        Error::from_i32(7, text()),
        Error::UnknownCode(7)
    ));
    assert!(matches!(
        Error::from_i32(-2, text()),
        Error::UnknownCode(-2)
    ));
}

#[test]
fn error_codes_with_a_message() {
    for code in [-1, 1, 2, 3, 4, 5, 6] {
        assert!(Error::has_message(code));
    }
    for code in [-2, 7, 100, i32::MIN, i32::MAX] {
        assert!(!Error::has_message(code));
    }
}

#[test]
fn error_descriptions() {
    assert_eq!("bad argument", Error::BadArg(String::new()).description());
    assert_eq!("end of file", Error::EndOfFile(String::new()).description());
    assert_eq!("invalid channel", Error::InvalidChannel(4).description());
    assert_eq!(
        "missing channel",
        Error::MissingChannel(Channel::Low).description()
    );
    assert_eq!(
        "missing index",
        Error::MissingIndex(String::new()).description()
    );
    assert_eq!(
        "zero or more than one reference peaks",
        Error::NeedSingleReferencePeak(0).description()
    );
    assert_eq!(
        "zero or more than one reference blocks",
        Error::NeedSingleReferenceBlock(2).description()
    );
    assert_eq!(
        "no calibration table for channel",
        Error::NoCalibrationTableForChannel(Channel::Reference).description()
    );
    assert_eq!(
        "not implemented",
        Error::NotImplemented(String::new()).description()
    );
    assert_eq!("runtime error", Error::Runtime(String::new()).description());
    assert_eq!("unknown code", Error::UnknownCode(9).description());
    assert_eq!(
        "unknown exception",
        Error::UnknownException(String::new()).description()
    );
    assert_eq!(
        "unsupported format",
        Error::UnsupportedFormat(String::new()).description()
    );
    assert_eq!("zero byte", Error::Nul("zero byte".to_string()).description());
    assert_eq!("disk full", Error::Sdc("disk full".to_string()).description());
    assert_eq!("bad bytes", Error::Utf8("bad bytes".to_string()).description());
}

#[test]
fn error_messages() {
    assert_eq!(
        "Bad argument: no such file",
        Error::BadArg("no such file".to_string()).message()
    );
    assert_eq!(
        "End of file: done",
        Error::EndOfFile("done".to_string()).message()
    );
    assert_eq!("Invalid channel: 4", Error::InvalidChannel(4).message());
    assert_eq!(
        "Invalid channel: 4294967295",
        Error::InvalidChannel(u32::MAX).message()
    );
    assert_eq!(
        "Missing channel: reference",
        Error::MissingChannel(Channel::Reference).message()
    );
    assert_eq!(
        "Missing index: x",
        Error::MissingIndex("x".to_string()).message()
    );
    assert_eq!(
        "Wanted one reference peak, got 0",
        Error::NeedSingleReferencePeak(0).message()
    );
    assert_eq!(
        "Wanted one reference peak, got 12",
        Error::NeedSingleReferencePeak(12).message()
    );
    assert_eq!(
        "Wanted one reference block, got 2",
        Error::NeedSingleReferenceBlock(2).message()
    );
    assert_eq!(
        "No calibration table for channel: saturation",
        Error::NoCalibrationTableForChannel(Channel::Saturation).message()
    );
    assert_eq!(
        "Not implemented: x",
        Error::NotImplemented("x".to_string()).message()
    );
    assert_eq!("Nul error: x", Error::Nul("x".to_string()).message());
    assert_eq!("Runtime error: x", Error::Runtime("x".to_string()).message());
    assert_eq!("Sdc error: x", Error::Sdc("x".to_string()).message());
    assert_eq!("Utf8 error: x", Error::Utf8("x".to_string()).message());
    assert_eq!("Unknown code: 7", Error::UnknownCode(7).message());
    assert_eq!("Unknown code: -7", Error::UnknownCode(-7).message());
    assert_eq!(
        "Unknown code: -2147483648",
        Error::UnknownCode(i32::MIN).message()
    );
    assert_eq!(
        "Unknown exception: x",
        Error::UnknownException("x".to_string()).message()
    );
    assert_eq!(
        "Unsupported format: x",
        Error::UnsupportedFormat("x".to_string()).message()
    );
}

#[test]
fn only_a_missing_reference_peak_is_skipped() {
    assert!(Error::NeedSingleReferencePeak(0).is_skippable());
    assert!(Error::NeedSingleReferencePeak(3).is_skippable());
    assert!(!Error::NeedSingleReferenceBlock(0).is_skippable());
    assert!(!Error::InvalidChannel(4).is_skippable());
    assert!(!Error::EndOfFile(String::new()).is_skippable());
    assert!(!Error::Sdc(String::new()).is_skippable());
}

#[test]
fn decimal_text_of_numbers() {
    assert_eq!("0", decimal_text(0));
    assert_eq!("7", decimal_text(7));
    assert_eq!("10", decimal_text(10));
    assert_eq!("65535", decimal_text(65535));
    assert_eq!("18446744073709551615", decimal_text(u64::MAX));
    for n in [0u64, 9, 10, 99, 100, 101, 12345, 1 << 40] {
        assert_eq!(n.to_string(), decimal_text(n));
    }
}

#[test]
fn list_text_of_samples() {
    assert_eq!("", list_text(&vec![]));
    assert_eq!("5", list_text(&vec![5]));
    assert_eq!("1, 20, 300", list_text(&vec![1, 20, 300]));
}

#[test]
fn end_of_file_is_told_apart() {
    assert!(Error::EndOfFile("x".to_string()).is_end_of_file());
    assert!(Error::from_i32(-1, String::new()).is_end_of_file());
    assert!(!Error::BadArg("x".to_string()).is_end_of_file());
    assert!(!Error::NeedSingleReferencePeak(0).is_end_of_file());
}
