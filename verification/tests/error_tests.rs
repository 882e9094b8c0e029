use runas::ffi::pam::PamError;
use runas::modules::error::{c_text, Error, IoError, IoKind};
use runas::modules::signal::Signal;
use runas::text::IntError;

#[test]
fn messages() {
    assert_eq!(Error::Unknown.display(), "unknown error");
    assert_eq!(Error::Message("m".to_owned()).display(), "m");
    assert_eq!(Error::StaticMessage("s").display(), "s");
    assert_eq!(
        Error::Nul(3).display(),
        "invalid C string: nul byte found in provided data at position: 3"
    );
    assert_eq!(Error::InvalidUtf8("x".to_owned()).display(), "invalid UTF-8: x");
    assert_eq!(
        Error::ParseInt(IntError::InvalidDigit).display(),
        "parse error invalid digit found in string"
    );
    assert_eq!(Error::Pam(PamError::new(7, "no".to_owned())).display(), "PAM: no");
    assert_eq!(
        Error::PamActionRequired(PamError::new(12, "change".to_owned())).display(),
        "PAM: change"
    );
    let io = IoError { kind: IoKind::NotFound, raw: Some(2), text: "gone".to_owned() };
    assert_eq!(Error::Io(io).display(), "I/O error: gone");
}

#[test]
fn zero_bytes() {
    assert_eq!(
        c_text("ab\0c").unwrap_err().display(),
        "invalid C string: nul byte found in provided data at position: 2"
    );
    assert!(c_text("abc").is_ok());
}

#[test]
fn conversions() {
    assert!(matches!(Error::from("t"), Error::Message(_)));
    assert!(matches!(Error::from("t".to_owned()), Error::Message(_)));
    assert!(matches!(Error::from(IntError::Empty), Error::ParseInt(IntError::Empty)));
    assert!(matches!(Error::from(PamError::new(1, String::new())), Error::Pam(_)));
    assert!(matches!(
        Error::from(Signal::from_raw(9).unwrap()),
        Error::Interrupted(s) if s.number() == 9
    ));
}
