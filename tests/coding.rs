use imop::ContentCoding;

#[test]
fn to_static() {
    assert_eq!(ContentCoding::GZIP.to_static(), "gzip");
}

#[test]
fn to_string() {
    assert_eq!(ContentCoding::DEFLATE.to_string(), "deflate".to_string());
}

#[test]
fn from_name() {
    assert_eq!(ContentCoding::from_name("br"), ContentCoding::BROTLI);
    assert_eq!(ContentCoding::from_name("GZIP"), ContentCoding::GZIP);
    assert_eq!(ContentCoding::from_name("blah blah"), ContentCoding::IDENTITY);
}

#[test]
fn try_from_name() {
    assert_eq!(ContentCoding::try_from_name("br").unwrap(), ContentCoding::BROTLI);
    assert!(ContentCoding::try_from_name("blah blah").is_err());
}

#[test]
fn every_coding_reads_back_from_its_token() {
    for c in [
        ContentCoding::BROTLI,
        ContentCoding::COMPRESS,
        ContentCoding::DEFLATE,
        ContentCoding::GZIP,
        ContentCoding::IDENTITY,
    ] {
        assert_eq!(ContentCoding::try_from_name(c.to_static()), Ok(c));
    }
    assert!(ContentCoding::try_from_name("").is_err());
    assert!(ContentCoding::try_from_name("gzip ").is_err());
}
