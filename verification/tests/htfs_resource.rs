use valet::htfs::{check_reader_offset, range_header, resource_size, Error};

#[test]
fn size_comes_from_content_length() {
    assert_eq!(resource_size(Some("12")), Ok(12));
    assert_eq!(resource_size(Some("+12")), Ok(12));
    assert_eq!(resource_size(Some("18446744073709551615")), Ok(u64::MAX));
}

#[test]
fn missing_zero_or_garbled_length_is_refused() {
    assert_eq!(resource_size(None), Err(Error::ZeroLength));
    assert_eq!(resource_size(Some("0")), Err(Error::ZeroLength));
    assert_eq!(resource_size(Some("twelve")), Err(Error::ZeroLength));
    assert_eq!(resource_size(Some("")), Err(Error::ZeroLength));
    assert_eq!(resource_size(Some("18446744073709551616")), Err(Error::ZeroLength));
}

#[test]
fn readers_open_up_to_the_end() {
    assert_eq!(check_reader_offset(12, 0), Ok(()));
    assert_eq!(check_reader_offset(12, 12), Ok(()));
    assert_eq!(
        check_reader_offset(12, 13),
        Err(Error::ReadAfterEnd { resource_end: 12, requested: 13 })
    );
}

#[test]
fn range_header_asks_for_the_rest() {
    assert_eq!(range_header(0), "bytes=0-");
    assert_eq!(range_header(4096), "bytes=4096-");
}

#[test]
fn error_messages() {
    assert_eq!(
        Error::ZeroLength.message(),
        "zero-length resource: the content-length header was not present or zero"
    );
    assert_eq!(
        Error::ReadAfterEnd { resource_end: 12, requested: 20 }.message(),
        "trying to get reader at 20 but resource ends at 12"
    );
}
