use valet::htfs::async_read_at::{
    AsyncReadAt, AsyncSectionReader, AsyncSectionReaderError, GetReaderAt, IntoAsyncReadAt,
    SECTION_BUFFER_SIZE,
};

#[derive(Debug, PartialEq)]
struct Blob(u64);

impl AsyncReadAt for Blob {
    fn spec_size(&self) -> u64 {
        self.0
    }

    fn size(&self) -> u64 {
        self.0
    }
}

struct Remote(u64);

impl GetReaderAt for Remote {
    type Reader = ();

    fn spec_size(&self) -> u64 {
        self.0
    }

    fn size(&self) -> u64 {
        self.0
    }
}

#[test]
fn wrapper_reports_source_size() {
    let w = Remote(77).into_async_read_at();
    assert_eq!(w.size(), 77);
    assert_eq!(w.inner().0, 77);
}

#[test]
fn section_must_lie_within_resource() {
    assert!(matches!(
        AsyncSectionReader::new(Blob(10), 11, 0),
        Err(AsyncSectionReaderError::OffsetTooLarge { passed: 11, max: 10 })
    ));
    assert!(matches!(
        AsyncSectionReader::new(Blob(10), 4, 7),
        Err(AsyncSectionReaderError::LenTooLarge { passed: 7, max: 6 })
    ));
    assert!(AsyncSectionReader::new(Blob(10), 4, 6).is_ok());
    assert!(AsyncSectionReader::new(Blob(10), 10, 0).is_ok());
}

#[test]
fn section_error_messages() {
    assert_eq!(
        AsyncSectionReaderError::OffsetTooLarge { passed: 11, max: 10 }.message(),
        "offset too large: passed 11, but maximum is 10"
    );
    assert_eq!(
        AsyncSectionReaderError::LenTooLarge { passed: 7, max: 6 }.message(),
        "length too large: passed 7, but maximum is 6"
    );
}

#[test]
fn reads_walk_through_the_section() {
    let mut r = match AsyncSectionReader::new(Blob(5000), 100, 1500) {
        Ok(r) => r,
        Err(_) => panic!("section fits"),
    };
    // first read: a full buffer at offset 100
    let req = r.begin_read().expect("idle");
    assert_eq!(req.offset, 100);
    assert_eq!(req.read_size, SECTION_BUFFER_SIZE);
    assert_eq!(req.buf.len(), SECTION_BUFFER_SIZE);
    // a second begin while the read is in flight hands nothing out
    assert!(r.begin_read().is_none());
    let mut buf = req.buf;
    for (i, b) in buf.iter_mut().enumerate().take(10) {
        *b = i as u8 + 1;
    }
    let mut out = [0u8; 16];
    let res: Result<usize, ()> = r.finish_read(req.inner, buf, Ok(10), &mut out);
    assert_eq!(res, Ok(10));
    assert_eq!(&out[..10], &[1, 2, 3, 4, 5, 6, 7, 8, 9, 10]);
    assert_eq!(&out[10..], &[0; 6]);
    // second read: what is left of the section
    let req = r.begin_read().expect("idle again");
    assert_eq!(req.offset, 110);
    assert_eq!(req.read_size, SECTION_BUFFER_SIZE);
    let res: Result<usize, ()> = r.finish_read(req.inner, req.buf, Ok(1024), &mut [0u8; 2048]);
    assert_eq!(res, Ok(1024));
    let req = r.begin_read().expect("idle again");
    assert_eq!(req.offset, 1134);
    assert_eq!(req.read_size, 466);
    // a failed read leaves the position
    let res: Result<usize, &str> = r.finish_read(req.inner, req.buf, Err("reset"), &mut out);
    assert_eq!(res, Err("reset"));
    let req = r.begin_read().expect("idle again");
    assert_eq!(req.offset, 1134);
    assert_eq!(req.read_size, 466);
    let res: Result<usize, ()> = r.finish_read(req.inner, req.buf, Ok(466), &mut [0u8; 466]);
    assert_eq!(res, Ok(466));
    // the section is exhausted: reads ask for nothing
    let req = r.begin_read().expect("idle again");
    assert_eq!(req.offset, 1600);
    assert_eq!(req.read_size, 0);
    let res: Result<usize, ()> = r.finish_read(req.inner, req.buf, Ok(0), &mut out);
    assert_eq!(res, Ok(0));
    assert_eq!(r.into_inner(), Blob(5000));
}
