use std::sync::Arc;

use valet::htfs::conn::Conn;
use valet::htfs::rand_id::RandID;
use valet::htfs::reader::{Connections, Reader2, ReaderInner};

#[test]
fn rand_id_label_is_bracketed_hex() {
    assert_eq!(RandID::new(0x1a2b).label(), "[1a2b]");
    assert_eq!(RandID::new(0).label(), "[0]");
    assert_eq!(RandID::new(u32::MAX).label(), "[ffffffff]");
}

#[test]
fn conn_label_and_reads() {
    let mut c = Conn::new("reader", 40, RandID::new(0xbeef));
    assert_eq!(c.label(), "Conn([beef] @ 40)");
    c.record_read::<()>(&Ok(2));
    assert_eq!(c.offset, 42);
    c.record_read(&Err("boom"));
    assert_eq!(c.offset, 42);
    assert_eq!(c.label(), "Conn([beef] @ 42)");
}

#[test]
fn connections_are_found_by_offset() {
    let mut pool = Connections::new();
    pool.put(Conn::new("a", 0, RandID::new(1)));
    pool.put(Conn::new("b", 10, RandID::new(2)));
    pool.put(Conn::new("c", 10, RandID::new(3)));
    assert_eq!(pool.len(), 3);
    assert!(pool.take_at(5).is_none());
    let found = pool.take_at(10).unwrap();
    assert_eq!(found.inner, "b");
    assert_eq!(pool.len(), 2);
    assert_eq!(pool.take_at(10).unwrap().inner, "c");
    assert!(pool.take_at(10).is_none());
    assert_eq!(pool.take_at(0).unwrap().id, RandID::new(1));
    assert_eq!(pool.len(), 0);
}

#[test]
fn reader_inner_prepares_and_advances() {
    let mut inner = ReaderInner { file: Arc::new(()), offset: 7, buf: vec![9, 9, 9, 9, 9] };
    inner.prepare(3);
    assert_eq!(inner.buf, vec![0, 0, 0]);
    inner.record_read::<()>(&Ok(3));
    assert_eq!(inner.offset, 10);
    inner.record_read(&Err(()));
    assert_eq!(inner.offset, 10);
}

#[test]
fn reader_lends_its_state_for_each_read() {
    let mut r = Reader2::new(Arc::new("file"), 0);
    let mut inner = r.begin_read().expect("idle");
    assert!(r.begin_read().is_none());
    inner.prepare(4);
    inner.buf.copy_from_slice(&[1, 2, 3, 4]);
    inner.record_read::<()>(&Ok(3));
    let mut out = [0u8; 4];
    let res: Result<usize, ()> = r.finish_read(inner, Ok(3), &mut out);
    assert_eq!(res, Ok(3));
    assert_eq!(out, [1, 2, 3, 0]);
    let inner = r.begin_read().expect("idle again");
    assert_eq!(inner.offset, 3);
    assert_eq!(*inner.file, "file");
}

#[test]
fn sequential_reads_reuse_their_connection() {
    let mut pool = Connections::new();
    pool.put(Conn::new("other", 3, RandID::new(7)));
    let mut inner = ReaderInner { file: Arc::new(()), offset: 100, buf: Vec::new() };

    // Nothing stands at 100 yet: a fresh connection is opened there.
    assert!(inner.start_read(4, &mut pool).is_none());
    assert_eq!(inner.buf, vec![0, 0, 0, 0]);
    assert_eq!(pool.len(), 1);
    let conn = Conn::new("fresh", inner.offset, RandID::new(9));
    inner.end_read::<&str, ()>(&mut pool, conn, &Ok(4));
    assert_eq!(inner.offset, 104);
    assert_eq!(pool.len(), 2);

    // The next read continues at 104 and takes that connection back.
    let conn = inner.start_read(8, &mut pool).expect("connection at 104");
    assert_eq!(conn.inner, "fresh");
    assert_eq!(conn.offset, 104);
    assert_eq!(pool.len(), 1);

    // A failed read moves neither the reader nor the connection.
    inner.end_read(&mut pool, conn, &Err("reset"));
    assert_eq!(inner.offset, 104);
    assert_eq!(pool.take_at(104).unwrap().id, RandID::new(9));
}
