use futuresdr::buffer::{BufferBuilder, BufferReader, BufferWriter, Store};
use futuresdr::chunk::BufferEmpty;
use futuresdr::circular::Circular;
use futuresdr::d2h::D2H;
use futuresdr::flowgraph::DefaultBuffer;
use futuresdr::h2d::H2D;
use futuresdr::message::AsyncMessage;
use futuresdr::slab::Slab;

fn pair<B: BufferBuilder>(backend: B) -> (BufferWriter, BufferReader, Store) {
    let mut writer = backend.build(4, 3);
    let reader = writer.add_reader(8);
    (writer, reader, backend.store(4))
}

#[test]
fn buffer_each_backend_makes_its_own_ends() {
    let (mut w, mut r, mut s) = pair(H2D::new());
    assert!(w.try_as_h2d().is_some() && w.try_as_d2h().is_none());
    assert!(w.try_as_slab().is_none() && w.try_as_circular().is_none());
    assert!(r.try_as_h2d().is_some() && r.try_as_d2h().is_none());
    assert!(r.try_as_slab().is_none() && r.try_as_circular().is_none());
    assert!(s.try_as_pools().is_some() && s.try_as_ring().is_none());

    let (mut w, mut r, mut s) = pair(D2H::new());
    assert!(w.try_as_d2h().is_some() && w.try_as_h2d().is_none());
    assert!(r.try_as_d2h().is_some() && r.try_as_h2d().is_none());
    assert!(s.try_as_pools().is_some());

    let (mut w, mut r, mut s) = pair(Slab::new());
    assert!(w.try_as_slab().is_some() && w.try_as_h2d().is_none());
    assert!(r.try_as_slab().is_some() && r.try_as_d2h().is_none());
    assert!(s.try_as_pools().is_some());

    let (mut w, mut r, mut s) = pair(Circular::new());
    assert!(w.try_as_circular().is_some() && w.try_as_slab().is_none());
    assert!(r.try_as_circular().is_some() && r.try_as_slab().is_none());
    assert!(s.try_as_ring().is_some() && s.try_as_pools().is_none());

    let (mut w, mut r, mut s) = pair(DefaultBuffer::new());
    assert!(w.try_as_circular().is_some());
    assert!(r.try_as_circular().is_some());
    assert!(s.try_as_ring().is_some());
}

fn farewells<B: BufferBuilder>(backend: B) {
    let (mut w, mut r, mut s) = pair(backend);
    assert!(!w.finished());
    assert!(!r.finished(&s));
    assert!(!w.notified());
    assert!(!r.notified());
    assert_eq!(
        w.notify_finished(&mut s),
        Some(AsyncMessage::StreamInputDone { input_id: 8 })
    );
    assert_eq!(
        r.notify_finished(),
        Some(AsyncMessage::StreamOutputDone { output_id: 3 })
    );
    assert!(w.notified());
    assert!(r.notified());
    assert!(!w.finished());
    assert_eq!(w.notify_finished(&mut s), None);
    assert_eq!(r.notify_finished(), None);
    w.finish();
    r.finish();
    assert!(w.finished());
    assert!(r.finished(&s));
    assert_eq!(w.notify_finished(&mut s), None);
    assert_eq!(r.notify_finished(), None);
}

fn marked_first<B: BufferBuilder>(backend: B) {
    let (mut w, mut r, mut s) = pair(backend);
    w.finish();
    r.finish();
    assert_eq!(
        w.notify_finished(&mut s),
        Some(AsyncMessage::StreamInputDone { input_id: 8 })
    );
    assert_eq!(
        r.notify_finished(),
        Some(AsyncMessage::StreamOutputDone { output_id: 3 })
    );
    assert_eq!(w.notify_finished(&mut s), None);
    assert_eq!(r.notify_finished(), None);
}

#[test]
fn buffer_the_mark_does_not_silence_the_goodbye() {
    marked_first(H2D::new());
    marked_first(D2H::new());
    marked_first(Slab::new());
    marked_first(Circular::new());
    marked_first(DefaultBuffer::new());
}

#[test]
fn buffer_each_backend_says_goodbye() {
    farewells(H2D::new());
    farewells(D2H::new());
    farewells(Slab::new());
    farewells(Circular::new());
    farewells(DefaultBuffer::new());
}

#[test]
fn buffer_goodbye_of_a_host_writer_flushes() {
    let (mut w, mut r, mut s) = pair(H2D::new());
    r.try_as_h2d()
        .unwrap()
        .submit(s.try_as_pools().unwrap(), BufferEmpty::new(1, 16));
    {
        let writer = w.try_as_h2d().unwrap();
        let pools = s.try_as_pools().unwrap();
        assert_eq!(writer.bytes(pools), (0, 16));
        writer.produce(pools, 3);
    }
    assert!(w.notify_finished(&mut s).is_some());
    let full = r.try_as_h2d().unwrap().buffers(s.try_as_pools().unwrap());
    assert_eq!(full.len(), 1);
    assert_eq!(full[0].used_bytes(), 12);
}
