use futuresdr::buffer::{BufferBuilder, BufferReader, BufferWriter, Store};
use futuresdr::circular::{Circular, ReaderCircular, Ring, WriterCircular, RING_ITEMS};
use futuresdr::message::AsyncMessage;

fn ring_ends(item_size: usize, output_id: usize, input_id: usize) -> (WriterCircular, ReaderCircular) {
    let mut writer = match WriterCircular::new(item_size, output_id) {
        BufferWriter::Circular(w) => w,
        _ => panic!("not a ring writer"),
    };
    let reader = match writer.add_reader(input_id) {
        BufferReader::Circular(r) => r,
        _ => panic!("not a ring reader"),
    };
    (writer, reader)
}

#[test]
fn circular_new_ring_is_empty() {
    let ring = Ring::new(4, 8).unwrap();
    assert_eq!(ring.item_size(), 4);
    assert_eq!(ring.capacity(), 8);
    assert_eq!(ring.len(), 0);
    assert_eq!(ring.writable(), (0, 32));
    assert_eq!(ring.readable(), (0, 0));
    assert!(ring.read().is_empty());
}

#[test]
fn circular_ring_too_large_to_address() {
    assert!(Ring::new(2, usize::MAX).is_none());
    assert!(Ring::new(usize::MAX, 2).is_none());
}

#[test]
fn circular_ring_without_room() {
    let mut ring = Ring::new(4, 0).unwrap();
    assert_eq!(ring.writable(), (0, 0));
    assert_eq!(ring.readable(), (0, 0));
    ring.produce(0);
    ring.consume(0);
    ring.write(&[]);
    assert_eq!(ring.len(), 0);
}

#[test]
fn circular_first_in_first_out() {
    let mut ring = Ring::new(2, 4).unwrap();
    ring.write(&[1, 2, 3, 4]);
    assert_eq!(ring.len(), 0);
    assert!(ring.read().is_empty());
    ring.produce(2);
    assert_eq!(ring.len(), 2);
    assert_eq!(ring.readable(), (0, 4));
    assert_eq!(ring.read(), &[1, 2, 3, 4]);
    assert_eq!(ring.writable(), (4, 4));
    ring.consume(1);
    assert_eq!(ring.readable(), (2, 2));
    assert_eq!(ring.read(), &[3, 4]);
    assert_eq!(ring.len(), 1);
}

#[test]
fn circular_regions_end_at_the_end_of_the_ring() {
    let mut ring = Ring::new(1, 4).unwrap();
    ring.write(&[1, 2, 3]);
    ring.produce(3);
    ring.consume(2);
    assert_eq!(ring.writable(), (3, 1));
    ring.write(&[4]);
    ring.produce(1);
    assert_eq!(ring.writable(), (0, 2));
    ring.write(&[5, 6]);
    ring.produce(2);
    assert_eq!(ring.len(), 4);
    assert_eq!(ring.writable(), (2, 0));
    assert_eq!(ring.readable(), (2, 2));
    assert_eq!(ring.read(), &[3, 4]);
    ring.consume(2);
    assert_eq!(ring.readable(), (0, 2));
    assert_eq!(ring.read(), &[5, 6]);
    ring.consume(2);
    assert_eq!(ring.len(), 0);
    assert_eq!(ring.readable(), (2, 0));
    assert_eq!(ring.writable(), (2, 2));
}

#[test]
fn circular_full_ring_gives_no_region() {
    let (mut writer, mut reader) = ring_ends(4, 0, 0);
    let mut ring = Ring::new(4, 2).unwrap();
    assert_eq!(writer.bytes(&mut ring), (0, 8));
    writer.write(&mut ring, &[1, 1, 1, 1, 2, 2, 2, 2]);
    assert_eq!(writer.produce(&mut ring, 2), Some(AsyncMessage::Notify));
    assert_eq!(writer.bytes(&mut ring), (0, 0));
    assert_eq!(reader.bytes(&mut ring), (0, 8));
    assert_eq!(reader.consume(&mut ring, 1), Some(AsyncMessage::Notify));
    assert_eq!(writer.bytes(&mut ring), (0, 4));
}

#[test]
fn circular_nothing_produced_nothing_said() {
    let (mut writer, mut reader) = ring_ends(4, 0, 0);
    let mut ring = Ring::new(4, 2).unwrap();
    assert_eq!(writer.produce(&mut ring, 0), None);
    assert_eq!(reader.consume(&mut ring, 0), None);
    assert_eq!(reader.bytes(&mut ring), (0, 0));
}

#[test]
fn circular_every_byte_arrives_in_order() {
    let (mut writer, mut reader) = ring_ends(3, 0, 0);
    let mut ring = Ring::new(3, 7).unwrap();
    let source: Vec<u8> = (0..3 * 500).map(|i| (i * 7 % 251) as u8).collect();
    let mut sink: Vec<u8> = Vec::new();
    let mut sent = 0usize;
    let mut step = 0usize;
    while sink.len() < source.len() {
        let (_, room) = writer.bytes(&mut ring);
        let items = std::cmp::min(std::cmp::min(room / 3, 1 + step % 4), (source.len() - sent) / 3);
        writer.write(&mut ring, &source[sent..sent + items * 3]);
        writer.produce(&mut ring, items);
        sent += items * 3;
        if step % 3 != 0 {
            let (_, len) = reader.bytes(&mut ring);
            let take = std::cmp::min(len / 3, 1 + step % 5);
            sink.extend_from_slice(&reader.read(&ring)[..take * 3]);
            reader.consume(&mut ring, take);
        }
        step += 1;
    }
    assert_eq!(sink, source);
    assert_eq!(ring.len(), 0);
}

#[test]
fn circular_handshake_messages() {
    let (mut writer, mut reader) = ring_ends(4, 2, 9);
    let mut ring = Ring::new(4, 2).unwrap();
    assert_eq!(
        writer.notify_finished(),
        Some(AsyncMessage::StreamInputDone { input_id: 9 })
    );
    assert_eq!(
        reader.notify_finished(),
        Some(AsyncMessage::StreamOutputDone { output_id: 2 })
    );
    assert!(writer.notified());
    assert!(reader.notified());
    assert_eq!(writer.notify_finished(), None);
    assert_eq!(reader.notify_finished(), None);
    writer.produce(&mut ring, 1);
    assert!(!reader.finished(&ring));
    reader.finish();
    assert!(!reader.finished(&ring));
    reader.consume(&mut ring, 1);
    assert!(reader.finished(&ring));
    assert!(!writer.finished());
    writer.finish();
    assert!(writer.finished());
    assert_eq!(writer.notify_finished(), None);
}

#[test]
fn circular_marked_writer_still_says_goodbye() {
    let (mut writer, mut reader) = ring_ends(4, 2, 9);
    writer.finish();
    reader.finish();
    assert_eq!(
        writer.notify_finished(),
        Some(AsyncMessage::StreamInputDone { input_id: 9 })
    );
    assert_eq!(
        reader.notify_finished(),
        Some(AsyncMessage::StreamOutputDone { output_id: 2 })
    );
}

#[test]
fn circular_backend_makes_a_ring_for_its_items() {
    let backend = Circular::new();
    assert_eq!(backend, Circular { items: RING_ITEMS });
    assert_eq!(Circular::default(), backend);
    assert_eq!(RING_ITEMS, 8192);
    assert!(matches!(backend.build(4, 0), BufferWriter::Circular(_)));
    match backend.store(4) {
        Store::Ring(ring) => {
            assert_eq!(ring.capacity(), 8192);
            assert_eq!(ring.item_size(), 4);
            assert_eq!(ring.writable(), (0, 32768));
        }
        _ => panic!("not a ring"),
    }
    match Circular::with_items(3).store(5) {
        Store::Ring(ring) => assert_eq!(ring.writable(), (0, 15)),
        _ => panic!("not a ring"),
    }
}
