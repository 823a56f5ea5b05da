use futuresdr::buffer::{BufferReader, BufferWriter, Store};
use futuresdr::chunk::BufferEmpty;
use futuresdr::h2d::{ReaderH2D, WriterH2D, H2D};
use futuresdr::buffer::BufferBuilder;
use futuresdr::message::AsyncMessage;
use futuresdr::pools::Pools;

fn ends(item_size: usize, output_id: usize, input_id: usize) -> (WriterH2D, ReaderH2D) {
    let mut writer = match WriterH2D::new(item_size, output_id) {
        BufferWriter::H2D(w) => w,
        _ => panic!("not a host-to-device writer"),
    };
    let reader = match writer.add_reader(input_id) {
        BufferReader::H2D(r) => r,
        _ => panic!("not a host-to-device reader"),
    };
    (writer, reader)
}

#[test]
fn h2d_empty_pool_gives_no_region() {
    let (mut writer, _reader) = ends(4, 0, 0);
    let mut pools = Pools::new();
    assert_eq!(writer.bytes(&mut pools), (0, 0));
    assert_eq!(writer.bytes(&mut pools), (0, 0));
    assert_eq!(pools.empty_len(), 0);
    assert_eq!(pools.full_len(), 0);
}

#[test]
fn h2d_region_after_a_chunk_was_submitted() {
    let (mut writer, mut reader) = ends(4, 0, 0);
    let mut pools = Pools::new();
    assert_eq!(writer.bytes(&mut pools), (0, 0));
    let notice = reader.submit(&mut pools, BufferEmpty::new(1, 8192));
    assert_eq!(notice, AsyncMessage::Notify);
    assert_eq!(pools.empty_len(), 1);
    assert_eq!(writer.bytes(&mut pools), (0, 8192));
    assert_eq!(pools.empty_len(), 0);
}

#[test]
fn h2d_region_counts_whole_items_only() {
    let (mut writer, mut reader) = ends(4, 0, 0);
    let mut pools = Pools::new();
    reader.submit(&mut pools, BufferEmpty::new(1, 10));
    assert_eq!(writer.bytes(&mut pools), (0, 8));
    assert_eq!(writer.produce(&mut pools, 1), None);
    assert_eq!(writer.bytes(&mut pools), (4, 4));
}

#[test]
fn h2d_chunk_smaller_than_an_item_gives_no_region() {
    let (mut writer, mut reader) = ends(4, 0, 0);
    let mut pools = Pools::new();
    reader.submit(&mut pools, BufferEmpty::new(1, 3));
    assert_eq!(writer.bytes(&mut pools), (0, 0));
    assert_eq!(pools.empty_len(), 0);
    assert_eq!(writer.produce(&mut pools, 0), Some(AsyncMessage::Notify));
    let full = reader.buffers(&mut pools);
    assert_eq!(full.len(), 1);
    assert_eq!(full[0].used_bytes(), 0);
}

#[test]
fn h2d_newest_empty_chunk_is_taken_first() {
    let (mut writer, mut reader) = ends(1, 0, 0);
    let mut pools = Pools::new();
    reader.submit(&mut pools, BufferEmpty::new(1, 2));
    reader.submit(&mut pools, BufferEmpty::new(2, 3));
    assert_eq!(writer.bytes(&mut pools), (0, 3));
    assert_eq!(writer.produce(&mut pools, 3), Some(AsyncMessage::Notify));
    assert_eq!(writer.bytes(&mut pools), (0, 2));
    let full = reader.buffers(&mut pools);
    assert_eq!(full.len(), 1);
    assert_eq!(full[0].id(), 2);
}

#[test]
fn h2d_produce_passes_a_filled_chunk_on() {
    let (mut writer, mut reader) = ends(4, 0, 0);
    let mut pools = Pools::new();
    reader.submit(&mut pools, BufferEmpty::new(7, 16));
    assert_eq!(writer.bytes(&mut pools), (0, 16));
    writer.write(&[1, 2, 3, 4, 5, 6, 7, 8]);
    assert_eq!(writer.produce(&mut pools, 2), None);
    assert_eq!(pools.full_len(), 0);
    assert_eq!(writer.bytes(&mut pools), (8, 8));
    writer.write(&[9, 10, 11, 12, 13, 14, 15, 16]);
    assert_eq!(writer.produce(&mut pools, 2), Some(AsyncMessage::Notify));
    assert_eq!(pools.full_len(), 1);
    assert_eq!(writer.bytes(&mut pools), (0, 0));
    let full = reader.buffers(&mut pools);
    assert_eq!(pools.full_len(), 0);
    assert_eq!(full.len(), 1);
    assert_eq!(full[0].id(), 7);
    assert_eq!(full[0].used_bytes(), 16);
    assert_eq!(full[0].capacity(), 16);
    assert_eq!(
        full[0].payload(),
        &[1, 2, 3, 4, 5, 6, 7, 8, 9, 10, 11, 12, 13, 14, 15, 16]
    );
}

#[test]
fn h2d_full_chunk_counts_whole_items_of_an_odd_capacity() {
    let (mut writer, mut reader) = ends(4, 0, 0);
    let mut pools = Pools::new();
    reader.submit(&mut pools, BufferEmpty::new(7, 11));
    assert_eq!(writer.bytes(&mut pools), (0, 8));
    assert_eq!(writer.produce(&mut pools, 2), Some(AsyncMessage::Notify));
    let full = reader.buffers(&mut pools);
    assert_eq!(full[0].used_bytes(), 8);
    assert_eq!(full[0].capacity(), 11);
}

#[test]
fn h2d_produce_takes_the_next_chunk() {
    let (mut writer, mut reader) = ends(2, 0, 0);
    let mut pools = Pools::new();
    reader.submit(&mut pools, BufferEmpty::new(1, 4));
    reader.submit(&mut pools, BufferEmpty::new(2, 4));
    assert_eq!(writer.bytes(&mut pools), (0, 4));
    assert_eq!(pools.empty_len(), 1);
    assert_eq!(writer.produce(&mut pools, 2), Some(AsyncMessage::Notify));
    assert_eq!(pools.empty_len(), 0);
    assert_eq!(writer.bytes(&mut pools), (0, 4));
}

#[test]
fn h2d_chunks_arrive_in_the_order_they_were_passed_on() {
    let (mut writer, mut reader) = ends(1, 0, 0);
    let mut pools = Pools::new();
    for id in 0..5u64 {
        reader.submit(&mut pools, BufferEmpty::new(id, 2));
    }
    let mut order = Vec::new();
    for round in 0..5u8 {
        let (start, len) = writer.bytes(&mut pools);
        assert_eq!((start, len), (0, 2));
        writer.write(&[round, round]);
        assert_eq!(writer.produce(&mut pools, 2), Some(AsyncMessage::Notify));
        order.push(round);
    }
    let full = reader.buffers(&mut pools);
    assert_eq!(full.len(), 5);
    for (i, chunk) in full.iter().enumerate() {
        assert_eq!(chunk.payload(), &[order[i], order[i]]);
    }
    let ids: Vec<u64> = full.iter().map(|c| c.id()).collect();
    assert_eq!(ids, vec![4, 3, 2, 1, 0]);
}

#[test]
fn h2d_notify_finished_flushes_the_partial_chunk() {
    let (mut writer, mut reader) = ends(4, 3, 5);
    let mut pools = Pools::new();
    reader.submit(&mut pools, BufferEmpty::new(9, 8192));
    writer.bytes(&mut pools);
    writer.write(&[1, 1, 1, 1, 2, 2, 2, 2, 3, 3, 3, 3]);
    assert_eq!(writer.produce(&mut pools, 3), None);
    assert_eq!(pools.full_len(), 0);
    let notice = writer.notify_finished(&mut pools);
    assert_eq!(notice, Some(AsyncMessage::StreamInputDone { input_id: 5 }));
    assert_eq!(pools.full_len(), 1);
    let full = reader.buffers(&mut pools);
    assert_eq!(full.len(), 1);
    assert_eq!(full[0].used_bytes(), 12);
    assert_eq!(full[0].id(), 9);
    assert_eq!(full[0].payload(), &[1, 1, 1, 1, 2, 2, 2, 2, 3, 3, 3, 3]);
}

#[test]
fn h2d_notify_finished_twice_flushes_and_says_so_once() {
    let (mut writer, mut reader) = ends(4, 0, 1);
    let mut pools = Pools::new();
    reader.submit(&mut pools, BufferEmpty::new(9, 64));
    writer.bytes(&mut pools);
    writer.produce(&mut pools, 5);
    assert!(!writer.notified());
    assert_eq!(
        writer.notify_finished(&mut pools),
        Some(AsyncMessage::StreamInputDone { input_id: 1 })
    );
    assert!(writer.notified());
    assert_eq!(pools.full_len(), 1);
    assert_eq!(writer.notify_finished(&mut pools), None);
    assert_eq!(writer.notify_finished(&mut pools), None);
    assert_eq!(pools.full_len(), 1);
    assert!(writer.notified());
    assert!(!writer.finished());
    let full = reader.buffers(&mut pools);
    assert_eq!(full.len(), 1);
    assert_eq!(full[0].used_bytes(), 20);
}

#[test]
fn h2d_notify_finished_twice_with_chunks_waiting_adds_none() {
    let (mut writer, mut reader) = ends(1, 0, 0);
    let mut pools = Pools::new();
    for id in 0..3u64 {
        reader.submit(&mut pools, BufferEmpty::new(id, 2));
    }
    for _ in 0..2 {
        writer.bytes(&mut pools);
        writer.produce(&mut pools, 2);
    }
    assert_eq!(pools.full_len(), 2);
    assert!(writer.notify_finished(&mut pools).is_some());
    assert_eq!(pools.full_len(), 2);
    assert_eq!(writer.notify_finished(&mut pools), None);
    assert_eq!(pools.full_len(), 2);
}

#[test]
fn h2d_notify_finished_lets_an_untouched_chunk_go() {
    let (mut writer, mut reader) = ends(4, 0, 0);
    let mut pools = Pools::new();
    reader.submit(&mut pools, BufferEmpty::new(9, 64));
    writer.bytes(&mut pools);
    assert_eq!(
        writer.notify_finished(&mut pools),
        Some(AsyncMessage::StreamInputDone { input_id: 0 })
    );
    assert_eq!(pools.full_len(), 0);
    assert_eq!(pools.empty_len(), 0);
    assert_eq!(writer.bytes(&mut pools), (0, 0));
}

#[test]
fn h2d_writer_marked_finished_still_delivers_what_it_produced() {
    let (mut writer, mut reader) = ends(4, 0, 7);
    let mut pools = Pools::new();
    reader.submit(&mut pools, BufferEmpty::new(9, 64));
    writer.bytes(&mut pools);
    writer.write(&[5, 6, 7, 8]);
    writer.produce(&mut pools, 1);
    assert!(!writer.finished());
    writer.finish();
    assert!(writer.finished());
    assert!(!writer.notified());
    assert_eq!(
        writer.notify_finished(&mut pools),
        Some(AsyncMessage::StreamInputDone { input_id: 7 })
    );
    assert_eq!(pools.full_len(), 1);
    let full = reader.buffers(&mut pools);
    assert_eq!(full[0].payload(), &[5, 6, 7, 8]);
    assert_eq!(writer.notify_finished(&mut pools), None);
}

#[test]
fn h2d_reader_says_goodbye_to_the_output_port_once() {
    let (_writer, mut reader) = ends(4, 3, 5);
    assert!(!reader.notified());
    assert_eq!(
        reader.notify_finished(),
        Some(AsyncMessage::StreamOutputDone { output_id: 3 })
    );
    assert!(reader.notified());
    assert_eq!(reader.notify_finished(), None);
    let (_writer, mut marked) = ends(4, 3, 5);
    marked.finish();
    assert_eq!(
        marked.notify_finished(),
        Some(AsyncMessage::StreamOutputDone { output_id: 3 })
    );
    assert_eq!(marked.notify_finished(), None);
}

#[test]
fn h2d_reader_is_finished_only_after_the_last_chunk() {
    let (mut writer, mut reader) = ends(4, 0, 0);
    let mut pools = Pools::new();
    assert!(!reader.finished(&pools));
    reader.submit(&mut pools, BufferEmpty::new(1, 8));
    writer.bytes(&mut pools);
    writer.produce(&mut pools, 1);
    assert!(writer.notify_finished(&mut pools).is_some());
    assert_eq!(pools.full_len(), 1);
    assert!(!reader.finished(&pools));
    reader.finish();
    assert!(!reader.finished(&pools));
    let full = reader.buffers(&mut pools);
    assert_eq!(full.len(), 1);
    assert!(reader.finished(&pools));
}

#[test]
fn h2d_reader_not_marked_is_not_finished_on_an_empty_pool() {
    let (_writer, reader) = ends(4, 0, 0);
    let pools = Pools::new();
    assert!(!reader.finished(&pools));
}

#[test]
fn h2d_buffers_on_an_empty_pool_gives_nothing() {
    let (_writer, mut reader) = ends(4, 0, 0);
    let mut pools = Pools::new();
    assert!(reader.buffers(&mut pools).is_empty());
    assert!(reader.buffers(&mut pools).is_empty());
}

#[test]
fn h2d_backend_builds_a_writer_without_chunks() {
    let backend = H2D::new();
    let writer = backend.build(4, 2);
    let mut pools = match backend.store(4) {
        Store::Pools(pools) => pools,
        _ => panic!("not pools"),
    };
    assert_eq!(pools.empty_len(), 0);
    assert_eq!(pools.full_len(), 0);
    match writer {
        BufferWriter::H2D(mut w) => {
            assert_eq!(w.item_size(), 4);
            assert_eq!(w.output_id(), 2);
            assert_eq!(w.bytes(&mut pools), (0, 0));
        }
        _ => panic!("not a host-to-device writer"),
    }
    assert_eq!(H2D::default(), H2D);
}

fn ids_on_connection(pools: &mut Pools) -> Vec<u64> {
    let mut ids = Vec::new();
    let empty = pools.take_empty();
    for chunk in empty.iter() {
        ids.push(chunk.id());
    }
    for chunk in empty {
        pools.push_empty(chunk);
    }
    let full = pools.take_full();
    for chunk in full.iter() {
        ids.push(chunk.id());
    }
    for chunk in full {
        pools.push_full(chunk);
    }
    ids
}

#[test]
fn h2d_no_chunk_is_ever_in_two_places() {
    let (mut writer, mut reader) = ends(2, 0, 0);
    let mut pools = Pools::new();
    for id in 0..4u64 {
        reader.submit(&mut pools, BufferEmpty::new(id, 6));
    }
    let mut held: Vec<u64> = Vec::new();
    let mut with_writer: Option<u64> = None;
    let mut next_from_pool: Vec<u64> = vec![0, 1, 2, 3];
    for step in 0..40usize {
        let (_, len) = writer.bytes(&mut pools);
        if with_writer.is_none() && len > 0 {
            with_writer = next_from_pool.pop();
        }
        if len > 0 {
            let passed = writer.produce(&mut pools, 1).is_some();
            if passed {
                with_writer = None;
                let (_, len) = writer.bytes(&mut pools);
                if len > 0 {
                    with_writer = next_from_pool.pop();
                }
            }
        }
        if step % 3 == 0 {
            for chunk in reader.buffers(&mut pools) {
                held.push(chunk.id());
                if step % 2 == 0 {
                    let id = chunk.id();
                    held.retain(|h| *h != id);
                    reader.submit(&mut pools, chunk.into_empty());
                    next_from_pool.push(id);
                }
            }
        }
        let mut all = ids_on_connection(&mut pools);
        if let Some(id) = with_writer {
            all.push(id);
        }
        all.extend(held.iter().copied());
        let mut sorted = all.clone();
        sorted.sort();
        sorted.dedup();
        assert_eq!(sorted.len(), all.len());
        assert_eq!(sorted.len(), 4);
    }
}

#[test]
fn h2d_every_item_produced_is_delivered() {
    let (mut writer, mut reader) = ends(4, 0, 0);
    let mut pools = Pools::new();
    for id in 0..3u64 {
        reader.submit(&mut pools, BufferEmpty::new(id, 40));
    }
    let mut produced = 0usize;
    let mut delivered = 0usize;
    let mut step = 0usize;
    while produced < 1003 {
        let (_, len) = writer.bytes(&mut pools);
        if len > 0 {
            let room = len / 4;
            let amount = std::cmp::min(std::cmp::min(room, 1 + step % 7), 1003 - produced);
            writer.produce(&mut pools, amount);
            produced += amount;
        }
        if step % 2 == 1 {
            for chunk in reader.buffers(&mut pools) {
                delivered += chunk.used_bytes();
                reader.submit(&mut pools, chunk.into_empty());
            }
        }
        step += 1;
    }
    writer.notify_finished(&mut pools);
    for chunk in reader.buffers(&mut pools) {
        delivered += chunk.used_bytes();
    }
    assert_eq!(produced, 1003);
    assert_eq!(delivered, 1003 * 4);
}
