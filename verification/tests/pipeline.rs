use futuresdr::block::{Block, MessageIoBuilder, StreamIoBuilder, WorkIo};
use futuresdr::buffer::{BufferReader, BufferWriter, Store};
use futuresdr::d2h::D2H;
use futuresdr::flowgraph::Flowgraph;
use futuresdr::h2d::H2D;
use futuresdr::message::AsyncMessage;
use futuresdr::scheduler::{Delivery, Phase, Scheduler};
use futuresdr::vulkan::Vulkan;

const ITEMS: usize = 50_000;

fn pseudo_random(n: usize) -> Vec<f32> {
    let mut state: u32 = 0x2545_f491;
    let mut out = Vec::with_capacity(n);
    for _ in 0..n {
        state = state.wrapping_mul(1_664_525).wrapping_add(1_013_904_223);
        out.push((state >> 8) as f32 / (1u32 << 24) as f32);
    }
    out
}

fn to_bytes(items: &[f32]) -> Vec<u8> {
    let mut out = Vec::with_capacity(items.len() * 4);
    for item in items {
        out.extend_from_slice(&item.to_le_bytes());
    }
    out
}

fn to_items(bytes: &[u8]) -> Vec<f32> {
    assert_eq!(bytes.len() % 4, 0);
    bytes
        .chunks(4)
        .map(|b| f32::from_le_bytes([b[0], b[1], b[2], b[3]]))
        .collect()
}

fn times_twelve(payload: &[u8]) -> Vec<u8> {
    to_bytes(&to_items(payload).iter().map(|x| x * 12.0).collect::<Vec<f32>>())
}

enum Kernel {
    Source { data: Vec<u8>, sent: usize },
    Stage(Vulkan),
    Sink { bytes: Vec<u8> },
}

fn send(scheduler: &mut Scheduler, to: usize, message: Option<AsyncMessage>) {
    if let Some(message) = message {
        let delivery = scheduler.send(to, message);
        assert!(!matches!(delivery, Delivery::Full { returned: Some(_) }));
    }
}

fn through_the_device(input: &[f32]) -> Vec<f32> {
    let mut fg: Flowgraph<Kernel> = Flowgraph::new();
    let src = fg.add_block(Block::new_sync(
        "source",
        StreamIoBuilder::new().add_output("out", 4).build(),
        MessageIoBuilder::new().build(),
        Kernel::Source { data: to_bytes(input), sent: 0 },
    ));
    let mid = fg.add_block(Vulkan::new(8192).map_kernel(Kernel::Stage));
    let snk = fg.add_block(Block::new_sync(
        "sink",
        StreamIoBuilder::new().add_input("in", 4).build(),
        MessageIoBuilder::new().build(),
        Kernel::Sink { bytes: Vec::new() },
    ));
    fg.connect_stream_with_type(src, "out", mid, "in", H2D::new()).unwrap();
    fg.connect_stream_with_type(mid, "out", snk, "in", D2H::new()).unwrap();

    let mut topology = fg.take_topology().unwrap();
    let mut h2d_store = topology.stream_edge(0).unwrap().take_store();
    let mut d2h_store = topology.stream_edge(1).unwrap().take_store();
    let mut source_out = topology.block_mut(src).unwrap().stream_io_mut().output(0).take_writer().unwrap();
    let mut stage_in = topology.block_mut(mid).unwrap().stream_io_mut().input(0).take_reader().unwrap();
    let mut stage_out = topology.block_mut(mid).unwrap().stream_io_mut().output(0).take_writer().unwrap();
    let mut sink_in = topology.block_mut(snk).unwrap().stream_io_mut().input(0).take_reader().unwrap();
    {
        let in_pools = h2d_store.try_as_pools().unwrap();
        let out_pools = d2h_store.try_as_pools().unwrap();
        let writer = source_out.try_as_h2d().unwrap();
        let reader = stage_in.try_as_h2d().unwrap();
        let forward = stage_out.try_as_d2h().unwrap();
        let drain = sink_in.try_as_d2h().unwrap();

        let mut scheduler = Scheduler::new(topology.blocks_len(), 16);
        match topology.block_mut(mid).unwrap().kernel_mut() {
            Kernel::Stage(stage) => {
                let notice = stage.init(reader, in_pools).unwrap();
                send(&mut scheduler, src, Some(notice));
            }
            _ => panic!("not the stage"),
        }
        for block in 0..3 {
            scheduler.initialized(block, true).unwrap();
        }

        let mut rounds = 0usize;
        while let Some(block) = scheduler.select() {
            rounds += 1;
            assert!(rounds < 100_000);
            while let Some(message) = scheduler.receive(block) {
                match message {
                    AsyncMessage::StreamInputDone { input_id } => {
                        assert_eq!(input_id, 0);
                        if block == mid {
                            reader.finish();
                        } else {
                            assert_eq!(block, snk);
                            drain.finish();
                        }
                    }
                    AsyncMessage::StreamOutputDone { .. } => {}
                    AsyncMessage::Notify => {}
                    _ => panic!("no calls in this graph"),
                }
            }
            let mut io = WorkIo { finished: false };
            match topology.block_mut(block).unwrap().kernel_mut() {
                Kernel::Source { data, sent } => {
                    loop {
                        let (_, len) = writer.bytes(in_pools);
                        let count = std::cmp::min(len, data.len() - *sent);
                        if count == 0 {
                            break;
                        }
                        writer.write(&data[*sent..*sent + count]);
                        *sent += count;
                        let notice = writer.produce(in_pools, count / 4);
                        send(&mut scheduler, mid, notice);
                    }
                    if *sent == data.len() {
                        let farewell = writer.notify_finished(in_pools);
                        send(&mut scheduler, mid, Some(AsyncMessage::Notify));
                        send(&mut scheduler, mid, farewell);
                        io.finished = true;
                    }
                }
                Kernel::Stage(stage) => {
                    let notice = stage.recycle(forward, out_pools, reader, in_pools);
                    send(&mut scheduler, src, notice);
                    stage.collect(reader, in_pools);
                    while let Some(groups) = stage.launch().unwrap() {
                        let payload = stage.payload();
                        assert_eq!(groups as usize, (payload.len() / 4 + 63) / 64);
                        let result = times_twelve(payload);
                        let notice = stage.complete(Some(&result), forward, out_pools).unwrap();
                        send(&mut scheduler, snk, Some(notice));
                    }
                    stage.conclude(&mut io, reader, in_pools);
                    if io.finished {
                        let farewell = forward.notify_finished();
                        send(&mut scheduler, snk, farewell);
                        send(&mut scheduler, src, reader.notify_finished());
                    }
                }
                Kernel::Sink { bytes } => {
                    loop {
                        let (_, len) = drain.bytes(out_pools);
                        if !drain.has_current() {
                            break;
                        }
                        bytes.extend_from_slice(drain.read());
                        let notice = drain.consume(out_pools, len / 4);
                        send(&mut scheduler, mid, notice);
                    }
                    if drain.finished(out_pools) {
                        io.finished = true;
                    }
                }
            }
            scheduler.worked(block, Some(io)).unwrap();
        }
        assert!(scheduler.terminated());
        assert_eq!(scheduler.failure(), None);
        for block in 0..3 {
            assert_eq!(scheduler.phase(block), Some(Phase::Finished));
        }
    }
    fg.restore_topology(topology);
    match fg.block_sync(snk) {
        Some(Kernel::Sink { bytes }) => to_items(bytes),
        _ => panic!("not the sink"),
    }
}

fn through_the_ring(input: &[f32]) -> Vec<f32> {
    let mut fg: Flowgraph<()> = Flowgraph::new();
    let ports = |inputs: bool, outputs: bool| {
        let mut sio = StreamIoBuilder::new();
        if inputs {
            sio = sio.add_input("in", 4);
        }
        if outputs {
            sio = sio.add_output("out", 4);
        }
        Block::new_sync("host", sio.build(), MessageIoBuilder::new().build(), ())
    };
    let src = fg.add_block(ports(false, true));
    let mid = fg.add_block(ports(true, true));
    let snk = fg.add_block(ports(true, false));
    fg.connect_stream(src, "out", mid, "in").unwrap();
    fg.connect_stream(mid, "out", snk, "in").unwrap();
    let mut topology = fg.take_topology().unwrap();
    let mut first = match topology.stream_edge(0).unwrap().take_store() {
        Store::Ring(ring) => ring,
        _ => panic!("not a ring"),
    };
    let mut second = match topology.stream_edge(1).unwrap().take_store() {
        Store::Ring(ring) => ring,
        _ => panic!("not a ring"),
    };
    let mut w1 = match topology.block_mut(src).unwrap().stream_io_mut().output(0).take_writer() {
        Some(BufferWriter::Circular(w)) => w,
        _ => panic!("not a ring writer"),
    };
    let mut r1 = match topology.block_mut(mid).unwrap().stream_io_mut().input(0).take_reader() {
        Some(BufferReader::Circular(r)) => r,
        _ => panic!("not a ring reader"),
    };
    let mut w2 = match topology.block_mut(mid).unwrap().stream_io_mut().output(0).take_writer() {
        Some(BufferWriter::Circular(w)) => w,
        _ => panic!("not a ring writer"),
    };
    let mut r2 = match topology.block_mut(snk).unwrap().stream_io_mut().input(0).take_reader() {
        Some(BufferReader::Circular(r)) => r,
        _ => panic!("not a ring reader"),
    };

    let data = to_bytes(input);
    let mut sent = 0usize;
    let mut out: Vec<u8> = Vec::new();
    let mut rounds = 0usize;
    while out.len() < data.len() {
        rounds += 1;
        assert!(rounds < 100_000);
        let (_, room) = w1.bytes(&mut first);
        let count = std::cmp::min(std::cmp::min(room, data.len() - sent), 4 * (1 + rounds % 3000));
        w1.write(&mut first, &data[sent..sent + count]);
        w1.produce(&mut first, count / 4);
        sent += count;

        let (_, have) = r1.bytes(&mut first);
        let (_, room) = w2.bytes(&mut second);
        let count = std::cmp::min(have, room);
        let result = times_twelve(&r1.read(&first)[..count]);
        w2.write(&mut second, &result);
        w2.produce(&mut second, count / 4);
        r1.consume(&mut first, count / 4);

        let (_, have) = r2.bytes(&mut second);
        out.extend_from_slice(r2.read(&second));
        r2.consume(&mut second, have / 4);
    }
    assert!(w1.notify_finished().is_some());
    r1.finish();
    assert!(r1.finished(&first));
    assert!(w2.notify_finished().is_some());
    r2.finish();
    assert!(r2.finished(&second));
    to_items(&out)
}

#[test]
fn pipeline_every_item_arrives_times_twelve_on_the_device_path() {
    let input = pseudo_random(ITEMS);
    let output = through_the_device(&input);
    assert_eq!(output.len(), 50_000);
    for (x, y) in input.iter().zip(output.iter()) {
        assert!((x * 12.0 - y).abs() < f32::EPSILON * 2.0);
    }
}

#[test]
fn pipeline_every_item_arrives_times_twelve_on_the_ring() {
    let input = pseudo_random(ITEMS);
    let output = through_the_ring(&input);
    assert_eq!(output.len(), 50_000);
    for (x, y) in input.iter().zip(output.iter()) {
        assert!((x * 12.0 - y).abs() < f32::EPSILON * 2.0);
    }
}

#[test]
fn pipeline_both_paths_agree_bit_for_bit() {
    let input = pseudo_random(ITEMS);
    let device = through_the_device(&input);
    let ring = through_the_ring(&input);
    assert_eq!(device.len(), ring.len());
    for (a, b) in device.iter().zip(ring.iter()) {
        assert_eq!(a.to_bits(), b.to_bits());
    }
}

#[test]
fn pipeline_without_items() {
    assert!(through_the_device(&[]).is_empty());
    assert!(through_the_ring(&[]).is_empty());
}

#[test]
fn pipeline_item_count_that_fills_no_chunk() {
    let input = pseudo_random(2049);
    let device = through_the_device(&input);
    assert_eq!(device.len(), 2049);
    assert_eq!(device[2048], input[2048] * 12.0);
}
