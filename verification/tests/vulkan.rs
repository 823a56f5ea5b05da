use futuresdr::block::{Block, WorkIo};
use futuresdr::buffer::{BufferReader, BufferWriter};
use futuresdr::chunk::BufferEmpty;
use futuresdr::d2h::{ReaderD2H, WriterD2H};
use futuresdr::h2d::{ReaderH2D, WriterH2D};
use futuresdr::lane::StageError;
use futuresdr::message::AsyncMessage;
use futuresdr::pools::Pools;
use futuresdr::vulkan::{Vulkan, VulkanBuilder, DEFAULT_CAPACITY, SEED_CHUNKS};

struct Rig {
    host_writer: WriterH2D,
    input: ReaderH2D,
    in_pools: Pools,
    output: WriterD2H,
    host_reader: ReaderD2H,
    out_pools: Pools,
    block: Block<Vulkan>,
}

fn rig(capacity: u64) -> Rig {
    let mut host_writer = match WriterH2D::new(4, 0) {
        BufferWriter::H2D(w) => w,
        _ => panic!("not a host-to-device writer"),
    };
    let input = match host_writer.add_reader(0) {
        BufferReader::H2D(r) => r,
        _ => panic!("not a host-to-device reader"),
    };
    let mut output = match WriterD2H::new(4, 0) {
        BufferWriter::D2H(w) => w,
        _ => panic!("not a device-to-host writer"),
    };
    let host_reader = match output.add_reader(0) {
        BufferReader::D2H(r) => r,
        _ => panic!("not a device-to-host reader"),
    };
    Rig {
        host_writer,
        input,
        in_pools: Pools::new(),
        output,
        host_reader,
        out_pools: Pools::new(),
        block: Vulkan::new(capacity),
    }
}

#[test]
fn vulkan_block_has_one_input_and_one_output() {
    let block = VulkanBuilder::new().build();
    assert_eq!(DEFAULT_CAPACITY, 8192);
    assert_eq!(block.as_async().unwrap().capacity(), 8192);
    assert!(block.as_sync().is_none());
    let sio = block.stream_io();
    assert_eq!(sio.inputs_len(), 1);
    assert_eq!(sio.outputs_len(), 1);
    assert_eq!(sio.input_name_to_id("in"), Some(0));
    assert_eq!(sio.output_name_to_id("out"), Some(0));
    assert_eq!(sio.input_ref(0).item_size(), 4);
    assert_eq!(sio.output_ref(0).item_size(), 4);
    assert_eq!(block.message_io().inputs_len(), 0);
    let other = VulkanBuilder::new().capacity(64).build();
    assert_eq!(other.as_async().unwrap().capacity(), 64);
    assert_eq!(Vulkan::new(5).as_async().unwrap().capacity(), 5);
}

#[test]
fn vulkan_init_seeds_four_chunks() {
    let mut r = rig(64);
    assert_eq!(SEED_CHUNKS, 4);
    let stage = r.block.kernel_mut();
    assert_eq!(stage.init(&mut r.input, &mut r.in_pools), Ok(AsyncMessage::Notify));
    assert_eq!(r.in_pools.empty_len(), 4);
    assert_eq!(r.in_pools.full_len(), 0);
    let chunks = r.in_pools.take_empty();
    let ids: Vec<u64> = chunks.iter().map(|c| c.id()).collect();
    assert_eq!(ids, vec![0, 1, 2, 3]);
    assert!(chunks.iter().all(|c| c.capacity() == 64));
}

#[test]
fn vulkan_init_twice_seeds_other_chunks() {
    let mut r = rig(8);
    let stage = r.block.kernel_mut();
    stage.init(&mut r.input, &mut r.in_pools).unwrap();
    stage.init(&mut r.input, &mut r.in_pools).unwrap();
    let ids: Vec<u64> = r.in_pools.take_empty().iter().map(|c| c.id()).collect();
    assert_eq!(ids, vec![0, 1, 2, 3, 4, 5, 6, 7]);
}

#[test]
fn vulkan_init_behind_chunks_that_wait_already() {
    let mut r = rig(8);
    r.input.submit(&mut r.in_pools, BufferEmpty::new(77, 3));
    let stage = r.block.kernel_mut();
    assert!(stage.init(&mut r.input, &mut r.in_pools).is_ok());
    let ids: Vec<u64> = r.in_pools.take_empty().iter().map(|c| c.id()).collect();
    assert_eq!(ids, vec![77, 0, 1, 2, 3]);
}

#[test]
fn vulkan_chunk_goes_through_with_its_payload_count() {
    let mut r = rig(16);
    let stage = r.block.kernel_mut();
    stage.init(&mut r.input, &mut r.in_pools).unwrap();
    let (_, len) = r.host_writer.bytes(&mut r.in_pools);
    assert_eq!(len, 16);
    r.host_writer.write(&[1; 12]);
    r.host_writer.produce(&mut r.in_pools, 3);
    r.host_writer.notify_finished(&mut r.in_pools);
    assert_eq!(r.in_pools.full_len(), 1);

    assert_eq!(stage.launch(), Ok(None));
    stage.collect(&mut r.input, &mut r.in_pools);
    assert_eq!(r.in_pools.full_len(), 0);
    assert_eq!(stage.launch(), Ok(Some(1)));
    assert_eq!(stage.launch(), Ok(None));
    assert_eq!(stage.payload(), &[1; 12]);
    let result: Vec<u8> = stage.payload().iter().map(|b| b * 12).collect();
    assert_eq!(
        stage.complete(Some(&result), &mut r.output, &mut r.out_pools),
        Ok(AsyncMessage::Notify)
    );
    assert_eq!(r.out_pools.full_len(), 1);
    assert_eq!(r.host_reader.bytes(&mut r.out_pools), (0, 12));
    assert_eq!(r.host_reader.read(), &[12; 12]);
    assert_eq!(r.host_reader.consume(&mut r.out_pools, 3), Some(AsyncMessage::Notify));
    assert_eq!(r.out_pools.empty_len(), 1);
}

#[test]
fn vulkan_recycle_returns_chunks_to_the_input() {
    let mut r = rig(8);
    let stage = r.block.kernel_mut();
    assert_eq!(
        stage.recycle(&mut r.output, &mut r.out_pools, &mut r.input, &mut r.in_pools),
        None
    );
    r.out_pools.push_empty(BufferEmpty::new(5, 8));
    r.out_pools.push_empty(BufferEmpty::new(6, 8));
    r.in_pools.push_empty(BufferEmpty::new(4, 8));
    assert_eq!(
        stage.recycle(&mut r.output, &mut r.out_pools, &mut r.input, &mut r.in_pools),
        Some(AsyncMessage::Notify)
    );
    assert_eq!(r.out_pools.empty_len(), 0);
    let ids: Vec<u64> = r.in_pools.take_empty().iter().map(|c| c.id()).collect();
    assert_eq!(ids, vec![4, 5, 6]);
}

#[test]
fn vulkan_chunks_are_run_in_the_order_they_came() {
    let mut r = rig(4);
    let stage = r.block.kernel_mut();
    stage.init(&mut r.input, &mut r.in_pools).unwrap();
    for value in 1..=3u8 {
        let (_, len) = r.host_writer.bytes(&mut r.in_pools);
        assert_eq!(len, 4);
        r.host_writer.write(&[value; 4]);
        r.host_writer.produce(&mut r.in_pools, 1);
    }
    stage.collect(&mut r.input, &mut r.in_pools);
    for value in 1..=3u8 {
        assert_eq!(stage.launch(), Ok(Some(1)));
        let payload = stage.payload().to_vec();
        assert_eq!(payload, vec![value; 4]);
        stage.complete(Some(&payload), &mut r.output, &mut r.out_pools).unwrap();
    }
    assert_eq!(stage.launch(), Ok(None));
    let out = r.out_pools.take_full();
    assert_eq!(out.len(), 3);
    assert_eq!(out[0].payload(), &[1; 4]);
    assert_eq!(out[2].payload(), &[3; 4]);
}

#[test]
fn vulkan_complete_refuses_what_does_not_fit() {
    let mut r = rig(16);
    let stage = r.block.kernel_mut();
    assert_eq!(
        stage.complete(Some(&[1, 2]), &mut r.output, &mut r.out_pools),
        Err(StageError::NothingInFlight)
    );
    assert_eq!(
        stage.complete(None, &mut r.output, &mut r.out_pools),
        Err(StageError::NothingInFlight)
    );
    stage.init(&mut r.input, &mut r.in_pools).unwrap();
    r.host_writer.bytes(&mut r.in_pools);
    r.host_writer.produce(&mut r.in_pools, 4);
    stage.collect(&mut r.input, &mut r.in_pools);
    assert_eq!(stage.launch(), Ok(Some(1)));
    assert_eq!(
        stage.complete(None, &mut r.output, &mut r.out_pools),
        Err(StageError::DeviceFailed)
    );
    assert_eq!(
        stage.complete(Some(&[0; 15]), &mut r.output, &mut r.out_pools),
        Err(StageError::ResultLength)
    );
    assert_eq!(
        stage.complete(Some(&[0; 17]), &mut r.output, &mut r.out_pools),
        Err(StageError::ResultLength)
    );
    assert_eq!(r.out_pools.full_len(), 0);
    assert_eq!(stage.payload().len(), 16);
    assert_eq!(
        stage.complete(Some(&[9; 16]), &mut r.output, &mut r.out_pools),
        Ok(AsyncMessage::Notify)
    );
    assert_eq!(r.out_pools.full_len(), 1);
}

#[test]
fn vulkan_block_finishes_only_when_nothing_is_left() {
    let mut r = rig(8);
    let stage = r.block.kernel_mut();
    stage.init(&mut r.input, &mut r.in_pools).unwrap();
    let mut io = WorkIo { finished: false };
    stage.conclude(&mut io, &r.input, &r.in_pools);
    assert!(!io.finished);

    r.host_writer.bytes(&mut r.in_pools);
    r.host_writer.produce(&mut r.in_pools, 1);
    r.host_writer.notify_finished(&mut r.in_pools);
    r.input.finish();
    stage.conclude(&mut io, &r.input, &r.in_pools);
    assert!(!io.finished);

    stage.collect(&mut r.input, &mut r.in_pools);
    stage.conclude(&mut io, &r.input, &r.in_pools);
    assert!(!io.finished);

    stage.launch().unwrap();
    stage.conclude(&mut io, &r.input, &r.in_pools);
    assert!(!io.finished);

    stage.complete(Some(&[0; 4]), &mut r.output, &mut r.out_pools).unwrap();
    stage.conclude(&mut io, &r.input, &r.in_pools);
    assert!(io.finished);
}

#[test]
fn vulkan_finished_block_stays_finished() {
    let mut r = rig(8);
    let stage = r.block.kernel_mut();
    let mut io = WorkIo { finished: true };
    stage.conclude(&mut io, &r.input, &r.in_pools);
    assert!(io.finished);
}

#[test]
fn vulkan_dispatch_rounds_up() {
    for (items, groups) in [(64usize, 1u32), (65, 2), (256, 4), (1, 1), (128, 2), (129, 3)] {
        let mut r = rig(1024);
        let stage = r.block.kernel_mut();
        stage.init(&mut r.input, &mut r.in_pools).unwrap();
        r.host_writer.bytes(&mut r.in_pools);
        r.host_writer.produce(&mut r.in_pools, items);
        r.host_writer.notify_finished(&mut r.in_pools);
        stage.collect(&mut r.input, &mut r.in_pools);
        assert_eq!(stage.launch(), Ok(Some(groups)));
        assert_eq!(stage.payload().len(), items * 4);
        let payload = stage.payload().to_vec();
        stage.complete(Some(&payload), &mut r.output, &mut r.out_pools).unwrap();
        assert_eq!(stage.launch(), Ok(None));
    }
}

#[test]
fn vulkan_whole_invocation_passes_every_chunk_on() {
    let mut r = rig(16);
    let stage = r.block.kernel_mut();
    let sizes = [16usize, 0, 8, 4];
    for (i, used) in sizes.iter().enumerate() {
        r.in_pools
            .push_full(BufferEmpty::from_vec(50 + i as u64, vec![i as u8; 16]).into_full(*used));
    }
    r.out_pools.push_full(BufferEmpty::new(7, 4).into_full(4));
    stage.collect(&mut r.input, &mut r.in_pools);
    let mut passed = 0;
    while let Some(_) = stage.launch().unwrap() {
        let result: Vec<u8> = stage.payload().iter().map(|b| b + 100).collect();
        assert_eq!(
            stage.complete(Some(&result), &mut r.output, &mut r.out_pools),
            Ok(AsyncMessage::Notify)
        );
        passed += 1;
    }
    assert_eq!(passed, 4);
    let out = r.out_pools.take_full();
    assert_eq!(out.len(), 5);
    assert_eq!(out[0].id(), 7);
    for (i, used) in sizes.iter().enumerate() {
        assert_eq!(out[i + 1].id(), 50 + i as u64);
        assert_eq!(out[i + 1].used_bytes(), *used);
        assert_eq!(out[i + 1].capacity(), 16);
        assert_eq!(out[i + 1].payload(), &vec![100 + i as u8; *used][..]);
    }
    let total: usize = out.iter().skip(1).map(|c| c.used_bytes()).sum();
    assert_eq!(total, 28);
    let mut io = WorkIo { finished: false };
    r.input.finish();
    stage.conclude(&mut io, &r.input, &r.in_pools);
    assert!(io.finished);
}
