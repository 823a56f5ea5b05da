use futuresdr::block::{Block, Kernel, MessageIoBuilder, StreamInput, StreamIoBuilder, StreamOutput, WorkIo};
use futuresdr::buffer::{BufferReader, BufferWriter, Store};
use futuresdr::chunk::BufferEmpty;
use futuresdr::pools::Pools;
use futuresdr::h2d::WriterH2D;
use futuresdr::message::{AsyncMessage, Pmt};

#[test]
fn block_ports_are_found_by_name() {
    let sio = StreamIoBuilder::new()
        .add_input("a", 1)
        .add_input("b", 2)
        .add_input("a", 3)
        .add_output("x", 4)
        .build();
    assert_eq!(sio.inputs_len(), 3);
    assert_eq!(sio.outputs_len(), 1);
    assert_eq!(sio.input_name_to_id("a"), Some(0));
    assert_eq!(sio.input_name_to_id("b"), Some(1));
    assert_eq!(sio.input_name_to_id("x"), None);
    assert_eq!(sio.input_name_to_id(""), None);
    assert_eq!(sio.output_name_to_id("x"), Some(0));
    assert_eq!(sio.output_name_to_id("a"), None);
    assert_eq!(sio.input_ref(2).item_size(), 3);
    assert_eq!(sio.output_ref(0).item_size(), 4);
    assert!(!sio.input_ref(0).is_bound());
}

#[test]
fn block_without_ports() {
    let sio = StreamIoBuilder::new().build();
    assert_eq!(sio.inputs_len(), 0);
    assert_eq!(sio.input_name_to_id("in"), None);
    assert_eq!(sio.output_name_to_id("out"), None);
    let mio = MessageIoBuilder::new().build();
    assert_eq!(mio.inputs_len(), 0);
    assert_eq!(mio.input_name_to_id("in"), None);
    assert_eq!(mio.output_name_to_id("out"), None);
}

#[test]
fn block_message_ports_are_found_by_name() {
    let mio = MessageIoBuilder::new()
        .add_input("freq")
        .add_output("out")
        .add_input("gain")
        .add_input("freq")
        .build();
    assert_eq!(mio.inputs_len(), 3);
    assert_eq!(mio.input_name_to_id("freq"), Some(0));
    assert_eq!(mio.input_name_to_id("gain"), Some(1));
    assert_eq!(mio.input_name_to_id("out"), None);
    assert_eq!(mio.output_name_to_id("out"), Some(0));
    assert_eq!(mio.output_name_to_id("freq"), None);
}

#[test]
fn block_port_binds_and_unbinds() {
    let mut writer = WriterH2D::new(4, 0);
    let reader = writer.add_reader(0);
    let mut output = StreamOutput::new("out", 4);
    let mut input = StreamInput::new("in", 4);
    assert!(output.writer().is_none());
    assert!(input.reader().is_none());
    assert!(output.take_writer().is_none());
    output.bind(writer);
    input.bind(reader);
    assert!(output.is_bound());
    assert!(input.is_bound());
    assert!(matches!(output.writer(), Some(BufferWriter::H2D(_))));
    assert!(matches!(input.take_reader(), Some(BufferReader::H2D(_))));
    assert!(!input.is_bound());
    assert!(input.take_reader().is_none());
}

#[test]
fn block_kernel_by_flavour() {
    let sio = || StreamIoBuilder::new().build();
    let mio = || MessageIoBuilder::new().build();
    let mut a = Block::new_async("a", sio(), mio(), 1u8);
    let s = Block::new_sync("s", sio(), mio(), 2u8);
    assert_eq!(a.as_async(), Some(&1));
    assert_eq!(a.as_sync(), None);
    assert_eq!(s.as_sync(), Some(&2));
    assert_eq!(s.as_async(), None);
    *a.kernel_mut() = 7;
    assert_eq!(a.as_async(), Some(&7));
    let wrapped: Block<Kernel<u8>> = a.map_kernel(Kernel::Sync);
    assert!(matches!(wrapped.as_async(), Some(Kernel::Sync(7))));
    let text: Block<String> = s.map_kernel(|k| format!("k{}", k));
    assert_eq!(text.as_sync(), Some(&"k2".to_string()));
    assert_eq!(text.as_async(), None);
}

fn connected() -> Block<()> {
    let mut block = Block::new_sync(
        "b",
        StreamIoBuilder::new().add_input("in", 4).add_input("spare", 4).add_output("out", 4).build(),
        MessageIoBuilder::new().add_input("ctrl").build(),
        (),
    );
    let mut writer = WriterH2D::new(4, 0);
    let reader = writer.add_reader(0);
    block.bind_output(0, writer);
    block.bind_input(0, reader);
    block
}

#[test]
fn block_end_of_stream_marks_the_port_finished() {
    let mut block = connected();
    let store = Store::Pools(Pools::new());
    assert!(block.accept(&AsyncMessage::Notify));
    assert!(!block.stream_io_mut().input(0).reader().unwrap().finished(&store));
    assert!(block.accept(&AsyncMessage::StreamInputDone { input_id: 0 }));
    assert!(block.stream_io_mut().input(0).reader().unwrap().finished(&store));
    let mut waiting = Pools::new();
    waiting.push_full(BufferEmpty::new(1, 4).into_full(4));
    let waiting = Store::Pools(waiting);
    assert!(!block.stream_io_mut().input(0).reader().unwrap().finished(&waiting));
    assert!(!block.stream_io_mut().output(0).writer().unwrap().finished());
    assert!(block.accept(&AsyncMessage::StreamOutputDone { output_id: 0 }));
    assert!(block.stream_io_mut().output(0).writer().unwrap().finished());
    assert!(block.accept(&AsyncMessage::StreamInputDone { input_id: 0 }));
}

#[test]
fn block_refuses_a_message_for_a_port_it_has_not() {
    let mut block = connected();
    assert!(!block.accept(&AsyncMessage::StreamInputDone { input_id: 1 }));
    assert!(!block.accept(&AsyncMessage::StreamInputDone { input_id: 2 }));
    assert!(!block.accept(&AsyncMessage::StreamOutputDone { output_id: 1 }));
    assert!(!block.accept(&AsyncMessage::BlockCall { block_id: 0, port_id: 1, data: Pmt::Null }));
    assert!(!block.accept(&AsyncMessage::BlockCallback {
        block_id: 0,
        port_id: 9,
        data: Pmt::U32(1)
    }));
    assert!(block.accept(&AsyncMessage::BlockCall {
        block_id: 5,
        port_id: 0,
        data: Pmt::Blob(vec![1, 2])
    }));
    assert!(block.accept(&AsyncMessage::BlockCallback {
        block_id: 0,
        port_id: 0,
        data: Pmt::U64(1)
    }));
    let store = Store::Pools(Pools::new());
    assert!(!block.stream_io_mut().input(0).reader().unwrap().finished(&store));
}

#[test]
fn block_work_io_starts_unfinished() {
    let io = WorkIo { finished: false };
    assert!(!io.finished);
    assert_eq!(io, WorkIo { finished: false });
}
