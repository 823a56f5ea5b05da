use futuresdr::block::{Block, MessageIoBuilder, StreamIoBuilder};
use futuresdr::buffer::{BufferReader, BufferWriter, Store};
use futuresdr::d2h::D2H;
use futuresdr::flowgraph::{DefaultBuffer, Flowgraph};
use futuresdr::h2d::H2D;
use futuresdr::slab::Slab;
use futuresdr::topology::{ConnectError, MessageEdge};

fn source(tag: u32) -> Block<u32> {
    Block::new_sync(
        "source",
        StreamIoBuilder::new().add_output("out", 4).build(),
        MessageIoBuilder::new().add_output("done").build(),
        tag,
    )
}

fn stage(tag: u32) -> Block<u32> {
    Block::new_async(
        "stage",
        StreamIoBuilder::new()
            .add_input("in", 4)
            .add_output("out", 4)
            .add_output("wide", 8)
            .add_output("none", 0)
            .build(),
        MessageIoBuilder::new().add_input("ctrl").build(),
        tag,
    )
}

fn sink(tag: u32) -> Block<u32> {
    Block::new_sync(
        "sink",
        StreamIoBuilder::new()
            .add_input("in", 4)
            .add_input("none", 0)
            .build(),
        MessageIoBuilder::new().add_input("ctrl").add_input("ctrl").build(),
        tag,
    )
}

fn graph() -> (Flowgraph<u32>, usize, usize, usize) {
    let mut fg = Flowgraph::new();
    let src = fg.add_block(source(10));
    let mid = fg.add_block(stage(20));
    let snk = fg.add_block(sink(30));
    (fg, src, mid, snk)
}

#[test]
fn flowgraph_blocks_are_numbered_as_they_come() {
    let (_fg, src, mid, snk) = graph();
    assert_eq!((src, mid, snk), (0, 1, 2));
    let mut other: Flowgraph<u32> = Flowgraph::default();
    assert_eq!(other.add_block(sink(1)), 0);
}

#[test]
fn flowgraph_lookup_by_identity_and_flavour() {
    let (mut fg, src, mid, snk) = graph();
    assert_eq!(fg.block_sync(src), Some(&10));
    assert_eq!(fg.block_async(src), None);
    assert_eq!(fg.block_async(mid), Some(&20));
    assert_eq!(fg.block_sync(mid), None);
    assert_eq!(fg.block_sync(snk), Some(&30));
    assert_eq!(fg.block_sync(3), None);
    assert_eq!(fg.block_async(3), None);
    assert_eq!(fg.block_async(usize::MAX), None);
    assert_eq!(fg.block_sync_mut(src), Some(&10));
    assert_eq!(fg.block_async_mut(src), None);
    assert_eq!(fg.block_async_mut(mid), Some(&20));
    assert_eq!(fg.block_sync_mut(mid), None);
    assert_eq!(fg.block_sync_mut(7), None);
}

#[test]
fn flowgraph_without_its_registry_answers_nothing() {
    let (mut fg, src, mid, _snk) = graph();
    let topology = fg.take_topology().unwrap();
    assert_eq!(topology.blocks_len(), 3);
    assert_eq!(fg.block_sync(src), None);
    assert_eq!(fg.block_async(mid), None);
    assert_eq!(fg.block_sync_mut(src), None);
    assert_eq!(fg.block_async_mut(mid), None);
    assert!(fg.take_topology().is_none());
    fg.restore_topology(topology);
    assert_eq!(fg.block_sync(src), Some(&10));
    assert_eq!(fg.block_async(mid), Some(&20));
}

#[test]
fn flowgraph_connects_with_the_default_backend() {
    let (mut fg, src, mid, snk) = graph();
    assert_eq!(fg.connect_stream(src, "out", mid, "in"), Ok(()));
    assert_eq!(fg.connect_stream(mid, "out", snk, "in"), Ok(()));
    let mut topology = fg.take_topology().unwrap();
    assert_eq!(topology.stream_edges_len(), 2);
    {
        let edge = topology.stream_edge(0).unwrap();
        assert_eq!(edge.source(), (src, 0));
        assert_eq!(edge.destination(), (mid, 0));
        match edge.store() {
            Store::Ring(ring) => {
                assert_eq!(ring.capacity(), 8192);
                assert_eq!(ring.item_size(), 4);
            }
            _ => panic!("not a ring"),
        }
    }
    {
        let edge = topology.stream_edge(1).unwrap();
        assert_eq!(edge.source(), (mid, 0));
        assert_eq!(edge.destination(), (snk, 0));
    }
    assert!(topology.stream_edge(2).is_none());
    let block = topology.block_mut(src).unwrap();
    let port = block.stream_io_mut().output(0);
    assert!(port.is_bound());
    assert!(matches!(port.writer(), Some(BufferWriter::Circular(_))));
    let block = topology.block_mut(mid).unwrap();
    assert!(matches!(
        block.stream_io_mut().input(0).reader(),
        Some(BufferReader::Circular(_))
    ));
    assert!(block.stream_io().output_ref(0).is_bound());
    assert!(!block.stream_io().output_ref(1).is_bound());
    assert_eq!(DefaultBuffer::new(), DefaultBuffer);
}

#[test]
fn flowgraph_connects_with_a_named_backend() {
    let (mut fg, src, mid, snk) = graph();
    assert_eq!(fg.connect_stream_with_type(src, "out", mid, "in", H2D::new()), Ok(()));
    assert_eq!(fg.connect_stream_with_type(mid, "out", snk, "in", D2H::new()), Ok(()));
    let mut topology = fg.take_topology().unwrap();
    match topology.stream_edge(0).unwrap().store() {
        Store::Pools(pools) => {
            assert_eq!(pools.empty_len(), 0);
            assert_eq!(pools.full_len(), 0);
        }
        _ => panic!("not pools"),
    }
    let block = topology.block_mut(src).unwrap();
    match block.stream_io_mut().output(0).writer() {
        Some(BufferWriter::H2D(w)) => {
            assert_eq!(w.item_size(), 4);
            assert_eq!(w.output_id(), 0);
            assert!(!w.finished());
        }
        _ => panic!("not a host-to-device writer"),
    }
    let block = topology.block_mut(mid).unwrap();
    assert!(matches!(
        block.stream_io_mut().input(0).reader(),
        Some(BufferReader::H2D(_))
    ));
    assert!(matches!(
        block.stream_io_mut().output(0).writer(),
        Some(BufferWriter::D2H(_))
    ));
    let block = topology.block_mut(snk).unwrap();
    assert!(matches!(
        block.stream_io_mut().input(0).reader(),
        Some(BufferReader::D2H(_))
    ));
}

#[test]
fn flowgraph_slab_connection_is_stocked() {
    let (mut fg, src, mid, _snk) = graph();
    assert_eq!(
        fg.connect_stream_with_type(src, "out", mid, "in", Slab::with_config(64, 3)),
        Ok(())
    );
    let mut topology = fg.take_topology().unwrap();
    match topology.stream_edge(0).unwrap().store() {
        Store::Pools(pools) => assert_eq!(pools.empty_len(), 3),
        _ => panic!("not pools"),
    }
}

#[test]
fn flowgraph_refuses_an_unknown_block() {
    let (mut fg, src, mid, _snk) = graph();
    assert_eq!(fg.connect_stream(3, "out", mid, "in"), Err(ConnectError::UnknownBlock));
    assert_eq!(fg.connect_stream(src, "out", 3, "in"), Err(ConnectError::UnknownBlock));
    assert_eq!(fg.connect_stream(9, "nope", 9, "nope"), Err(ConnectError::UnknownBlock));
    assert_eq!(fg.connect_message(src, "done", 3, "ctrl"), Err(ConnectError::UnknownBlock));
    assert_eq!(fg.connect_message(3, "done", mid, "ctrl"), Err(ConnectError::UnknownBlock));
    assert_eq!(fg.take_topology().unwrap().stream_edges_len(), 0);
}

#[test]
fn flowgraph_refuses_an_unknown_port() {
    let (mut fg, src, mid, snk) = graph();
    assert_eq!(fg.connect_stream(src, "in", mid, "in"), Err(ConnectError::UnknownPort));
    assert_eq!(fg.connect_stream(src, "out", mid, "out"), Err(ConnectError::UnknownPort));
    assert_eq!(fg.connect_stream(src, "", mid, "in"), Err(ConnectError::UnknownPort));
    assert_eq!(fg.connect_stream(src, "Out", mid, "in"), Err(ConnectError::UnknownPort));
    assert_eq!(fg.connect_stream(snk, "out", mid, "in"), Err(ConnectError::UnknownPort));
    assert_eq!(fg.connect_message(src, "out", mid, "ctrl"), Err(ConnectError::UnknownPort));
    assert_eq!(fg.connect_message(src, "done", mid, "in"), Err(ConnectError::UnknownPort));
    assert_eq!(fg.take_topology().unwrap().stream_edges_len(), 0);
}

#[test]
fn flowgraph_refuses_items_of_different_sizes() {
    let (mut fg, _src, mid, snk) = graph();
    assert_eq!(fg.connect_stream(mid, "wide", snk, "in"), Err(ConnectError::ItemSizeMismatch));
    assert_eq!(fg.connect_stream(mid, "none", snk, "in"), Err(ConnectError::ItemSizeMismatch));
    assert_eq!(fg.take_topology().unwrap().stream_edges_len(), 0);
}

#[test]
fn flowgraph_refuses_items_without_size() {
    let (mut fg, _src, mid, snk) = graph();
    assert_eq!(fg.connect_stream(mid, "none", snk, "none"), Err(ConnectError::InvalidItemSize));
    assert_eq!(
        fg.connect_stream_with_type(mid, "none", snk, "none", H2D::new()),
        Err(ConnectError::InvalidItemSize)
    );
}

#[test]
fn flowgraph_refuses_a_port_that_is_bound() {
    let (mut fg, src, mid, snk) = graph();
    assert_eq!(fg.connect_stream(src, "out", mid, "in"), Ok(()));
    assert_eq!(fg.connect_stream(src, "out", snk, "in"), Err(ConnectError::PortBound));
    assert_eq!(fg.connect_stream(mid, "out", mid, "in"), Err(ConnectError::PortBound));
    assert_eq!(
        fg.connect_stream_with_type(src, "out", mid, "in", H2D::new()),
        Err(ConnectError::PortBound)
    );
    assert_eq!(fg.connect_stream(mid, "out", snk, "in"), Ok(()));
    assert_eq!(fg.take_topology().unwrap().stream_edges_len(), 2);
}

#[test]
fn flowgraph_connects_a_block_to_itself() {
    let mut fg: Flowgraph<u32> = Flowgraph::new();
    let mid = fg.add_block(stage(1));
    assert_eq!(fg.connect_stream(mid, "out", mid, "in"), Ok(()));
    let mut topology = fg.take_topology().unwrap();
    let block = topology.block_mut(mid).unwrap();
    assert!(block.stream_io().output_ref(0).is_bound());
    assert!(block.stream_io().input_ref(0).is_bound());
}

#[test]
fn flowgraph_message_connections_are_recorded() {
    let (mut fg, src, mid, snk) = graph();
    assert_eq!(fg.connect_message(src, "done", mid, "ctrl"), Ok(()));
    assert_eq!(fg.connect_message(src, "done", snk, "ctrl"), Ok(()));
    assert_eq!(fg.connect_message(src, "done", mid, "ctrl"), Ok(()));
    let topology = fg.take_topology().unwrap();
    let edge = |dst_block| MessageEdge { src_block: src, src_port: 0, dst_block, dst_port: 0 };
    assert_eq!(topology.message_edges(), &vec![edge(mid), edge(snk), edge(mid)]);
    assert!(topology.has_message_input(mid, 0));
    assert!(!topology.has_message_input(mid, 1));
    assert!(topology.has_message_input(snk, 1));
    assert!(!topology.has_message_input(src, 0));
    assert!(!topology.has_message_input(3, 0));
}

#[test]
fn flowgraph_torn_down_before_any_work() {
    let (mut fg, src, mid, snk) = graph();
    assert_eq!(fg.connect_stream_with_type(src, "out", mid, "in", H2D::new()), Ok(()));
    assert_eq!(fg.connect_stream_with_type(mid, "out", snk, "in", D2H::new()), Ok(()));
    {
        let mut topology = fg.take_topology().unwrap();
        let mut store = topology.stream_edge(0).unwrap().take_store();
        let pools = store.try_as_pools().unwrap();
        let block = topology.block_mut(mid).unwrap();
        let mut reader = block.stream_io_mut().input(0).take_reader().unwrap();
        let r = reader.try_as_h2d().unwrap();
        assert!(r.buffers(pools).is_empty());
        assert!(r.buffers(pools).is_empty());
        assert!(!r.finished(pools));
        let block = topology.block_mut(src).unwrap();
        let writer = block.stream_io_mut().output(0).writer().unwrap();
        assert!(writer.notify_finished(&mut store).is_some());
        topology.stream_edge(0).unwrap().restore_store(store);
        fg.restore_topology(topology);
    }
    drop(fg);
}

#[test]
fn flowgraph_connections_are_found_by_their_ends() {
    let (mut fg, src, mid, snk) = graph();
    fg.connect_stream(mid, "out", snk, "in").unwrap();
    fg.connect_stream(src, "out", mid, "in").unwrap();
    let topology = fg.take_topology().unwrap();
    assert_eq!(topology.edge_from(mid, 0), Some(0));
    assert_eq!(topology.edge_from(src, 0), Some(1));
    assert_eq!(topology.edge_from(snk, 0), None);
    assert_eq!(topology.edge_from(mid, 1), None);
    assert_eq!(topology.edge_to(snk, 0), Some(0));
    assert_eq!(topology.edge_to(mid, 0), Some(1));
    assert_eq!(topology.edge_to(src, 0), None);
    assert_eq!(topology.edge_to(snk, 1), None);
    assert_eq!(topology.ends(0), Some(((mid, 0), (snk, 0))));
    assert_eq!(topology.ends(1), Some(((src, 0), (mid, 0))));
    assert_eq!(topology.ends(2), None);
}

#[test]
fn flowgraph_block_with_an_open_port_is_not_connected() {
    let mut fg: Flowgraph<u32> = Flowgraph::new();
    let src = fg.add_block(source(1));
    let snk = fg.add_block(Block::new_sync(
        "sink",
        StreamIoBuilder::new().add_input("in", 4).build(),
        MessageIoBuilder::new().build(),
        2,
    ));
    {
        let topology = fg.take_topology().unwrap();
        assert_eq!(topology.first_unconnected(), Some(src));
        assert!(!topology.block_ref(src).unwrap().stream_io().is_connected());
        assert!(topology.block_ref(2).is_none());
        fg.restore_topology(topology);
    }
    fg.connect_stream(src, "out", snk, "in").unwrap();
    let topology = fg.take_topology().unwrap();
    assert_eq!(topology.first_unconnected(), None);
    assert!(topology.block_ref(src).unwrap().stream_io().is_connected());
    assert!(topology.block_ref(snk).unwrap().stream_io().is_connected());
}

#[test]
fn flowgraph_without_blocks_is_connected() {
    let mut fg: Flowgraph<u32> = Flowgraph::new();
    let topology = fg.take_topology().unwrap();
    assert_eq!(topology.blocks_len(), 0);
    assert_eq!(topology.first_unconnected(), None);
    assert_eq!(topology.edge_from(0, 0), None);
    assert!(topology.message_edges().is_empty());
}
