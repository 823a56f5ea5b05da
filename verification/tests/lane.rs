use futuresdr::block::WorkIo;
use futuresdr::buffer::{BufferReader, BufferWriter};
use futuresdr::chunk::BufferEmpty;
use futuresdr::h2d::{ReaderH2D, WriterH2D};
use futuresdr::lane::{next_identity, Lane};
use futuresdr::pools::Pools;

fn input() -> (ReaderH2D, Pools) {
    let mut writer = match WriterH2D::new(4, 0) {
        BufferWriter::H2D(w) => w,
        _ => panic!("not a host-to-device writer"),
    };
    let reader = match writer.add_reader(0) {
        BufferReader::H2D(r) => r,
        _ => panic!("not a host-to-device reader"),
    };
    (reader, Pools::new())
}

#[test]
fn lane_starts_without_chunks() {
    let mut lane = Lane::new();
    assert_eq!(lane.waiting(), 0);
    assert!(!lane.busy());
    assert_eq!(lane.in_flight_used(), None);
    assert_eq!(lane.launch(), Ok(None));
    assert!(lane.land().is_none());
}

#[test]
fn lane_lines_chunks_up_in_their_order() {
    let (mut reader, mut pools) = input();
    let mut lane = Lane::new();
    pools.push_full(BufferEmpty::from_vec(1, vec![1; 8]).into_full(8));
    lane.collect(&mut reader, &mut pools);
    pools.push_full(BufferEmpty::from_vec(2, vec![2; 300]).into_full(260));
    pools.push_full(BufferEmpty::from_vec(3, vec![3; 4]).into_full(0));
    lane.collect(&mut reader, &mut pools);
    assert_eq!(lane.waiting(), 3);
    assert_eq!(pools.full_len(), 0);

    assert_eq!(lane.launch(), Ok(Some(1)));
    assert!(lane.busy());
    assert_eq!(lane.waiting(), 2);
    assert_eq!(lane.in_flight_used(), Some(8));
    assert_eq!(lane.payload(), &[1; 8]);
    assert_eq!(lane.launch(), Ok(None));
    assert_eq!(lane.land().unwrap().id(), 1);
    assert!(!lane.busy());

    assert_eq!(lane.launch(), Ok(Some(2)));
    assert_eq!(lane.payload().len(), 260);
    assert_eq!(lane.land().unwrap().id(), 2);

    assert_eq!(lane.launch(), Ok(Some(0)));
    assert!(lane.payload().is_empty());
    assert_eq!(lane.land().unwrap().id(), 3);
    assert_eq!(lane.launch(), Ok(None));
}

#[test]
fn lane_concludes_when_the_input_is_over_and_nothing_is_left() {
    let (mut reader, mut pools) = input();
    let mut lane = Lane::new();
    let mut io = WorkIo { finished: false };
    lane.conclude(&mut io, &reader, &pools);
    assert!(!io.finished);
    reader.finish();
    pools.push_full(BufferEmpty::new(1, 4).into_full(4));
    lane.conclude(&mut io, &reader, &pools);
    assert!(!io.finished);
    lane.collect(&mut reader, &mut pools);
    lane.conclude(&mut io, &reader, &pools);
    assert!(!io.finished);
    lane.launch().unwrap();
    lane.conclude(&mut io, &reader, &pools);
    assert!(!io.finished);
    lane.land();
    lane.conclude(&mut io, &reader, &pools);
    assert!(io.finished);
}

#[test]
fn lane_identities_count_around() {
    assert_eq!(next_identity(0), 1);
    assert_eq!(next_identity(41), 42);
    assert_eq!(next_identity(u64::MAX - 1), u64::MAX);
    assert_eq!(next_identity(u64::MAX), 0);
}
