use qyoobs_vnc::relay::RelayDirection;

#[test]
fn forward_copies_chunk_unmodified() {
    let mut dir = RelayDirection::new();
    let chunk: Vec<u8> = (0..=255).collect();
    let out = dir.forward(&chunk);
    assert_eq!(out, chunk);
}

#[test]
fn forward_all_is_chunking_independent() {
    let payload: Vec<u8> = (0..10_000u32).map(|i| (i % 251) as u8).collect();
    // Two different chunkings of the same stream.
    let coarse: Vec<Vec<u8>> = payload.chunks(4096).map(|c| c.to_vec()).collect();
    let fine: Vec<Vec<u8>> = payload.chunks(7).map(|c| c.to_vec()).collect();

    let mut a = RelayDirection::new();
    let mut b = RelayDirection::new();
    assert_eq!(a.forward_all(&coarse), payload);
    assert_eq!(b.forward_all(&fine), payload);
}

#[test]
fn both_directions_run_independently() {
    // Full duplex: each direction owns its own state; interleaving the
    // two does not mix their streams.
    let upstream: Vec<u8> = vec![1, 2, 3, 4, 5];
    let downstream: Vec<u8> = vec![9, 8, 7];
    let mut up = RelayDirection::new();
    let mut down = RelayDirection::new();

    let mut up_out = Vec::new();
    let mut down_out = Vec::new();
    up_out.extend(up.forward(&upstream[..2].to_vec()));
    down_out.extend(down.forward(&downstream[..1].to_vec()));
    up_out.extend(up.forward(&upstream[2..].to_vec()));
    down_out.extend(down.forward(&downstream[1..].to_vec()));

    assert_eq!(up_out, upstream);
    assert_eq!(down_out, downstream);
}

#[test]
fn empty_chunks_carry_nothing() {
    let mut dir = RelayDirection::new();
    assert_eq!(dir.forward(&Vec::new()), Vec::<u8>::new());
    assert_eq!(dir.forward_all(&vec![Vec::new(), vec![42], Vec::new()]), vec![42]);
}
