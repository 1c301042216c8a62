use spectro::framer::Framer;

fn feed(framer: &mut Framer, chunks: &[Vec<u32>]) -> Vec<Vec<u32>> {
    let mut wins = Vec::new();
    for c in chunks {
        wins.extend(framer.push_chunk(c));
    }
    wins
}

#[test]
fn emits_fixed_size_windows_in_order() {
    let mut f = Framer::new(4);
    let wins = f.push_chunk(&vec![1, 2, 3, 4, 5, 6, 7, 8, 9]);
    assert_eq!(wins, vec![vec![1, 2, 3, 4], vec![5, 6, 7, 8]]);
    assert_eq!(f.residue_len(), 1);
}

#[test]
fn empty_chunk_is_a_no_op() {
    let mut f = Framer::new(4);
    f.push_chunk(&vec![7, 7]);
    let wins = f.push_chunk(&vec![]);
    assert!(wins.is_empty());
    assert_eq!(f.residue_len(), 2);
}

#[test]
fn chunk_boundaries_do_not_matter() {
    let stream: Vec<u32> = (0..23).collect();
    let mut whole = Framer::new(5);
    let expected = whole.push_chunk(&stream);

    let cuts: &[&[usize]] = &[&[1, 4, 7, 23], &[5, 10, 15, 20, 23], &[2, 3, 22, 23], &[23]];
    for cut in cuts {
        let mut f = Framer::new(5);
        let mut chunks = Vec::new();
        let mut start = 0;
        for &end in cut.iter() {
            chunks.push(stream[start..end].to_vec());
            start = end;
        }
        let wins = feed(&mut f, &chunks);
        assert_eq!(wins, expected);
        assert_eq!(f.residue_len(), whole.residue_len());
    }
}

#[test]
fn exact_multiple_leaves_no_residue() {
    let mut f = Framer::new(8);
    let wins = f.push_chunk(&(0..24).collect());
    assert_eq!(wins.len(), 3);
    assert_eq!(f.residue_len(), 0);
}

#[test]
fn partial_stream_keeps_remainder() {
    let mut f = Framer::new(8);
    let wins = f.push_chunk(&(0..21).collect());
    assert_eq!(wins.len(), 2);
    assert_eq!(f.residue_len(), 5);
}

#[test]
fn one_chunk_can_flush_many_windows() {
    let mut f = Framer::new(2);
    let wins = f.push_chunk(&vec![1, 2, 3, 4, 5, 6]);
    assert_eq!(wins.len(), 3);
}

#[test]
fn window_size_one_passes_samples_through() {
    let mut f = Framer::new(1);
    let wins = f.push_chunk(&vec![4, 5]);
    assert_eq!(wins, vec![vec![4], vec![5]]);
    assert_eq!(f.residue_len(), 0);
}
