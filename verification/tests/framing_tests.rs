use mirror_align::framing::FrameSplitter;

fn drain(s: &mut FrameSplitter) -> Vec<Vec<u8>> {
    let mut out = Vec::new();
    while let Some(f) = s.next_frame() {
        out.push(f);
    }
    out
}

#[test]
fn reassembles_frames_split_across_chunks() {
    let mut s = FrameSplitter::new();
    s.feed(b"AB");
    assert_eq!(s.next_frame(), None);
    s.feed(b"C\r");
    assert_eq!(s.next_frame(), None);
    s.feed(b"\nDE\r\nF");
    let frames = drain(&mut s);
    assert_eq!(frames, vec![b"ABC".to_vec(), b"DE".to_vec()]);
    s.feed(b"\r\n");
    assert_eq!(s.next_frame(), Some(b"F".to_vec()));
    assert_eq!(s.next_frame(), None);
}

#[test]
fn chunking_does_not_change_the_frames() {
    let stream = b"OK\r\nFIN\r\n1,deg,1.5,-2.5,ND,3.0,OK\r\npartial";
    let expected = vec![
        b"OK".to_vec(),
        b"FIN".to_vec(),
        b"1,deg,1.5,-2.5,ND,3.0,OK".to_vec(),
    ];
    for chunk_len in 1..stream.len() {
        let mut s = FrameSplitter::new();
        for chunk in stream.chunks(chunk_len) {
            s.feed(chunk);
        }
        assert_eq!(drain(&mut s), expected, "chunk length {}", chunk_len);
    }
}

#[test]
fn empty_frames_are_kept() {
    let mut s = FrameSplitter::new();
    s.feed(b"A\r\n\r\nB\r\n");
    assert_eq!(
        drain(&mut s),
        vec![b"A".to_vec(), b"".to_vec(), b"B".to_vec()]
    );
}

#[test]
fn carriage_return_alone_is_not_a_terminator() {
    let mut s = FrameSplitter::new();
    s.feed(b"A\rB\r\n");
    assert_eq!(s.next_frame(), Some(b"A\rB".to_vec()));
    assert_eq!(s.next_frame(), None);
}
