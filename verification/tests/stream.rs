use tiff_reader::ByteStream;

#[test]
fn a_new_stream_starts_at_the_first_byte() {
    let mut stream = ByteStream::new(vec![1, 2, 3, 4, 5]);
    assert_eq!(stream.len(), 5);
    assert_eq!(stream.stream_position(), 0);
    assert_eq!(stream.read(2), vec![1, 2]);
    assert_eq!(stream.stream_position(), 2);
}

#[test]
fn a_read_moves_the_cursor_behind_what_it_read() {
    let mut stream = ByteStream::new(vec![10, 20, 30, 40, 50, 60]);
    assert_eq!(stream.read(1), vec![10]);
    assert_eq!(stream.read(3), vec![20, 30, 40]);
    assert_eq!(stream.stream_position(), 4);
    assert_eq!(stream.read(2), vec![50, 60]);
    assert_eq!(stream.stream_position(), 6);
}

#[test]
fn a_read_at_the_end_comes_back_short() {
    let mut stream = ByteStream::new(vec![1, 2, 3]);
    stream.seek(1);
    assert_eq!(stream.read(5), vec![2, 3]);
    assert_eq!(stream.stream_position(), 3);
    assert_eq!(stream.read(1), Vec::<u8>::new());
    assert_eq!(stream.stream_position(), 3);
}

#[test]
fn a_read_behind_the_end_hands_out_nothing() {
    let mut stream = ByteStream::new(vec![1, 2, 3]);
    stream.seek(100);
    assert_eq!(stream.stream_position(), 100);
    assert_eq!(stream.read(4), Vec::<u8>::new());
    assert_eq!(stream.stream_position(), 100);
    stream.seek(u64::MAX);
    assert_eq!(stream.read(u64::MAX), Vec::<u8>::new());
    assert_eq!(stream.stream_position(), u64::MAX);
}

#[test]
fn a_read_of_nothing_reads_nothing() {
    let mut stream = ByteStream::new(vec![1, 2, 3]);
    assert_eq!(stream.read(0), Vec::<u8>::new());
    assert_eq!(stream.stream_position(), 0);
}

#[test]
fn seeking_back_reads_the_same_bytes_again() {
    let mut stream = ByteStream::new(vec![7, 8, 9]);
    assert_eq!(stream.read(3), vec![7, 8, 9]);
    stream.seek(0);
    assert_eq!(stream.read(3), vec![7, 8, 9]);
    stream.seek(2);
    assert_eq!(stream.read(1), vec![9]);
}

#[test]
fn an_empty_stream_has_nothing_to_read() {
    let mut stream = ByteStream::new(Vec::new());
    assert_eq!(stream.len(), 0);
    assert_eq!(stream.read(2), Vec::<u8>::new());
    assert_eq!(stream.stream_position(), 0);
}
