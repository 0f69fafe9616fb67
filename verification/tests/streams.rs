use backend_rust::chunker::ChunkIter;
use backend_rust::codec::CodecContext;
use backend_rust::codec::Direction;
use backend_rust::engine::process;
use backend_rust::error::ErrorKind;
use backend_rust::params::Parameters;
use backend_rust::reader::ReadOutcome;
use backend_rust::reader::ReaderState;
use backend_rust::reader::StreamReader;
use backend_rust::writer::StreamWriter;
use backend_rust::writer::WriterMode;
use backend_rust::writer::WriterState;

fn noise(len: usize, seed: u32) -> Vec<u8> {
    let mut data = Vec::with_capacity(len);
    let mut x: u32 = seed;
    for i in 0..len {
        x = x.wrapping_mul(1103515245).wrapping_add(12345);
        if i % 5 < 3 {
            data.push((i % 97) as u8);
        } else {
            data.push((x >> 16) as u8);
        }
    }
    data
}

fn one_shot(direction: Direction, data: &[u8], params: &Parameters) -> Vec<u8> {
    let mut ctx = CodecContext::create(direction, params).unwrap();
    let done = process(&mut ctx, data, false).unwrap();
    assert!(done.complete);
    done.output
}

fn stream_in_chunks(data: &[u8], chunk: usize, params: &Parameters) -> Vec<u8> {
    let mut w = StreamWriter::open(Direction::Compress, params, WriterMode::Pull).unwrap();
    assert_eq!(w.state(), WriterState::Open);
    let mut out = Vec::new();
    for piece in data.chunks(chunk) {
        out.extend(w.write(piece).unwrap());
        assert_eq!(w.state(), WriterState::Writing);
    }
    out.extend(w.close().unwrap());
    assert_eq!(w.state(), WriterState::Closed);
    out
}

#[test]
fn streamed_output_decodes_to_the_input_for_any_chunk_size() {
    let params = Parameters::defaults();
    let data = noise(300_000, 7);
    for chunk in [1usize << 20, 100_000, 4096, 1000, 333] {
        let streamed = stream_in_chunks(&data, chunk, &params);
        assert_eq!(one_shot(Direction::Decompress, &streamed, &params), data);
    }
}

#[test]
fn streamed_output_decodes_with_byte_sized_chunks() {
    let params = Parameters::defaults();
    let data = noise(3000, 11);
    let streamed = stream_in_chunks(&data, 1, &params);
    assert_eq!(one_shot(Direction::Decompress, &streamed, &params), data);
}

#[test]
fn writer_with_no_writes_closes_to_an_empty_frame() {
    let params = Parameters::defaults();
    let mut w = StreamWriter::open(Direction::Compress, &params, WriterMode::Pull).unwrap();
    let frame = w.close().unwrap();
    assert!(!frame.is_empty());
    assert!(one_shot(Direction::Decompress, &frame, &params).is_empty());
}

#[test]
fn close_twice_gives_no_second_trailer() {
    let params = Parameters::defaults();
    let mut w = StreamWriter::open(Direction::Compress, &params, WriterMode::Pull).unwrap();
    let mut out = w.write(b"some bytes to close over").unwrap();
    let first = w.close().unwrap();
    assert!(!first.is_empty());
    let second = w.close().unwrap();
    assert!(second.is_empty());
    assert_eq!(w.state(), WriterState::Closed);
    out.extend(first);
    out.extend(second);
    assert_eq!(
        one_shot(Direction::Decompress, &out, &params),
        b"some bytes to close over".to_vec()
    );
}

#[test]
fn write_and_flush_after_close_are_invalid_state() {
    let params = Parameters::defaults();
    let mut w = StreamWriter::open(Direction::Compress, &params, WriterMode::Pull).unwrap();
    w.write(b"abc").unwrap();
    w.close().unwrap();
    assert_eq!(w.write(b"more").unwrap_err().kind, ErrorKind::InvalidState);
    assert_eq!(w.flush().unwrap_err().kind, ErrorKind::InvalidState);
    assert_eq!(w.state(), WriterState::Closed);
}

#[test]
fn flush_makes_what_was_written_decodable() {
    let params = Parameters::defaults();
    let data = noise(50_000, 3);
    let mut w = StreamWriter::open(Direction::Compress, &params, WriterMode::Pull).unwrap();
    let mut out = w.write(&data).unwrap();
    out.extend(w.flush().unwrap());
    assert_eq!(w.state(), WriterState::Writing);
    // The frame is still open, but everything written so far can be read.
    let mut ctx = CodecContext::create(Direction::Decompress, &params).unwrap();
    let part = process(&mut ctx, &out, true).unwrap();
    assert!(!part.complete);
    assert_eq!(part.output, data);
    out.extend(w.write(b"tail").unwrap());
    out.extend(w.close().unwrap());
    let mut whole = data.clone();
    whole.extend_from_slice(b"tail");
    assert_eq!(one_shot(Direction::Decompress, &out, &params), whole);
}

#[test]
fn flush_on_a_decompressing_writer_is_invalid_state() {
    let params = Parameters::defaults();
    let mut w = StreamWriter::open(Direction::Decompress, &params, WriterMode::Pull).unwrap();
    assert_eq!(w.flush().unwrap_err().kind, ErrorKind::InvalidState);
    assert_eq!(w.state(), WriterState::Open);
}

#[test]
fn accumulating_writer_holds_output_until_taken() {
    let params = Parameters::defaults();
    let data = noise(200_000, 5);
    let mut w = StreamWriter::open(Direction::Compress, &params, WriterMode::Accumulate).unwrap();
    for piece in data.chunks(10_000) {
        assert!(w.write(piece).unwrap().is_empty());
    }
    let mut out = w.take_output();
    assert!(w.close().unwrap().is_empty());
    out.extend(w.take_output());
    assert!(w.take_output().is_empty());
    assert_eq!(one_shot(Direction::Decompress, &out, &params), data);
}

#[test]
fn decompressing_writer_gives_back_the_content() {
    let params = Parameters::defaults();
    let data = noise(150_000, 9);
    let frame = one_shot(Direction::Compress, &data, &params);
    let mut w = StreamWriter::open(Direction::Decompress, &params, WriterMode::Pull).unwrap();
    let mut out = Vec::new();
    for piece in frame.chunks(777) {
        out.extend(w.write(piece).unwrap());
    }
    assert!(w.close().unwrap().is_empty());
    assert_eq!(out, data);
}

#[test]
fn decompressing_writer_reports_truncation_on_close() {
    let params = Parameters::defaults();
    let data = noise(150_000, 9);
    let frame = one_shot(Direction::Compress, &data, &params);
    let cut = frame.len() - 1;
    let mut w = StreamWriter::open(Direction::Decompress, &params, WriterMode::Pull).unwrap();
    w.write(&frame[..cut]).unwrap();
    let e = w.close().unwrap_err();
    assert_eq!(e.kind, ErrorKind::TruncatedInput);
    assert_eq!(e.offset, cut as u64);
    assert!(w.close().unwrap().is_empty());

    let tolerant = params.with_truncation_tolerated(true);
    let mut w = StreamWriter::open(Direction::Decompress, &tolerant, WriterMode::Pull).unwrap();
    w.write(&frame[..cut]).unwrap();
    assert!(w.close().unwrap().is_empty());
}

#[test]
fn writer_fails_on_corrupt_input_and_is_closed() {
    let params = Parameters::defaults();
    let mut w = StreamWriter::open(Direction::Decompress, &params, WriterMode::Pull).unwrap();
    let e = w.write(b"definitely not a zstd frame").unwrap_err();
    assert_eq!(e.kind, ErrorKind::CorruptData);
    assert_eq!(w.state(), WriterState::Closed);
    assert_eq!(w.write(b"x").unwrap_err().kind, ErrorKind::InvalidState);
}

#[test]
fn writer_keeps_what_was_decoded_before_a_failure() {
    let params = Parameters::defaults();
    let data = noise(50_000, 13);
    let mut input = one_shot(Direction::Compress, &data, &params);
    input.extend_from_slice(b"and then something that is no frame");
    let mut w = StreamWriter::open(Direction::Decompress, &params, WriterMode::Pull).unwrap();
    let e = w.write(&input).unwrap_err();
    assert_eq!(e.kind, ErrorKind::CorruptData);
    assert_eq!(w.state(), WriterState::Closed);
    assert_eq!(w.take_output(), data);
    assert!(w.take_output().is_empty());
}

#[test]
fn reader_of_a_spoiled_frame_ends_with_corrupt_data() {
    let params = Parameters::new(3, 0, true, 0, None).unwrap();
    let data = noise(600_000, 17);
    let mut frame = one_shot(Direction::Compress, &data, &params);
    assert!(frame.len() > 100_000);
    let spot = frame.len() / 4 * 3;
    frame[spot] ^= 0x5A;
    let mut r = StreamReader::open(Direction::Decompress, &params).unwrap();
    r.supply(&frame).unwrap();
    r.finish();
    let mut got = Vec::new();
    let e = loop {
        match r.read(50_000) {
            Ok(ReadOutcome::Data(bytes)) => {
                assert!(!bytes.is_empty());
                got.extend(bytes);
            }
            Ok(ReadOutcome::NeedInput) => panic!("a finished source was asked for input"),
            Err(e) => break e,
        }
    };
    assert_eq!(e.kind, ErrorKind::CorruptData);
    assert!(got.len() >= 128 * 1024);
    assert_eq!(&got[..128 * 1024], &data[..128 * 1024]);
    assert_eq!(r.state(), ReaderState::EndOfFrame);
    assert_eq!(r.supply(b"more").unwrap_err().kind, ErrorKind::InvalidState);
    assert!(matches!(r.read(10).unwrap(), ReadOutcome::Data(b) if b.is_empty()));
}

#[test]
fn reader_compresses_with_the_smallest_reads() {
    let params = Parameters::defaults();
    let data = noise(20_000, 5);
    for quota in [1usize, 2, 7] {
        let mut r = StreamReader::open(Direction::Compress, &params).unwrap();
        let frame = read_all(&mut r, &data, 333, quota);
        assert_eq!(one_shot(Direction::Decompress, &frame, &params), data);
    }
    let mut r = StreamReader::open(Direction::Compress, &params).unwrap();
    let frame = read_all(&mut r, &[], 10, 3);
    assert!(!frame.is_empty());
    assert!(one_shot(Direction::Decompress, &frame, &params).is_empty());
}

#[test]
fn chunks_of_one_byte() {
    let params = Parameters::defaults();
    let data = noise(3000, 6);
    let mut chunks = ChunkIter::start(Direction::Compress, &data, 1, &params).unwrap();
    let mut frame = Vec::new();
    while let Some(chunk) = chunks.next_chunk() {
        let chunk = chunk.unwrap();
        assert_eq!(chunk.len(), 1);
        frame.extend(chunk);
    }
    assert_eq!(one_shot(Direction::Decompress, &frame, &params), data);
}

#[test]
fn flush_of_an_open_writer_starts_the_frame() {
    let params = Parameters::defaults();
    let mut w = StreamWriter::open(Direction::Compress, &params, WriterMode::Pull).unwrap();
    let mut out = w.flush().unwrap();
    assert_eq!(w.state(), WriterState::Writing);
    out.extend(w.write(b"after the flush").unwrap());
    out.extend(w.close().unwrap());
    assert_eq!(one_shot(Direction::Decompress, &out, &params), b"after the flush".to_vec());
}

#[test]
fn empty_writes_change_nothing_but_the_state() {
    let params = Parameters::defaults();
    let mut w = StreamWriter::open(Direction::Decompress, &params, WriterMode::Pull).unwrap();
    for _ in 0..40 {
        assert!(w.write(&[]).unwrap().is_empty());
    }
    assert_eq!(w.state(), WriterState::Writing);
    let frame = one_shot(Direction::Compress, b"payload", &params);
    assert_eq!(w.write(&frame).unwrap(), b"payload".to_vec());
    assert!(w.close().unwrap().is_empty());
}

#[test]
fn decompressing_writer_goes_on_into_the_next_frame() {
    let params = Parameters::defaults();
    let mut input = one_shot(Direction::Compress, b"first frame, ", &params);
    input.extend(one_shot(Direction::Compress, b"second frame", &params));
    let mut w = StreamWriter::open(Direction::Decompress, &params, WriterMode::Accumulate).unwrap();
    assert!(w.write(&input).unwrap().is_empty());
    assert!(w.close().unwrap().is_empty());
    assert_eq!(w.take_output(), b"first frame, second frame".to_vec());
}

fn read_all(reader: &mut StreamReader, source: &[u8], piece: usize, quota: usize) -> Vec<u8> {
    let mut fed = 0;
    let mut out = Vec::new();
    loop {
        match reader.read(quota).unwrap() {
            ReadOutcome::Data(bytes) => {
                if bytes.is_empty() {
                    return out;
                }
                assert!(bytes.len() <= quota);
                out.extend(bytes);
            }
            ReadOutcome::NeedInput => {
                if fed == source.len() {
                    reader.finish();
                } else {
                    let end = (fed + piece).min(source.len());
                    reader.supply(&source[fed..end]).unwrap();
                    fed = end;
                }
            }
        }
    }
}

#[test]
fn reader_decompresses_from_a_source_in_pieces() {
    let params = Parameters::defaults();
    let data = noise(400_000, 21);
    let frame = one_shot(Direction::Compress, &data, &params);
    for (piece, quota) in [(1000usize, 4096usize), (17, 100_000), (1 << 20, 333), (5, 7000)] {
        let mut r = StreamReader::open(Direction::Decompress, &params).unwrap();
        assert_eq!(r.state(), ReaderState::Open);
        assert_eq!(read_all(&mut r, &frame, piece, quota), data);
        assert_eq!(r.state(), ReaderState::EndOfFrame);
    }
    let small = noise(5000, 21);
    let frame = one_shot(Direction::Compress, &small, &params);
    for (piece, quota) in [(1usize, 1usize), (1 << 20, 1), (3, 2)] {
        let mut r = StreamReader::open(Direction::Decompress, &params).unwrap();
        assert_eq!(read_all(&mut r, &frame, piece, quota), small);
    }
}

#[test]
fn reader_compresses_from_a_source_in_pieces() {
    let params = Parameters::defaults();
    let data = noise(300_000, 33);
    let mut r = StreamReader::open(Direction::Compress, &params).unwrap();
    let frame = read_all(&mut r, &data, 10_000, 4096);
    assert_eq!(r.state(), ReaderState::EndOfFrame);
    assert_eq!(one_shot(Direction::Decompress, &frame, &params), data);
}

#[test]
fn reading_past_the_end_gives_empty_data() {
    let params = Parameters::defaults();
    let frame = one_shot(Direction::Compress, b"short", &params);
    let mut r = StreamReader::open(Direction::Decompress, &params).unwrap();
    assert_eq!(read_all(&mut r, &frame, 100, 100), b"short".to_vec());
    for _ in 0..3 {
        match r.read(10).unwrap() {
            ReadOutcome::Data(bytes) => assert!(bytes.is_empty()),
            ReadOutcome::NeedInput => panic!("read past the end asked for input"),
        }
    }
    assert_eq!(r.supply(b"late").unwrap_err().kind, ErrorKind::InvalidState);
}

#[test]
fn reader_asks_for_input_only_when_it_has_nothing_to_give() {
    let params = Parameters::defaults();
    let data = noise(1_000_000, 1);
    let frame = one_shot(Direction::Compress, &data, &params);
    let mut r = StreamReader::open(Direction::Decompress, &params).unwrap();
    assert!(matches!(r.read(10).unwrap(), ReadOutcome::NeedInput));
    assert_eq!(r.state(), ReaderState::Reading);
    r.supply(&frame[..frame.len() / 2]).unwrap();
    let mut got = Vec::new();
    loop {
        match r.read(1 << 20).unwrap() {
            ReadOutcome::Data(bytes) => {
                assert!(!bytes.is_empty());
                got.extend(bytes);
            }
            ReadOutcome::NeedInput => break,
        }
    }
    assert!(!got.is_empty());
    assert_eq!(&got[..], &data[..got.len()]);
}

#[test]
fn reader_reports_truncation_when_the_source_ends_early() {
    let params = Parameters::defaults();
    let data = noise(100_000, 2);
    let frame = one_shot(Direction::Compress, &data, &params);
    let cut = frame.len() / 3;
    let mut r = StreamReader::open(Direction::Decompress, &params).unwrap();
    r.supply(&frame[..cut]).unwrap();
    r.finish();
    let mut got = Vec::new();
    let e = loop {
        match r.read(4096) {
            Ok(ReadOutcome::Data(bytes)) => {
                assert!(!bytes.is_empty());
                got.extend(bytes);
            }
            Ok(ReadOutcome::NeedInput) => panic!("a finished source was asked for input"),
            Err(e) => break e,
        }
    };
    assert_eq!(e.kind, ErrorKind::TruncatedInput);
    assert_eq!(e.offset, cut as u64);
    assert_eq!(&got[..], &data[..got.len()]);
    assert_eq!(r.state(), ReaderState::EndOfFrame);
    assert!(matches!(r.read(10).unwrap(), ReadOutcome::Data(b) if b.is_empty()));
}

#[test]
fn reader_with_no_input_at_all_is_truncated() {
    let params = Parameters::defaults();
    let mut r = StreamReader::open(Direction::Decompress, &params).unwrap();
    r.finish();
    let e = r.read(10).unwrap_err();
    assert_eq!(e.kind, ErrorKind::TruncatedInput);
    assert_eq!(e.offset, 0);
}

#[test]
fn tolerant_reader_ends_quietly_when_the_source_ends_early() {
    let params = Parameters::defaults().with_truncation_tolerated(true);
    let data = noise(100_000, 2);
    let frame = one_shot(Direction::Compress, &data, &params);
    let mut r = StreamReader::open(Direction::Decompress, &params).unwrap();
    let got = read_all(&mut r, &frame[..frame.len() / 2], 1000, 4096);
    assert!(got.len() < data.len());
    assert_eq!(&got[..], &data[..got.len()]);
    assert_eq!(r.state(), ReaderState::EndOfFrame);
}

#[test]
fn read_of_zero_bytes_changes_nothing() {
    let params = Parameters::defaults();
    let mut r = StreamReader::open(Direction::Decompress, &params).unwrap();
    assert!(matches!(r.read(0).unwrap(), ReadOutcome::Data(b) if b.is_empty()));
    assert_eq!(r.state(), ReaderState::Open);
}

fn collect_chunks(mut chunks: ChunkIter) -> Vec<Vec<u8>> {
    let mut all = Vec::new();
    while let Some(item) = chunks.next_chunk() {
        all.push(item.unwrap());
    }
    assert!(chunks.next_chunk().is_none());
    assert!(chunks.next_chunk().is_none());
    all
}

#[test]
fn chunks_have_the_chosen_size_but_for_the_last() {
    let params = Parameters::defaults();
    let data = noise(250_000, 4);
    let frame = one_shot(Direction::Compress, &data, &params);
    let size = 10_000;
    let chunks = collect_chunks(ChunkIter::start(Direction::Decompress, &frame, size, &params).unwrap());
    assert_eq!(chunks.len(), 25);
    for c in &chunks[..chunks.len() - 1] {
        assert_eq!(c.len(), size);
    }
    assert_eq!(chunks.concat(), data);

    let size = 4096;
    let chunks = collect_chunks(ChunkIter::start(Direction::Decompress, &frame, size, &params).unwrap());
    assert_eq!(chunks.len(), 250_000 / 4096 + 1);
    assert_eq!(chunks.last().unwrap().len(), 250_000 % 4096);
    assert_eq!(chunks.concat(), data);
}

#[test]
fn compressed_chunks_join_to_a_frame() {
    let params = Parameters::defaults();
    let data = noise(250_000, 4);
    let size = 1000;
    let chunks = collect_chunks(ChunkIter::start(Direction::Compress, &data, size, &params).unwrap());
    for c in &chunks[..chunks.len() - 1] {
        assert_eq!(c.len(), size);
    }
    assert!(!chunks.last().unwrap().is_empty());
    assert!(chunks.last().unwrap().len() <= size);
    assert_eq!(one_shot(Direction::Decompress, &chunks.concat(), &params), data);
}

#[test]
fn chunk_size_zero_is_an_invalid_parameter() {
    let params = Parameters::defaults();
    let e = ChunkIter::start(Direction::Compress, b"abc", 0, &params).err().unwrap();
    assert_eq!(e.kind, ErrorKind::InvalidParameter);
}

#[test]
fn chunks_of_a_truncated_frame_end_in_an_error() {
    let params = Parameters::defaults();
    let data = noise(50_000, 8);
    let frame = one_shot(Direction::Compress, &data, &params);
    let mut chunks =
        ChunkIter::start(Direction::Decompress, &frame[..frame.len() - 2], 4096, &params).unwrap();
    let mut got = Vec::new();
    let e = loop {
        match chunks.next_chunk() {
            Some(Ok(c)) => got.extend(c),
            Some(Err(e)) => break e,
            None => panic!("a truncated frame ended without an error"),
        }
    };
    assert_eq!(e.kind, ErrorKind::TruncatedInput);
    assert_eq!(&got[..], &data[..got.len()]);
    assert!(chunks.next_chunk().is_none());
}

struct Dice(u64);

impl Dice {
    fn roll(&mut self, sides: usize) -> usize {
        self.0 = self.0.wrapping_mul(6364136223846793005).wrapping_add(1442695040888963407);
        ((self.0 >> 33) as usize) % sides
    }
}

#[test]
fn writer_takes_any_split_with_flushes_in_between() {
    let params = Parameters::new(2, 0, true, 0, None).unwrap();
    let data = noise(180_000, 41);
    let mut dice = Dice(2024);
    for _ in 0..12 {
        let pull = dice.roll(2) == 0;
        let mode = if pull { WriterMode::Pull } else { WriterMode::Accumulate };
        let mut w = StreamWriter::open(Direction::Compress, &params, mode).unwrap();
        let mut out = Vec::new();
        let mut at = 0;
        while at < data.len() {
            let len = match dice.roll(4) {
                0 => 0,
                1 => 1 + dice.roll(16),
                2 => 1 + dice.roll(4096),
                _ => 1 + dice.roll(60_000),
            };
            let end = (at + len).min(data.len());
            let given = w.write(&data[at..end]).unwrap();
            assert!(pull || given.is_empty());
            out.extend(given);
            at = end;
            if dice.roll(5) == 0 {
                out.extend(w.flush().unwrap());
            }
            if !pull && dice.roll(3) == 0 {
                out.extend(w.take_output());
            }
        }
        out.extend(w.close().unwrap());
        out.extend(w.take_output());
        assert!(w.close().unwrap().is_empty());
        assert_eq!(one_shot(Direction::Decompress, &out, &params), data);
    }
}

#[test]
fn reader_gives_the_same_for_any_supplies_and_quotas() {
    let params = Parameters::defaults();
    let data = noise(150_000, 43);
    let frame = one_shot(Direction::Compress, &data, &params);
    let mut dice = Dice(77);
    for round in 0..12 {
        let direction = if round % 2 == 0 { Direction::Decompress } else { Direction::Compress };
        let source: &[u8] = if round % 2 == 0 { &frame } else { &data };
        let mut r = StreamReader::open(direction, &params).unwrap();
        let mut fed = 0;
        let mut out = Vec::new();
        loop {
            let quota = match dice.roll(3) {
                0 => 1 + dice.roll(8),
                1 => 1 + dice.roll(5000),
                _ => 1 + dice.roll(200_000),
            };
            match r.read(quota).unwrap() {
                ReadOutcome::Data(bytes) => {
                    assert!(bytes.len() <= quota);
                    if bytes.is_empty() {
                        break;
                    }
                    out.extend(bytes);
                }
                ReadOutcome::NeedInput => {
                    if fed == source.len() {
                        r.finish();
                    } else {
                        let end = (fed + 1 + dice.roll(30_000)).min(source.len());
                        r.supply(&source[fed..end]).unwrap();
                        fed = end;
                    }
                }
            }
        }
        assert_eq!(r.state(), ReaderState::EndOfFrame);
        if round % 2 == 0 {
            assert_eq!(out, data);
        } else {
            assert_eq!(one_shot(Direction::Decompress, &out, &params), data);
        }
    }
}

#[test]
fn decompressing_writer_takes_any_split() {
    let params = Parameters::defaults();
    let data = noise(150_000, 47);
    let frame = one_shot(Direction::Compress, &data, &params);
    let mut dice = Dice(5);
    for _ in 0..12 {
        let mut w = StreamWriter::open(Direction::Decompress, &params, WriterMode::Pull).unwrap();
        let mut out = Vec::new();
        let mut at = 0;
        while at < frame.len() {
            let end = (at + dice.roll(9000)).min(frame.len());
            out.extend(w.write(&frame[at..end]).unwrap());
            at = end;
        }
        assert!(w.close().unwrap().is_empty());
        assert_eq!(out, data);
    }
}
