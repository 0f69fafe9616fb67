use backend_rust::buffer::borrow;
use backend_rust::buffer::BufferShape;
use backend_rust::codec::Direction;
use backend_rust::compressor::Compressor;
use backend_rust::dictionary::train_dictionary;
use backend_rust::error::Error;
use backend_rust::error::ErrorKind;
use backend_rust::frame::begins_frame;
use backend_rust::frame::describe_frame;
use backend_rust::frame::frame_parameters;
use backend_rust::frame::FrameParameters;
use backend_rust::frame::FRAME_MAGIC;
use backend_rust::params::Parameters;
use backend_rust::writer::StreamWriter;
use backend_rust::writer::WriterMode;

#[test]
fn a_one_shot_frame_declares_its_size() {
    let mut c = Compressor::new(Parameters::defaults()).unwrap();
    for n in [0usize, 1, 1000, 300_000] {
        let frame = c.compress(&vec![7u8; n]).unwrap();
        assert_eq!(&frame[..4], &FRAME_MAGIC);
        assert_eq!(
            frame_parameters(&frame).unwrap(),
            FrameParameters { content_size: Some(n as u64), dictionary_id: 0 }
        );
        // The header is at the start: what follows it does not matter.
        assert_eq!(
            frame_parameters(&frame[..frame.len().min(18)]).unwrap().content_size,
            Some(n as u64)
        );
    }
}

#[test]
fn a_streamed_frame_declares_no_size() {
    let params = Parameters::defaults();
    let mut w = StreamWriter::open(Direction::Compress, &params, WriterMode::Pull).unwrap();
    let mut frame = w.write(b"written before the end was known").unwrap();
    frame.extend(w.close().unwrap());
    assert_eq!(
        frame_parameters(&frame).unwrap(),
        FrameParameters { content_size: None, dictionary_id: 0 }
    );
}

#[test]
fn a_frame_names_its_dictionary() {
    let samples: Vec<Vec<u8>> = (0..2000)
        .map(|i| format!("key-{:05}: value number {} of the sample set\n", i, i * 31 % 977).into_bytes())
        .collect();
    let shape = BufferShape { contiguous: true, item_size: 1, dimensions: 1 };
    let views = samples.iter().map(|s| borrow(shape, s).unwrap()).collect();
    let d = train_dictionary(&views, 8 * 1024).unwrap();
    assert_ne!(d.id(), 0);
    let params = Parameters::new(3, 0, false, 0, Some(&d)).unwrap();
    let frame = Compressor::new(params).unwrap().compress(&samples[5]).unwrap();
    assert_eq!(
        frame_parameters(&frame).unwrap(),
        FrameParameters { content_size: Some(samples[5].len() as u64), dictionary_id: d.id() }
    );
}

#[test]
fn a_header_cut_short_is_truncated_input() {
    let truncated = Error { kind: ErrorKind::TruncatedInput, offset: 0 };
    let frame = Compressor::new(Parameters::defaults()).unwrap().compress(&[1u8; 500]).unwrap();
    assert_eq!(frame_parameters(&[]).unwrap_err(), truncated);
    for cut in 1..5 {
        assert_eq!(frame_parameters(&frame[..cut]).unwrap_err(), truncated, "cut at {}", cut);
    }
}

#[test]
fn bytes_that_are_no_frame_are_corrupt_data() {
    let corrupt = Error { kind: ErrorKind::CorruptData, offset: 0 };
    assert_eq!(frame_parameters(b"plain text, no frame").unwrap_err(), corrupt);
    assert_eq!(frame_parameters(&[0x28, 0xB5, 0x2F, 0xFE, 0, 0, 0, 0]).unwrap_err(), corrupt);
    assert_eq!(frame_parameters(&[0x29]).unwrap_err(), corrupt);
    // The magic number, then a header that is whole and bad: a reserved bit is set.
    let mut bad = vec![0x28, 0xB5, 0x2F, 0xFD, 0x08];
    bad.extend_from_slice(&[0u8; 20]);
    assert_eq!(frame_parameters(&bad).unwrap_err(), corrupt);
    assert_eq!(frame_parameters(&[0x28, 0xB5, 0x00]).unwrap_err(), corrupt);
}

#[test]
fn the_start_of_a_frame_is_recognised() {
    assert!(begins_frame(&[]));
    assert!(begins_frame(&[0x28]));
    assert!(begins_frame(&[0x28, 0xB5, 0x2F]));
    assert!(begins_frame(&[0x28, 0xB5, 0x2F, 0xFD]));
    assert!(begins_frame(&[0x28, 0xB5, 0x2F, 0xFD, 0x00, 0xFF]));
    assert!(!begins_frame(&[0x00]));
    assert!(!begins_frame(&[0x28, 0xB5, 0x2F, 0xFC]));
    assert!(!begins_frame(&[0xFD, 0x2F, 0xB5, 0x28]));
}

#[test]
fn what_is_made_of_a_reading() {
    assert_eq!(
        describe_frame(b"anything", Some(Some(12)), 7).unwrap(),
        FrameParameters { content_size: Some(12), dictionary_id: 7 }
    );
    assert_eq!(
        describe_frame(b"anything", Some(None), 0).unwrap(),
        FrameParameters { content_size: None, dictionary_id: 0 }
    );
    assert_eq!(
        describe_frame(&[0x28, 0xB5], None, 0).unwrap_err(),
        Error { kind: ErrorKind::TruncatedInput, offset: 0 }
    );
    assert_eq!(
        describe_frame(b"anything", None, 9).unwrap_err(),
        Error { kind: ErrorKind::CorruptData, offset: 0 }
    );
    let mut long = vec![0x28, 0xB5, 0x2F, 0xFD];
    long.extend_from_slice(&[0u8; 13]);
    assert_eq!(
        describe_frame(&long, None, 0).unwrap_err(),
        Error { kind: ErrorKind::TruncatedInput, offset: 0 }
    );
    long.push(0);
    assert_eq!(
        describe_frame(&long, None, 0).unwrap_err(),
        Error { kind: ErrorKind::CorruptData, offset: 0 }
    );
}
