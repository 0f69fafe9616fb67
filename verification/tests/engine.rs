use backend_rust::codec::CodecContext;
use backend_rust::codec::Direction;
use backend_rust::engine::process;
use backend_rust::error::ErrorKind;
use backend_rust::params::Parameters;

fn sample(len: usize) -> Vec<u8> {
    let mut data = Vec::with_capacity(len);
    let mut x: u32 = 12345;
    for i in 0..len {
        x = x.wrapping_mul(1103515245).wrapping_add(12345);
        if i % 7 < 4 {
            data.push((i % 251) as u8);
        } else {
            data.push((x >> 16) as u8);
        }
    }
    data
}

fn pack(data: &[u8], params: &Parameters) -> Vec<u8> {
    let mut ctx = CodecContext::create(Direction::Compress, params).unwrap();
    let done = process(&mut ctx, data, false).unwrap();
    assert!(done.complete);
    assert_eq!(done.consumed, data.len());
    done.output
}

#[test]
fn process_round_trip_small() {
    let params = Parameters::defaults();
    let data = b"hello, hello, hello, hello".to_vec();
    let frame = pack(&data, &params);
    assert_eq!(&frame[..4], &[0x28, 0xB5, 0x2F, 0xFD]);
    let mut ctx = CodecContext::create(Direction::Decompress, &params).unwrap();
    let back = process(&mut ctx, &frame, false).unwrap();
    assert!(back.complete);
    assert_eq!(back.consumed, frame.len());
    assert_eq!(back.output, data);
}

#[test]
fn process_round_trip_large_needs_growth() {
    let params = Parameters::new(5, 0, true, 0, None).unwrap();
    let data = sample(3_000_000);
    let frame = pack(&data, &params);
    assert!(frame.len() < data.len());
    let mut ctx = CodecContext::create(Direction::Decompress, &params).unwrap();
    let back = process(&mut ctx, &frame, false).unwrap();
    assert!(back.complete);
    assert_eq!(back.output, data);
}

#[test]
fn process_empty_input_compresses_to_a_frame() {
    let params = Parameters::defaults();
    let frame = pack(&[], &params);
    assert!(!frame.is_empty());
    let mut ctx = CodecContext::create(Direction::Decompress, &params).unwrap();
    let back = process(&mut ctx, &frame, false).unwrap();
    assert!(back.complete);
    assert!(back.output.is_empty());
}

#[test]
fn process_reports_truncation_for_every_strict_prefix() {
    let params = Parameters::defaults();
    let data = sample(2000);
    let frame = pack(&data, &params);
    for cut in 0..frame.len() {
        let mut ctx = CodecContext::create(Direction::Decompress, &params).unwrap();
        let r = process(&mut ctx, &frame[..cut], false);
        let e = r.unwrap_err();
        assert_eq!(e.kind, ErrorKind::TruncatedInput, "cut at {}", cut);
        assert_eq!(e.offset, cut as u64);
        assert!(!ctx.is_live());
    }
}

#[test]
fn process_tolerates_truncation_when_asked() {
    let params = Parameters::defaults();
    let data = sample(200_000);
    let frame = pack(&data, &params);
    let cut = frame.len() / 2;
    let mut ctx = CodecContext::create(Direction::Decompress, &params).unwrap();
    let part = process(&mut ctx, &frame[..cut], true).unwrap();
    assert!(!part.complete);
    assert_eq!(part.consumed, cut);
    assert!(part.output.len() < data.len());
    assert_eq!(&part.output[..], &data[..part.output.len()]);
    assert!(!ctx.is_live());
}

#[test]
fn process_stops_at_the_end_of_the_first_frame() {
    let params = Parameters::defaults();
    let data = sample(5000);
    let mut frame = pack(&data, &params);
    let whole = frame.len();
    frame.extend_from_slice(b"trailing");
    let mut ctx = CodecContext::create(Direction::Decompress, &params).unwrap();
    let back = process(&mut ctx, &frame, false).unwrap();
    assert!(back.complete);
    assert_eq!(back.consumed, whole);
    assert_eq!(back.output, data);
}

#[test]
fn process_rejects_garbage_as_corrupt() {
    let params = Parameters::defaults();
    let mut ctx = CodecContext::create(Direction::Decompress, &params).unwrap();
    let e = process(&mut ctx, b"this is not a frame at all", false).unwrap_err();
    assert_eq!(e.kind, ErrorKind::CorruptData);
    assert!(!ctx.is_live());
}

#[test]
fn process_on_released_context_is_invalid_state() {
    let params = Parameters::defaults();
    let mut ctx = CodecContext::create(Direction::Compress, &params).unwrap();
    ctx.free();
    ctx.free();
    let e = process(&mut ctx, b"abc", false).unwrap_err();
    assert_eq!(e.kind, ErrorKind::InvalidState);
}

#[test]
fn context_is_reusable_after_a_complete_run() {
    let params = Parameters::defaults();
    let mut ctx = CodecContext::create(Direction::Compress, &params).unwrap();
    let a = process(&mut ctx, b"first first first", false).unwrap().output;
    let b = process(&mut ctx, b"second second second", false).unwrap().output;
    assert!(ctx.is_live());
    let mut dctx = CodecContext::create(Direction::Decompress, &params).unwrap();
    assert_eq!(process(&mut dctx, &a, false).unwrap().output, b"first first first".to_vec());
    assert_eq!(process(&mut dctx, &b, false).unwrap().output, b"second second second".to_vec());
}

#[test]
fn round_trip_over_a_grid_of_parameters() {
    let inputs: Vec<Vec<u8>> = vec![
        Vec::new(),
        vec![0u8],
        b"abcabcabcabcabcabcabcabc".to_vec(),
        sample(70_000),
        (0..=255u8).cycle().take(200_000).collect(),
    ];
    for level in [-131072, -7, 1, 3, 12, 22] {
        for window_log in [0u32, 10, 18, 27] {
            for checksum in [false, true] {
                let params = Parameters::new(level, window_log, checksum, 0, None).unwrap();
                for data in &inputs {
                    let frame = pack(data, &params);
                    let mut ctx = CodecContext::create(Direction::Decompress, &params).unwrap();
                    let back = process(&mut ctx, &frame, false).unwrap();
                    assert!(back.complete);
                    assert_eq!(back.consumed, frame.len());
                    assert_eq!(&back.output, data, "level {} window {}", level, window_log);
                }
            }
        }
    }
}
