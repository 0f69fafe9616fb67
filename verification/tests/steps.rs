use backend_rust::codec::interpret;
use backend_rust::codec::CodecContext;
use backend_rust::codec::Direction;
use backend_rust::codec::Directive;
use backend_rust::codec::StepStatus;
use backend_rust::codec::ROOM_MAX;
use backend_rust::engine::conclude;
use backend_rust::engine::drive;
use backend_rust::engine::grow;
use backend_rust::engine::initial_room;
use backend_rust::engine::is_over;
use backend_rust::engine::Driven;
use backend_rust::engine::ROOM_MIN;
use backend_rust::error::ErrorKind;
use backend_rust::params::Parameters;

use Direction::Compress;
use Direction::Decompress;
use StepStatus::FrameComplete;
use StepStatus::HaveMoreOutput;
use StepStatus::NeedMoreInput;

#[test]
fn status_of_a_compression_step() {
    // offered, room, consumed, produced, pending
    assert_eq!(interpret(Compress, Directive::End, 10, 100, 10, 30, 0), FrameComplete);
    assert_eq!(interpret(Compress, Directive::End, 10, 100, 10, 100, 5), HaveMoreOutput);
    assert_eq!(interpret(Compress, Directive::End, 10, 100, 9, 30, 0), HaveMoreOutput);
    assert_eq!(interpret(Compress, Directive::Flush, 0, 100, 0, 30, 0), NeedMoreInput);
    assert_eq!(interpret(Compress, Directive::Flush, 0, 100, 0, 100, 1), HaveMoreOutput);
    assert_eq!(interpret(Compress, Directive::Continue, 10, 100, 10, 0, 0), NeedMoreInput);
    assert_eq!(interpret(Compress, Directive::Continue, 10, 100, 10, 40, 7), NeedMoreInput);
    assert_eq!(interpret(Compress, Directive::Continue, 10, 100, 10, 100, 7), HaveMoreOutput);
    assert_eq!(interpret(Compress, Directive::Continue, 10, 100, 4, 100, 0), HaveMoreOutput);
}

#[test]
fn status_of_a_decompression_step() {
    assert_eq!(interpret(Decompress, Directive::Continue, 10, 100, 10, 30, 0), FrameComplete);
    assert_eq!(interpret(Decompress, Directive::Continue, 10, 100, 6, 30, 0), FrameComplete);
    assert_eq!(interpret(Decompress, Directive::Continue, 10, 100, 10, 30, 9), NeedMoreInput);
    // Output goes first: a full room means there may be more to drain.
    assert_eq!(interpret(Decompress, Directive::Continue, 10, 100, 10, 100, 9), HaveMoreOutput);
    assert_eq!(interpret(Decompress, Directive::Continue, 10, 100, 3, 100, 9), HaveMoreOutput);
    assert_eq!(interpret(Decompress, Directive::Continue, 10, 100, 3, 50, 9), HaveMoreOutput);
    assert_eq!(interpret(Decompress, Directive::Continue, 0, 0, 0, 0, 9), HaveMoreOutput);
}

#[test]
fn when_a_run_is_over() {
    assert!(!is_over(Directive::Continue, false, HaveMoreOutput, true));
    assert!(!is_over(Directive::End, true, HaveMoreOutput, true));
    assert!(is_over(Directive::Continue, false, NeedMoreInput, true));
    assert!(is_over(Directive::Flush, false, NeedMoreInput, true));
    assert!(!is_over(Directive::End, false, NeedMoreInput, true));
    assert!(is_over(Directive::End, false, FrameComplete, true));
    assert!(is_over(Directive::Continue, true, FrameComplete, false));
    assert!(!is_over(Directive::Continue, false, FrameComplete, false));
    assert!(is_over(Directive::Continue, false, FrameComplete, true));
    assert!(!is_over(Directive::Flush, true, FrameComplete, true));
}

#[test]
fn room_starts_by_the_input_and_doubles() {
    assert_eq!(initial_room(Compress, 0), ROOM_MIN);
    assert_eq!(initial_room(Compress, 63), 127);
    assert_eq!(initial_room(Compress, 1000), 1067);
    assert_eq!(initial_room(Compress, 1 << 20), (1 << 20) + 4096 + 64);
    assert_eq!(initial_room(Compress, ROOM_MAX - 64), ROOM_MAX);
    assert_eq!(initial_room(Compress, ROOM_MAX + 1), ROOM_MAX);
    assert_eq!(initial_room(Compress, usize::MAX), ROOM_MAX);
    assert_eq!(initial_room(Decompress, 0), 64);
    assert_eq!(initial_room(Decompress, 15), 64);
    assert_eq!(initial_room(Decompress, 16), 64);
    assert_eq!(initial_room(Decompress, 1000), 4000);
    assert_eq!(initial_room(Decompress, ROOM_MAX / 4), ROOM_MAX);
    assert_eq!(initial_room(Decompress, ROOM_MAX / 4 + 1), ROOM_MAX);
    assert_eq!(grow(1), 2);
    assert_eq!(grow(64), 128);
    assert_eq!(grow(ROOM_MAX / 2), ROOM_MAX);
    assert_eq!(grow(ROOM_MAX / 2 + 1), ROOM_MAX);
    assert_eq!(grow(ROOM_MAX), ROOM_MAX);
    assert_eq!(grow(usize::MAX), ROOM_MAX);
    assert_eq!(grow(0), 0);
    let mut room = 1;
    for _ in 0..30 {
        room = grow(room);
    }
    assert_eq!(room, ROOM_MAX);
}

#[test]
fn conclusion_of_a_run() {
    let whole = Driven { output: vec![1, 2, 3], consumed: 9, status: FrameComplete };
    let done = conclude(whole, false, 9).unwrap();
    assert!(done.complete);
    assert_eq!(done.consumed, 9);
    assert_eq!(done.output, vec![1, 2, 3]);

    let cut = Driven { output: vec![1, 2], consumed: 5, status: NeedMoreInput };
    let e = conclude(cut, false, 5).unwrap_err();
    assert_eq!(e.kind, ErrorKind::TruncatedInput);
    assert_eq!(e.offset, 5);

    let cut = Driven { output: vec![1, 2], consumed: 5, status: NeedMoreInput };
    let part = conclude(cut, true, 5).unwrap();
    assert!(!part.complete);
    assert_eq!(part.consumed, 5);
    assert_eq!(part.output, vec![1, 2]);
}

#[test]
fn a_step_takes_and_gives_within_its_bounds() {
    let params = Parameters::defaults();
    let data: Vec<u8> = (0..100_000u32).map(|i| (i * 7 % 256) as u8).collect();
    let mut ctx = CodecContext::create(Compress, &params).unwrap();
    assert_eq!(ctx.direction(), Compress);
    assert_eq!(ctx.offset(), 0);
    assert!(!ctx.at_frame_end());
    let mut pos = 0;
    let mut frame = Vec::new();
    loop {
        let step = ctx.step(&data[pos..], 10, Directive::End).unwrap();
        assert!(step.consumed <= data.len() - pos);
        assert!(step.produced.len() <= 10);
        pos += step.consumed;
        assert_eq!(ctx.offset(), pos as u64);
        frame.extend(step.produced);
        if step.status == FrameComplete {
            assert_eq!(step.pending, 0);
            assert!(ctx.at_frame_end());
            break;
        }
        assert_eq!(step.status, HaveMoreOutput);
    }
    assert_eq!(pos, data.len());

    let mut dctx = CodecContext::create(Decompress, &params).unwrap();
    let mut back = Vec::new();
    let mut at = 0;
    loop {
        let end = (at + 100).min(frame.len());
        let step = dctx.step(&frame[at..end], 1000, Directive::Continue).unwrap();
        assert!(step.consumed <= end - at);
        assert!(step.produced.len() <= 1000);
        at += step.consumed;
        back.extend(step.produced);
        if step.status == FrameComplete {
            break;
        }
    }
    assert_eq!(at, frame.len());
    assert_eq!(back, data);
}

#[test]
fn a_step_with_a_directive_that_does_not_fit_changes_nothing() {
    let params = Parameters::defaults();
    let mut ctx = CodecContext::create(Decompress, &params).unwrap();
    let e = ctx.step(b"abc", 10, Directive::Flush).unwrap_err();
    assert_eq!(e.kind, ErrorKind::InvalidState);
    assert_eq!(e.offset, 0);
    assert!(ctx.is_live());
    let e = ctx.step(b"abc", 10, Directive::End).unwrap_err();
    assert_eq!(e.kind, ErrorKind::InvalidState);
    assert!(ctx.is_live());
    let halted = drive(&mut ctx, b"abc", Directive::End, true).unwrap_err();
    assert_eq!(halted.error.kind, ErrorKind::InvalidState);
    assert_eq!(halted.consumed, 0);
    assert!(halted.output.is_empty());
    assert!(ctx.is_live());
}

#[test]
fn a_step_on_a_released_context_is_invalid_state() {
    let params = Parameters::defaults();
    let mut ctx = CodecContext::create(Compress, &params).unwrap();
    ctx.step(b"abc", 100, Directive::Continue).unwrap();
    ctx.free();
    assert!(!ctx.is_live());
    let e = ctx.step(b"abc", 10, Directive::Continue).unwrap_err();
    assert_eq!(e.kind, ErrorKind::InvalidState);
    assert_eq!(e.offset, 3);
    ctx.free();
    assert!(!ctx.is_live());
}

#[test]
fn a_native_failure_releases_the_context() {
    let params = Parameters::defaults();
    let mut ctx = CodecContext::create(Decompress, &params).unwrap();
    let e = ctx.step(&[0xFF; 64], 100, Directive::Continue).unwrap_err();
    assert_eq!(e.kind, ErrorKind::CorruptData);
    assert!(!ctx.is_live());
}

#[test]
fn a_wrong_checksum_is_corrupt_data() {
    let params = Parameters::new(3, 0, true, 0, None).unwrap();
    let mut ctx = CodecContext::create(Compress, &params).unwrap();
    let data = vec![42u8; 1000];
    let mut frame = drive(&mut ctx, &data, Directive::End, true).unwrap().output;
    let last = frame.len() - 1;
    frame[last] ^= 0x55;
    let mut dctx = CodecContext::create(Decompress, &params).unwrap();
    let halted = drive(&mut dctx, &frame, Directive::Continue, true).unwrap_err();
    assert_eq!(halted.error.kind, ErrorKind::CorruptData);
    assert!(!dctx.is_live());
}

#[test]
fn a_run_that_fails_hands_back_what_it_had_collected() {
    let params = Parameters::defaults();
    let data: Vec<u8> = (0..50_000u32).map(|i| (i % 199) as u8).collect();
    let mut ctx = CodecContext::create(Compress, &params).unwrap();
    let mut input = drive(&mut ctx, &data, Directive::End, true).unwrap().output;
    let whole = input.len();
    input.extend_from_slice(&[0xFF; 40]);
    let mut dctx = CodecContext::create(Decompress, &params).unwrap();
    let halted = drive(&mut dctx, &input, Directive::Continue, false).unwrap_err();
    assert_eq!(halted.error.kind, ErrorKind::CorruptData);
    assert_eq!(halted.consumed, whole);
    assert_eq!(halted.error.offset, whole as u64);
    assert_eq!(halted.output, data);
    assert!(!dctx.is_live());
}

#[test]
fn a_frame_beyond_the_window_limit_is_refused() {
    let wide = Parameters::new(3, 25, false, 0, None).unwrap();
    let narrow = Parameters::new(3, 10, false, 0, None).unwrap();
    let data: Vec<u8> = (0..3_000_000u32).map(|i| (i.wrapping_mul(2654435761) >> 24) as u8).collect();
    let mut ctx = CodecContext::create(Compress, &wide).unwrap();
    let frame = drive(&mut ctx, &data, Directive::End, true).unwrap().output;
    let mut dctx = CodecContext::create(Decompress, &narrow).unwrap();
    let halted = drive(&mut dctx, &frame, Directive::Continue, true).unwrap_err();
    assert_eq!(halted.error.kind, ErrorKind::ResourceExhausted);
    let mut dctx = CodecContext::create(Decompress, &wide).unwrap();
    assert_eq!(drive(&mut dctx, &frame, Directive::Continue, true).unwrap().output, data);
}
