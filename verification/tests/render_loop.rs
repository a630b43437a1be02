use std::cell::{Cell, RefCell};
use synth_bridge::channel::ControlChannel;
use synth_bridge::clock::{chunk_duration_ns, RenderClock};
use synth_bridge::command::Command;
use synth_bridge::render::{RenderError, RenderLoop};

type Cmd = Command<()>;

const STEP: u64 = 1_451_247;

fn delay(millis: u64) {
    let begun = std::time::Instant::now();
    while begun.elapsed() < std::time::Duration::from_millis(millis) {
        std::hint::spin_loop();
    }
}

fn clock(start: u64) -> RenderClock {
    RenderClock::new(start, STEP).unwrap()
}

#[test]
fn chunk_duration_of_64_frames_at_44100() {
    assert_eq!(chunk_duration_ns(64, 44_100), Some(1_451_247));
}

#[test]
fn chunk_duration_rounds_down() {
    assert_eq!(chunk_duration_ns(1, 3), Some(333_333_333));
    assert_eq!(chunk_duration_ns(48_000, 48_000), Some(1_000_000_000));
    assert_eq!(chunk_duration_ns(128, 48_000), Some(2_666_666));
}

#[test]
fn chunk_duration_needs_a_rate_and_a_chunk() {
    assert_eq!(chunk_duration_ns(64, 0), None);
    assert_eq!(chunk_duration_ns(0, 44_100), None);
    assert_eq!(chunk_duration_ns(1, 2_000_000_000), None);
    assert_eq!(chunk_duration_ns(1, 1_000_000_000), Some(1));
}

#[test]
fn chunk_duration_must_fit_the_timestamp() {
    assert_eq!(chunk_duration_ns(usize::MAX, 1), None);
    assert_eq!(chunk_duration_ns(18_446_744_073, 1), Some(18_446_744_073_000_000_000));
    assert_eq!(chunk_duration_ns(18_446_744_074, 1), None);
}

#[test]
fn clock_needs_a_step() {
    assert_eq!(RenderClock::new(5, 0), None);
    assert_eq!(RenderClock::start_now(0), None);
    let made = RenderClock::new(5, 7).unwrap();
    assert_eq!(made.now(), 5);
    assert_eq!(made.step(), 7);
}

#[test]
fn clock_started_now_keeps_its_step() {
    let first = RenderClock::start_now(STEP).unwrap();
    let second = RenderClock::start_now(STEP).unwrap();
    assert_eq!(first.step(), STEP);
    assert!(second.now() >= first.now());
}

#[test]
fn clock_advances_by_exactly_one_step() {
    let mut c = clock(1_000);
    let mut expected = 1_000u64;
    for _ in 0..1_000 {
        c.advance();
        expected += STEP;
        assert_eq!(c.now(), expected);
        assert_eq!(c.step(), STEP);
    }
}

#[test]
fn clock_stays_at_the_largest_timestamp() {
    let mut c = RenderClock::new(u64::MAX - 10, 7).unwrap();
    c.advance();
    assert_eq!(c.now(), u64::MAX - 3);
    c.advance();
    assert_eq!(c.now(), u64::MAX);
    c.advance();
    assert_eq!(c.now(), u64::MAX);
}

#[test]
fn misaligned_frame_count_is_refused_and_nothing_is_touched() {
    let mut render = RenderLoop::new(clock(100), 0.0f32);
    let mut channel: ControlChannel<Cmd> = ControlChannel::new(4);
    channel.send(Command::SetParam { target_node: 3, param_slot: 0, value: 1, timestamp: 0 });
    let calls = Cell::new(0u32);
    let engine = |_commands: Vec<Cmd>, _timestamp: u64| -> Option<[f32; 64]> {
        calls.set(calls.get() + 1);
        Some([1.0; 64])
    };
    let mut outputs = vec![vec![9.0f32; 200], vec![9.0f32; 200]];
    for frames in [1usize, 63, 65, 100, 127, 129] {
        let result = render.render(&engine, &mut channel, frames, &mut outputs);
        assert_eq!(result, Err(RenderError::Misaligned));
    }
    assert_eq!(calls.get(), 0);
    assert_eq!(outputs, vec![vec![9.0f32; 200], vec![9.0f32; 200]]);
    assert_eq!(render.clock.now(), 100);
    assert_eq!(channel.len(), 1);
}

#[test]
fn empty_chunk_size_is_misaligned() {
    let mut render = RenderLoop::new(clock(0), 0i16);
    let mut channel: ControlChannel<Cmd> = ControlChannel::new(4);
    let engine = |_commands: Vec<Cmd>, _timestamp: u64| -> Option<[i16; 0]> { Some([]) };
    let mut outputs = vec![vec![1i16; 4]];
    assert_eq!(render.render(&engine, &mut channel, 0, &mut outputs), Err(RenderError::Misaligned));
    assert_eq!(render.render(&engine, &mut channel, 4, &mut outputs), Err(RenderError::Misaligned));
}

#[test]
fn short_channel_is_refused_and_nothing_is_touched() {
    let mut render = RenderLoop::new(clock(100), 0i32);
    let mut channel: ControlChannel<Cmd> = ControlChannel::new(4);
    channel.send(Command::SetParam { target_node: 3, param_slot: 0, value: 1, timestamp: 0 });
    let engine = |_commands: Vec<Cmd>, _timestamp: u64| -> Option<[i32; 4]> { Some([1, 2, 3, 4]) };
    let mut outputs = vec![vec![7i32; 8], vec![7i32; 7]];
    let result = render.render(&engine, &mut channel, 8, &mut outputs);
    assert_eq!(result, Err(RenderError::ShortChannel));
    assert_eq!(outputs, vec![vec![7i32; 8], vec![7i32; 7]]);
    assert_eq!(render.clock.now(), 100);
    assert_eq!(channel.len(), 1);
}

#[test]
fn misalignment_is_reported_before_a_short_channel() {
    let mut render = RenderLoop::new(clock(0), 0i32);
    let mut channel: ControlChannel<Cmd> = ControlChannel::new(4);
    let engine = |_commands: Vec<Cmd>, _timestamp: u64| -> Option<[i32; 4]> { Some([0; 4]) };
    let mut outputs = vec![vec![7i32; 2]];
    assert_eq!(render.render(&engine, &mut channel, 6, &mut outputs), Err(RenderError::Misaligned));
}

#[test]
fn every_frame_of_every_channel_is_written_once() {
    let mut render = RenderLoop::new(clock(0), -1i64);
    let mut channel: ControlChannel<Cmd> = ControlChannel::new(4);
    let chunk_number = Cell::new(0i64);
    let engine = |_commands: Vec<Cmd>, _timestamp: u64| -> Option<[i64; 4]> {
        let k = chunk_number.get();
        chunk_number.set(k + 1);
        Some([10 * k, 10 * k + 1, 10 * k + 2, 10 * k + 3])
    };
    let mut outputs = vec![vec![-7i64; 12], vec![-7i64; 14], vec![-7i64; 12]];
    assert_eq!(render.render(&engine, &mut channel, 12, &mut outputs), Ok(()));
    let played = vec![0i64, 1, 2, 3, 10, 11, 12, 13, 20, 21, 22, 23];
    assert_eq!(outputs[0], played);
    assert_eq!(outputs[2], played);
    let mut longer = played.clone();
    longer.push(-7);
    longer.push(-7);
    assert_eq!(outputs[1], longer);
    assert_eq!(chunk_number.get(), 3);
}

#[test]
fn render_timestamps_advance_by_one_step_per_chunk() {
    let mut render = RenderLoop::new(clock(5_000), 0.0f32);
    let mut channel: ControlChannel<Cmd> = ControlChannel::new(4);
    let seen = RefCell::new(Vec::new());
    let engine = |_commands: Vec<Cmd>, timestamp: u64| -> Option<[f32; 64]> {
        seen.borrow_mut().push(timestamp);
        delay(2);
        Some([0.5; 64])
    };
    let mut outputs = vec![vec![0.0f32; 512]];
    assert_eq!(render.render(&engine, &mut channel, 256, &mut outputs), Ok(()));
    delay(5);
    assert_eq!(render.render(&engine, &mut channel, 512, &mut outputs), Ok(()));
    let seen = seen.into_inner();
    assert_eq!(seen.len(), 12);
    for (k, timestamp) in seen.iter().enumerate() {
        assert_eq!(*timestamp, 5_000 + k as u64 * 1_451_247);
    }
    assert_eq!(render.clock.now(), 5_000 + 12 * 1_451_247);
}

#[test]
fn zero_frames_render_nothing() {
    let mut render = RenderLoop::new(clock(77), 0u8);
    let mut channel: ControlChannel<Cmd> = ControlChannel::new(4);
    channel.send(Command::SetParam { target_node: 3, param_slot: 0, value: 1, timestamp: 0 });
    let calls = Cell::new(0u32);
    let engine = |_commands: Vec<Cmd>, _timestamp: u64| -> Option<[u8; 64]> {
        calls.set(calls.get() + 1);
        Some([1; 64])
    };
    let mut outputs = vec![vec![3u8; 64]];
    assert_eq!(render.render(&engine, &mut channel, 0, &mut outputs), Ok(()));
    assert_eq!(calls.get(), 0);
    assert_eq!(outputs, vec![vec![3u8; 64]]);
    assert_eq!(render.clock.now(), 77);
    assert_eq!(channel.len(), 1);
}

#[test]
fn no_output_channels_still_drive_the_engine_and_the_clock() {
    let mut render = RenderLoop::new(clock(0), 0u8);
    let mut channel: ControlChannel<Cmd> = ControlChannel::new(4);
    let calls = Cell::new(0u32);
    let engine = |_commands: Vec<Cmd>, _timestamp: u64| -> Option<[u8; 2]> {
        calls.set(calls.get() + 1);
        Some([1; 2])
    };
    let mut outputs: Vec<Vec<u8>> = Vec::new();
    assert_eq!(render.render(&engine, &mut channel, 6, &mut outputs), Ok(()));
    assert_eq!(calls.get(), 3);
    assert_eq!(render.clock.now(), 3 * STEP);
}

#[test]
fn engine_without_an_answer_leaves_the_chunk_silent() {
    let mut render = RenderLoop::new(clock(0), 0.0f32);
    let mut channel: ControlChannel<Cmd> = ControlChannel::new(4);
    let chunk_number = Cell::new(0u32);
    let engine = |_commands: Vec<Cmd>, _timestamp: u64| -> Option<[f32; 2]> {
        let k = chunk_number.get();
        chunk_number.set(k + 1);
        if k == 1 {
            None
        } else {
            Some([0.25, -0.25])
        }
    };
    let mut outputs = vec![vec![9.0f32; 6], vec![9.0f32; 6]];
    assert_eq!(render.render(&engine, &mut channel, 6, &mut outputs), Ok(()));
    let played = vec![0.25f32, -0.25, 0.0, 0.0, 0.25, -0.25];
    assert_eq!(outputs, vec![played.clone(), played]);
    assert_eq!(render.clock.now(), 3 * STEP);
}

#[test]
fn commands_reach_the_engine_before_the_chunk_is_rendered() {
    let x = 440_000_000i64;
    let mut render = RenderLoop::new(clock(0), 0i64);
    let mut channel: ControlChannel<Cmd> = ControlChannel::new(1024);
    channel.send(Command::SetParam { target_node: 3, param_slot: 0, value: x, timestamp: 12 });
    let parameter = Cell::new(-1i64);
    let engine = |commands: Vec<Cmd>, _timestamp: u64| -> Option<[i64; 64]> {
        for command in commands {
            if let Command::SetParam { target_node: 3, param_slot: 0, value, .. } = command {
                parameter.set(value);
            }
        }
        Some([parameter.get(); 64])
    };
    let mut outputs = vec![vec![0i64; 64], vec![0i64; 64]];
    assert_eq!(render.render(&engine, &mut channel, 64, &mut outputs), Ok(()));
    assert_eq!(outputs, vec![vec![x; 64], vec![x; 64]]);
    assert!(channel.is_empty());
}

#[test]
fn waiting_commands_go_to_the_first_chunk_in_send_order() {
    let mut render = RenderLoop::new(clock(0), 0u8);
    let mut channel: ControlChannel<Cmd> = ControlChannel::new(8);
    for value in [1i64, 2, 3] {
        channel.send(Command::SetParam { target_node: 3, param_slot: 0, value, timestamp: 0 });
    }
    let batches = RefCell::new(Vec::new());
    let engine = |commands: Vec<Cmd>, _timestamp: u64| -> Option<[u8; 4]> {
        batches.borrow_mut().push(commands);
        Some([0; 4])
    };
    let mut outputs = vec![vec![0u8; 8]];
    assert_eq!(render.render(&engine, &mut channel, 8, &mut outputs), Ok(()));
    let batches = batches.into_inner();
    assert_eq!(batches.len(), 2);
    assert_eq!(
        batches[0],
        vec![
            Command::SetParam { target_node: 3, param_slot: 0, value: 1, timestamp: 0 },
            Command::SetParam { target_node: 3, param_slot: 0, value: 2, timestamp: 0 },
            Command::SetParam { target_node: 3, param_slot: 0, value: 3, timestamp: 0 },
        ]
    );
    assert!(batches[1].is_empty());
}
