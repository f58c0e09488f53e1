use liveview::codec::{encode_keepalive, encode_latency_stats};
use liveview::heartbeat::{
    command_running, initial_control_frames, CommandInfo, Heartbeat, KEEPALIVE_TICK_INTERVAL,
    TICK_SECONDS,
};

#[test]
fn initial_pair_before_first_tick() {
    let frames = initial_control_frames();
    assert_eq!(frames.len(), 2);
    assert_eq!(frames[0], encode_latency_stats());
    assert_eq!(frames[1], encode_keepalive(1));
}

#[test]
fn one_keepalive_per_ten_ticks_over_95_seconds() {
    // A 95-second session with one tick per second: keepalives on
    // ticks 10, 20, ..., 90 — nine of them after the initial one,
    // each carrying the next sequence number.
    assert_eq!(TICK_SECONDS, 1);
    let mut hb = Heartbeat::new(0, 1_000_000);
    let mut keepalive_ticks: Vec<u32> = Vec::new();
    for tick in 1..=95u64 {
        let plan = hb.on_tick(tick);
        assert_eq!(plan.latency_frame, encode_latency_stats());
        if let Some(frame) = plan.keepalive_frame {
            keepalive_ticks.push(tick as u32);
            assert_eq!(frame, encode_keepalive(hb.keepalive_seq));
        }
        assert!(!plan.poll_status);
    }
    assert_eq!(keepalive_ticks, vec![10, 20, 30, 40, 50, 60, 70, 80, 90]);
    assert_eq!(keepalive_ticks.len() as u32, 95 / KEEPALIVE_TICK_INTERVAL);
    assert_eq!(hb.keepalive_seq, 10); // 1 initial + 9 during the run
    assert_eq!(hb.ticks, 95);
}

#[test]
fn status_poll_when_interval_elapses() {
    let mut hb = Heartbeat::new(100, 5);
    let plan = hb.on_tick(104);
    assert!(!plan.poll_status);
    let plan = hb.on_tick(105);
    assert!(plan.poll_status);
    hb.note_poll(105);
    let plan = hb.on_tick(109);
    assert!(!plan.poll_status);
    let plan = hb.on_tick(110);
    assert!(plan.poll_status);
}

#[test]
fn command_state_decides_liveness() {
    let cmds = vec![
        CommandInfo { id: 41, state_condition: b"running".to_vec() },
        CommandInfo { id: 42, state_condition: b"done".to_vec() },
    ];
    assert!(!command_running(&cmds, 42));
    let cmds = vec![CommandInfo { id: 42, state_condition: b"new".to_vec() }];
    assert!(command_running(&cmds, 42));
    let cmds = vec![
        CommandInfo { id: 42, state_condition: b"done".to_vec() },
        CommandInfo { id: 42, state_condition: b"running".to_vec() },
    ];
    assert!(command_running(&cmds, 42));
    let none: Vec<CommandInfo> = Vec::new();
    assert!(!command_running(&none, 42));
}
