use liveview::cancel::CancelFlag;
use liveview::codec::{FRAME_TYPE_KEEPALIVE, FRAME_TYPE_VIDEO};
use liveview::pump::{
    initial_padding, null_packet, run_pump, stop_error, Pump, PumpAction, PumpEvent, PumpStop,
    NULL_PACKET_LEN, PRE_ROLL_PADDING,
};
use liveview::LiveError;

fn quiet(now: u64) -> PumpEvent {
    PumpEvent::Frame { tag: FRAME_TYPE_KEEPALIVE, payload: Vec::new(), now }
}

fn video(now: u64) -> PumpEvent {
    PumpEvent::Frame { tag: FRAME_TYPE_VIDEO, payload: vec![0x47, 1, 2, 3], now }
}

#[test]
fn null_packet_shape() {
    let p = null_packet();
    assert_eq!(p.len(), NULL_PACKET_LEN);
    assert_eq!(&p[0..4], &[0x47, 0x1F, 0xFF, 0x10]);
    assert!(p[4..].iter().all(|b| *b == 0xFF));
}

#[test]
fn three_padding_chunks_before_anything() {
    let pads = initial_padding();
    assert_eq!(pads.len(), PRE_ROLL_PADDING);
    assert_eq!(pads.len(), 3);
    for p in &pads {
        assert_eq!(*p, null_packet());
    }
}

#[test]
fn padding_precedes_video_in_a_run() {
    let mut events = vec![video(1)];
    let mut flag = CancelFlag::new();
    let (chunks, stop) = run_pump(&mut events, 0, &mut flag);
    assert_eq!(chunks.len(), 4);
    for chunk in &chunks[0..3] {
        assert_eq!(*chunk, null_packet());
    }
    assert_eq!(chunks[3], vec![0x47, 1, 2, 3]);
    assert!(stop.is_none());
    assert!(flag.is_tripped());
}

#[test]
fn start_timeout_without_video() {
    // Keepalive traffic continues but no video ever arrives; the
    // event past the 35-second window stops the pump with the
    // start timeout and trips the signal.
    let mut events = vec![quiet(10), quiet(20), quiet(30), quiet(36)];
    let mut flag = CancelFlag::new();
    let (chunks, stop) = run_pump(&mut events, 0, &mut flag);
    assert!(matches!(stop, Some(PumpStop::StartTimeout)));
    assert_eq!(
        stop_error(&stop.unwrap()),
        Some(LiveError::StreamStartTimeout)
    );
    assert!(flag.is_tripped());
    // Quiet gaps kept the consumer fed meanwhile.
    assert!(chunks.len() > 3);
}

#[test]
fn video_before_window_prevents_start_timeout() {
    let mut events = vec![quiet(10), video(30), quiet(50), quiet(80)];
    let mut flag = CancelFlag::new();
    let (_, stop) = run_pump(&mut events, 0, &mut flag);
    assert!(stop.is_none());
}

#[test]
fn no_padding_after_video_despite_gaps() {
    // After the first forwarded chunk, long quiet gaps no longer
    // produce padding.
    let mut events = vec![video(1), quiet(10), quiet(20), quiet(33)];
    let mut flag = CancelFlag::new();
    let (chunks, stop) = run_pump(&mut events, 0, &mut flag);
    assert!(stop.is_none());
    assert_eq!(chunks.len(), 4); // 3 pre-roll + 1 video, nothing else
}

#[test]
fn padding_keeps_consumer_fed_before_video() {
    let mut events = vec![quiet(2), quiet(3), quiet(5)];
    let mut flag = CancelFlag::new();
    let (chunks, stop) = run_pump(&mut events, 0, &mut flag);
    // Gaps of two seconds at t=2 and t=5 each add one null packet.
    assert_eq!(chunks.len(), 5);
    assert_eq!(chunks[3], null_packet());
    assert_eq!(chunks[4], null_packet());
    assert!(stop.is_none());
}

#[test]
fn video_needs_sync_byte() {
    let mut pump = Pump::new(0);
    let action = pump.on_frame(FRAME_TYPE_VIDEO, vec![0x00, 0x47], 1);
    assert!(matches!(action, PumpAction::Idle));
    let action = pump.on_frame(FRAME_TYPE_VIDEO, vec![0x47, 0x00], 1);
    assert!(matches!(action, PumpAction::ForwardVideo { .. }));
}

#[test]
fn read_failures_stop_the_run() {
    let mut events = vec![
        quiet(1),
        PumpEvent::ReadError { error: LiveError::ConnectionClosed, now: 2 },
        quiet(3),
    ];
    let mut flag = CancelFlag::new();
    let (_, stop) = run_pump(&mut events, 0, &mut flag);
    match stop {
        Some(PumpStop::Failed { error }) => assert_eq!(error, LiveError::ConnectionClosed),
        _ => panic!("a read error stops the pump"),
    }
    assert!(flag.is_tripped());
    assert_eq!(events.len(), 1); // nothing consumed past the stop

    let mut events = vec![PumpEvent::ReadTimeout { now: 21 }];
    let mut flag = CancelFlag::new();
    let (_, stop) = run_pump(&mut events, 0, &mut flag);
    assert!(matches!(stop, Some(PumpStop::ReadTimeout)));

    let mut events = vec![PumpEvent::Cancelled { now: 1 }];
    let mut flag = CancelFlag::new();
    let (_, stop) = run_pump(&mut events, 0, &mut flag);
    assert!(matches!(stop, Some(PumpStop::Cancelled)));
    assert!(flag.is_tripped());
}

#[test]
fn cancel_flag_trips_once() {
    let mut flag = CancelFlag::new();
    assert!(!flag.is_tripped());
    flag.trip();
    assert!(flag.is_tripped());
    flag.trip();
    assert!(flag.is_tripped());
}
