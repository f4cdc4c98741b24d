//! Action plans: what is refused, and how many commands a plan takes.
use android_hid_connect::agent::{AgentPoint, AgentRect, AgentScrollFrame, AgentTouchFrame};
use android_hid_connect::error::Error;
use android_hid_connect::frames::{
    AndroidKeyFrame, KeyboardChordFrame, KeyboardFrame, MouseFrame, ANDROID_KEY_BATCH_FRAMES,
    GAMEPAD_BATCH_FRAMES, KEYBOARD_BATCH_FRAMES, KEYBOARD_CHORD_KEYS, MOUSE_BATCH_FRAMES,
    SCROLL_BATCH_FRAMES, TOUCH_BATCH_FRAMES,
};
use android_hid_connect::gamepad::{GamepadFrameRaw, GAMEPAD_FRAME_BYTES};
use android_hid_connect::plan::{
    AgentAction, AgentPlanBoundedPrefixStop, AgentPlanSummary, TIMED_ACTION_REQUIRES_BLOCKING,
};
use android_hid_connect::types::{Modifiers, Scancode};

#[test]
fn agent_mouse_batch_rejects_oversized_slices() {
    let frames = vec![MouseFrame::empty(); MOUSE_BATCH_FRAMES + 1];
    assert!(matches!(
        AgentAction::try_mouse_batch(&frames),
        Err(Error::SessionLifecycle("mouse batch too large"))
    ));
}

#[test]
fn agent_android_key_batch_constructor_rejects_oversized_slices() {
    let frames = vec![AndroidKeyFrame::empty(); ANDROID_KEY_BATCH_FRAMES + 1];
    assert!(matches!(
        AgentAction::try_android_key_batch(&frames),
        Err(Error::SessionLifecycle("android key batch too large"))
    ));
}

#[test]
fn agent_keyboard_batch_constructor_rejects_oversized_slices() {
    let frames = vec![KeyboardFrame::empty(); KEYBOARD_BATCH_FRAMES + 1];
    assert!(matches!(
        AgentAction::try_key_batch(&frames),
        Err(Error::SessionLifecycle("keyboard batch too large"))
    ));
}

#[test]
fn agent_gamepad_batch_constructors_reject_oversized_slices() {
    let frame = GamepadFrameRaw::new(1, 2, 3, 4, 5, 6, 7);
    let frames = vec![frame; GAMEPAD_BATCH_FRAMES + 1];
    assert!(matches!(
        AgentAction::try_gamepad_frame_batch(&frames),
        Err(Error::SessionLifecycle("gamepad frame batch too large"))
    ));
    assert!(matches!(
        AgentAction::try_gamepad_frame_batch_unchecked(&frames),
        Err(Error::SessionLifecycle("gamepad frame batch too large"))
    ));

    let packed = vec![[0u8; GAMEPAD_FRAME_BYTES]; GAMEPAD_BATCH_FRAMES + 1];
    assert!(matches!(
        AgentAction::try_gamepad_packed_frame_batch(&packed),
        Err(Error::SessionLifecycle(
            "gamepad packed frame batch too large"
        ))
    ));
}

#[test]
fn agent_scroll_batch_constructor_rejects_oversized_slices() {
    let frames = vec![AgentScrollFrame::empty(); SCROLL_BATCH_FRAMES + 1];
    assert!(matches!(
        AgentAction::try_scroll_batch(&frames),
        Err(Error::SessionLifecycle("scroll batch too large"))
    ));
}

#[test]
fn agent_action_preflight_classifies_try_queueable_plans() {
    let rect = AgentRect::full_screen();
    let ready = [
        AgentAction::tap(10, 20),
        AgentAction::swipe((10, 20), (30, 40), 2),
        AgentAction::scroll_rect(rect, 0, -16),
        AgentAction::Flush,
    ];
    let mixed = [
        AgentAction::tap(10, 20),
        AgentAction::wait(1_000_000),
        AgentAction::PressBack,
    ];

    assert!(AgentAction::all_try_queueable(&ready));
    assert_eq!(AgentAction::first_non_try_queueable(&ready), None);
    assert_eq!(AgentAction::try_queueable_prefix_len(&ready), ready.len());
    assert_eq!(AgentAction::first_blocking_timing(&ready), None);
    assert_eq!(AgentAction::blocking_timing_prefix_len(&ready), ready.len());
    assert!(!AgentAction::all_try_queueable(&mixed));
    assert_eq!(AgentAction::first_non_try_queueable(&mixed), Some(1));
    assert_eq!(AgentAction::try_queueable_prefix_len(&mixed), 1);
    assert_eq!(AgentAction::first_blocking_timing(&mixed), Some(1));
    assert_eq!(AgentAction::blocking_timing_prefix_len(&mixed), 1);
    assert_eq!(
        AgentAction::first_try_queue_error(&mixed),
        Some((1, TIMED_ACTION_REQUIRES_BLOCKING))
    );
    assert!(matches!(
        AgentAction::validate_try_queue_plan(&mixed),
        Err(Error::SessionLifecycle(TIMED_ACTION_REQUIRES_BLOCKING))
    ));
    assert!(mixed[1].requires_blocking_timing());
    assert!(!mixed[1].can_try_queue());
    assert!(AgentAction::long_press_rect(rect, 1_000_000).requires_blocking_timing());
}

#[test]
fn agent_action_try_queue_preflight_reports_first_error_in_plan_order() {
    let malformed = AgentAction::key_batch_fixed(
        KEYBOARD_BATCH_FRAMES + 1,
        [KeyboardFrame::empty(); KEYBOARD_BATCH_FRAMES],
    );
    let wait = AgentAction::wait(0);

    let malformed_first = [AgentAction::tap(10, 20), malformed.clone(), wait.clone()];
    assert_eq!(
        AgentAction::first_try_queue_error(&malformed_first),
        Some((1, "keyboard batch length overflow"))
    );
    assert_eq!(
        AgentAction::first_blocking_timing(&malformed_first),
        Some(2)
    );
    assert_eq!(AgentAction::blocking_timing_prefix_len(&malformed_first), 2);
    assert!(matches!(
        AgentAction::validate_try_queue_plan(&malformed_first),
        Err(Error::SessionLifecycle("keyboard batch length overflow"))
    ));

    let timed_first = [AgentAction::tap(10, 20), wait, malformed];
    assert_eq!(
        AgentAction::first_try_queue_error(&timed_first),
        Some((1, TIMED_ACTION_REQUIRES_BLOCKING))
    );
    assert_eq!(AgentAction::first_blocking_timing(&timed_first), Some(1));
    assert_eq!(AgentAction::blocking_timing_prefix_len(&timed_first), 1);
    assert!(matches!(
        AgentAction::validate_try_queue_plan(&timed_first),
        Err(Error::SessionLifecycle(TIMED_ACTION_REQUIRES_BLOCKING))
    ));
}

#[test]
fn agent_action_plan_summary_reports_boundaries_and_dispatch_pressure() {
    let rect = AgentRect::full_screen();
    let ready = [
        AgentAction::tap(10, 20),
        AgentAction::swipe((10, 20), (30, 40), 2),
        AgentAction::scroll_rect(rect, 0, -16),
        AgentAction::Flush,
    ];
    let summary = AgentAction::plan_summary(&ready);

    assert_eq!(summary.action_count, ready.len());
    assert!(summary.is_structurally_valid());
    assert!(summary.all_try_queueable());
    assert!(!summary.has_blocking_timing());
    assert_eq!(summary.first_structural_error, None);
    assert_eq!(summary.first_try_queue_error, None);
    assert_eq!(summary.first_blocking_timing, None);
    assert_eq!(summary.try_queueable_prefix_len, ready.len());
    assert_eq!(summary.blocking_timing_prefix_len, ready.len());
    assert_eq!(summary.estimated_queue_dispatch_commands, 3);
    assert_eq!(summary.estimated_run_dispatch_commands, 4);
    assert_eq!(summary.estimated_try_queue_dispatch_commands, 3);
    assert_eq!(summary.estimated_try_run_dispatch_commands, 4);
    assert_eq!(summary.estimated_try_queue_prefix_dispatch_commands, 3);
    assert_eq!(summary.estimated_try_run_prefix_dispatch_commands, 4);
    assert_eq!(summary.first_try_queue_prefix_error, None);
    assert!(summary.can_try_queue_prefix());
    assert!(!summary.has_blocking_suffix());
    assert_eq!(summary.blocking_suffix_len(), 0);
    assert!(summary.queue_dispatch_fits_bound(3));
    assert!(!summary.queue_dispatch_fits_bound(2));
    assert!(summary.run_dispatch_fits_bound(4));
    assert!(!summary.run_dispatch_fits_bound(3));
    assert!(summary.try_queue_dispatch_fits_bound(3));
    assert!(!summary.try_queue_dispatch_fits_bound(2));
    assert!(summary.try_run_dispatch_fits_bound(4));
    assert!(!summary.try_run_dispatch_fits_bound(3));
    assert!(summary.try_queue_prefix_dispatch_fits_bound(3));
    assert!(!summary.try_queue_prefix_dispatch_fits_bound(2));
    assert!(summary.try_run_prefix_dispatch_fits_bound(4));
    assert!(!summary.try_run_prefix_dispatch_fits_bound(3));

    let touch_heavy = [
        AgentAction::touch_frames_fixed(
            TOUCH_BATCH_FRAMES,
            [AgentTouchFrame::empty(); TOUCH_BATCH_FRAMES],
        ),
        AgentAction::tap(10, 20),
    ];
    let summary = AgentPlanSummary::analyze(&touch_heavy);
    assert_eq!(summary.estimated_queue_dispatch_commands, 2);
    assert_eq!(summary.estimated_run_dispatch_commands, 3);
    assert_eq!(summary.estimated_try_run_dispatch_commands, 3);
    assert_eq!(summary.estimated_try_run_prefix_dispatch_commands, 3);
    assert!(summary.try_queue_dispatch_fits_bound(2));
    assert!(!summary.try_queue_dispatch_fits_bound(1));
    assert!(summary.try_run_dispatch_fits_bound(3));
    assert!(!summary.try_run_dispatch_fits_bound(2));
    assert!(summary.try_run_prefix_dispatch_fits_bound(3));
    assert!(!summary.try_run_prefix_dispatch_fits_bound(2));
}

#[test]
fn agent_action_plan_summary_reports_blocking_prefix_pressure() {
    let malformed = AgentAction::key_batch_fixed(
        KEYBOARD_BATCH_FRAMES + 1,
        [KeyboardFrame::empty(); KEYBOARD_BATCH_FRAMES],
    );
    let actions = [
        AgentAction::tap(10, 20),
        AgentAction::wait(0),
        malformed,
    ];
    let summary = AgentAction::plan_summary(&actions);

    assert!(!summary.is_structurally_valid());
    assert!(!summary.all_try_queueable());
    assert!(summary.has_blocking_timing());
    assert_eq!(
        summary.first_structural_error,
        Some((2, "keyboard batch length overflow"))
    );
    assert_eq!(
        summary.first_try_queue_error,
        Some((1, TIMED_ACTION_REQUIRES_BLOCKING))
    );
    assert_eq!(summary.first_try_queue_prefix_error, None);
    assert_eq!(summary.first_blocking_timing, Some(1));
    assert_eq!(summary.try_queueable_prefix_len, 1);
    assert_eq!(summary.blocking_timing_prefix_len, 1);
    assert!(summary.can_try_queue_prefix());
    assert!(summary.has_blocking_suffix());
    assert_eq!(summary.blocking_suffix_len(), 2);
    assert_eq!(summary.estimated_queue_dispatch_commands, 0);
    assert_eq!(summary.estimated_run_dispatch_commands, 0);
    assert_eq!(summary.estimated_try_queue_dispatch_commands, 0);
    assert_eq!(summary.estimated_try_run_dispatch_commands, 0);
    assert_eq!(summary.estimated_try_queue_prefix_dispatch_commands, 1);
    assert_eq!(summary.estimated_try_run_prefix_dispatch_commands, 2);
    assert!(!summary.queue_dispatch_fits_bound(usize::MAX));
    assert!(!summary.run_dispatch_fits_bound(usize::MAX));
    assert!(!summary.try_queue_dispatch_fits_bound(usize::MAX));
    assert!(!summary.try_run_dispatch_fits_bound(usize::MAX));
    assert!(summary.try_queue_prefix_dispatch_fits_bound(1));
    assert!(!summary.try_queue_prefix_dispatch_fits_bound(0));
    assert!(summary.try_run_prefix_dispatch_fits_bound(2));
    assert!(!summary.try_run_prefix_dispatch_fits_bound(1));

    let blocking_first = AgentAction::plan_summary(&[
        AgentAction::wait(0),
        AgentAction::tap(10, 20),
    ]);
    assert_eq!(blocking_first.blocking_timing_prefix_len, 0);
    assert_eq!(
        blocking_first.estimated_try_queue_prefix_dispatch_commands,
        0
    );
    assert_eq!(blocking_first.estimated_try_run_prefix_dispatch_commands, 1);
    assert!(blocking_first.try_queue_prefix_dispatch_fits_bound(0));
    assert!(blocking_first.try_run_prefix_dispatch_fits_bound(1));
    assert!(!blocking_first.try_run_prefix_dispatch_fits_bound(0));
}

#[test]
fn agent_action_plan_summary_zeroes_invalid_prefix_dispatch() {
    let malformed = AgentAction::touch_frames_fixed(
        TOUCH_BATCH_FRAMES + 1,
        [AgentTouchFrame::empty(); TOUCH_BATCH_FRAMES],
    );
    let actions = [AgentAction::tap(10, 20), malformed];
    let summary = AgentAction::plan_summary(&actions);

    assert_eq!(
        summary.first_structural_error,
        Some((1, "touch frame batch length overflow"))
    );
    assert_eq!(
        summary.first_try_queue_error,
        Some((1, "touch frame batch length overflow"))
    );
    assert_eq!(
        summary.first_try_queue_prefix_error,
        Some((1, "touch frame batch length overflow"))
    );
    assert_eq!(summary.first_blocking_timing, None);
    assert_eq!(summary.try_queueable_prefix_len, 1);
    assert_eq!(summary.blocking_timing_prefix_len, actions.len());
    assert!(!summary.can_try_queue_prefix());
    assert!(!summary.has_blocking_suffix());
    assert_eq!(summary.blocking_suffix_len(), 0);
    assert_eq!(summary.estimated_queue_dispatch_commands, 0);
    assert_eq!(summary.estimated_run_dispatch_commands, 0);
    assert_eq!(summary.estimated_try_queue_dispatch_commands, 0);
    assert_eq!(summary.estimated_try_run_dispatch_commands, 0);
    assert_eq!(summary.estimated_try_queue_prefix_dispatch_commands, 0);
    assert_eq!(summary.estimated_try_run_prefix_dispatch_commands, 0);
    assert!(!summary.try_queue_prefix_dispatch_fits_bound(usize::MAX));
    assert!(!summary.try_run_prefix_dispatch_fits_bound(usize::MAX));
    assert!(!summary.try_run_dispatch_fits_bound(usize::MAX));
}

#[test]
fn agent_action_plan_summary_counts_gamepad_mode_switch_flushes() {
    let frame = GamepadFrameRaw::new(1, 2, 3, 4, 5, 6, 7);
    let mut frames = [GamepadFrameRaw::new(0, 0, 0, 0, 0, 0, 0); GAMEPAD_BATCH_FRAMES];
    frames[0] = frame;
    frames[1] = frame;
    let actions = [
        AgentAction::gamepad_frame(frame),
        AgentAction::gamepad_frame_unchecked(frame),
        AgentAction::gamepad_packed_frame(frame.pack()),
        AgentAction::gamepad_packed_frame_batch_fixed(
            2,
            [[0u8; GAMEPAD_FRAME_BYTES]; GAMEPAD_BATCH_FRAMES],
        ),
        AgentAction::gamepad_frame_batch_fixed(2, frames),
    ];
    let summary = AgentAction::plan_summary(&actions);

    assert!(summary.is_structurally_valid());
    assert_eq!(summary.estimated_queue_dispatch_commands, 4);
    assert_eq!(summary.estimated_run_dispatch_commands, 5);
    assert_eq!(summary.estimated_try_queue_dispatch_commands, 4);
    assert_eq!(summary.estimated_try_run_dispatch_commands, 5);
    assert_eq!(summary.estimated_try_queue_prefix_dispatch_commands, 4);
    assert_eq!(summary.estimated_try_run_prefix_dispatch_commands, 5);
    assert!(summary.try_queue_dispatch_fits_bound(4));
    assert!(!summary.try_queue_dispatch_fits_bound(3));
    assert!(summary.try_run_dispatch_fits_bound(5));
    assert!(!summary.try_run_dispatch_fits_bound(4));
    assert!(summary.try_run_prefix_dispatch_fits_bound(5));
    assert!(!summary.try_run_prefix_dispatch_fits_bound(4));
}

#[test]
fn agent_action_bounded_try_queue_prefix_splits_by_command_bound() {
    let actions = [
        AgentAction::tap(10, 20),
        AgentAction::Flush,
        AgentAction::tap(30, 40),
    ];

    let prefix = AgentAction::bounded_try_queue_prefix(&actions, 2);
    assert_eq!(prefix.action_count, actions.len());
    assert_eq!(prefix.accepted_actions, 2);
    assert_eq!(prefix.estimated_dispatch_commands, 2);
    assert_eq!(prefix.command_bound, 2);
    assert!(!prefix.is_full_plan());
    assert!(!prefix.is_empty());
    assert_eq!(prefix.remaining_actions(), 1);
    assert!(prefix.accepted_dispatch_fits_bound());
    assert_eq!(prefix.accepted_range(), 0..2);
    assert_eq!(prefix.remaining_range(), 2..3);
    assert_eq!(prefix.accepted_slice(&actions), Some(&actions[..2]));
    assert_eq!(prefix.remaining_slice(&actions), Some(&actions[2..]));
    assert_eq!(
        prefix.split_slice(&actions),
        Some((&actions[..2], &actions[2..]))
    );
    assert_eq!(prefix.accepted_slice(&actions[..2]), None);
    assert_eq!(
        prefix.stop,
        AgentPlanBoundedPrefixStop::CommandBound {
            index: 2,
            required_dispatch_commands: 3,
        }
    );
    assert!(prefix.stop.is_command_bound());
    assert!(!prefix.stop.is_end_of_plan());
    assert_eq!(prefix.stop.index(), Some(2));
    assert_eq!(prefix.stop.required_dispatch_commands(), Some(3));
    assert_eq!(prefix.stop.error(), None);

    let full = AgentAction::bounded_try_queue_prefix(&actions, 3);
    assert_eq!(full.accepted_actions, actions.len());
    assert_eq!(full.estimated_dispatch_commands, 3);
    assert_eq!(full.stop, AgentPlanBoundedPrefixStop::EndOfPlan);
    assert!(full.is_full_plan());
    assert!(full.stop.is_end_of_plan());
    assert_eq!(full.stop.index(), None);
    assert_eq!(full.stop.required_dispatch_commands(), None);
    assert_eq!(full.remaining_actions(), 0);
    assert_eq!(full.accepted_range(), 0..3);
    assert_eq!(full.remaining_range(), 3..3);
    assert_eq!(
        full.split_slice(&actions),
        Some((&actions[..], &actions[3..]))
    );
}

#[test]
fn agent_action_bounded_try_queue_prefix_preserves_batching_pressure() {
    let actions = [
        AgentAction::tap(10, 20),
        AgentAction::tap(30, 40),
        AgentAction::tap(50, 60),
    ];

    let prefix = AgentAction::bounded_try_queue_prefix(&actions, 1);
    assert_eq!(prefix.accepted_actions, actions.len());
    assert_eq!(prefix.estimated_dispatch_commands, 1);
    assert_eq!(prefix.stop, AgentPlanBoundedPrefixStop::EndOfPlan);
}

#[test]
fn agent_action_bounded_try_queue_prefix_stops_at_static_rejection() {
    let malformed = AgentAction::touch_frames_fixed(
        TOUCH_BATCH_FRAMES + 1,
        [AgentTouchFrame::empty(); TOUCH_BATCH_FRAMES],
    );
    let actions = [AgentAction::tap(10, 20), malformed, AgentAction::Flush];
    let prefix = AgentAction::bounded_try_queue_prefix(&actions, usize::MAX);

    assert_eq!(prefix.accepted_actions, 1);
    assert_eq!(prefix.estimated_dispatch_commands, 1);
    assert_eq!(
        prefix.stop,
        AgentPlanBoundedPrefixStop::TryQueueError {
            index: 1,
            error: "touch frame batch length overflow",
        }
    );
    assert!(prefix.stop.is_try_queue_error());
    assert_eq!(prefix.stop.index(), Some(1));
    assert_eq!(
        prefix.stop.error(),
        Some("touch frame batch length overflow")
    );
    assert_eq!(prefix.stop.required_dispatch_commands(), None);
    assert_eq!(prefix.remaining_actions(), 2);
}

#[test]
fn agent_action_bounded_try_queue_prefix_stops_at_blocking_timing() {
    let actions = [
        AgentAction::tap(10, 20),
        AgentAction::wait(0),
        AgentAction::tap(30, 40),
    ];
    let prefix = AgentAction::bounded_try_queue_prefix(&actions, usize::MAX);

    assert_eq!(prefix.accepted_actions, 1);
    assert_eq!(prefix.estimated_dispatch_commands, 1);
    assert_eq!(
        prefix.stop,
        AgentPlanBoundedPrefixStop::BlockingTiming { index: 1 }
    );
    assert!(prefix.stop.is_blocking_timing());
    assert_eq!(prefix.stop.index(), Some(1));
    assert_eq!(prefix.stop.error(), None);
    assert_eq!(prefix.stop.required_dispatch_commands(), None);
    assert_eq!(prefix.remaining_actions(), 2);
}

#[test]
fn agent_action_bounded_try_queue_prefix_allows_zero_command_actions() {
    let actions = [
        AgentAction::touch_frames_fixed(0, [AgentTouchFrame::empty(); TOUCH_BATCH_FRAMES]),
        AgentAction::Flush,
    ];
    let prefix = AgentAction::bounded_try_queue_prefix(&actions, 0);

    assert_eq!(prefix.accepted_actions, 1);
    assert_eq!(prefix.estimated_dispatch_commands, 0);
    assert_eq!(
        prefix.stop,
        AgentPlanBoundedPrefixStop::CommandBound {
            index: 1,
            required_dispatch_commands: 1,
        }
    );
    assert!(prefix.accepted_dispatch_fits_bound());
}

#[test]
fn agent_action_bounded_try_run_prefix_reserves_checked_barrier() {
    let actions = [
        AgentAction::tap(10, 20),
        AgentAction::Flush,
        AgentAction::tap(30, 40),
    ];

    let prefix = AgentAction::bounded_try_run_prefix(&actions, 3);
    assert_eq!(prefix.command_bound, 3);
    assert_eq!(prefix.accepted_actions, 2);
    assert_eq!(prefix.estimated_dispatch_commands, 2);
    assert_eq!(prefix.estimated_checked_dispatch_commands(), 3);
    assert!(prefix.checked_dispatch_fits_bound());
    assert_eq!(
        prefix.stop,
        AgentPlanBoundedPrefixStop::CommandBound {
            index: 2,
            required_dispatch_commands: 4,
        }
    );

    let full = AgentAction::bounded_try_run_prefix(&actions, 4);
    assert_eq!(full.command_bound, 4);
    assert_eq!(full.accepted_actions, actions.len());
    assert_eq!(full.estimated_dispatch_commands, 3);
    assert_eq!(full.estimated_checked_dispatch_commands(), 4);
    assert_eq!(full.stop, AgentPlanBoundedPrefixStop::EndOfPlan);
    assert!(full.checked_dispatch_fits_bound());

    let no_barrier = AgentAction::bounded_try_run_prefix(&actions, 0);
    assert_eq!(no_barrier.command_bound, 0);
    assert_eq!(no_barrier.accepted_actions, 0);
    assert_eq!(no_barrier.estimated_checked_dispatch_commands(), 1);
    assert!(!no_barrier.checked_dispatch_fits_bound());
    assert_eq!(
        no_barrier.stop,
        AgentPlanBoundedPrefixStop::CommandBound {
            index: 0,
            required_dispatch_commands: 1,
        }
    );
}

#[test]
fn agent_try_queue_actions_rejects_normalized_timed_actions() {
    let err = AgentAction::validate_try_queue_plan(&[AgentAction::long_press_point(
        AgentPoint::center(),
        1_000_000,
    )])
    .unwrap_err();

    assert!(matches!(
        err,
        Error::SessionLifecycle("timed action requires queue_actions or run_actions")
    ));
}

#[test]
fn agent_try_queue_actions_rejects_rect_timed_actions() {
    for action in [
        AgentAction::long_press_rect(AgentRect::full_screen(), 1_000_000),
        AgentAction::long_press_rect_at(AgentRect::full_screen(), 5_000, 5_000, 1_000_000),
    ] {
        let err = AgentAction::validate_try_queue_plan(&[action]).unwrap_err();
        assert!(matches!(
            err,
            Error::SessionLifecycle("timed action requires queue_actions or run_actions")
        ));
    }
}

#[test]
fn structural_faults_are_named() {
    let ready = AgentAction::tap_rect_at(AgentRect::full_screen(), 10_000, 0);
    assert_eq!(ready.structural_error(), None);
    ready.validate_structure().unwrap();

    let malformed_anchor = AgentAction::tap_rect_at(AgentRect::full_screen(), 10_001, 0);
    assert_eq!(
        malformed_anchor.structural_error(),
        Some("normalized point out of range")
    );
    assert!(matches!(
        malformed_anchor.validate_structure(),
        Err(Error::SessionLifecycle("normalized point out of range"))
    ));

    let malformed_chord = AgentAction::keyboard_chord_fixed(KeyboardChordFrame::new(
        (KEYBOARD_CHORD_KEYS + 1) as u8,
        [Scancode::A.to_u8(); KEYBOARD_CHORD_KEYS],
        Modifiers::lctrl(),
    ));
    assert_eq!(
        malformed_chord.structural_error(),
        Some("keyboard chord length overflow")
    );

    let malformed_batch = AgentAction::touch_frames_fixed(
        TOUCH_BATCH_FRAMES + 1,
        [AgentTouchFrame::empty(); TOUCH_BATCH_FRAMES],
    );
    let actions = [AgentAction::tap(10, 20), malformed_batch];
    assert_eq!(
        AgentAction::first_structural_error(&actions),
        Some((1, "touch frame batch length overflow"))
    );
    assert_eq!(AgentAction::first_non_try_queueable(&actions), Some(1));
    assert_eq!(AgentAction::try_queueable_prefix_len(&actions), 1);
    assert_eq!(AgentAction::first_blocking_timing(&actions), None);
    assert_eq!(
        AgentAction::blocking_timing_prefix_len(&actions),
        actions.len()
    );
    assert!(matches!(
        AgentAction::validate_plan_structure(&actions),
        Err(Error::SessionLifecycle("touch frame batch length overflow"))
    ));
    assert!(matches!(
        AgentAction::validate_try_queue_plan(&actions),
        Err(Error::SessionLifecycle("touch frame batch length overflow"))
    ));
}

#[test]
fn batch_constructors_fill_the_unused_slots() {
    let frames = [AgentTouchFrame::down(1, 2, 3, 4), AgentTouchFrame::up(1, 2, 3)];
    match AgentAction::try_touch_frames(&frames).unwrap() {
        AgentAction::TouchFramesFixed { len, frames: slots } => {
            assert_eq!(len, 2);
            assert_eq!(&slots[..2], &frames);
            assert_eq!(slots[2], AgentTouchFrame::empty());
            assert_eq!(slots[TOUCH_BATCH_FRAMES - 1], AgentTouchFrame::empty());
        }
        other => panic!("expected a touch batch, got {other:?}"),
    }
    match AgentAction::try_gamepad_packed_frame_batch(&[[7u8; GAMEPAD_FRAME_BYTES]]).unwrap() {
        AgentAction::GamepadPackedFrameBatchFixed { len, frames } => {
            assert_eq!(len, 1);
            assert_eq!(frames[0], [7u8; GAMEPAD_FRAME_BYTES]);
            assert_eq!(frames[1], [0u8; GAMEPAD_FRAME_BYTES]);
        }
        other => panic!("expected a packed batch, got {other:?}"),
    }
    assert!(matches!(
        AgentAction::try_touch_frames(&vec![frames[0]; TOUCH_BATCH_FRAMES + 1]),
        Err(Error::SessionLifecycle("touch frame batch too large"))
    ));
}

#[test]
fn one_kind_of_frames_fills_batches() {
    // 2 + 3 + 22 touch frames are one full batch of 24 and a second one of 3.
    let actions = [
        AgentAction::tap(1, 2),
        AgentAction::swipe((0, 0), (9, 9), 0),
        AgentAction::swipe((0, 0), (9, 9), 20),
    ];
    let summary = AgentPlanSummary::analyze(&actions);
    assert_eq!(summary.estimated_queue_dispatch_commands, 2);

    // A step without frames between them closes the first batch.
    let split = [actions[0], AgentAction::PressBack, actions[0]];
    let summary = AgentPlanSummary::analyze(&split);
    assert_eq!(summary.estimated_queue_dispatch_commands, 3);
}

#[test]
fn huge_plans_saturate_the_estimate() {
    let actions = [AgentAction::swipe((0, 0), (1, 1), usize::MAX); 40];
    let summary = AgentPlanSummary::analyze(&actions);
    assert_eq!(summary.estimated_queue_dispatch_commands, usize::MAX);
    assert_eq!(summary.estimated_run_dispatch_commands, usize::MAX);
}

#[test]
fn agent_keyboard_chord_constructor_rejects_invalid_slices() {
    let frames = vec![Scancode::A; KEYBOARD_CHORD_KEYS + 1];
    assert!(matches!(
        AgentAction::try_scancode_chord(&frames, Modifiers::lctrl()),
        Err(Error::SessionLifecycle("keyboard chord too large"))
    ));
    assert!(matches!(
        AgentAction::try_scancode_chord(&[Scancode::LeftCtrl], Modifiers::empty()),
        Err(Error::SessionLifecycle(
            "keyboard chord keys must be non-modifier scancodes"
        ))
    ));

    let malformed = AgentAction::keyboard_chord_fixed(KeyboardChordFrame::new(
        (KEYBOARD_CHORD_KEYS + 1) as u8,
        [Scancode::A.to_u8(); KEYBOARD_CHORD_KEYS],
        Modifiers::lctrl(),
    ));
    assert!(matches!(
        AgentAction::validate_plan_structure(&[malformed]),
        Err(Error::SessionLifecycle("keyboard chord length overflow"))
    ));

    let chord =
        AgentAction::try_scancode_chord(&[Scancode::K, Scancode::C], Modifiers::lctrl()).unwrap();
    let mut keys = [0u8; KEYBOARD_CHORD_KEYS];
    keys[0] = Scancode::K.to_u8();
    keys[1] = Scancode::C.to_u8();
    assert_eq!(
        chord,
        AgentAction::keyboard_chord_fixed(KeyboardChordFrame::new(2, keys, Modifiers::lctrl()))
    );
}
