//! Points, rectangles and target selection.
use android_hid_connect::agent::{
    AgentObjectSelector, AgentPoint, AgentRect, AgentScrollFrame, AgentTargetSelector,
    AgentTouchFrame,
};
use android_hid_connect::ai::{FrameSummary, ObjectBox, TextRegion, FLAG_OBJECTS, FLAG_TEXT};
use android_hid_connect::error::Error;
use android_hid_connect::types::{TouchAction, TouchPointerId};

#[test]
fn agent_rect_converts_detection_boxes_to_normalized_targets() {
    assert_eq!(AgentRect::full_screen().center(), AgentPoint::center());
    assert_eq!(
        AgentRect::try_from_basis_points(2_500, 2_500, 7_500, 7_500)
            .unwrap()
            .center()
            .to_pixels(1000, 2000),
        (500, 1000)
    );

    let object = ObjectBox {
        x: 100,
        y: 200,
        w: 301,
        h: 101,
        class_id: 7,
        confidence: 220,
    };
    let rect = AgentRect::try_from_object_box(object, 1000, 2000).unwrap();
    assert_eq!(rect.to_pixels(1000, 2000), (100, 200, 400, 300));
    assert_eq!(rect.center().to_pixels(1000, 2000), (250, 250));

    let text = TextRegion {
        x: 10,
        y: 20,
        w: 11,
        h: 21,
    };
    let rect = AgentRect::try_from_text_region(text, 100, 200).unwrap();
    assert_eq!(rect.center().to_pixels(100, 200), (15, 30));

    assert!(matches!(
        AgentRect::try_from_pixels(990, 0, 20, 10, 1000, 2000),
        Err(Error::SessionLifecycle("agent rectangle out of range"))
    ));
    assert!(matches!(
        AgentRect::try_from_basis_points(0, 0, 10_001, 1),
        Err(Error::SessionLifecycle("normalized point out of range"))
    ));
}

#[test]
fn agent_rect_selects_targets_from_frame_summary() {
    let summary = FrameSummary {
        timestamp_ms: 1,
        frame_seq: 2,
        width: 1000,
        height: 2000,
        flags: FLAG_OBJECTS | FLAG_TEXT,
        features: Vec::new(),
        motion: Vec::new(),
        objects: vec![
            ObjectBox {
                x: 10,
                y: 20,
                w: 11,
                h: 21,
                class_id: 1,
                confidence: 200,
            },
            ObjectBox {
                x: 100,
                y: 200,
                w: 101,
                h: 101,
                class_id: 2,
                confidence: 220,
            },
            ObjectBox {
                x: 300,
                y: 400,
                w: 301,
                h: 101,
                class_id: 2,
                confidence: 220,
            },
            ObjectBox {
                x: 500,
                y: 600,
                w: 11,
                h: 21,
                class_id: 3,
                confidence: 230,
            },
        ],
        text_regions: vec![
            TextRegion {
                x: 10,
                y: 20,
                w: 11,
                h: 21,
            },
            TextRegion {
                x: 700,
                y: 800,
                w: 101,
                h: 101,
            },
        ],
    };

    assert_eq!(
        AgentRect::try_from_frame_object(&summary, 1)
            .unwrap()
            .unwrap()
            .center()
            .to_pixels(1000, 2000),
        (150, 250)
    );
    assert!(AgentRect::try_from_frame_object(&summary, 99)
        .unwrap()
        .is_none());
    assert_eq!(
        AgentRect::try_from_best_object(&summary)
            .unwrap()
            .unwrap()
            .center()
            .to_pixels(1000, 2000),
        (505, 610)
    );
    assert_eq!(
        AgentRect::try_from_best_object_class(&summary, 2)
            .unwrap()
            .unwrap()
            .center()
            .to_pixels(1000, 2000),
        (450, 450)
    );
    assert!(AgentRect::try_from_best_object_class(&summary, 9)
        .unwrap()
        .is_none());
    assert_eq!(
        AgentRect::try_from_frame_text_region(&summary, 0)
            .unwrap()
            .unwrap()
            .center()
            .to_pixels(1000, 2000),
        (15, 30)
    );
    assert_eq!(
        AgentRect::try_from_largest_text_region(&summary)
            .unwrap()
            .unwrap()
            .center()
            .to_pixels(1000, 2000),
        (750, 850)
    );

    let bad_summary = FrameSummary {
        width: 0,
        objects: vec![summary.objects[0]],
        ..summary
    };
    assert!(matches!(
        AgentRect::try_from_best_object(&bad_summary),
        Err(Error::SessionLifecycle("agent rectangle out of range"))
    ));
}

#[test]
fn agent_object_selector_filters_class_and_confidence() {
    let summary = FrameSummary {
        timestamp_ms: 1,
        frame_seq: 2,
        width: 1000,
        height: 2000,
        flags: FLAG_OBJECTS,
        features: Vec::new(),
        motion: Vec::new(),
        objects: vec![
            ObjectBox {
                x: 100,
                y: 200,
                w: 101,
                h: 101,
                class_id: 2,
                confidence: 220,
            },
            ObjectBox {
                x: 300,
                y: 400,
                w: 301,
                h: 101,
                class_id: 2,
                confidence: 220,
            },
            ObjectBox {
                x: 500,
                y: 600,
                w: 11,
                h: 21,
                class_id: 3,
                confidence: 230,
            },
        ],
        text_regions: Vec::new(),
    };

    assert_eq!(
        AgentObjectSelector::any().select(&summary).unwrap().class_id,
        3
    );
    assert_eq!(
        AgentObjectSelector::class_min_confidence(2, 220)
            .select_rect(&summary)
            .unwrap()
            .unwrap()
            .center()
            .to_pixels(1000, 2000),
        (450, 450)
    );
    assert!(AgentObjectSelector::class_id(2).matches(summary.objects[0]));
    assert!(!AgentObjectSelector::min_confidence(231).matches(summary.objects[2]));
    assert!(AgentRect::try_from_best_object_matching(
        &summary,
        AgentObjectSelector::any()
            .with_class_id(2)
            .with_min_confidence(221),
    )
    .unwrap()
    .is_none());
}

#[test]
fn agent_point_converts_normalized_coordinates() {
    assert_eq!(AgentPoint::center().to_pixels(1080, 2400), (540, 1200));
    assert_eq!(AgentPoint::bottom_right().to_pixels(1080, 2400), (1079, 2399));
    assert_eq!(AgentPoint::top_left().to_pixels(1080, 2400), (0, 0));
    assert_eq!(
        AgentPoint::try_from_basis_points(5_000, 2_500)
            .unwrap()
            .to_pixels(1080, 2400),
        (540, 600)
    );
    let unit = |v: f32| (v * u16::MAX as f32).round() as u16;
    assert_eq!(
        AgentPoint::new(unit(0.25), unit(0.75)).to_pixels(1000, 2000),
        (250, 1499)
    );
    assert!(matches!(
        AgentPoint::try_from_basis_points(10_001, 0),
        Err(Error::SessionLifecycle("normalized point out of range"))
    ));
}

#[test]
fn agent_rect_points_at_relative_anchors() {
    let rect = AgentRect::try_from_pixels(100, 200, 301, 101, 1000, 2000).unwrap();

    assert_eq!(
        rect.try_point_at_basis_points(0, 0)
            .unwrap()
            .to_pixels(1000, 2000),
        (100, 200)
    );
    assert_eq!(
        rect.try_point_at_basis_points(10_000, 10_000)
            .unwrap()
            .to_pixels(1000, 2000),
        (400, 300)
    );
    assert_eq!(
        rect.try_point_at_basis_points(2_500, 7_500)
            .unwrap()
            .to_pixels(1000, 2000),
        (175, 275)
    );

    let reversed = AgentRect {
        left: rect.right,
        top: rect.bottom,
        right: rect.left,
        bottom: rect.top,
    };
    assert_eq!(
        reversed
            .try_point_at_basis_points(0, 0)
            .unwrap()
            .to_pixels(1000, 2000),
        (100, 200)
    );
    assert!(matches!(
        rect.try_point_at_basis_points(10_001, 0),
        Err(Error::SessionLifecycle("normalized point out of range"))
    ));
}

#[test]
fn pixel_rectangles_round_trip() {
    let mut x = 0i32;
    while x < 990 {
        let rect = AgentRect::try_from_pixels(x, 3, 10, 20, 1000, 2000).unwrap();
        assert_eq!(
            rect.to_pixels(1000, 2000),
            (x, 3, x + 9, 22)
        );
        x += 13;
    }
}

#[test]
fn target_selectors_look_into_the_summary() {
    let summary = FrameSummary {
        timestamp_ms: 1,
        frame_seq: 2,
        width: 100,
        height: 200,
        flags: FLAG_OBJECTS | FLAG_TEXT,
        features: Vec::new(),
        motion: Vec::new(),
        objects: vec![ObjectBox { x: 10, y: 20, w: 11, h: 21, class_id: 4, confidence: 99 }],
        text_regions: Vec::new(),
    };
    assert!(AgentTargetSelector::best_object().is_present(&summary));
    assert!(AgentTargetSelector::object_class(4).is_present(&summary));
    assert!(!AgentTargetSelector::object_class(5).is_present(&summary));
    assert!(!AgentTargetSelector::object_class_min_confidence(4, 100).is_present(&summary));
    assert!(!AgentTargetSelector::largest_text_region().is_present(&summary));
    assert_eq!(
        AgentTargetSelector::object(0)
            .select_rect(&summary)
            .unwrap()
            .unwrap()
            .to_pixels(100, 200),
        (10, 20, 20, 40)
    );
    assert!(AgentTargetSelector::text_region(0)
        .select_rect(&summary)
        .unwrap()
        .is_none());
}

#[test]
fn agent_frames_become_wire_frames() {
    let pointer = TouchPointerId::VIRTUAL_FINGER;
    let touch = AgentTouchFrame::down_pointer(pointer, 1, 2, 3).into_touch_frame(9);
    assert_eq!(touch.action, TouchAction::DOWN.value());
    assert_eq!(touch.pointer_id, pointer.value());
    assert_eq!((touch.x, touch.y, touch.pressure), (1, 2, 9));
    let scroll = AgentScrollFrame::new(4, 5, 6, 7, 8).into_scroll_frame(10, 11);
    assert_eq!((scroll.x, scroll.y, scroll.buttons), (4, 5, 8));
    assert_eq!((scroll.hscroll, scroll.vscroll), (10, 11));
}
