use packing_interface::autofill::AutofillError;
use packing_interface::request::ParseError;
use packing_interface::state::{zoom_step, Command, Message, PackingApp};
use packing_interface::types::{AlgorithmOutput, Input, Notice, Placement};
use packing_interface::fixed::LIMIT;

fn layout(n: usize) -> AlgorithmOutput {
    AlgorithmOutput {
        bin_width: 10,
        total_height: 20_000,
        placements: (0..n)
            .map(|i| Placement { x: 0, y: 1000 * i as i64, width: 2, height: 1 })
            .collect(),
    }
}

fn loaded(n: usize) -> PackingApp {
    let mut app = PackingApp::default();
    assert_eq!(app.update(Input::OutputLoaded(layout(n))), Command::Nothing);
    app
}

#[test]
fn the_state_at_the_start() {
    let app = PackingApp::default();
    assert_eq!(app.w_input, "");
    assert_eq!(app.n_input, "");
    assert_eq!(app.k_input, "");
    assert!(!app.autofile);
    assert_eq!(app.rectangle_data, "");
    assert_eq!(app.error_message, None);
    assert_eq!(app.algorithm_output, None);
    assert_eq!(app.zoom, 1000);
    assert_eq!(app.visible_rects, 0);
    assert!(!app.animating);
    assert_eq!(app.animation_speed, 80);
    assert_eq!((app.pan_x, app.pan_y), (0, 0));
    assert!(!app.is_panning);
    assert_eq!(app.hovered_rect, None);
    assert_eq!(app.dragged_rect, None);
    assert_eq!(app.subscription(), None);
    assert!(app.canvas().is_none());
}

#[test]
fn zoom_steps() {
    assert_eq!(zoom_step(1000, 1100), 1100);
    assert_eq!(zoom_step(1000, 900), 900);
    assert_eq!(zoom_step(1100, 1100), 1210);
    assert_eq!(zoom_step(1234, 900), 1110);
    assert_eq!(zoom_step(9500, 1100), 10_000);
    assert_eq!(zoom_step(105, 900), 100);
    assert_eq!(zoom_step(1000, 0), 100);
    assert_eq!(zoom_step(1000, -5), 100);
    assert_eq!(zoom_step(10_000, i64::MAX), 10_000);
    assert_eq!(zoom_step(10_000, i64::MIN), 100);
}

#[test]
fn zoom_stays_in_range() {
    let mut app = PackingApp::default();
    for _ in 0..500 {
        app.update(Input::ZoomChanged(1100));
        assert!(100 <= app.zoom && app.zoom <= 10_000);
    }
    assert_eq!(app.zoom, 10_000);
    for _ in 0..500 {
        app.update(Input::ZoomChanged(900));
        assert!(100 <= app.zoom && app.zoom <= 10_000);
    }
    assert_eq!(app.zoom, 100);
    for i in 0..500 {
        app.update(Input::ZoomChanged(if i % 3 == 0 { 900 } else { 1100 }));
        assert!(100 <= app.zoom && app.zoom <= 10_000);
    }
}

#[test]
fn animation_speed_is_kept_in_range() {
    let mut app = PackingApp::default();
    app.update(Input::AnimationSpeedChanged(250));
    assert_eq!(app.animation_speed, 250);
    app.update(Input::AnimationSpeedChanged(3));
    assert_eq!(app.animation_speed, 10);
    app.update(Input::AnimationSpeedChanged(10_000));
    assert_eq!(app.animation_speed, 500);
    app.update(Input::AnimationSpeedChanged(10));
    assert_eq!(app.animation_speed, 10);
    app.update(Input::AnimationSpeedChanged(500));
    assert_eq!(app.animation_speed, 500);
}

#[test]
fn ticks_reveal_one_placement_each() {
    let mut app = loaded(4);
    assert_eq!(app.visible_rects, 0);
    assert!(app.animating);
    assert_eq!(app.subscription(), Some(80));
    assert_eq!(app.error_message, Some(Message::Notice(Notice::OutputImported)));
    for k in 1..=4 {
        app.update(Input::Tick);
        assert_eq!(app.visible_rects, k);
        assert!(app.animating);
    }
    for _ in 0..3 {
        app.update(Input::Tick);
        assert_eq!(app.visible_rects, 4);
        assert!(!app.animating);
        assert_eq!(app.subscription(), None);
    }
}

#[test]
fn ticks_without_a_layout_end_the_animation() {
    let mut app = PackingApp::default();
    app.animating = true;
    app.update(Input::Tick);
    assert!(!app.animating);
    assert_eq!(app.visible_rects, 0);
    let mut empty = loaded(0);
    assert!(empty.animating);
    empty.update(Input::Tick);
    assert!(!empty.animating);
    assert_eq!(empty.visible_rects, 0);
}

#[test]
fn loading_resets_the_view_on_the_layout() {
    let mut app = loaded(4);
    for _ in 0..9 {
        app.update(Input::Tick);
    }
    app.update(Input::RectangleHovered(Some(3)));
    app.update(Input::RectangleDragStart(2, 10, 10));
    app.update(Input::RectangleDragMove(50, 60));
    app.update(Input::OutputLoaded(layout(2)));
    assert_eq!(app.visible_rects, 0);
    assert!(app.animating);
    assert_eq!(app.hovered_rect, None);
    assert_eq!(app.dragged_rect, None);
    assert_eq!((app.dragged_rect_offset_x, app.dragged_rect_offset_y), (0, 0));
    assert!(!app.is_panning);
    assert_eq!(app.algorithm_output, Some(layout(2)));
}

#[test]
fn panning_adds_up_the_steps() {
    let mut app = loaded(2);
    app.update(Input::RectangleHovered(Some(1)));
    app.update(Input::PanMove(5_000, 5_000));
    assert_eq!((app.pan_x, app.pan_y), (0, 0));
    assert_eq!(app.hovered_rect, None);
    app.update(Input::PanStart(100_000, 200_000));
    assert!(app.is_panning);
    app.update(Input::PanMove(100_400, 199_900));
    app.update(Input::PanMove(100_300, 199_600));
    assert_eq!((app.pan_x, app.pan_y), (300, -400));
    assert_eq!((app.last_mouse_x, app.last_mouse_y), (100_300, 199_600));
    app.update(Input::PanEnd);
    assert!(!app.is_panning);
    app.update(Input::PanMove(0, 0));
    assert_eq!((app.pan_x, app.pan_y), (300, -400));
}

#[test]
fn pan_stops_at_the_limit() {
    let mut app = PackingApp::default();
    app.update(Input::PanStart(-LIMIT, 0));
    app.update(Input::PanMove(LIMIT, 0));
    assert_eq!(app.pan_x, LIMIT);
    app.update(Input::PanMove(-LIMIT, 0));
    assert_eq!(app.pan_x, -LIMIT);
    app.update(Input::PanMove(-LIMIT + 5, 7));
    assert_eq!((app.pan_x, app.pan_y), (-LIMIT + 5, 7));
}

#[test]
fn dragging_adds_up_the_steps() {
    let mut app = loaded(3);
    app.update(Input::RectangleDragMove(9, 9));
    assert_eq!((app.dragged_rect_offset_x, app.dragged_rect_offset_y), (0, 0));
    app.update(Input::RectangleDragStart(1, 10_000, 20_000));
    assert_eq!(app.dragged_rect, Some(1));
    app.update(Input::RectangleDragMove(10_250, 20_000));
    app.update(Input::RectangleDragMove(10_500, 19_000));
    assert_eq!((app.dragged_rect_offset_x, app.dragged_rect_offset_y), (500, -1000));
    let canvas = app.canvas().unwrap();
    assert_eq!(canvas.dragged_rect, Some(1));
    assert_eq!(canvas.dragged_rect_offset_x, 500);
    assert_eq!(canvas.visible_count, 0);
    assert_eq!(canvas.zoom, 1000);
    assert!(canvas.animating);
    app.update(Input::RectangleDragEnd(false, true, 0, 0));
    assert_eq!(app.dragged_rect, None);
    assert_eq!((app.dragged_rect_offset_x, app.dragged_rect_offset_y), (0, 0));
    assert_eq!(app.algorithm_output, Some(layout(3)));
}

#[test]
fn pan_and_drag_exclude_each_other() {
    let mut app = loaded(3);
    app.update(Input::PanStart(1, 1));
    app.update(Input::RectangleDragStart(2, 5, 5));
    assert!(!app.is_panning);
    assert_eq!(app.dragged_rect, Some(2));
    app.update(Input::RectangleDragMove(15, 5));
    app.update(Input::PanStart(1, 1));
    assert!(app.is_panning);
    assert_eq!(app.dragged_rect, None);
    assert_eq!(app.dragged_rect_offset_x, 0);
}

#[test]
fn indices_beyond_the_layout_are_dropped() {
    let mut app = loaded(3);
    app.update(Input::RectangleHovered(Some(2)));
    assert_eq!(app.hovered_rect, Some(2));
    app.update(Input::RectangleHovered(Some(3)));
    assert_eq!(app.hovered_rect, None);
    app.update(Input::RectangleDragStart(3, 5, 5));
    assert_eq!(app.dragged_rect, None);
    app.update(Input::RectangleHovered(Some(0)));
    app.update(Input::RectangleHovered(None));
    assert_eq!(app.hovered_rect, None);
    let mut bare = PackingApp::default();
    bare.update(Input::RectangleHovered(Some(0)));
    assert_eq!(bare.hovered_rect, None);
    bare.update(Input::RectangleDragStart(0, 5, 5));
    assert_eq!(bare.dragged_rect, None);
}

#[test]
fn form_events() {
    let mut app = PackingApp::default();
    app.update(Input::WChanged("10".to_string()));
    app.update(Input::NChanged("5".to_string()));
    app.update(Input::KChanged("3".to_string()));
    app.update(Input::AutofillChanged(true));
    app.update(Input::RectangleDataAction("2 3 1".to_string()));
    assert_eq!(app.w_input, "10");
    assert_eq!(app.n_input, "5");
    assert_eq!(app.k_input, "3");
    assert!(app.autofile);
    assert_eq!(app.rectangle_data, "2 3 1");
    app.update(Input::Report(Notice::ReadFailed));
    assert_eq!(app.error_message, Some(Message::Notice(Notice::ReadFailed)));
    assert_eq!(app.update(Input::RectangleFileRead("1 1 1\n".to_string())), Command::Nothing);
    assert_eq!(app.rectangle_data, "1 1 1\n");
    assert_eq!(app.error_message, None);
    app.update(Input::Report(Notice::Exported { count: 2 }));
    assert_eq!(app.error_message, Some(Message::Notice(Notice::Exported { count: 2 })));
    assert_eq!(app.update(Input::SnapAndAdjustHeight), Command::Nothing);
}

#[test]
fn file_events_ask_for_work() {
    let mut app = PackingApp::default();
    assert_eq!(app.update(Input::ImportPressed), Command::PickRectangleFile);
    assert_eq!(app.update(Input::ImportOutputJsonPressed), Command::PickOutputFile);
    assert_eq!(app.error_message, None);
}

#[test]
fn export_hands_out_the_completed_request() {
    let mut app = PackingApp::default();
    app.update(Input::WChanged("10".to_string()));
    app.update(Input::NChanged("5".to_string()));
    app.update(Input::KChanged("3".to_string()));
    app.update(Input::AutofillChanged(true));
    app.update(Input::RectangleDataAction("2 3 1".to_string()));
    match app.update(Input::ExportAlgorithmInput) {
        Command::SaveInput(j) => {
            assert_eq!(j.width_of_bin, 10);
            assert_eq!(j.number_of_rectangles, 5);
            assert_eq!(j.number_of_types_of_rectangles, 3);
            assert!(j.autofill_option);
            assert_eq!(j.rectangle_list.len(), 3);
        }
        other => panic!("{:?}", other),
    }
    assert_eq!(app.error_message, None);
    let parsed = app.parse_rectangles().unwrap();
    assert_eq!(parsed.width, 10);
    assert_eq!(parsed.input_types, 1);
}

#[test]
fn export_shows_faults_and_refusals() {
    let mut app = PackingApp::default();
    assert_eq!(app.update(Input::ExportAlgorithmInput), Command::Nothing);
    assert_eq!(app.error_message, Some(Message::Faults(vec![ParseError::WidthMissing])));
    app.update(Input::WChanged("3".to_string()));
    app.update(Input::KChanged("5".to_string()));
    app.update(Input::AutofillChanged(true));
    app.update(Input::RectangleDataAction("1 4 1".to_string()));
    assert_eq!(app.update(Input::ExportAlgorithmInput), Command::Nothing);
    assert_eq!(app.error_message, Some(Message::Refused(AutofillError::TooFewSizes)));
    app.update(Input::RectangleDataAction("4 4 1\nx".to_string()));
    assert_eq!(app.update(Input::ExportAlgorithmInput), Command::Nothing);
    assert_eq!(
        app.error_message,
        Some(Message::Faults(vec![
            ParseError::TooWide { line: 1, width: 4, limit: 3 },
            ParseError::FieldCount { line: 2, found: 1 },
        ]))
    );
}

#[test]
fn validity_of_events_and_layouts() {
    assert!(Input::PanMove(LIMIT, -LIMIT).is_valid());
    assert!(!Input::PanMove(LIMIT + 1, 0).is_valid());
    assert!(!Input::PanStart(0, LIMIT + 1).is_valid());
    assert!(!Input::RectangleDragStart(0, i64::MIN, 0).is_valid());
    assert!(!Input::RectangleDragMove(0, i64::MAX).is_valid());
    assert!(Input::Tick.is_valid());
    assert!(layout(3).is_valid());
    let mut far = layout(3);
    far.placements[1].x = LIMIT + 1;
    assert!(!far.is_valid());
    assert!(!Input::OutputLoaded(far.clone()).is_valid());
    assert!(!far.placements[1].is_valid());
    assert!(far.placements[0].is_valid());
    let mut tall = layout(1);
    tall.total_height = LIMIT + 1;
    assert!(!tall.is_valid());
}

#[test]
fn validity_of_states() {
    let mut app = loaded(3);
    assert!(app.is_valid());
    assert!(app.canvas().unwrap().is_valid());
    app.zoom = 99;
    assert!(!app.is_valid());
    assert!(!app.canvas().unwrap().is_valid());
    app.zoom = 10_000;
    assert!(app.is_valid());
    app.visible_rects = 4;
    assert!(!app.is_valid());
    app.visible_rects = 3;
    app.hovered_rect = Some(3);
    assert!(!app.is_valid());
    app.hovered_rect = Some(2);
    app.dragged_rect = Some(3);
    assert!(!app.is_valid());
    app.dragged_rect = Some(0);
    assert!(app.is_valid());
    app.is_panning = true;
    assert!(!app.is_valid());
    app.dragged_rect = None;
    assert!(app.is_valid());
    app.animation_speed = 501;
    assert!(!app.is_valid());
    app.animation_speed = 500;
    app.pan_y = LIMIT + 1;
    assert!(!app.is_valid());
    assert!(!app.canvas().unwrap().is_valid());
    assert!(PackingApp::default().is_valid());
}
