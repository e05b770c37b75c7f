use horse::frame::Frame;
use horse::render::{clip_line, render, vertical_start};

#[test]
fn clip_drops_leading_characters_left_of_zero() {
    assert_eq!(clip_line(-2, 5, 80), Some((2, 5)));
}

#[test]
fn clip_drops_trailing_characters_past_width() {
    assert_eq!(clip_line(78, 5, 80), Some((0, 2)));
}

#[test]
fn clip_keeps_a_line_inside() {
    assert_eq!(clip_line(10, 5, 80), Some((0, 5)));
}

#[test]
fn clip_skips_lines_outside() {
    assert_eq!(clip_line(80, 5, 80), None);
    assert_eq!(clip_line(-5, 5, 80), None);
    assert_eq!(clip_line(3, 0, 80), None);
}

#[test]
fn vertical_start_centres() {
    assert_eq!(vertical_start(10, 4), 3);
}

#[test]
fn vertical_start_is_never_negative() {
    assert_eq!(vertical_start(3, 4), 0);
    assert_eq!(vertical_start(0, 9), 0);
}

#[test]
fn render_clips_a_sprite_entering_from_the_left() {
    let frames = vec![Frame::new("ab\ncd", -1)];
    let cmds = render(&frames, 80, 10);
    assert_eq!(cmds.len(), 2);
    assert_eq!((cmds[0].col, cmds[0].row, cmds[0].text), (0, 4, "b"));
    assert_eq!((cmds[1].col, cmds[1].row, cmds[1].text), (0, 5, "d"));
}

#[test]
fn render_clips_at_the_right_and_below() {
    let frames = vec![Frame::new("abc\ndef\nghi", 8)];
    let cmds = render(&frames, 10, 2);
    assert_eq!(cmds.len(), 2);
    assert_eq!((cmds[0].col, cmds[0].row, cmds[0].text), (8, 0, "ab"));
    assert_eq!((cmds[1].col, cmds[1].row, cmds[1].text), (8, 1, "de"));
}

#[test]
fn render_draws_sprites_in_order_and_skips_hidden_ones() {
    let frames = vec![
        Frame::new("xy", 0),
        Frame::new("zz", 50),
        Frame::new("w", 2),
    ];
    let cmds = render(&frames, 20, 1);
    assert_eq!(cmds.len(), 2);
    assert_eq!((cmds[0].col, cmds[0].row, cmds[0].text), (0, 0, "xy"));
    assert_eq!((cmds[1].col, cmds[1].row, cmds[1].text), (2, 0, "w"));
}
