use core::time::Duration;
use led_matrix_serial_api::codec::Command;
use led_matrix_serial_api::error::IoKind;
use led_matrix_serial_api::matrix::patterns::{bitmap, draw_speaker_mute, draw_speaker_on, pattern};
use led_matrix_serial_api::panel::{Shown, SimulatedPanel};
use led_matrix_serial_api::{get_device_names, Error, LedMatrix, Transport};

fn panels(matrix: &LedMatrix<SimulatedPanel>) -> Vec<&SimulatedPanel> {
    match matrix {
        LedMatrix::Device(port) => vec![port.inner()],
        LedMatrix::Collection(ports) => ports.iter().map(|port| port.inner()).collect(),
    }
}

fn single() -> LedMatrix<SimulatedPanel> {
    LedMatrix::device(SimulatedPanel::new(None))
}

fn pair() -> LedMatrix<SimulatedPanel> {
    LedMatrix::from_links(vec![SimulatedPanel::new(None), SimulatedPanel::new(None)])
}

#[test]
fn the_brightness_that_was_set_is_read_back() {
    let mut matrix = single();
    for level in 0u8..=255 {
        assert_eq!(matrix.set_brightness(level), Ok(()));
        assert_eq!(matrix.get_brightness(), Ok(vec![level]));
    }
}

#[test]
fn every_panel_of_a_group_reads_back_the_brightness() {
    let mut matrix = pair();
    for level in [0u8, 1, 127, 255] {
        assert_eq!(matrix.set_brightness(level), Ok(()));
        assert_eq!(matrix.get_brightness(), Ok(vec![level, level]));
    }
}

#[test]
fn toggles_are_read_back_as_they_were_set() {
    let mut matrix = pair();
    for flag in [true, false, true] {
        assert_eq!(matrix.set_sleep(flag), Ok(()));
        assert_eq!(matrix.get_sleep(), Ok(vec![flag, flag]));
        assert_eq!(matrix.set_animate(!flag), Ok(()));
        assert_eq!(matrix.get_animate(), Ok(vec![!flag, !flag]));
        assert_eq!(matrix.get_sleep(), Ok(vec![flag, flag]));
    }
}

#[test]
fn each_panel_of_a_group_keeps_its_own_state() {
    let mut sleepy = SimulatedPanel::new(None);
    sleepy.receive(&Command::SetSleep(true).encode());
    sleepy.receive(&Command::SetBrightness(9).encode());
    let mut lively = SimulatedPanel::new(None);
    lively.receive(&Command::SetAnimate(true).encode());
    let mut matrix = LedMatrix::from_links(vec![sleepy, lively]);
    assert_eq!(matrix.get_sleep(), Ok(vec![true, false]));
    assert_eq!(matrix.get_animate(), Ok(vec![false, true]));
    assert_eq!(matrix.get_brightness(), Ok(vec![9, 0]));
    assert_eq!(matrix.set_sleep(true), Ok(()));
    assert_eq!(matrix.get_sleep(), Ok(vec![true, true]));
}

#[test]
fn any_nonzero_byte_sets_a_toggle() {
    let mut panel = SimulatedPanel::new(None);
    panel.receive(&[0x32, 0xAC, 0x03, 0x80]);
    assert!(panel.asleep());
    panel.receive(&[0x32, 0xAC, 0x03, 0x00]);
    assert!(!panel.asleep());
    panel.receive(&[0x32, 0xAC, 0x04, 0x02]);
    assert!(panel.animating());
}

#[test]
fn a_fresh_panel_is_dark_awake_and_silent() {
    let panel = SimulatedPanel::new(Some("bench".to_string()));
    assert_eq!(panel.brightness(), 0);
    assert!(!panel.asleep());
    assert!(!panel.animating());
    assert_eq!(panel.shown(), Shown::Blank);
    assert_eq!(panel.pending(), 0);
    assert_eq!(panel.name(), Some("bench".to_string()));
}

#[test]
fn a_read_without_a_query_times_out() {
    let mut matrix = single();
    assert_eq!(matrix.read(), Err(Error::Io(IoKind::TimedOut, "timed out".to_string())));
    let mut panel = SimulatedPanel::new(None);
    assert_eq!(panel.take_reply(), None);
}

#[test]
fn a_reply_is_the_status_and_31_bytes_of_padding() {
    let mut panel = SimulatedPanel::new(None);
    panel.receive(&Command::SetBrightness(0xAB).encode());
    panel.receive(&Command::GetBrightness.encode());
    assert_eq!(panel.pending(), 1);
    let mut expected = [0u8; 32];
    expected[0] = 0xAB;
    assert_eq!(panel.take_reply(), Some(expected));
    assert_eq!(panel.pending(), 0);
}

#[test]
fn replies_are_read_oldest_first() {
    let mut panel = SimulatedPanel::new(None);
    panel.receive(&Command::SetBrightness(4).encode());
    panel.receive(&Command::GetBrightness.encode());
    panel.receive(&Command::SetSleep(true).encode());
    panel.receive(&Command::GetSleep.encode());
    let mut buf = [0u8; 32];
    assert_eq!(panel.read_exact(&mut buf), Ok(()));
    assert_eq!(buf[0], 4);
    assert_eq!(panel.read_exact(&mut buf), Ok(()));
    assert_eq!(buf[0], 1);
    assert_eq!(panel.read_exact(&mut buf), Err(Error::Io(IoKind::TimedOut, "timed out".to_string())));
}

#[test]
fn bytes_that_are_no_frame_are_dropped() {
    let mut panel = SimulatedPanel::new(None);
    panel.receive(&[]);
    panel.receive(&[0x32, 0xAC]);
    panel.receive(&[0x00, 0x00, 0x00, 77]);
    panel.receive(&[0x32, 0xAD, 0x00, 77]);
    panel.receive(&[0x32, 0xAC, 0x00, 77, 78]);
    panel.receive(&[0x32, 0xAC, 0x02]);
    panel.receive(&[0x32, 0xAC, 0x01, 0x09]);
    panel.receive(&[0x32, 0xAC, 0x01, 0x00]);
    panel.receive(&[0x32, 0xAC, 0x08, 0x00]);
    assert_eq!(panel.brightness(), 0);
    assert_eq!(panel.shown(), Shown::Blank);
    assert_eq!(panel.pending(), 0);
}

#[test]
fn presets_and_levels_change_what_is_shown() {
    let mut matrix = single();
    matrix.percent(40).unwrap();
    assert_eq!(panels(&matrix)[0].shown(), Shown::Percent(40));
    matrix.gradient().unwrap();
    assert_eq!(panels(&matrix)[0].shown(), Shown::Preset(1));
    matrix.double_gradient().unwrap();
    assert_eq!(panels(&matrix)[0].shown(), Shown::Preset(2));
    matrix.lotus_horizontal().unwrap();
    assert_eq!(panels(&matrix)[0].shown(), Shown::Preset(3));
    matrix.zigzag().unwrap();
    assert_eq!(panels(&matrix)[0].shown(), Shown::Preset(4));
    matrix.full_brightness().unwrap();
    assert_eq!(panels(&matrix)[0].shown(), Shown::Preset(5));
    matrix.panic().unwrap();
    assert_eq!(panels(&matrix)[0].shown(), Shown::Preset(6));
    matrix.lotus_vertical().unwrap();
    assert_eq!(panels(&matrix)[0].shown(), Shown::Preset(7));
    matrix.test().unwrap();
    assert_eq!(panels(&matrix)[0].shown(), Shown::Preset(8));
    let mut image = [0u8; 39];
    image[5] = 0x55;
    matrix.draw_bw_buffer(&image).unwrap();
    assert_eq!(panels(&matrix)[0].shown(), Shown::Bitmap(image));
}

#[test]
fn a_refused_level_leaves_the_panel_as_it_was() {
    let mut matrix = single();
    matrix.percent(30).unwrap();
    assert_eq!(matrix.percent(101), Err(Error::PercentOutOfRange(101)));
    assert_eq!(panels(&matrix)[0].shown(), Shown::Percent(30));
}

#[test]
fn staged_columns_show_only_after_a_flush() {
    let mut matrix = single();
    matrix.stage_col(2, &[7; 34]).unwrap();
    assert_eq!(panels(&matrix)[0].shown(), Shown::Blank);
    matrix.flush_cols().unwrap();
    let mut expected = [[0u8; 34]; 9];
    expected[2] = [7; 34];
    assert_eq!(panels(&matrix)[0].shown(), Shown::Columns(expected));
    matrix.stage_col(9, &[1; 34]).unwrap();
    matrix.stage_col(255, &[1; 34]).unwrap();
    matrix.flush_cols().unwrap();
    assert_eq!(panels(&matrix)[0].shown(), Shown::Columns(expected));
}

#[test]
fn draw_cols_shows_the_picture_on_every_panel() {
    let mut cols = [[0u8; 34]; 9];
    for (c, col) in cols.iter_mut().enumerate() {
        for (r, pixel) in col.iter_mut().enumerate() {
            *pixel = (c * 34 + r) as u8;
        }
    }
    let mut matrix = pair();
    matrix.stage_col(0, &[0xFF; 34]).unwrap();
    assert_eq!(matrix.draw_cols(&cols), Ok(()));
    for panel in panels(&matrix) {
        assert_eq!(panel.shown(), Shown::Columns(cols));
    }
}

#[test]
fn a_bitmap_lights_exactly_the_named_pixels() {
    let coords = vec![(0, vec![0, 33]), (8, vec![5]), (4, vec![]), (0, vec![1])];
    let picture = bitmap(&coords, 9);
    for col in 0..9 {
        for row in 0..34 {
            let lit = matches!((col, row), (0, 0) | (0, 33) | (0, 1) | (8, 5));
            assert_eq!(picture[col][row], if lit { 9 } else { 0 });
        }
    }
    assert_eq!(bitmap(&vec![], 200), [[0u8; 34]; 9]);
    assert_eq!(bitmap(&vec![(12, vec![])], 200), [[0u8; 34]; 9]);
}

#[test]
fn pattern_draws_the_bitmap_of_its_coordinates() {
    let mut matrix = single();
    assert_eq!(pattern(&mut matrix, vec![(3, vec![10, 11])], 50), Ok(()));
    let mut expected = [[0u8; 34]; 9];
    expected[3][10] = 50;
    expected[3][11] = 50;
    assert_eq!(panels(&matrix)[0].shown(), Shown::Columns(expected));
}

fn icon(rows: &[(usize, &[usize])]) -> [[u8; 34]; 9] {
    let mut picture = [[0u8; 34]; 9];
    for (col, lit) in rows {
        for row in lit.iter() {
            picture[*col][*row] = 255;
        }
    }
    picture
}

#[test]
fn the_muted_speaker_has_a_cross_beside_the_cone() {
    let mut matrix = pair();
    assert_eq!(draw_speaker_mute(&mut matrix), Ok(()));
    let expected = icon(&[
        (1, &[17, 18, 19]),
        (2, &[16, 17, 18, 19, 20]),
        (3, &[15, 16, 17, 18, 19, 20, 21]),
        (5, &[17, 19]),
        (6, &[18]),
        (7, &[17, 19]),
    ]);
    for panel in panels(&matrix) {
        assert_eq!(panel.shown(), Shown::Columns(expected));
    }
}

#[test]
fn the_sounding_speaker_has_waves_beside_the_cone() {
    let mut matrix = single();
    assert_eq!(draw_speaker_on(&mut matrix), Ok(()));
    let expected = icon(&[
        (1, &[17, 18, 19]),
        (2, &[16, 17, 18, 19, 20]),
        (3, &[15, 16, 17, 18, 19, 20, 21]),
        (5, &[16, 18, 20]),
        (6, &[15, 17, 19, 21]),
    ]);
    assert_eq!(panels(&matrix)[0].shown(), Shown::Columns(expected));
}

#[test]
fn a_simulated_host_opens_any_path_and_lists_nothing() {
    let mut matrix = LedMatrix::<SimulatedPanel>::open("bench-1".to_string()).ok().unwrap();
    assert_eq!(matrix.label(), "LED matrix bench-1");
    assert_eq!(matrix.set_read_timeout(Duration::from_millis(5)), Ok(()));
    let group = LedMatrix::<SimulatedPanel>::open_many(vec!["a".to_string(), "b".to_string()])
        .ok()
        .unwrap();
    assert_eq!(group.label(), "LED matrices a, b");
    assert_eq!(get_device_names::<SimulatedPanel>(), Ok(vec![]));
    let none = LedMatrix::<SimulatedPanel>::open_all().ok().unwrap();
    assert_eq!(panels(&none).len(), 0);
    let opened = led_matrix_serial_api::matrix::open::<SimulatedPanel>(20).ok().unwrap();
    assert_eq!(panels(&opened).len(), 0);
}

#[test]
fn reset_fills_to_zero_percent() {
    let mut matrix = pair();
    matrix.percent(80).unwrap();
    assert_eq!(led_matrix_serial_api::matrix::reset(&mut matrix), Ok(()));
    for panel in panels(&matrix) {
        assert_eq!(panel.shown(), Shown::Percent(0));
    }
}
