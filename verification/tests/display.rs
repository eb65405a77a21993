use c3_led_stuff::color::Rgb;
use c3_led_stuff::gamma::gamma;
use c3_led_stuff::hub75::Hub75Dma;
use c3_led_stuff::hub75::BUFFER_BYTES;
use c3_led_stuff::hub75::TIMER_PERIOD;
use c3_led_stuff::protocol::BRIGHTNESS_DEMO_COMMAND;
use c3_led_stuff::protocol::CLEAR_COMMAND;
use c3_led_stuff::protocol::Command;
use c3_led_stuff::protocol::brightness_demo_levels;
use c3_led_stuff::protocol::interpret_command;

#[test]
fn gamma_endpoints_and_samples() {
    assert_eq!(gamma(0), 0);
    assert_eq!(gamma(255), 255);
    assert_eq!(gamma(10), 0);
    assert_eq!(gamma(30), 1);
    assert_eq!(gamma(100), 19);
    assert_eq!(gamma(128), 37);
    assert_eq!(gamma(200), 129);
}

#[test]
fn gamma_is_monotonic() {
    for v in 0..255u8 {
        assert!(gamma(v) <= gamma(v + 1));
    }
}

#[test]
fn cleared_buffer_has_clock_pattern() {
    let mut d = Hub75Dma::new();
    for k in 0..BUFFER_BYTES {
        let expected = if k % 2 == 0 { 0 } else { 0x40 };
        assert_eq!(d.byte_at(k), expected);
    }
    d.draw(5, 3, Rgb { r: 200, g: 200, b: 200 });
    assert_ne!(d.byte_at(3 * 1024 + 10), 0);
    d.clear();
    for k in 0..BUFFER_BYTES {
        let expected = if k % 2 == 0 { 0 } else { 0x40 };
        assert_eq!(d.byte_at(k), expected);
    }
}

#[test]
fn draw_writes_half_panels_independently() {
    let mut d = Hub75Dma::new();
    // top half: row 3, column 5; gamma(10) = 0, gamma(200) = 129, gamma(30) = 1
    d.draw(5, 3, Rgb { r: 10, g: 200, b: 30 });
    let e0 = 3 * 1024 + 10;
    assert_eq!(d.byte_at(e0), 48); // plane 0: G and B bits, shifted to bits 4 and 5
    assert_eq!(d.byte_at(e0 + 1), 112); // odd copy carries the clock bit
    let e7 = 3 * 1024 + 7 * 128 + 10;
    assert_eq!(d.byte_at(e7), 16); // plane 7: G bit only
    for plane in 1..7 {
        assert_eq!(d.byte_at(3 * 1024 + plane * 128 + 10), 0);
    }
    // low three bits (the bottom half) were never touched
    assert_eq!(d.byte_at(e0) & 0x07, 0);
    // bottom half of the same row pair: y = 19 also lands in row 3
    d.draw(5, 19, Rgb { r: 200, g: 10, b: 30 });
    assert_eq!(d.byte_at(e0), 53); // bits 3..5 preserved, bits 0..2 rewritten
    assert_eq!(d.byte_at(e0 + 1), 117);
    assert_eq!(d.byte_at(e7), 17);
    // the top half's bits survived the bottom-half write
    assert_eq!(d.byte_at(e0) & 0x38, 48);
    assert_eq!(d.byte_at(e7) & 0x38, 16);
}

#[test]
fn draw_reconstructs_gamma_corrected_channels() {
    let mut d = Hub75Dma::new();
    let color = Rgb { r: 200, g: 77, b: 255 };
    d.draw(12, 6, color);
    let mut r_sum: u32 = 0;
    let mut g_sum: u32 = 0;
    let mut b_sum: u32 = 0;
    for plane in 0..8 {
        let byte = d.byte_at(6 * 1024 + plane * 128 + 24);
        // top half: R, G, B in bits 3..5
        r_sum += (((byte >> 3) & 1) as u32) << plane;
        g_sum += (((byte >> 4) & 1) as u32) << plane;
        b_sum += (((byte >> 5) & 1) as u32) << plane;
    }
    assert_eq!(r_sum, gamma(200) as u32);
    assert_eq!(g_sum, gamma(77) as u32);
    assert_eq!(b_sum, gamma(255) as u32);
}

#[test]
fn scan_covers_every_row_plane_pair_once() {
    let mut d = Hub75Dma::new();
    let mut seen = [[false; 8]; 16];
    for _ in 0..128 {
        let step = d.output();
        assert!(step.row < 16);
        assert!(step.plane < 8);
        assert!(!seen[step.row as usize][step.plane as usize]);
        seen[step.row as usize][step.plane as usize] = true;
        assert_eq!(step.update_row, step.plane == 0);
        assert_eq!(step.timer_compare, TIMER_PERIOD - (1u16 << step.plane));
        assert_eq!(step.port_bytes.len(), 128);
    }
    for row in 0..16 {
        for plane in 0..8 {
            assert!(seen[row][plane]);
        }
    }
}

#[test]
fn scan_output_hands_out_the_drawn_bytes() {
    let mut d = Hub75Dma::new();
    d.draw(5, 3, Rgb { r: 200, g: 200, b: 200 });
    loop {
        let step = d.output();
        if step.row == 3 && step.plane == 0 {
            for (i, byte) in step.port_bytes.iter().enumerate() {
                assert_eq!(*byte, d.byte_at(3 * 1024 + i));
            }
            break;
        }
    }
}

#[test]
fn select_row_sets_binary_weighted_lines() {
    assert_eq!(Hub75Dma::select_row(0), (false, false, false, false));
    assert_eq!(Hub75Dma::select_row(10), (false, true, false, true));
    assert_eq!(Hub75Dma::select_row(15), (true, true, true, true));
    assert_eq!(Hub75Dma::select_row(1), (true, false, false, false));
}

#[test]
fn commands_decode() {
    assert_eq!(interpret_command(CLEAR_COMMAND, 5), Command::Clear);
    assert_eq!(interpret_command(BRIGHTNESS_DEMO_COMMAND, 5), Command::BrightnessDemo);
    assert_eq!(interpret_command(0, 5), Command::ShowImage(0));
    assert_eq!(interpret_command(4, 5), Command::ShowImage(4));
    assert_eq!(interpret_command(5, 5), Command::Ignore);
    assert_eq!(interpret_command(200, 5), Command::Ignore);
    // the named command bytes take precedence over image indices
    assert_eq!(interpret_command(CLEAR_COMMAND, 100), Command::Clear);
}

#[test]
fn demo_levels_step_up_then_fade_down() {
    let levels = brightness_demo_levels();
    let expected: Vec<u8> = vec![
        0, 64, 128, 192, 255, 239, 223, 207, 191, 175, 159, 143, 127, 111, 95, 79, 63, 47, 31, 15,
    ];
    assert_eq!(levels, expected);
}
