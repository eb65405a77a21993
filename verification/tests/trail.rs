use c3_led_stuff::color::Rgb;
use c3_led_stuff::color::BrightnessAdjustment;
use c3_led_stuff::color::brightness;
use c3_led_stuff::elements::Elements;

#[test]
fn add_is_debounced_within_one_tick() {
    let mut e = Elements::new(60, 15);
    assert!(e.add(Rgb { r: 1, g: 2, b: 3 }).is_ok());
    assert!(e.add(Rgb { r: 4, g: 5, b: 6 }).is_ok());
    assert_eq!(e.len(), 1);
}

#[test]
fn add_after_step_enqueues_again() {
    let mut e = Elements::new(60, 15);
    assert!(e.add(Rgb { r: 1, g: 2, b: 3 }).is_ok());
    e.step();
    assert!(e.add(Rgb { r: 4, g: 5, b: 6 }).is_ok());
    assert_eq!(e.len(), 2);
}

#[test]
fn single_particle_expires_after_limit_plus_one_steps() {
    let mut e = Elements::new(5, 3);
    assert!(e.add(Rgb { r: 9, g: 9, b: 9 }).is_ok());
    for _ in 0..8 {
        e.step();
    }
    // the particle sits exactly at length + trail_length and survives
    assert_eq!(e.len(), 1);
    e.step();
    assert_eq!(e.len(), 0);
}

#[test]
fn cull_keeps_visible_particles() {
    let mut e = Elements::new(5, 3);
    assert!(e.add(Rgb { r: 9, g: 9, b: 9 }).is_ok());
    e.cull();
    assert_eq!(e.len(), 1);
}

#[test]
fn exhausted_readback_stays_exhausted() {
    let e = Elements::new(3, 2);
    let mut it = e.iter();
    let mut emitted: usize = 0;
    while it.next().is_some() {
        emitted += 1;
    }
    assert_eq!(emitted, 3);
    assert_eq!(it.next(), None);
    assert_eq!(it.next(), None);
}

#[test]
fn queue_full_reports_error() {
    let mut e = Elements::new(60000, 1000);
    for _ in 0..128 {
        assert!(e.add(Rgb { r: 1, g: 1, b: 1 }).is_ok());
        e.step();
    }
    assert_eq!(e.len(), 128);
    assert_eq!(e.add(Rgb { r: 1, g: 1, b: 1 }), Err(()));
    assert_eq!(e.len(), 128);
}

#[test]
fn trail_readback_fades_linearly() {
    let mut e = Elements::new(60, 15);
    assert!(e.add(Rgb { r: 255, g: 100, b: 10 }).is_ok());
    for _ in 0..5 {
        e.step();
    }
    let mut it = e.iter();
    let mut colors: Vec<Rgb> = Vec::new();
    while let Some(c) = it.next() {
        colors.push(c);
    }
    assert_eq!(colors.len(), 60);
    // head at position 5, trail_length 15, step 255 / 15 = 17
    assert_eq!(colors[0], Rgb { r: 169, g: 66, b: 6 }); // distance 5: 170/256
    assert_eq!(colors[4], Rgb { r: 237, g: 92, b: 9 }); // distance 1: 238/256
    assert_eq!(colors[5], Rgb { r: 254, g: 99, b: 9 }); // distance 0: 255/256
    for pos in 6..60 {
        assert_eq!(colors[pos], Rgb { r: 0, g: 0, b: 0 });
    }
}

#[test]
fn trail_is_black_beyond_trail_length() {
    let mut e = Elements::new(60, 4);
    assert!(e.add(Rgb { r: 200, g: 200, b: 200 }).is_ok());
    for _ in 0..10 {
        e.step();
    }
    let mut it = e.iter();
    let mut colors: Vec<Rgb> = Vec::new();
    while let Some(c) = it.next() {
        colors.push(c);
    }
    // head at position 10, trail over positions 7..=10, step 255 / 4 = 63
    for pos in 0..7 {
        assert_eq!(colors[pos], Rgb { r: 0, g: 0, b: 0 });
    }
    assert_ne!(colors[7], Rgb { r: 0, g: 0, b: 0 });
    assert_eq!(colors[10], Rgb { r: 196, g: 196, b: 196 }); // 200 * 252 / 256
}

#[test]
fn readback_of_empty_strip_is_black() {
    let e = Elements::new(8, 4);
    let mut it = e.iter();
    let mut count: usize = 0;
    while let Some(c) = it.next() {
        assert_eq!(c, Rgb { r: 0, g: 0, b: 0 });
        count += 1;
    }
    assert_eq!(count, 8);
    assert_eq!(it.next(), None);
}

#[test]
fn brightness_scales_and_truncates() {
    let c = Rgb { r: 100, g: 101, b: 255 };
    assert_eq!(brightness(c, 128), Rgb { r: 50, g: 50, b: 127 });
    assert_eq!(brightness(c, 256), c);
    assert_eq!(brightness(c, 0), Rgb { r: 0, g: 0, b: 0 });
    assert_eq!(brightness(Rgb { r: 255, g: 0, b: 0 }, 255), Rgb { r: 254, g: 0, b: 0 });
}

#[test]
fn brightness_adjustment_applies_multiplier() {
    let dim = BrightnessAdjustment { brightness: 64 };
    assert_eq!(dim.adjust(Rgb { r: 200, g: 100, b: 4 }), Rgb { r: 50, g: 25, b: 1 });
    let full = BrightnessAdjustment { brightness: 255 };
    assert_eq!(full.adjust(Rgb { r: 255, g: 255, b: 255 }), Rgb { r: 254, g: 254, b: 254 });
}
