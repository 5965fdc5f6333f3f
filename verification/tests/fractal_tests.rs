use photopainter::epaper::buffer::DisplayBuffer;
use photopainter::epaper::Rgb888;
use photopainter::graphics::ltree::{
    clamp_depth, draw_ltree, draw_ltree_with_depth, pattern_peony, pattern_snowflake,
    pattern_tree, resolve_iterations, LSystemPattern, Rule, MAX_ITERATION_DEPTH,
};
use photopainter::graphics::trig::{cos_fp, sin_fp};
use rand::rngs::SmallRng;
use rand::SeedableRng;

const RED_IDX: u8 = 4;

fn red() -> Rgb888 {
    Rgb888::new(255, 0, 0)
}

/// A minimal pattern: one forward step of ten pixels, quarter-turn angle.
fn single_step_pattern() -> LSystemPattern {
    LSystemPattern {
        start: vec![b'F'],
        rules: Vec::new(),
        angle_tenths: 900,
        min_iterations: 1,
        max_iterations: 1,
        step_length: 10,
    }
}

/// Counts the pixels holding the given palette index in a window.
fn count_set(buf: &DisplayBuffer, idx: u8, x0: usize, y0: usize, x1: usize, y1: usize) -> usize {
    let mut n = 0;
    for x in x0..=x1 {
        for y in y0..=y1 {
            if buf.get_pixel(x, y) == idx {
                n += 1;
            }
        }
    }
    n
}

#[test]
fn fixed_point_sine_hits_the_cardinal_points() {
    assert_eq!(sin_fp(0), 0);
    assert_eq!(sin_fp(900), 4096);
    assert_eq!(sin_fp(1800), 0);
    assert_eq!(sin_fp(2700), -4096);
    assert_eq!(cos_fp(0), 4096);
    assert_eq!(cos_fp(900), 0);
    assert_eq!(cos_fp(1800), -4096);
    assert_eq!(cos_fp(2700), 0);
    // thirty degrees is exactly one half
    assert_eq!(sin_fp(300), 2048);
    // tenths of a degree interpolate between whole-degree table entries
    assert_eq!(sin_fp(10), 71);
    assert_eq!(sin_fp(15), 107);
}

#[test]
fn single_segment_centers_on_the_anchor() {
    // One upward step of 10 pixels, measured from the origin, has its
    // bounding box centered 5 pixels above the start, so the drawn segment
    // runs from 5 below the anchor to 5 above it.
    let mut buf = DisplayBuffer::new(false);
    let p = single_step_pattern();
    draw_ltree_with_depth(&mut buf, red(), 100, 100, &p, 1);

    for y in 95..=105 {
        assert_eq!(buf.get_pixel(100, y), RED_IDX, "missing pixel at y={y}");
    }
    // exactly one eleven-pixel segment, nothing else in the neighborhood
    assert_eq!(count_set(&buf, RED_IDX, 80, 80, 120, 120), 11);
}

#[test]
fn bracket_restores_the_saved_turtle() {
    // "F[+F]F": up, save, turn, sideways, restore, up again. If the bracket
    // stack failed to save or restore, the final stroke would leave from the
    // sideways branch instead of the trunk.
    let mut buf = DisplayBuffer::new(false);
    let p = LSystemPattern {
        start: vec![b'F', b'[', b'+', b'F', b']', b'F'],
        rules: Vec::new(),
        angle_tenths: 900,
        min_iterations: 1,
        max_iterations: 1,
        step_length: 10,
    };
    draw_ltree_with_depth(&mut buf, red(), 200, 200, &p, 1);

    // trunk: two strokes up at x=195, from y=210 to y=190
    for y in 190..=210 {
        assert_eq!(buf.get_pixel(195, y), RED_IDX, "trunk pixel at y={y}");
    }
    // branch: one stroke to the right at y=200
    for x in 195..=205 {
        assert_eq!(buf.get_pixel(x, 200), RED_IDX, "branch pixel at x={x}");
    }
    // nothing beyond the branch tip: the final stroke left from the trunk
    assert_eq!(buf.get_pixel(205, 195), 0);
    assert_eq!(buf.get_pixel(215, 200), 0);
    assert_eq!(count_set(&buf, RED_IDX, 180, 180, 220, 220), 21 + 10);
}

#[test]
fn reverse_command_turns_half_a_circle() {
    // "F|F": up ten, reverse, back down ten over the same pixels.
    let mut buf = DisplayBuffer::new(false);
    let p = LSystemPattern {
        start: vec![b'F', b'|', b'F'],
        rules: Vec::new(),
        angle_tenths: 900,
        min_iterations: 1,
        max_iterations: 1,
        step_length: 10,
    };
    draw_ltree_with_depth(&mut buf, red(), 100, 100, &p, 1);
    // the two strokes retrace each other: a single 11-pixel column
    assert_eq!(count_set(&buf, RED_IDX, 80, 80, 120, 120), 11);
}

#[test]
fn unknown_symbols_are_placeholders() {
    // "XFX": the X symbols drive nothing without rules
    let mut buf = DisplayBuffer::new(false);
    let p = LSystemPattern {
        start: vec![b'X', b'F', b'X'],
        rules: Vec::new(),
        angle_tenths: 900,
        min_iterations: 1,
        max_iterations: 1,
        step_length: 10,
    };
    draw_ltree_with_depth(&mut buf, red(), 100, 100, &p, 1);
    assert_eq!(count_set(&buf, RED_IDX, 80, 80, 120, 120), 11);
}

#[test]
fn rules_rewrite_symbols() {
    // F -> FF doubles the stroke at depth one: twenty pixels up
    let mut buf = DisplayBuffer::new(false);
    let p = LSystemPattern {
        start: vec![b'F'],
        rules: vec![Rule { symbol: b'F', replacement: vec![b'F', b'F'] }],
        angle_tenths: 900,
        min_iterations: 1,
        max_iterations: 1,
        step_length: 10,
    };
    draw_ltree_with_depth(&mut buf, red(), 100, 100, &p, 1);
    assert_eq!(count_set(&buf, RED_IDX, 60, 60, 140, 140), 21);
    for y in 90..=110 {
        assert_eq!(buf.get_pixel(100, y), RED_IDX);
    }
}

#[test]
fn depth_request_above_ceiling_clamps_and_terminates() {
    assert_eq!(clamp_depth(999), MAX_ITERATION_DEPTH);
    assert_eq!(clamp_depth(3), 3);
    assert_eq!(clamp_depth(10), 10);

    // a self-referencing rule is legal; a depth request of 999 is clamped to
    // the ceiling and still terminates, drawing the same single segment
    let mut buf = DisplayBuffer::new(false);
    let p = LSystemPattern {
        start: vec![b'F'],
        rules: vec![Rule { symbol: b'F', replacement: vec![b'F'] }],
        angle_tenths: 900,
        min_iterations: 999,
        max_iterations: 999,
        step_length: 10,
    };
    let mut rng = SmallRng::seed_from_u64(1);
    let used = draw_ltree(&mut buf, red(), 100, 100, &p, &mut rng);
    assert_eq!(used, 999);
    assert_eq!(count_set(&buf, RED_IDX, 80, 80, 120, 120), 11);
}

#[test]
fn bracket_nesting_beyond_capacity_does_not_crash() {
    // 200 saves overflow the 128-slot stack; the extra saves are dropped and
    // the drawing still terminates
    let mut start = Vec::new();
    for _ in 0..200 {
        start.push(b'[');
    }
    start.push(b'F');
    for _ in 0..200 {
        start.push(b']');
    }
    let p = LSystemPattern {
        start,
        rules: Vec::new(),
        angle_tenths: 900,
        min_iterations: 1,
        max_iterations: 1,
        step_length: 10,
    };
    let mut buf = DisplayBuffer::new(false);
    draw_ltree_with_depth(&mut buf, red(), 100, 100, &p, 1);
    assert_eq!(count_set(&buf, RED_IDX, 80, 80, 120, 120), 11);
}

#[test]
fn empty_start_string_draws_nothing() {
    let mut buf = DisplayBuffer::new(false);
    let p = LSystemPattern {
        start: Vec::new(),
        rules: Vec::new(),
        angle_tenths: 900,
        min_iterations: 1,
        max_iterations: 1,
        step_length: 10,
    };
    draw_ltree_with_depth(&mut buf, red(), 100, 100, &p, 1);
    assert_eq!(count_set(&buf, RED_IDX, 0, 0, 799, 479), 0);
}

#[test]
fn resolved_depth_stays_in_the_requested_range() {
    let p = LSystemPattern {
        start: vec![b'F'],
        rules: Vec::new(),
        angle_tenths: 900,
        min_iterations: 2,
        max_iterations: 5,
        step_length: 1,
    };
    let mut rng = SmallRng::seed_from_u64(42);
    for _ in 0..50 {
        let d = resolve_iterations(&p, &mut rng);
        assert!((2..=5).contains(&d), "depth {d} out of range");
    }
    let fixed = LSystemPattern { min_iterations: 3, max_iterations: 3, ..p };
    assert_eq!(resolve_iterations(&fixed, &mut rng), 3);
}

#[test]
fn predefined_patterns_have_their_published_shapes() {
    let peony = pattern_peony();
    assert_eq!(peony.start, b"XF-XF-XF-XF-XF-XF".to_vec());
    assert_eq!(peony.rules.len(), 2);
    assert_eq!(peony.rules[0].symbol, b'X');
    assert_eq!(peony.rules[0].replacement, b"X+YF++YF-FX--FXFX-YF+".to_vec());
    assert_eq!(peony.rules[1].symbol, b'Y');
    assert_eq!(peony.rules[1].replacement, b"-FX+YFYF++YF+FX--FX+Y".to_vec());
    assert_eq!(
        (peony.angle_tenths, peony.min_iterations, peony.max_iterations, peony.step_length),
        (600, 3, 3, 2)
    );

    let tree = pattern_tree();
    assert_eq!(tree.start, b"X".to_vec());
    assert_eq!(tree.rules[0].replacement, b"F-[[X]+X]+F[+FX]-X".to_vec());
    assert_eq!(tree.rules[1].replacement, b"FF".to_vec());
    assert_eq!(
        (tree.angle_tenths, tree.min_iterations, tree.max_iterations, tree.step_length),
        (225, 5, 5, 2)
    );

    let snow = pattern_snowflake();
    assert_eq!(snow.start, b"F++F++F++F++F++F".to_vec());
    assert_eq!(snow.rules[0].replacement, b"F-F++F-F".to_vec());
    assert_eq!(
        (snow.angle_tenths, snow.min_iterations, snow.max_iterations, snow.step_length),
        (600, 3, 3, 3)
    );
}

#[test]
fn predefined_patterns_render_bounded_artwork() {
    let mut buf = DisplayBuffer::new(false);
    let mut rng = SmallRng::seed_from_u64(7);
    let used = draw_ltree(&mut buf, red(), 400, 240, &pattern_snowflake(), &mut rng);
    assert_eq!(used, 3);
    // the snowflake is drawn and roughly centered: pixels on both sides of
    // the anchor
    assert!(count_set(&buf, RED_IDX, 0, 0, 399, 479) > 50);
    assert!(count_set(&buf, RED_IDX, 400, 0, 799, 479) > 50);
}
