use rusty_matrix::rain::{
    find_arg, regenerate, rng, Color, Context, HEAD, KATAKANA_GLYPHS, LOWER_GLYPHS, SYMBOL_GLYPHS,
    SYM_FALLOFF, UPPER_GLYPHS,
};

fn sized(cols: u16, rows: u16) -> Context {
    let mut ctx = Context::new();
    ctx.renew([cols, rows]);
    ctx
}

/// Spawns a head in column `col` of a zero buffer and lets it fade `steps` times in place.
fn faded_head(cols: u16, rows: u16, col: usize, steps: usize) -> Context {
    let mut ctx = sized(cols, rows);
    let mut spawn = vec![false; cols as usize];
    spawn[col] = true;
    ctx.regenerate_top(&spawn, &vec![true; cols as usize]);
    for _ in 0..steps {
        ctx.regenerate_top(&vec![false; cols as usize], &vec![true; cols as usize]);
    }
    ctx
}

#[test]
fn new_context_is_empty() {
    let ctx = Context::new();
    assert_eq!(ctx.size(), [0, 0]);
    assert!(ctx.cells().is_empty());
    assert_eq!(ctx.frame(), "");
}

#[test]
fn color_default_is_terminal_default() {
    assert_eq!(Color::default(), Color::Default);
}

#[test]
fn resize_gives_all_zero_buffer_of_area() {
    for (w, h) in [(1u16, 1u16), (3, 2), (80, 24), (7, 13)] {
        let mut ctx = faded_head(2, 2, 0, 3);
        ctx.renew([w, h]);
        assert_eq!(ctx.size(), [w, h]);
        assert_eq!(ctx.cells().len(), w as usize * h as usize);
        assert!(ctx.cells().iter().all(|&c| c == 0));
    }
}

#[test]
fn same_size_keeps_buffer() {
    let mut ctx = faded_head(3, 2, 1, 2);
    let before = ctx.cells().clone();
    ctx.renew([3, 2]);
    assert_eq!(ctx.cells(), &before);
    assert_eq!(before, vec![0, 245, 0, 0, 0, 0]);
}

#[test]
fn resize_after_content_resets() {
    let mut ctx = faded_head(3, 2, 1, 0);
    ctx.renew([3, 3]);
    assert_eq!(ctx.cells(), &vec![0; 9]);
    ctx.renew([0, 5]);
    assert!(ctx.cells().is_empty());
}

#[test]
fn zero_sized_terminal_is_a_no_op() {
    let mut ctx = sized(4, 0);
    ctx.advance();
    ctx.print([4, 0]);
    assert!(ctx.cells().is_empty());
    assert_eq!(ctx.frame(), "\x1b[H");
    let mut ctx = sized(0, 3);
    ctx.print([0, 3]);
    assert!(ctx.cells().is_empty());
}

#[test]
fn shift_copies_each_row_from_the_one_above() {
    let mut ctx = sized(2, 3);
    ctx.advance_with(&vec![true, false], &vec![true, true]);
    ctx.advance_with(&vec![false, true], &vec![true, true]);
    assert_eq!(ctx.cells(), &vec![250, 255, 255, 0, 0, 0]);
    ctx.shift_down();
    assert_eq!(ctx.cells(), &vec![250, 255, 250, 255, 255, 0]);
    ctx.shift_down();
    assert_eq!(ctx.cells(), &vec![250, 255, 250, 255, 250, 255]);
}

#[test]
fn regenerate_rule() {
    assert_eq!(regenerate(0, true, false), 255);
    assert_eq!(regenerate(0, false, true), 0);
    assert_eq!(regenerate(255, true, false), 255 - SYM_FALLOFF);
    assert_eq!(regenerate(255, false, true), 250);
    assert_eq!(regenerate(100, false, true), 95);
    assert_eq!(regenerate(100, true, true), 95);
    assert_eq!(regenerate(100, false, false), 0);
    assert_eq!(regenerate(SYM_FALLOFF, false, true), 0);
    assert_eq!(regenerate(3, true, true), 0);
    assert_eq!(regenerate(1, false, true), 0);
}

#[test]
fn head_fades_by_falloff_each_tick() {
    let mut ctx = sized(2, 2);
    ctx.advance_with(&vec![false, true], &vec![false, false]);
    let mut expected = HEAD as i32;
    while expected >= 0 {
        assert_eq!(ctx.cells()[1] as i32, expected);
        ctx.advance_with(&vec![false, false], &vec![true, true]);
        expected -= SYM_FALLOFF as i32;
    }
    assert_eq!(ctx.cells()[1], 0);
}

#[test]
fn render_does_not_depend_on_glyphs_for_state() {
    let mut a = faded_head(3, 2, 0, 20);
    let mut b = faded_head(3, 2, 0, 20);
    a.render_with(&vec!['x'; 6]);
    b.render_with(&vec!['Q'; 6]);
    assert_eq!(a.cells(), b.cells());
    assert_ne!(a.frame(), b.frame());
    let coins = vec![true, false, true];
    a.advance_with(&coins, &coins);
    b.advance_with(&coins, &coins);
    assert_eq!(a.cells(), b.cells());
}

#[test]
fn render_with_exact_text() {
    let mut ctx = sized(3, 2);
    ctx.advance_with(&vec![true, false, false], &vec![false; 3]);
    ctx.render_with(&vec!['a', 'b', 'c', 'd', 'e', 'f']);
    assert_eq!(ctx.frame(), "\x1b[H\x1b[97ma     ");
    ctx.advance_with(&vec![false, false, true], &vec![true; 3]);
    assert_eq!(ctx.cells(), &vec![250, 0, 255, 255, 0, 0]);
    ctx.render_with(&vec!['a', 'b', 'c', 'd', 'e', 'f']);
    assert_eq!(ctx.frame(), "\x1b[H\x1b[92ma \x1b[97mc\x1b[97md  ");
}

#[test]
fn render_colors_by_intensity() {
    // 255 - 20 * 5 = 155: dim trail.
    let mut ctx = faded_head(2, 1, 0, 20);
    assert_eq!(ctx.cells(), &vec![155, 0]);
    ctx.render_with(&vec!['z', 'y']);
    assert_eq!(ctx.frame(), "\x1b[H\x1b[32mz ");
    ctx.red_fg();
    ctx.render_with(&vec!['z', 'y']);
    assert_eq!(ctx.frame(), "\x1b[H\x1b[31mz ");
    // 255 - 5 = 250: bright trail.
    let mut ctx = faded_head(2, 1, 1, 1);
    ctx.red_fg();
    ctx.render_with(&vec!['z', 'y']);
    assert_eq!(ctx.frame(), "\x1b[H \x1b[91my");
    // 255 - 50 * 5 = 5: still visible; 0 is blank.
    let mut ctx = faded_head(2, 1, 1, 50);
    assert_eq!(ctx.cells(), &vec![0, 5]);
    ctx.render_with(&vec!['z', 'y']);
    assert_eq!(ctx.frame(), "\x1b[H \x1b[32my");
}

#[test]
fn render_draws_glyphs_from_the_alphabet() {
    let mut ctx = faded_head(3, 1, 1, 0);
    ctx.render();
    let frame: Vec<char> = ctx.frame().chars().collect();
    let head: String = "\x1b[H \x1b[97m".to_string();
    assert_eq!(frame.len(), head.chars().count() + 2);
    assert!(ctx.frame().starts_with(&head));
    let g = frame[frame.len() - 2];
    assert!(LOWER_GLYPHS.contains(g) || UPPER_GLYPHS.contains(g) || SYMBOL_GLYPHS.contains(g));
    assert_eq!(frame[frame.len() - 1], ' ');

    let mut ctx = faded_head(3, 1, 1, 0);
    ctx.jap_glyph();
    ctx.render();
    let frame: Vec<char> = ctx.frame().chars().collect();
    assert!(KATAKANA_GLYPHS.contains(frame[frame.len() - 2]));
}

#[test]
fn frame_is_rebuilt_each_render() {
    let mut ctx = sized(2, 1);
    ctx.render();
    ctx.render();
    assert_eq!(ctx.frame(), "\x1b[H  ");
}

#[test]
fn advance_on_zero_buffer_scenario() {
    let mut ctx = sized(3, 2);
    ctx.advance();
    let cells = ctx.cells();
    assert_eq!(cells.len(), 6);
    assert!(cells[0..3].iter().all(|&c| c == 0 || c == 255));
    assert_eq!(&cells[3..6], &[0, 0, 0]);
}

#[test]
fn advance_with_on_zero_buffer_scenario() {
    let mut ctx = sized(3, 2);
    ctx.advance_with(&vec![true, false, true], &vec![true, true, false]);
    assert_eq!(ctx.cells(), &vec![255, 0, 255, 0, 0, 0]);
}

#[test]
fn head_row_scenario() {
    let mut ctx = sized(3, 2);
    ctx.advance_with(&vec![true, false, false], &vec![false; 3]);
    assert_eq!(ctx.cells(), &vec![255, 0, 0, 0, 0, 0]);
    ctx.shift_down();
    assert_eq!(&ctx.cells()[3..6], &[255, 0, 0]);
    ctx.regenerate_top(&vec![false; 3], &vec![false; 3]);
    assert_eq!(ctx.cells(), &vec![250, 0, 0, 255, 0, 0]);
    // Whatever the coins, the 255 branch wins.
    let mut ctx = sized(3, 2);
    ctx.advance_with(&vec![true, false, false], &vec![false; 3]);
    ctx.advance_with(&vec![true, true, true], &vec![true; 3]);
    assert_eq!(ctx.cells(), &vec![250, 255, 255, 255, 0, 0]);
}

#[test]
fn random_advance_spawns_heads_eventually() {
    let mut ctx = sized(40, 3);
    let mut seen_head = false;
    for _ in 0..200 {
        ctx.advance();
        for &c in ctx.cells().iter() {
            assert!(c == 0 || c == 255 || c % SYM_FALLOFF == 0);
        }
        if ctx.cells()[0..40].iter().any(|&c| c == 255) {
            seen_head = true;
        }
    }
    assert!(seen_head);
}

#[test]
fn print_resizes_renders_then_advances() {
    let mut ctx = Context::new();
    ctx.print([4, 3]);
    assert_eq!(ctx.size(), [4, 3]);
    assert_eq!(ctx.frame(), "\x1b[H            ");
    assert_eq!(ctx.cells().len(), 12);
    assert!(ctx.cells()[4..12].iter().all(|&c| c == 0));
    ctx.print([2, 2]);
    assert_eq!(ctx.frame(), "\x1b[H    ");
    assert_eq!(ctx.cells().len(), 4);
}

#[test]
fn find_arg_skips_program_name() {
    let args: Vec<String> = vec!["-r".to_string(), "-j".to_string(), "-r".to_string()];
    assert_eq!(find_arg(&args, "-r"), Some(2));
    assert_eq!(find_arg(&args, "-j"), Some(1));
    assert_eq!(find_arg(&args, "-h"), None);
    assert_eq!(find_arg(&Vec::new(), "-h"), None);
}

#[test]
fn rng_values() {
    assert_eq!(rng(42, 7), 4074735904);
    assert_eq!(rng(42, 0), 35104);
    assert_eq!(rng(u32::MAX, u32::MAX), 1872148911);
    assert_eq!(rng(1, 1), 2422818384);
}
