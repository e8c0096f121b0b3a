use galar::engine::{ConfigGalar, FrameMode, Galar, PluginGalar};

const RED: u32 = 0xFFFF0000;

/// A plugin that paints one filled rectangle every update.
struct RectPlugin;

impl PluginGalar for RectPlugin {
    fn update(&mut self, config: &mut ConfigGalar) {
        config.draw_rect(2, 2, 3, 3, RED);
    }
}

/// A plugin that paints a different pixel on every update, and marks its
/// init and cleanup calls on the canvas.
struct CountingPlugin {
    updates: usize,
}

impl PluginGalar for CountingPlugin {
    fn update(&mut self, config: &mut ConfigGalar) {
        config.draw_pixel(self.updates, 0, RED);
        self.updates += 1;
    }

    fn init(&mut self, config: &mut ConfigGalar) {
        config.draw_pixel(9, 9, 0xFF0000AA);
    }

    fn cleanup(&mut self, config: &mut ConfigGalar) {
        config.draw_pixel(9, 8, 0xFF0000BB);
    }

    fn name(&self) -> &str {
        "counter"
    }
}

#[test]
fn one_continuous_tick_paints_the_rect() {
    // A 10 by 10 canvas with black background and one plugin drawing a
    // filled 3 by 3 rectangle at (2, 2): after one continuous-mode tick the
    // rectangle's pixels are red and everything else is background.
    let mut g = Galar::new(10, 10);
    g.add_plugin(RectPlugin);
    g.tick();
    for y in 0..10 {
        for x in 0..10 {
            let expected = if (2..5).contains(&x) && (2..5).contains(&y) { RED } else { 0 };
            let (w, _) = g.size();
            assert_eq!(g.buffer()[y * w + x], expected, "pixel ({}, {})", x, y);
        }
    }
}

#[test]
fn single_step_pauses_after_one_pass() {
    // In SingleStep mode the first tick runs one plugin pass; the second
    // tick runs nothing, so the buffer stays byte-identical.
    let mut g = Galar::new(10, 10);
    g.add_plugin(CountingPlugin { updates: 0 });
    g.nonloop();
    g.tick();
    let after_first = g.buffer().clone();
    // The plugin ran exactly once: pixel (0,0) painted, pixel (1,0) not.
    assert_eq!(after_first[0], RED);
    assert_eq!(after_first[1], 0);
    g.tick();
    assert_eq!(g.buffer(), &after_first);
    g.tick();
    assert_eq!(g.buffer(), &after_first);
}

#[test]
fn continuous_ticks_keep_updating() {
    let mut g = Galar::new(10, 10).with_clean_pixels(false);
    g.add_plugin(CountingPlugin { updates: 0 });
    g.tick();
    g.tick();
    assert_eq!(g.buffer()[0], RED);
    assert_eq!(g.buffer()[1], RED);
    assert_eq!(g.buffer()[2], 0);
}

#[test]
fn init_runs_once_at_registration() {
    let mut g = Galar::new(10, 10);
    g.add_plugin(CountingPlugin { updates: 0 });
    let (w, _) = g.size();
    // init painted (9,9) before any tick.
    assert_eq!(g.buffer()[9 * w + 9], 0xFF0000AA);
    // No update ran yet.
    assert_eq!(g.buffer()[0], 0);
}

#[test]
fn cleanup_all_runs_each_plugin() {
    let mut g = Galar::new(10, 10);
    g.add_plugin(CountingPlugin { updates: 0 });
    g.cleanup_all();
    let (w, _) = g.size();
    assert_eq!(g.buffer()[8 * w + 9], 0xFF0000BB);
}

#[test]
fn clean_flag_clears_between_ticks() {
    // With clearing on, a mark from the previous frame disappears at the
    // next active tick; with clearing off it persists.
    let mut g = Galar::new(10, 10);
    g.add_plugin(CountingPlugin { updates: 0 });
    g.tick();
    g.tick();
    // Clearing on: pixel (0,0) from the first pass was wiped; the second
    // pass painted (1,0).
    assert_eq!(g.buffer()[0], 0);
    assert_eq!(g.buffer()[1], RED);
}

#[test]
fn plugin_count_and_running_flags() {
    let mut g = Galar::new(4, 4);
    assert_eq!(g.plugin_count(), 0);
    assert!(!g.is_running());
    g.add_plugin(RectPlugin);
    assert_eq!(g.plugin_count(), 1);
    g.start();
    assert!(g.is_running());
    g.stop();
    assert!(!g.is_running());
}

#[test]
fn with_clean_pixels_builder() {
    let g = Galar::new(4, 4).with_clean_pixels(false);
    let _ = g;
}

/// A plugin that copies the input snapshot onto the canvas: one pixel when a
/// given key is down, one at the cursor, one when the display is closed.
struct InputProbePlugin;

impl PluginGalar for InputProbePlugin {
    fn update(&mut self, config: &mut ConfigGalar) {
        if config.is_key_down(32) {
            config.draw_pixel(0, 0, RED);
        }
        if let Some((mx, my)) = config.get_mouse_position() {
            let x = (mx / galar::fixed::FX_ONE) as usize;
            let y = (my / galar::fixed::FX_ONE) as usize;
            config.draw_pixel(x, y, 0xFF00FF00);
        }
        if !config.is_open() {
            config.draw_pixel(9, 0, 0xFF0000CC);
        }
    }
}

#[test]
fn input_snapshot_reaches_plugins() {
    let fx = galar::fixed::FX_ONE;
    let mut g = Galar::new(10, 10);
    g.add_plugin(InputProbePlugin);
    g.set_input_state(vec![7, 32], Some((4 * fx, 5 * fx)), true);
    g.tick();
    let (w, _) = g.size();
    assert_eq!(g.buffer()[0], RED);
    assert_eq!(g.buffer()[5 * w + 4], 0xFF00FF00);
    assert_eq!(g.buffer()[9], 0);
}

#[test]
fn input_snapshot_key_absent_and_display_closed() {
    let mut g = Galar::new(10, 10);
    g.add_plugin(InputProbePlugin);
    g.set_input_state(vec![7, 9], None, false);
    g.tick();
    let (w, _) = g.size();
    assert_eq!(g.buffer()[0], 0);
    assert_eq!(g.buffer()[9], 0xFF0000CC);
    let _ = w;
}

#[test]
fn fresh_engine_reports_no_input() {
    let g = Galar::new(4, 4);
    let _ = g;
    let c = ConfigGalar::new(4, 4);
    assert!(!c.is_key_down(32));
    assert_eq!(c.get_mouse_position(), None);
    assert!(c.is_open());
}

#[test]
fn frame_mode_values_are_distinct() {
    assert_ne!(FrameMode::Continuous, FrameMode::Paused);
    assert_ne!(FrameMode::SingleStep, FrameMode::Paused);
    assert_ne!(FrameMode::Continuous, FrameMode::SingleStep);
}
