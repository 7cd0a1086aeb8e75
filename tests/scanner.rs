use keyboard_fw::keymap::KeyMap;
use keyboard_fw::report::KeyboardReport;
use keyboard_fw::scanner::{step_key, KeyState, MatrixScanner};
use keyboard_fw::transport::pulse;

use keycode::KeyMappingId;

fn usage(id: KeyMappingId) -> u8 {
    keycode::KeyMap::from(id).usb as u8
}

fn reference_map() -> KeyMap {
    let ids = [
        [KeyMappingId::UsQ, KeyMappingId::UsW, KeyMappingId::UsE, KeyMappingId::UsR, KeyMappingId::UsT],
        [KeyMappingId::UsA, KeyMappingId::UsS, KeyMappingId::UsD, KeyMappingId::UsF, KeyMappingId::UsG],
        [KeyMappingId::UsZ, KeyMappingId::UsX, KeyMappingId::UsC, KeyMappingId::UsV, KeyMappingId::UsB],
        [KeyMappingId::ControlLeft, KeyMappingId::Comma, KeyMappingId::AltLeft, KeyMappingId::Space, KeyMappingId::ControlRight],
    ];
    let mut codes = [[0u8; 5]; 4];
    for r in 0..4 {
        for c in 0..5 {
            codes[r][c] = usage(ids[r][c]);
        }
    }
    KeyMap::new(codes)
}

fn only(row: usize, col: usize) -> [[bool; 5]; 4] {
    let mut s = [[false; 5]; 4];
    s[row][col] = true;
    s
}

const NONE: [[bool; 5]; 4] = [[false; 5]; 4];

/// Runs the scanner over `samples` and returns (tick index, report) pairs.
fn run(scanner: &mut MatrixScanner, samples: &[[[bool; 5]; 4]]) -> Vec<(usize, KeyboardReport)> {
    let mut out = Vec::new();
    for (t, s) in samples.iter().enumerate() {
        for r in scanner.scan(s) {
            out.push((t, r));
        }
    }
    out
}

#[test]
fn reference_map_puts_q_at_origin() {
    let map = reference_map();
    assert_eq!(map.usage(0, 0), 0x14);
    assert_eq!(map.usage(3, 3), 0x2c);
}

#[test]
fn short_press_gives_one_report_then_release() {
    let mut sc = MatrixScanner::new(reference_map());
    let mut samples = vec![only(0, 0); 10];
    samples.extend(vec![NONE; 5]);
    let out = run(&mut sc, &samples);
    assert_eq!(out.len(), 1);
    assert_eq!(out[0].0, 0);
    assert_eq!(out[0].1, KeyboardReport::key(0x14));
    assert_eq!(out[0].1.keycodes, [0x14, 0, 0, 0, 0, 0]);
    let wire = pulse(out[0].1);
    assert_eq!(wire[0].to_bytes(), [0, 0, 0x14, 0, 0, 0, 0, 0]);
    assert!(wire[1].is_zero());
}

#[test]
fn hold_of_500_ms_repeats_at_400_440_480() {
    let mut sc = MatrixScanner::new(reference_map());
    // Samples at t = 0, 20, ..., 500 ms.
    let samples = vec![only(0, 0); 26];
    let out = run(&mut sc, &samples);
    let times: Vec<usize> = out.iter().map(|(t, _)| t * 20).collect();
    assert_eq!(times, vec![0, 400, 440, 480]);
    for (_, r) in &out {
        assert_eq!(*r, KeyboardReport::key(0x14));
    }
}

#[test]
fn hold_repeat_count_matches_formula() {
    for ticks in [20usize, 21, 22, 25, 30, 47, 100] {
        let mut sc = MatrixScanner::new(reference_map());
        let samples = vec![only(1, 2); ticks + 1];
        let out = run(&mut sc, &samples);
        let h = 20 * ticks;
        let repeats = (h - 400) / 40 + 1;
        assert_eq!(out.len(), 1 + repeats, "hold of {} ms", h);
        for (t, _) in out.iter().skip(1) {
            let hold = t * 20;
            assert!(hold >= 400 && (hold - 400) % 40 == 0);
        }
    }
}

#[test]
fn press_edge_reports_key_of_its_cell() {
    let map = reference_map();
    let mut sc = MatrixScanner::new(map);
    let out = sc.scan(&only(2, 4));
    assert_eq!(out.len(), 1);
    assert_eq!(out[0], KeyboardReport::key(usage(KeyMappingId::UsB)));
    assert_eq!(sc.keys[2][4], KeyState { pressed: true, hold_time_ms: 0 });
}

#[test]
fn two_press_edges_report_in_row_major_order() {
    let mut sc = MatrixScanner::new(reference_map());
    let mut s = only(1, 0);
    s[0][4] = true;
    let out = sc.scan(&s);
    assert_eq!(out, vec![KeyboardReport::key(0x17), KeyboardReport::key(0x04)]);
}

#[test]
fn release_resets_hold_and_restarts_counting() {
    let mut sc = MatrixScanner::new(reference_map());
    let mut samples = vec![only(0, 1); 30];
    samples.push(NONE);
    let first = run(&mut sc, &samples);
    assert_eq!(first.len(), 1 + 5);
    assert_eq!(sc.keys[0][1], KeyState { pressed: false, hold_time_ms: 0 });
    let again = run(&mut sc, &vec![only(0, 1); 20]);
    assert_eq!(again.len(), 1);
    assert_eq!(again[0].0, 0);
}

#[test]
fn step_key_transitions() {
    let up = KeyState { pressed: false, hold_time_ms: 0 };
    let (k, e) = step_key(up, true);
    assert!(e);
    assert_eq!(k, KeyState { pressed: true, hold_time_ms: 0 });
    let (k, e) = step_key(KeyState { pressed: true, hold_time_ms: 380 }, true);
    assert!(e);
    assert_eq!(k.hold_time_ms, 400);
    let (k, e) = step_key(KeyState { pressed: true, hold_time_ms: 400 }, true);
    assert!(!e);
    assert_eq!(k.hold_time_ms, 420);
    let (k, e) = step_key(KeyState { pressed: true, hold_time_ms: 1000 }, false);
    assert!(!e);
    assert_eq!(k, up);
    let (k, e) = step_key(KeyState { pressed: true, hold_time_ms: u64::MAX - 5 }, true);
    assert_eq!(k.hold_time_ms, u64::MAX);
    assert!(!e);
}

#[test]
fn scan_run_matches_tick_by_tick_scans() {
    let mut grids = vec![NONE; 3];
    grids.extend(vec![only(0, 0); 26]);
    grids.extend(vec![NONE; 4]);
    let mut a = MatrixScanner::new(reference_map());
    let all = a.scan_run(&grids);
    assert_eq!(all, vec![KeyboardReport::key(0x14); 4]);
    let mut b = MatrixScanner::new(reference_map());
    let ticks: Vec<KeyboardReport> = run(&mut b, &grids).into_iter().map(|(_, r)| r).collect();
    assert_eq!(all, ticks);
    assert_eq!(a.keys, b.keys);
}

#[test]
fn history_before_a_full_release_does_not_matter() {
    let mut later = vec![NONE];
    later.extend(vec![only(3, 3); 25]);
    let mut long_hold = vec![only(3, 3); 40];
    long_hold.extend(later.clone());
    let mut fresh = vec![NONE; 40];
    fresh.extend(later.clone());
    let mut a = MatrixScanner::new(reference_map());
    let mut b = MatrixScanner::new(reference_map());
    let ra: Vec<(usize, KeyboardReport)> = run(&mut a, &long_hold).into_iter().filter(|(t, _)| *t > 40).collect();
    let rb: Vec<(usize, KeyboardReport)> = run(&mut b, &fresh).into_iter().filter(|(t, _)| *t > 40).collect();
    assert_eq!(ra, rb);
    let times: Vec<usize> = ra.iter().map(|(t, _)| t - 41).collect();
    assert_eq!(times, vec![0, 20, 22, 24]);
}
