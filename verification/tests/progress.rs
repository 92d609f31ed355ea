use cli_core::progress::{
    bar_glyph, create_progress_bar, eta_deci, filled_width, finish_progress, get_progress_bar,
    percent, render_line, speed_centi, update_progress, ProgressBar, ProgressRegistry, BAR_WIDTH,
};

#[test]
fn create_issues_contiguous_handles() {
    let mut reg = ProgressRegistry::new();
    // two "workers" of three creations each, interleaved
    let mut handles = Vec::new();
    for _ in 0..3 {
        handles.push(create_progress_bar(&mut reg, 10));
        handles.push(create_progress_bar(&mut reg, 20));
    }
    assert_eq!(handles, vec![0, 1, 2, 3, 4, 5]);
    assert_eq!(reg.bar_count(), 6);
    for i in 0..6 {
        for j in 0..6 {
            if i != j {
                assert_ne!(handles[i], handles[j]);
            }
        }
    }
}

#[test]
fn update_clamps_to_total() {
    let mut reg = ProgressRegistry::new();
    let h = create_progress_bar(&mut reg, 100);
    assert!(update_progress(&mut reg, h, 999, None));
    let bar = get_progress_bar(&reg, h).unwrap();
    assert_eq!(bar.current(), 100);
}

#[test]
fn update_stores_min_of_request_and_total() {
    let mut reg = ProgressRegistry::new();
    let h = create_progress_bar(&mut reg, 100);
    assert!(update_progress(&mut reg, h, 37, None));
    assert_eq!(get_progress_bar(&reg, h).unwrap().current(), 37);
    assert!(update_progress(&mut reg, h, 100, None));
    assert_eq!(get_progress_bar(&reg, h).unwrap().current(), 100);
}

#[test]
fn increment_equals_update_of_sum() {
    let mut a = ProgressBar::new(50);
    let mut b = ProgressBar::new(50);
    a.update(20);
    b.update(20);
    a.increment(15);
    b.update(20 + 15);
    assert_eq!(a.current(), b.current());
    assert_eq!(a.current(), 35);
    // overflow beyond the target falls to the clamp
    a.increment(u64::MAX);
    b.update(50);
    assert_eq!(a.current(), b.current());
    assert_eq!(a.current(), 50);
}

#[test]
fn finish_is_idempotent() {
    let mut reg = ProgressRegistry::new();
    let h = create_progress_bar(&mut reg, 80);
    assert!(update_progress(&mut reg, h, 10, None));
    assert!(finish_progress(&mut reg, h, Some("done")));
    {
        let bar = get_progress_bar(&reg, h).unwrap();
        assert_eq!(bar.current(), 80);
        assert!(bar.is_finished());
    }
    assert!(finish_progress(&mut reg, h, Some("again")));
    {
        let bar = get_progress_bar(&reg, h).unwrap();
        assert_eq!(bar.current(), 80);
        assert!(bar.is_finished());
        assert_eq!(bar.message().as_str(), "again");
    }
}

#[test]
fn finish_without_message_uses_default() {
    let mut reg = ProgressRegistry::new();
    let h = create_progress_bar(&mut reg, 5);
    assert!(finish_progress(&mut reg, h, None));
    let bar = get_progress_bar(&reg, h).unwrap();
    assert_eq!(bar.message().as_str(), "完了！");
}

#[test]
fn unknown_handle_is_rejected_without_effect() {
    let mut reg = ProgressRegistry::new();
    assert!(!update_progress(&mut reg, 42, 10, Some("x")));
    assert!(!finish_progress(&mut reg, 42, None));
    assert_eq!(reg.bar_count(), 0);
    let h = create_progress_bar(&mut reg, 10);
    assert!(!update_progress(&mut reg, h + 1, 10, None));
    let bar = get_progress_bar(&reg, h).unwrap();
    assert_eq!(bar.current(), 0);
    assert!(!bar.is_finished());
}

#[test]
fn zero_total_is_immediately_complete() {
    let mut reg = ProgressRegistry::new();
    let h = create_progress_bar(&mut reg, 0);
    let bar = get_progress_bar(&reg, h).unwrap();
    assert_eq!(percent(bar.current(), bar.total()), 100);
    assert!(!bar.is_finished());
}

#[test]
fn full_scenario_create_update_finish() {
    let mut reg = ProgressRegistry::new();
    let h = create_progress_bar(&mut reg, 100);
    assert_eq!(h, 0);
    assert!(update_progress(&mut reg, 0, 50, Some("halfway")));
    {
        let bar = get_progress_bar(&reg, 0).unwrap();
        assert_eq!(percent(bar.current(), bar.total()), 50);
        assert_eq!(bar.message().as_str(), "halfway");
    }
    assert!(finish_progress(&mut reg, 0, Some("done")));
    {
        let bar = get_progress_bar(&reg, 0).unwrap();
        assert_eq!(bar.current(), 100);
        assert!(bar.is_finished());
        assert_eq!(bar.message().as_str(), "done");
    }
}

#[test]
fn fresh_registry_rejects_any_handle() {
    let mut reg = ProgressRegistry::new();
    assert!(!update_progress(&mut reg, 42, 1, None));
}

#[test]
fn percent_rounds_to_nearest() {
    assert_eq!(percent(1, 3), 33);
    assert_eq!(percent(2, 3), 67);
    assert_eq!(percent(1, 2), 50);
    assert_eq!(percent(0, 7), 0);
    assert_eq!(percent(7, 7), 100);
    assert_eq!(percent(0, 0), 100);
    assert_eq!(percent(1, 200), 1);
    assert_eq!(percent(1, 201), 0);
}

#[test]
fn filled_width_rounds_and_caps() {
    assert_eq!(filled_width(50, 30), 15);
    assert_eq!(filled_width(100, 30), 30);
    assert_eq!(filled_width(0, 30), 0);
    assert_eq!(filled_width(33, 30), 10);
    assert_eq!(filled_width(67, 30), 20);
    assert_eq!(filled_width(5, 30), 2);
}

#[test]
fn speed_and_eta_formulae() {
    assert_eq!(speed_centi(50, 10), 500);
    assert_eq!(speed_centi(1, 3), 33);
    assert_eq!(speed_centi(7, 0), 0);
    assert_eq!(eta_deci(100, 50, 10), 100);
    assert_eq!(eta_deci(100, 100, 10), 0);
    assert_eq!(eta_deci(100, 0, 10), 0);
    assert_eq!(eta_deci(100, 50, 0), 0);
}

#[test]
fn bar_glyph_shape() {
    assert_eq!(bar_glyph(15, 30), "===============>              ");
    assert_eq!(bar_glyph(30, 30), "==============================");
    assert_eq!(bar_glyph(0, 30), ">                             ");
    assert_eq!(bar_glyph(29, 30), "=============================>");
}

#[test]
fn rendered_line_exact_text() {
    let line = render_line("•", 50, 100, BAR_WIDTH, "halfway", 10);
    assert_eq!(
        line,
        "• 50% [===============>              ] 50/100 [5.00/s, ETA: 10.0s] halfway"
    );
}

#[test]
fn rendered_line_finished_shape() {
    let line = render_line("✓", 4, 4, 4, "done", 2);
    assert_eq!(line, "✓ 100% [====] 4/4 [2.00/s, ETA: 0.0s] done");
}

#[test]
fn rendered_line_pads_fractions() {
    // 1 count in 3 s: 0.33.. per second -> "0.33"; eta (4-1)/(1/3) = 9 s
    let line = render_line("•", 1, 4, 4, "", 3);
    assert_eq!(line, "• 25% [=>  ] 1/4 [0.33/s, ETA: 9.0s] ");
}

#[test]
fn new_bar_starts_empty_and_running() {
    let bar = ProgressBar::new(12);
    assert_eq!(bar.total(), 12);
    assert_eq!(bar.current(), 0);
    assert_eq!(bar.width(), BAR_WIDTH);
    assert_eq!(bar.message().as_str(), "");
    assert!(!bar.is_finished());
}

#[test]
fn set_message_replaces_only_message() {
    let mut bar = ProgressBar::new(9);
    bar.update(4);
    bar.set_message("working");
    assert_eq!(bar.message().as_str(), "working");
    assert_eq!(bar.current(), 4);
    assert_eq!(bar.total(), 9);
    assert!(!bar.is_finished());
}
