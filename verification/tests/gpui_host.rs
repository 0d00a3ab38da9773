use lib::gpui_host::{GpuiHostedView, OpenStep};

#[test]
fn open_launches_at_the_negotiated_size_once_parented() {
    let mut view = GpuiHostedView::new(800, 500).with_size_contract((400, 250), (800, 500), (1200, 750));
    assert_eq!(view.open_step(), OpenStep::Done(false));
    view.set_parent();
    view.request_resize(2000, 2000);
    assert_eq!(view.open_step(), OpenStep::Launch((1200, 750)));
    assert!(view.finish_open((1200, 750), true));
    assert_eq!(view.open_step(), OpenStep::Done(true));
    assert!(view.show());
    assert_eq!(view.last_logical_size(), Some((1200, 750)));
    view.close();
    assert!(!view.show());
    assert_eq!(view.last_logical_size(), Some((1200, 750)));
}

#[test]
fn failed_launch_changes_nothing() {
    let mut view = GpuiHostedView::new(800, 500);
    view.set_parent();
    let step = view.open_step();
    assert_eq!(step, OpenStep::Launch((800, 500)));
    assert!(!view.finish_open((800, 500), false));
    assert_eq!(view.open_step(), step);
    assert!(!view.show());
}

#[test]
fn fixed_aspect_views_negotiate_whole_multiples_of_the_ratio() {
    let mut view = GpuiHostedView::new(800, 500)
        .with_size_contract((400, 250), (800, 500), (1200, 750))
        .with_fixed_aspect_ratio();
    assert_eq!(view.aspect_ratio_hint(), Some((800, 500)));
    view.request_resize(407, 900);
    assert_eq!(view.last_logical_size(), Some((400, 250)));
    assert_eq!(view.constrain_logical_size((1000, 1000)), (1000, 625));
    let free = GpuiHostedView::new(800, 500);
    assert_eq!(free.aspect_ratio_hint(), None);
    assert_eq!(free.constrain_logical_size((0, 7)), (1, 7));
}

#[test]
fn new_views_clamp_zero_sizes() {
    let mut view = GpuiHostedView::new(0, 0);
    assert_eq!(view.last_logical_size(), Some((1, 1)));
    view.set_callback_keyboard_mode(true);
    view.set_parent();
    assert_eq!(view.open_step(), OpenStep::Launch((1, 1)));
}
