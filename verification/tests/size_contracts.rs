use lib::size_contract::{ceil_div, gcd, EditorSizeContract, GpuiSizeContract};

#[test]
fn size_contract_keeps_free_aspect_requests_independent() {
    let contract = GpuiSizeContract::new((800, 500), (400, 250), (1200, 750));
    assert_eq!(contract.constrain((900, 700)), (900, 700));
    assert_eq!(contract.constrain((200, 1)), (400, 250));
    assert_eq!(contract.constrain((2000, 2000)), (1200, 750));
}

#[test]
fn fixed_aspect_contract_uses_preferred_ratio_inside_bounds() {
    let contract = GpuiSizeContract::new((800, 500), (400, 250), (1200, 750));
    assert_eq!(contract.constrain_fixed_aspect((800, 700)), (800, 500));
    assert_eq!(contract.constrain_fixed_aspect((300, 200)), (400, 250));
    assert_eq!(contract.constrain_fixed_aspect((2000, 2000)), (1200, 750));
    let adjusted = contract.constrain_fixed_aspect((407, 255));
    assert_eq!(adjusted, (400, 250));
    assert_eq!(contract.constrain_fixed_aspect(adjusted), adjusted);
}

#[test]
fn size_contract_orders_bounds_and_preserves_default() {
    let contract = EditorSizeContract::new((912, 684), (720, 540), (1440, 1080));
    assert_eq!(contract.constrain((1, 1)), (720, 540));
    assert_eq!(contract.constrain((912, 684)), (912, 684));
    assert_eq!(contract.constrain((5000, 5000)), (1440, 1080));
}

#[test]
fn size_contract_preserves_aspect_with_asymmetric_bounds() {
    let contract = EditorSizeContract::new((1000, 500), (500, 400), (2000, 1200));
    assert_eq!(contract.constrain((1, 1)), (800, 400));
    assert_eq!(contract.constrain((2000, 400)), (800, 400));
    assert_eq!(contract.constrain((2000, 1000)), (2000, 1000));
    assert_eq!(contract.constrain((5000, 5000)), (2000, 1000));
}

#[test]
fn gpui_contract_orders_inverted_bounds_around_preferred() {
    let contract = GpuiSizeContract::new((800, 500), (1200, 750), (400, 250));
    assert!(contract.minimum.0 <= contract.preferred.0);
    assert!(contract.preferred.0 <= contract.maximum.0);
    assert!(contract.minimum.1 <= contract.preferred.1);
    assert!(contract.preferred.1 <= contract.maximum.1);
}

#[test]
fn fixed_aspect_results_stay_within_bounds_and_ratio() {
    let contract = GpuiSizeContract::new((800, 500), (400, 250), (1200, 750));
    for request in [(1, 1), (401, 9000), (999, 3), (1199, 749), (u32::MAX, u32::MAX)] {
        let (w, h) = contract.constrain_fixed_aspect(request);
        assert!(400 <= w && w <= 1200, "{request:?}");
        assert!(250 <= h && h <= 750, "{request:?}");
        assert_eq!(w as u64 * 5, h as u64 * 8, "{request:?}");
        assert_eq!(contract.constrain_fixed_aspect((w, h)), (w, h));
    }
}

#[test]
fn free_aspect_results_are_idempotent() {
    let contract = GpuiSizeContract::new((800, 500), (400, 250), (1200, 750));
    for request in [(0, 0), (500, 900), (1300, 300)] {
        let once = contract.constrain(request);
        assert_eq!(contract.constrain(once), once);
    }
}

#[test]
fn editor_contract_keeps_default_and_stays_in_bounds() {
    let contract = EditorSizeContract::new((912, 684), (720, 540), (1440, 1080));
    assert_eq!(contract.constrain(contract.default), contract.default);
    for request in [(0, 0), (100, 5000), (5000, 100), (1000, 700)] {
        let (w, h) = contract.constrain(request);
        assert!(720 <= w && w <= 1440, "{request:?}");
        assert!(540 <= h && h <= 1080, "{request:?}");
    }
}

#[test]
fn editor_contract_clamps_zero_sizes_to_one_pixel() {
    let contract = EditorSizeContract::new((0, 0), (0, 0), (0, 0));
    assert_eq!(contract.default, (1, 1));
    assert_eq!(contract.constrain((0, 0)), (1, 1));
}

#[test]
fn integer_helpers_compute_exact_values() {
    assert_eq!(gcd(800, 500), 100);
    assert_eq!(gcd(0, 7), 7);
    assert_eq!(ceil_div(7, 2), 4);
    assert_eq!(ceil_div(8, 2), 4);
}

#[test]
fn editor_contract_is_monotone_and_keeps_aspect() {
    let contract = EditorSizeContract::new((1000, 500), (500, 400), (2000, 1200));
    let mut previous = contract.constrain((1, 1));
    for width in (100..3000).step_by(137) {
        let size = contract.constrain((width, width));
        assert!(size.0 >= previous.0 && size.1 >= previous.1);
        let diff = size.0 as i64 * 500 - size.1 as i64 * 1000;
        assert!(2 * diff.abs() <= 1500, "{size:?}");
        previous = size;
    }
}

#[test]
fn fixed_aspect_result_is_the_largest_fitting_multiple() {
    let contract = GpuiSizeContract::new((800, 500), (400, 250), (1200, 750));
    assert_eq!(contract.constrain_fixed_aspect((1099, 999)), (1096, 685));
    assert_eq!(contract.constrain_fixed_aspect((999, 640)), (992, 620));
}

#[test]
fn fixed_aspect_feasibility_is_reported() {
    let contract = GpuiSizeContract::new((800, 500), (400, 250), (1200, 750));
    assert!(contract.can_constrain_fixed_aspect());
    let inverted = GpuiSizeContract {
        minimum: (1000, 700),
        preferred: (800, 500),
        maximum: (1000, 700),
    };
    assert!(!inverted.can_constrain_fixed_aspect());
    let empty = GpuiSizeContract {
        minimum: (1, 1),
        preferred: (0, 5),
        maximum: (10, 10),
    };
    assert!(!empty.can_constrain_fixed_aspect());
}
