use aip_desktop::overlays::{
    bubble_position, bubble_window_label, check_overlay_input, overlay_surface_contract,
    ownership_for_agent, ownership_for_window_label, window_label, BubbleVisibility,
    OverlayInputError, PhysicalPosition, PhysicalSize, WindowSurfaceContract,
    MAX_INTERACTIVE_REGIONS,
};

#[test]
fn ownership_keeps_each_bubble_bound_to_its_agent_id() {
    let astra = ownership_for_agent("agt_astra_provisional").unwrap();
    let luma = ownership_for_window_label("agent-luma-bubble").unwrap();
    assert_eq!(astra.agent_label, "agent-astra");
    assert_eq!(astra.bubble_label, "agent-astra-bubble");
    assert_eq!(luma.agent_id, "agt_luma_provisional");
    assert_eq!(ownership_for_agent("unknown"), None);
}

#[test]
fn transparent_surface_contract_has_no_window_chrome_or_shadow() {
    assert_eq!(
        overlay_surface_contract(),
        WindowSurfaceContract {
            transparent: true,
            background: [0, 0, 0, 0],
            decorations: false,
            shadow: false,
        }
    );
}

#[test]
fn bubble_position_stays_inside_work_area_and_flips_left_at_the_edge() {
    let work_area_position = PhysicalPosition { x: 100, y: 40 };
    let work_area_size = PhysicalSize { width: 800, height: 600 };
    let right = bubble_position(
        PhysicalPosition { x: 700, y: 500 },
        180,
        380,
        360,
        work_area_position,
        work_area_size,
    );
    assert_eq!(right, PhysicalPosition { x: 320, y: 280 });

    let top_left = bubble_position(
        PhysicalPosition { x: 100, y: 40 },
        180,
        380,
        360,
        work_area_position,
        work_area_size,
    );
    assert_eq!(top_left, PhysicalPosition { x: 280, y: 40 });
}

#[test]
fn bubble_position_clamps_negative_and_narrow_monitor_coordinates() {
    let position = bubble_position(
        PhysicalPosition { x: -300, y: -100 },
        180,
        380,
        360,
        PhysicalPosition { x: -400, y: -200 },
        PhysicalSize { width: 300, height: 240 },
    );
    assert_eq!(position, PhysicalPosition { x: -400, y: -200 });
}

#[test]
fn bubble_stays_inside_a_larger_work_area() {
    let position = bubble_position(
        PhysicalPosition { x: 5_000, y: -5_000 },
        180,
        380,
        360,
        PhysicalPosition { x: 0, y: 0 },
        PhysicalSize { width: 1_920, height: 1_080 },
    );
    assert!(position.x >= 0 && position.x + 380 <= 1_920);
    assert!(position.y >= 0 && position.y + 360 <= 1_080);
    assert_eq!(position, PhysicalPosition { x: 1_540, y: 0 });
}

#[test]
fn simultaneous_bubble_visibility_is_independent() {
    let mut state = BubbleVisibility::new();
    state.set_bubble_visible("agt_astra_provisional", true);
    state.set_bubble_visible("agt_luma_provisional", true);
    assert!(state.bubble_visible("agt_astra_provisional"));
    assert!(state.bubble_visible("agt_luma_provisional"));
    state.set_bubble_visible("agt_astra_provisional", false);
    assert!(!state.bubble_visible("agt_astra_provisional"));
    assert!(state.bubble_visible("agt_luma_provisional"));
}

#[test]
fn window_labels_follow_the_agent() {
    assert_eq!(window_label("agt_astra_provisional"), Some("agent-astra"));
    assert_eq!(window_label("agt_luma_provisional"), Some("agent-luma"));
    assert_eq!(bubble_window_label("agt_luma_provisional"), Some("agent-luma-bubble"));
    assert_eq!(window_label("agt_other"), None);
    assert_eq!(bubble_window_label("agt_other"), None);
    assert_eq!(
        ownership_for_window_label("agent-astra").map(|o| o.agent_id),
        Some("agt_astra_provisional")
    );
    assert_eq!(ownership_for_window_label("main"), None);
}

#[test]
fn overlay_input_checks_window_count_and_regions() {
    assert_eq!(check_overlay_input("unknown", 1, true), Err(OverlayInputError::UnknownWindow));
    assert_eq!(
        check_overlay_input("agent-astra", MAX_INTERACTIVE_REGIONS + 1, true),
        Err(OverlayInputError::TooManyRegions)
    );
    assert_eq!(
        check_overlay_input("agent-astra", 1, false),
        Err(OverlayInputError::InvalidRegion)
    );
    assert_eq!(check_overlay_input("agent-luma-bubble", MAX_INTERACTIVE_REGIONS, true), Ok(()));
    assert_eq!(OverlayInputError::TooManyRegions.message(), "too many interactive regions");
}
