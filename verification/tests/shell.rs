use aip_desktop::orchestration::{routing_policy_or_default, RoutingPolicy};
use aip_desktop::workspace_window_action;

#[test]
fn workspace_navigation_only_shows_a_hidden_main_window() {
    assert_eq!(workspace_window_action(false), "unminimize-show-and-focus");
    assert_eq!(workspace_window_action(true), "unminimize-and-focus");
}

#[test]
fn omitted_chat_routing_policy_keeps_auto_default() {
    assert_eq!(routing_policy_or_default(None), RoutingPolicy::default());
}

#[test]
fn explicit_routing_policy_is_kept() {
    assert_eq!(routing_policy_or_default(Some(RoutingPolicy::Auto)), RoutingPolicy::Auto);
}
