use vstd::prelude::*;

pub mod commands;
pub mod context;
pub mod database;
pub mod domain;
pub mod extensions;
pub mod fullscreen;
pub mod gateway;
pub mod json;
pub mod native_overlay_region;
pub mod orchestration;
pub mod overlays;
pub mod protocol;
pub mod seqs;
pub mod simulation;
pub mod summary;
pub mod text;

verus! {

pub fn workspace_window_action(is_visible: bool) -> (action: &'static str)
    ensures
        is_visible ==> action@ == "unminimize-and-focus"@,
        !is_visible ==> action@ == "unminimize-show-and-focus"@,
{
    if is_visible {
        "unminimize-and-focus"
    } else {
        "unminimize-show-and-focus"
    }
}

} // verus!
