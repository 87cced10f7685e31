//! Which overlay windows belong to which agent, where an agent's speech bubble goes, and which
//! bubbles are showing.
use vstd::prelude::*;

use crate::text::text_equal;

verus! {

pub const MAX_INTERACTIVE_REGIONS: usize = 256;
pub const ASTRA_AGENT_ID: &'static str = "agt_astra_provisional";
pub const LUMA_AGENT_ID: &'static str = "agt_luma_provisional";

/// How an overlay window is drawn: transparent, with no background, frame or shadow.
#[derive(Clone, Copy, Debug, PartialEq, Eq)]
pub struct WindowSurfaceContract {
    pub transparent: bool,
    pub background: [u8; 4],
    pub decorations: bool,
    pub shadow: bool,
}

/// The surface of every overlay window.
pub fn overlay_surface_contract() -> (r: WindowSurfaceContract)
    ensures
        r.transparent,
        r.background@ == seq![0u8, 0u8, 0u8, 0u8],
        !r.decorations,
        !r.shadow,
{
    WindowSurfaceContract {
        transparent: true,
        background: [0, 0, 0, 0],
        decorations: false,
        shadow: false,
    }
}

#[derive(Clone, Copy, Debug, PartialEq, Eq)]
pub enum OverlayInputError {
    UnknownWindow,
    TooManyRegions,
    InvalidRegion,
    NativeRegionFailed,
}

impl OverlayInputError {
    /// The message that describes the error.
    pub fn message(&self) -> (r: &'static str)
        ensures
            *self == OverlayInputError::UnknownWindow ==> r@ == "unknown overlay window"@,
            *self == OverlayInputError::TooManyRegions ==> r@ == "too many interactive regions"@,
            *self == OverlayInputError::InvalidRegion ==> r@ == "invalid interactive region"@,
            *self == OverlayInputError::NativeRegionFailed ==> r@
                == "native overlay region failed"@,
    {
        match self {
            OverlayInputError::UnknownWindow => "unknown overlay window",
            OverlayInputError::TooManyRegions => "too many interactive regions",
            OverlayInputError::InvalidRegion => "invalid interactive region",
            OverlayInputError::NativeRegionFailed => "native overlay region failed",
        }
    }
}

/// The agent and window labels that belong together.
#[derive(Clone, Copy, Debug, PartialEq, Eq)]
pub struct OverlayOwnership {
    pub agent_id: &'static str,
    pub agent_label: &'static str,
    pub bubble_label: &'static str,
}

pub open spec fn is_astra(agent_id: Seq<char>) -> bool {
    agent_id == "agt_astra_provisional"@
}

pub open spec fn is_luma(agent_id: Seq<char>) -> bool {
    agent_id == "agt_luma_provisional"@
}

pub open spec fn astra_ownership(o: OverlayOwnership) -> bool {
    o.agent_id@ == "agt_astra_provisional"@ && o.agent_label@ == "agent-astra"@ && o.bubble_label@
        == "agent-astra-bubble"@
}

pub open spec fn luma_ownership(o: OverlayOwnership) -> bool {
    o.agent_id@ == "agt_luma_provisional"@ && o.agent_label@ == "agent-luma"@ && o.bubble_label@
        == "agent-luma-bubble"@
}

fn astra() -> (r: OverlayOwnership)
    ensures
        astra_ownership(r),
{
    OverlayOwnership {
        agent_id: "agt_astra_provisional",
        agent_label: "agent-astra",
        bubble_label: "agent-astra-bubble",
    }
}

fn luma() -> (r: OverlayOwnership)
    ensures
        luma_ownership(r),
{
    OverlayOwnership {
        agent_id: "agt_luma_provisional",
        agent_label: "agent-luma",
        bubble_label: "agent-luma-bubble",
    }
}

/// The windows of one of the two agents; no other agent has overlay windows.
pub fn ownership_for_agent(agent_id: &str) -> (r: Option<OverlayOwnership>)
    ensures
        is_astra(agent_id@) ==> (r matches Some(o) && astra_ownership(o)),
        is_luma(agent_id@) ==> (r matches Some(o) && luma_ownership(o)),
        !is_astra(agent_id@) && !is_luma(agent_id@) ==> r is None,
{
    proof {
        reveal_strlit("agt_astra_provisional");
        reveal_strlit("agt_luma_provisional");
        assert("agt_astra_provisional"@[4] != "agt_luma_provisional"@[4]);
    }
    if text_equal(agent_id, "agt_astra_provisional") {
        Some(astra())
    } else if text_equal(agent_id, "agt_luma_provisional") {
        Some(luma())
    } else {
        None
    }
}

pub open spec fn astra_label(label: Seq<char>) -> bool {
    label == "agent-astra"@ || label == "agent-astra-bubble"@
}

pub open spec fn luma_label(label: Seq<char>) -> bool {
    label == "agent-luma"@ || label == "agent-luma-bubble"@
}

/// The agent that owns an overlay or bubble window label.
pub fn ownership_for_window_label(label: &str) -> (r: Option<OverlayOwnership>)
    ensures
        astra_label(label@) ==> (r matches Some(o) && astra_ownership(o)),
        luma_label(label@) ==> (r matches Some(o) && luma_ownership(o)),
        !astra_label(label@) && !luma_label(label@) ==> r is None,
{
    proof {
        reveal_strlit("agent-astra");
        reveal_strlit("agent-astra-bubble");
        reveal_strlit("agent-luma");
        reveal_strlit("agent-luma-bubble");
        assert("agent-astra"@[6] != "agent-luma"@[6]);
        assert("agent-astra"@[6] != "agent-luma-bubble"@[6]);
        assert("agent-astra-bubble"@[6] != "agent-luma"@[6]);
        assert("agent-astra-bubble"@[6] != "agent-luma-bubble"@[6]);
    }
    if text_equal(label, "agent-astra") || text_equal(label, "agent-astra-bubble") {
        Some(astra())
    } else if text_equal(label, "agent-luma") || text_equal(label, "agent-luma-bubble") {
        Some(luma())
    } else {
        None
    }
}

/// The label of the agent's overlay window.
pub fn window_label(agent_id: &str) -> (r: Option<&'static str>)
    ensures
        is_astra(agent_id@) ==> (r matches Some(l) && l@ == "agent-astra"@),
        is_luma(agent_id@) ==> (r matches Some(l) && l@ == "agent-luma"@),
        !is_astra(agent_id@) && !is_luma(agent_id@) ==> r is None,
{
    match ownership_for_agent(agent_id) {
        Some(o) => Some(o.agent_label),
        None => None,
    }
}

/// The label of the agent's speech-bubble window.
pub fn bubble_window_label(agent_id: &str) -> (r: Option<&'static str>)
    ensures
        is_astra(agent_id@) ==> (r matches Some(l) && l@ == "agent-astra-bubble"@),
        is_luma(agent_id@) ==> (r matches Some(l) && l@ == "agent-luma-bubble"@),
        !is_astra(agent_id@) && !is_luma(agent_id@) ==> r is None,
{
    match ownership_for_agent(agent_id) {
        Some(o) => Some(o.bubble_label),
        None => None,
    }
}

/// Each agent's two windows belong to that agent: looking up either label gives the ownership
/// that looking up the agent gives.
pub proof fn law_window_labels_belong_to_their_agent(o: OverlayOwnership)
    ensures
        astra_ownership(o) ==> astra_label(o.agent_label@) && astra_label(o.bubble_label@)
            && !luma_label(o.bubble_label@),
        luma_ownership(o) ==> luma_label(o.agent_label@) && luma_label(o.bubble_label@)
            && !astra_label(o.bubble_label@),
{
    reveal_strlit("agent-astra");
    reveal_strlit("agent-astra-bubble");
    reveal_strlit("agent-luma");
    reveal_strlit("agent-luma-bubble");
    assert("agent-astra-bubble"@[6] != "agent-luma"@[6]);
    assert("agent-luma-bubble"@[6] != "agent-astra"@[6]);
}

/// Checks an interactive-shape update: the window must be an overlay window and the shape may
/// hold at most `MAX_INTERACTIVE_REGIONS` regions, all valid (`regions_valid`).
pub fn check_overlay_input(label: &str, region_count: usize, regions_valid: bool) -> (r: Result<
    (),
    OverlayInputError,
>)
    ensures
        !astra_label(label@) && !luma_label(label@) ==> r == Err::<(), OverlayInputError>(
            OverlayInputError::UnknownWindow,
        ),
        (astra_label(label@) || luma_label(label@)) && region_count > MAX_INTERACTIVE_REGIONS
            ==> r == Err::<(), OverlayInputError>(OverlayInputError::TooManyRegions),
        (astra_label(label@) || luma_label(label@)) && region_count <= MAX_INTERACTIVE_REGIONS
            && !regions_valid ==> r == Err::<(), OverlayInputError>(
            OverlayInputError::InvalidRegion,
        ),
        (astra_label(label@) || luma_label(label@)) && region_count <= MAX_INTERACTIVE_REGIONS
            && regions_valid ==> r is Ok,
{
    if ownership_for_window_label(label).is_none() {
        return Err(OverlayInputError::UnknownWindow);
    }
    if region_count > MAX_INTERACTIVE_REGIONS {
        return Err(OverlayInputError::TooManyRegions);
    }
    if !regions_valid {
        return Err(OverlayInputError::InvalidRegion);
    }
    Ok(())
}

/// A position in physical screen pixels.
#[derive(Clone, Copy, Debug, PartialEq, Eq, Structural)]
pub struct PhysicalPosition {
    pub x: i32,
    pub y: i32,
}

/// A size in physical screen pixels.
#[derive(Clone, Copy, Debug, PartialEq, Eq, Structural)]
pub struct PhysicalSize {
    pub width: u32,
    pub height: u32,
}

pub open spec fn clamp(v: int, lo: int, hi: int) -> int {
    if v < lo {
        lo
    } else if v > hi {
        hi
    } else {
        v
    }
}

/// Where the bubble goes: right of the agent when it fits in the work area, else left of it;
/// then clamped into the work area (to its left/top edge when the bubble is larger than it).
pub open spec fn spec_bubble_position(
    agent_position: PhysicalPosition,
    agent_width: i32,
    bubble_width: i32,
    bubble_height: i32,
    work_area_position: PhysicalPosition,
    work_area_size: PhysicalSize,
) -> (int, int) {
    let left = work_area_position.x as int;
    let top = work_area_position.y as int;
    let right = left + work_area_size.width as int;
    let bottom = top + work_area_size.height as int;
    let preferred_x = agent_position.x as int + agent_width as int;
    let candidate_x = if preferred_x + bubble_width <= right {
        preferred_x
    } else {
        agent_position.x as int - bubble_width
    };
    let x = clamp(candidate_x, left, max_of(right - bubble_width, left));
    let y = clamp(agent_position.y as int, top, max_of(bottom - bubble_height, top));
    (x, y)
}

pub open spec fn max_of(a: int, b: int) -> int {
    if a > b {
        a
    } else {
        b
    }
}

fn clamp_i64(v: i64, lo: i64, hi: i64) -> (r: i64)
    requires
        lo <= hi,
    ensures
        r == clamp(v as int, lo as int, hi as int),
{
    if v < lo {
        lo
    } else if v > hi {
        hi
    } else {
        v
    }
}

/// The bubble's position next to its agent, inside the monitor's work area.
pub fn bubble_position(
    agent_position: PhysicalPosition,
    agent_width: i32,
    bubble_width: i32,
    bubble_height: i32,
    work_area_position: PhysicalPosition,
    work_area_size: PhysicalSize,
) -> (r: PhysicalPosition)
    ensures
        ({
            let (x, y) = spec_bubble_position(
                agent_position,
                agent_width,
                bubble_width,
                bubble_height,
                work_area_position,
                work_area_size,
            );
            r.x == x as i32 && r.y == y as i32
        }),
{
    let left = work_area_position.x as i64;
    let top = work_area_position.y as i64;
    let right = left + work_area_size.width as i64;
    let bottom = top + work_area_size.height as i64;
    let bubble_width = bubble_width as i64;
    let bubble_height = bubble_height as i64;
    let preferred_x = agent_position.x as i64 + agent_width as i64;
    let candidate_x = if preferred_x + bubble_width <= right {
        preferred_x
    } else {
        agent_position.x as i64 - bubble_width
    };
    let x_max = if right - bubble_width > left {
        right - bubble_width
    } else {
        left
    };
    let y_max = if bottom - bubble_height > top {
        bottom - bubble_height
    } else {
        top
    };
    let x = clamp_i64(candidate_x, left, x_max);
    let y = clamp_i64(agent_position.y as i64, top, y_max);
    PhysicalPosition { x: x as i32, y: y as i32 }
}

/// The bubble stays inside the work area whenever the work area is larger than the bubble and
/// the work area lies within the screen coordinate range.
pub proof fn law_bubble_stays_inside_work_area(
    agent_position: PhysicalPosition,
    agent_width: i32,
    bubble_width: i32,
    bubble_height: i32,
    work_area_position: PhysicalPosition,
    work_area_size: PhysicalSize,
)
    requires
        bubble_width >= 0,
        bubble_height >= 0,
        bubble_width <= work_area_size.width,
        bubble_height <= work_area_size.height,
    ensures
        ({
            let (x, y) = spec_bubble_position(
                agent_position,
                agent_width,
                bubble_width,
                bubble_height,
                work_area_position,
                work_area_size,
            );
            &&& work_area_position.x <= x
            &&& x + bubble_width <= work_area_position.x + work_area_size.width
            &&& work_area_position.y <= y
            &&& y + bubble_height <= work_area_position.y + work_area_size.height
        }),
{
}

/// The agents whose speech bubbles are showing.
#[derive(Debug)]
pub struct BubbleVisibility {
    visible: Vec<String>,
}

impl BubbleVisibility {
    pub closed spec fn shown(self) -> Set<Seq<char>> {
        self.visible@.map_values(|a: String| a@).to_set()
    }

    /// No bubble is showing.
    pub fn new() -> (r: Self)
        ensures
            r.shown() == Set::<Seq<char>>::empty(),
    {
        let r = BubbleVisibility { visible: Vec::new() };
        assert(r.visible@.map_values(|a: String| a@).to_set() =~= Set::<Seq<char>>::empty());
        r
    }

    /// Whether the agent's bubble is showing.
    pub fn bubble_visible(&self, agent_id: &str) -> (r: bool)
        ensures
            r == self.shown().contains(agent_id@),
    {
        let ghost views = self.visible@.map_values(|a: String| a@);
        let mut i: usize = 0;
        while i < self.visible.len()
            invariant
                i <= self.visible.len(),
                views == self.visible@.map_values(|a: String| a@),
                forall|k: int| 0 <= k < i ==> views[k] != agent_id@,
            decreases self.visible.len() - i,
        {
            assert(views[i as int] == self.visible@[i as int]@);
            if text_equal(self.visible[i].as_str(), agent_id) {
                assert(views.contains(agent_id@));
                return true;
            }
            i = i + 1;
        }
        assert(!views.contains(agent_id@));
        false
    }

    /// Shows or hides the agent's bubble; no other agent's bubble changes.
    pub fn set_bubble_visible(&mut self, agent_id: &str, visible: bool)
        ensures
            visible ==> final(self).shown() == old(self).shown().insert(agent_id@),
            !visible ==> final(self).shown() == old(self).shown().remove(agent_id@),
    {
        let ghost old_views = self.visible@.map_values(|a: String| a@);
        let mut kept: Vec<String> = Vec::new();
        let mut i: usize = 0;
        while i < self.visible.len()
            invariant
                i <= self.visible.len(),
                old_views == self.visible@.map_values(|a: String| a@),
                self.visible@ == old(self).visible@,
                kept@.map_values(|a: String| a@).to_set() == old_views.take(i as int).to_set().remove(
                    agent_id@,
                ),
            decreases self.visible.len() - i,
        {
            let ghost before = kept@;
            assert(old_views.take(i + 1) =~= old_views.take(i as int).push(old_views[i as int]));
            assert(old_views[i as int] == self.visible@[i as int]@);
            if !text_equal(self.visible[i].as_str(), agent_id) {
                kept.push(self.visible[i].clone());
                assert(kept@.map_values(|a: String| a@) =~= before.map_values(|a: String| a@).push(
                    old_views[i as int],
                ));
            }
            proof {
                old_views.take(i as int).lemma_push_to_set_commute(old_views[i as int]);
                before.map_values(|a: String| a@).lemma_push_to_set_commute(old_views[i as int]);
                assert(kept@.map_values(|a: String| a@).to_set() =~= old_views.take(i + 1).to_set().remove(
                    agent_id@,
                ));
            }
            i = i + 1;
        }
        assert(old_views.take(i as int) =~= old_views);
        if visible {
            let ghost pre = kept@;
            kept.push(agent_id.to_string());
            proof {
                let before = pre;
                assert(kept@ =~= pre.push(kept@.last()));
                assert(old_views.to_set().remove(agent_id@).insert(agent_id@) =~= old_views.to_set().insert(agent_id@));
                assert(kept@.map_values(|a: String| a@) =~= before.map_values(|a: String| a@).push(
                    agent_id@,
                ));
                before.map_values(|a: String| a@).lemma_push_to_set_commute(agent_id@);
                assert(kept@.map_values(|a: String| a@).to_set() =~= old_views.to_set().insert(agent_id@));
            }
        }
        self.visible = kept;
    }
}

} // verus!
