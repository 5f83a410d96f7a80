//! The overlay panel's visibility state machine.
//!
//! The panel is a non-activating native window: it can become the key window
//! (receive keyboard input) without making its owning application the
//! frontmost one.  This module decides every transition and records, as plain
//! values, the native window orders that the window system must carry out;
//! the unverified shell performs them.

use vstd::prelude::*;

verus! {

/// The two states of the overlay panel.
#[derive(Clone, Copy, PartialEq, Eq, Structural, Debug)]
pub enum PanelState {
    Hidden,
    Visible,
}

/// A native window order that the window system must carry out.
/// None of these activates the owning application, so the externally
/// focused application keeps its frontmost status across a show.
#[derive(Clone, Copy, PartialEq, Eq, Structural, Debug)]
pub enum PanelOrder {
    MakeFirstResponder,
    OrderFrontRegardless,
    MakeKeyWindow,
    Close,
}

/// The window level of the main menu; the panel floats one above it.
pub const MAIN_MENU_WINDOW_LEVEL: i32 = 24;

/// Style mask bit for a panel that never activates its application.
pub const NON_ACTIVATING_PANEL_STYLE_MASK: i32 = 1 << 7;

/// Collection behaviour: the panel moves to the active space, stays out of
/// the window cycle, and may sit above full-screen windows.
pub const COLLECTION_BEHAVIOUR_MOVE_TO_ACTIVE_SPACE: u64 = 1 << 1;
pub const COLLECTION_BEHAVIOUR_TRANSIENT: u64 = 1 << 3;
pub const COLLECTION_BEHAVIOUR_FULL_SCREEN_AUXILIARY: u64 = 1 << 8;

/// The overlay window model: its visibility, the configuration that makes it
/// a non-activating floating panel, and the queue of native orders it has
/// issued and the shell has not yet performed.
pub struct NSPanel {
    visible: bool,
    level: i32,
    style_mask: i32,
    collection_behaviour: u64,
    orders: Vec<PanelOrder>,
}

impl NSPanel {
    pub closed spec fn spec_visible(&self) -> bool {
        self.visible
    }

    pub closed spec fn spec_orders(&self) -> Seq<PanelOrder> {
        self.orders@
    }

    pub closed spec fn spec_level(&self) -> i32 {
        self.level
    }

    pub closed spec fn spec_style_mask(&self) -> i32 {
        self.style_mask
    }

    pub closed spec fn spec_collection_behaviour(&self) -> u64 {
        self.collection_behaviour
    }

    /// The panel's state as the controller sees it.
    pub open spec fn state(&self) -> PanelState {
        if self.spec_visible() {
            PanelState::Visible
        } else {
            PanelState::Hidden
        }
    }

    /// A panel is configured once, at creation: elevated above the main menu,
    /// with the non-activating style, joining the active space.
    pub open spec fn configured(&self) -> bool {
        &&& self.spec_level() == MAIN_MENU_WINDOW_LEVEL + 1
        &&& self.spec_style_mask() == NON_ACTIVATING_PANEL_STYLE_MASK
        &&& self.spec_collection_behaviour() == (COLLECTION_BEHAVIOUR_MOVE_TO_ACTIVE_SPACE
            | COLLECTION_BEHAVIOUR_TRANSIENT | COLLECTION_BEHAVIOUR_FULL_SCREEN_AUXILIARY)
    }

    /// Wraps an existing native window as the overlay panel: hidden, floating
    /// one level above the main menu, non-activating, moving to the active
    /// space.  No orders are issued yet.
    pub fn create_panel() -> (panel: NSPanel)
        ensures
            !panel.spec_visible(),
            panel.configured(),
            panel.spec_orders() == Seq::<PanelOrder>::empty(),
    {
        NSPanel {
            visible: false,
            level: MAIN_MENU_WINDOW_LEVEL + 1,
            style_mask: NON_ACTIVATING_PANEL_STYLE_MASK,
            collection_behaviour: COLLECTION_BEHAVIOUR_MOVE_TO_ACTIVE_SPACE
                | COLLECTION_BEHAVIOUR_TRANSIENT | COLLECTION_BEHAVIOUR_FULL_SCREEN_AUXILIARY,
            orders: Vec::new(),
        }
    }

    /// The overridden key-window decision: the panel always answers yes, so
    /// it can take keyboard focus despite its non-activating style.
    pub fn can_become_key_window(&self) -> (r: bool)
        ensures
            r == true,
    {
        true
    }

    /// Shows the panel and takes keyboard focus without activating the
    /// application: first responder, then ordered front regardless of the
    /// active application, then made the key window.
    pub fn show(&mut self)
        ensures
            final(self).spec_visible(),
            final(self).spec_orders() == old(self).spec_orders() + seq![
                PanelOrder::MakeFirstResponder,
                PanelOrder::OrderFrontRegardless,
                PanelOrder::MakeKeyWindow,
            ],
            final(self).spec_level() == old(self).spec_level(),
            final(self).spec_style_mask() == old(self).spec_style_mask(),
            final(self).spec_collection_behaviour() == old(self).spec_collection_behaviour(),
    {
        self.orders.push(PanelOrder::MakeFirstResponder);
        self.orders.push(PanelOrder::OrderFrontRegardless);
        self.orders.push(PanelOrder::MakeKeyWindow);
        self.visible = true;
    }

    /// Hides the panel by closing (ordering out) the native window; the
    /// native object is kept for the next show.  On an already-hidden panel
    /// this is a no-op: the state stays Hidden and no native order is issued.
    pub fn order_out(&mut self)
        ensures
            !final(self).spec_visible(),
            old(self).spec_visible() ==> final(self).spec_orders() == old(self).spec_orders()
                + seq![PanelOrder::Close],
            !old(self).spec_visible() ==> *final(self) == *old(self),
            final(self).spec_level() == old(self).spec_level(),
            final(self).spec_style_mask() == old(self).spec_style_mask(),
            final(self).spec_collection_behaviour() == old(self).spec_collection_behaviour(),
    {
        if self.visible {
            self.orders.push(PanelOrder::Close);
            self.visible = false;
        }
    }

    /// Whether the panel is currently visible.
    pub fn is_visible(&self) -> (r: bool)
        ensures
            r == self.spec_visible(),
    {
        self.visible
    }

    /// Hands the issued native orders to the shell, oldest first, and clears
    /// the queue.
    pub fn take_orders(&mut self) -> (orders: Vec<PanelOrder>)
        ensures
            orders@ == old(self).spec_orders(),
            final(self).spec_orders() == Seq::<PanelOrder>::empty(),
            final(self).spec_visible() == old(self).spec_visible(),
            final(self).spec_level() == old(self).spec_level(),
            final(self).spec_style_mask() == old(self).spec_style_mask(),
            final(self).spec_collection_behaviour() == old(self).spec_collection_behaviour(),
    {
        let mut taken: Vec<PanelOrder> = Vec::new();
        core::mem::swap(&mut taken, &mut self.orders);
        taken
    }
}

/// The native window delegate: its one decision is the auto-hide rule.
pub struct NSPanelDelegate {}

impl NSPanelDelegate {
    /// When the panel loses key-window status because the user clicked
    /// elsewhere, it hides itself.
    pub fn window_did_resign_key(&self, panel: &mut NSPanel)
        ensures
            !final(panel).spec_visible(),
            old(panel).spec_visible() ==> final(panel).spec_orders()
                == old(panel).spec_orders() + seq![PanelOrder::Close],
            !old(panel).spec_visible() ==> *final(panel) == *old(panel),
    {
        panel.order_out();
    }
}

/// What a toggle does to the panel state.
pub open spec fn toggle_spec(s: PanelState) -> PanelState {
    match s {
        PanelState::Hidden => PanelState::Visible,
        PanelState::Visible => PanelState::Hidden,
    }
}

/// The state after `n` toggles of a panel that starts Hidden.
pub open spec fn state_after_toggles(n: nat) -> PanelState
    decreases n,
{
    if n == 0 {
        PanelState::Hidden
    } else {
        toggle_spec(state_after_toggles((n - 1) as nat))
    }
}

/// Toggle law: starting Hidden, a sequence of `n` toggles leaves the panel
/// Visible exactly when `n` is odd.
pub proof fn lemma_toggle_parity(n: nat)
    ensures
        state_after_toggles(n) == if n % 2 == 1 {
            PanelState::Visible
        } else {
            PanelState::Hidden
        },
    decreases n,
{
    if n > 0 {
        lemma_toggle_parity((n - 1) as nat);
    }
}

/// Owns the single overlay panel for the process lifetime.  Construction
/// does not create the native panel; `init_panel` does, exactly once.
pub struct PanelController {
    panel: Option<NSPanel>,
}

impl PanelController {
    pub closed spec fn spec_panel(&self) -> Option<NSPanel> {
        self.panel
    }

    /// Whether `init_panel` has run.
    pub open spec fn initialized(&self) -> bool {
        self.spec_panel() is Some
    }

    pub open spec fn state(&self) -> PanelState {
        self.spec_panel()->Some_0.state()
    }

    pub open spec fn orders(&self) -> Seq<PanelOrder> {
        self.spec_panel()->Some_0.spec_orders()
    }

    /// Once initialized, the one panel keeps its non-activating
    /// configuration for the process lifetime.
    pub open spec fn configured(&self) -> bool {
        self.initialized() && self.spec_panel()->Some_0.configured()
    }

    pub fn new() -> (c: PanelController)
        ensures
            !c.initialized(),
    {
        PanelController { panel: None }
    }

    /// One-time construction of the overlay panel around the host window.
    /// A second call is ignored: it neither re-creates the native object nor
    /// changes any state, so exactly one underlying panel ever exists.
    pub fn init_panel(&mut self)
        ensures
            final(self).initialized(),
            !old(self).initialized() ==> final(self).configured(),
            old(self).initialized() && old(self).configured() ==> final(self).configured(),
            !old(self).initialized() ==> {
                &&& final(self).state() == PanelState::Hidden
                &&& final(self).orders() == Seq::<PanelOrder>::empty()
            },
            old(self).initialized() ==> *final(self) == *old(self),
    {
        if self.panel.is_none() {
            self.panel = Some(NSPanel::create_panel());
        }
    }

    /// Shows the panel: Hidden to Visible, taking key status without
    /// activating the application.
    pub fn show_panel(&mut self)
        requires
            old(self).initialized(),
        ensures
            final(self).initialized(),
            old(self).configured() ==> final(self).configured(),
            final(self).state() == PanelState::Visible,
            final(self).orders() == old(self).orders() + seq![
                PanelOrder::MakeFirstResponder,
                PanelOrder::OrderFrontRegardless,
                PanelOrder::MakeKeyWindow,
            ],
    {
        if let Some(panel) = self.panel.as_mut() {
            panel.show();
        }
    }

    /// Hides the panel: Visible to Hidden, idempotent when already Hidden,
    /// in which case no native order is issued.
    pub fn hide_panel(&mut self)
        requires
            old(self).initialized(),
        ensures
            final(self).initialized(),
            old(self).configured() ==> final(self).configured(),
            final(self).state() == PanelState::Hidden,
            old(self).state() == PanelState::Visible ==> final(self).orders()
                == old(self).orders() + seq![PanelOrder::Close],
            old(self).state() == PanelState::Hidden ==> *final(self) == *old(self),
    {
        if let Some(panel) = self.panel.as_mut() {
            panel.order_out();
        }
    }

    /// Hands the issued native orders to the shell, oldest first.
    pub fn take_orders(&mut self) -> (orders: Vec<PanelOrder>)
        requires
            old(self).initialized(),
        ensures
            final(self).initialized(),
            old(self).configured() ==> final(self).configured(),
            orders@ == old(self).orders(),
            final(self).orders() == Seq::<PanelOrder>::empty(),
            final(self).state() == old(self).state(),
    {
        if let Some(panel) = self.panel.as_mut() {
            panel.take_orders()
        } else {
            Vec::new()
        }
    }

    /// Whether the panel is currently visible.
    pub fn panel_is_visible(&self) -> (r: bool)
        requires
            self.initialized(),
        ensures
            r == (self.state() is Visible),
    {
        if let Some(panel) = self.panel.as_ref() {
            panel.is_visible()
        } else {
            false
        }
    }

    /// Hides the panel if it is visible, else shows it.
    pub fn toggle_panel(&mut self)
        requires
            old(self).initialized(),
        ensures
            final(self).initialized(),
            old(self).configured() ==> final(self).configured(),
            final(self).state() == toggle_spec(old(self).state()),
    {
        let visible = if let Some(panel) = self.panel.as_ref() {
            panel.is_visible()
        } else {
            false
        };
        if visible {
            self.hide_panel();
        } else {
            self.show_panel();
        }
    }
}

} // verus!
