//! The active-application monitor.
//!
//! On platforms where the overlay cannot take keyboard focus without
//! stealing application focus, a background loop samples which external
//! application is frontmost.  Sampling is gated on the panel being hidden:
//! a sample taken while the panel is visible would record the panel itself,
//! so it is discarded.  The stored snapshot is what a later injection
//! targets.

use vstd::prelude::*;
use crate::apps::{clone_application, Application, SpecApplication};

verus! {

/// The last known externally focused application, as of the last sample
/// taken while the panel was hidden.
pub struct ActiveAppMonitor {
    focused_application: Option<Application>,
}

impl ActiveAppMonitor {
    pub closed spec fn spec_focused(&self) -> Option<SpecApplication> {
        match self.focused_application {
            Some(a) => Some(a@),
            None => None,
        }
    }

    /// A monitor that has not sampled yet.
    pub fn new() -> (m: ActiveAppMonitor)
        ensures
            m.spec_focused() is None,
    {
        ActiveAppMonitor { focused_application: None }
    }

    /// Takes one sample.  While the panel is visible the sample is
    /// discarded, so the panel can never record itself as the externally
    /// focused application; while it is hidden the sample replaces the
    /// stored snapshot.
    pub fn set_focused_application(&mut self, panel_visible: bool, app: Application)
        ensures
            panel_visible ==> final(self).spec_focused() == old(self).spec_focused(),
            !panel_visible ==> final(self).spec_focused() == Some(app@),
    {
        if !panel_visible {
            self.focused_application = Some(app);
        }
    }

    /// The last known externally focused application, if any sample has
    /// been kept.
    pub fn get_focused_application(&self) -> (r: Option<Application>)
        ensures
            match r {
                Some(a) => self.spec_focused() == Some(a@),
                None => self.spec_focused() is None,
            },
    {
        match &self.focused_application {
            Some(a) => Some(clone_application(a)),
            None => None,
        }
    }
}

} // verus!
