use vstd::prelude::*;

verus! {

/// Counts frames and reports the count once a second.
pub struct FpsSystem {
    pub fps: u32,
}

impl FpsSystem {
    pub fn new() -> (r: FpsSystem)
        ensures
            r.fps == 0,
    {
        FpsSystem { fps: 0 }
    }

    /// Counts one frame. `elapsed_secs` is the number of whole seconds since the
    /// last report: from one second on, the count is reported and starts again
    /// at 0, and the caller starts its clock again.
    pub fn on_frame_update(&mut self, elapsed_secs: u64) -> (report: Option<u32>)
        requires
            old(self).fps < u32::MAX,
        ensures
            elapsed_secs >= 1 ==> report == Some((old(self).fps + 1) as u32) && final(self).fps
                == 0,
            elapsed_secs < 1 ==> report.is_none() && final(self).fps == old(self).fps + 1,
    {
        self.fps += 1;
        if elapsed_secs >= 1 {
            let fps = self.fps;
            self.fps = 0;
            Some(fps)
        } else {
            None
        }
    }
}

impl Default for FpsSystem {
    fn default() -> (r: FpsSystem)
        ensures
            r.fps == 0,
    {
        FpsSystem::new()
    }
}

/// A change of the x-ray depth.
#[derive(Clone, Copy, Debug, PartialEq, Eq, Structural)]
pub enum XrayAction {
    Add,
    Sub,
    Reset,
}

impl XrayAction {
    /// The change that a typed character asks for: `+` adds, `-` subtracts and
    /// a space resets; any other character asks for none.
    pub fn from_char(c: char) -> (r: Option<XrayAction>)
        ensures
            r == (if c == '-' {
                Some(XrayAction::Sub)
            } else if c == '+' {
                Some(XrayAction::Add)
            } else if c == ' ' {
                Some(XrayAction::Reset)
            } else {
                None
            }),
    {
        if c == '-' {
            Some(XrayAction::Sub)
        } else if c == '+' {
            Some(XrayAction::Add)
        } else if c == ' ' {
            Some(XrayAction::Reset)
        } else {
            None
        }
    }
}

/// Keeps the x-ray depth of the view.
pub struct XraySystem;

impl XraySystem {
    /// The depth after a change: one more, one less but not below 0, or 0.
    pub fn on_action(xray: usize, action: XrayAction) -> (r: usize)
        requires
            action == XrayAction::Add ==> xray < usize::MAX,
        ensures
            action == XrayAction::Add ==> r == xray + 1,
            action == XrayAction::Sub ==> r == (if xray > 0 {
                xray - 1
            } else {
                0
            }),
            action == XrayAction::Reset ==> r == 0,
    {
        match action {
            XrayAction::Sub => if xray > 0 {
                xray - 1
            } else {
                xray
            },
            XrayAction::Add => xray + 1,
            XrayAction::Reset => 0,
        }
    }
}

/// What the quit rule sees of an event.
#[derive(Clone, Copy, Debug, PartialEq, Eq, Structural)]
pub enum QuitSignal {
    CloseRequested,
    Destroyed,
    QuitAction,
    Other,
}

/// Ends the event loop when the window closes or the user asks for it.
pub struct QuitSystem;

impl QuitSystem {
    /// Whether the event loop ends on this event.
    pub fn on_signal(signal: QuitSignal) -> (exit: bool)
        ensures
            exit == (signal != QuitSignal::Other),
    {
        match signal {
            QuitSignal::CloseRequested | QuitSignal::Destroyed | QuitSignal::QuitAction => true,
            QuitSignal::Other => false,
        }
    }
}

} // verus!
