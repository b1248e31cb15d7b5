//! Window visibility, driven by the signals that reach the user-interface
//! thread.
//!
//! The controller owns the shown/hidden state. For each signal it says what
//! the window layer has to do; the window layer does it. While the window is
//! hidden, every repaint the toolkit asks for is turned down, so that a
//! hidden window costs no CPU time.
use vstd::prelude::*;

verus! {

/// A signal delivered to the user-interface thread from any producer: the
/// gesture listener, the tray icon, the window's own callbacks.
#[derive(Clone, Debug, PartialEq, Eq)]
pub enum UserEvent {
    /// The toolkit wants a repaint after this many nanoseconds.
    Redraw(u64),
    HideWindow,
    ShowWindow,
    Exit,
    LeftClickTrayIcon,
    RightClickTrayIcon,
    ChangeDoubleAlt,
    FileHovered(String),
    FileHoverCancelled,
    FileDropped(String),
}

/// What the window layer must do in answer to a signal.
#[derive(Clone, Debug, PartialEq, Eq)]
pub enum WindowAction {
    /// Show or hide the OS window; hiding keeps every GPU and UI resource.
    SetVisible(bool),
    RequestRedraw,
    /// Ask the OS to give the window the keyboard focus.
    Focus,
    /// Raise the summon flag: the search box takes the focus and clears its
    /// text on the next frame.
    MarkSummoned,
    /// Park the event loop until the next event.
    WaitForEvents,
    /// End the process.
    Exit,
    /// Send this signal to the user-interface thread again.
    Send(UserEvent),
    ShowTrayMenu,
    /// Publish the new state of the gesture switch and tick the tray menu.
    SetGestureEnabled(bool),
    /// Hand this file event to the user interface.
    Forward(UserEvent),
}

/// How the event loop waits once a frame is drawn.
#[derive(Clone, Copy, Debug, PartialEq, Eq, Structural)]
pub enum ControlFlowChoice {
    /// Draw again at once.
    Poll,
    /// Sleep until this instant, in nanoseconds of the loop's clock.
    WaitUntil(u64),
    /// Sleep until the next event.
    Wait,
}

/// The window's visibility state.
#[derive(Clone, Copy, Debug)]
pub struct VisibilityController {
    pub hidden: bool,
    /// The repaint delay the toolkit asked for last, in nanoseconds.
    pub repaint_delay: u64,
    /// Whether the double-tap gesture may summon the window.
    pub gesture_enabled: bool,
}

impl VisibilityController {
    /// The state after the signal.
    pub open spec fn next(self, e: UserEvent) -> VisibilityController {
        match e {
            UserEvent::Redraw(d) => VisibilityController { repaint_delay: d, ..self },
            UserEvent::HideWindow => VisibilityController { hidden: true, ..self },
            UserEvent::ShowWindow => VisibilityController { hidden: false, ..self },
            UserEvent::ChangeDoubleAlt => VisibilityController {
                gesture_enabled: !self.gesture_enabled,
                ..self
            },
            _ => self,
        }
    }

    /// What the window layer does in answer to the signal.
    pub open spec fn reactions(self, e: UserEvent) -> Seq<WindowAction> {
        match e {
            UserEvent::Redraw(_) => if self.hidden {
                seq![WindowAction::WaitForEvents]
            } else {
                seq![]
            },
            UserEvent::HideWindow => seq![
                WindowAction::SetVisible(false),
                WindowAction::WaitForEvents,
            ],
            UserEvent::ShowWindow => seq![
                WindowAction::SetVisible(true),
                WindowAction::RequestRedraw,
                WindowAction::Focus,
                WindowAction::MarkSummoned,
            ],
            UserEvent::Exit => seq![WindowAction::Exit],
            UserEvent::LeftClickTrayIcon => seq![WindowAction::Send(UserEvent::ShowWindow)],
            UserEvent::RightClickTrayIcon => seq![WindowAction::ShowTrayMenu],
            UserEvent::ChangeDoubleAlt => seq![
                WindowAction::SetGestureEnabled(!self.gesture_enabled),
            ],
            UserEvent::FileHovered(p) => seq![WindowAction::Forward(UserEvent::FileHovered(p))],
            UserEvent::FileHoverCancelled => seq![
                WindowAction::Forward(UserEvent::FileHoverCancelled),
            ],
            UserEvent::FileDropped(p) => seq![WindowAction::Forward(UserEvent::FileDropped(p))],
        }
    }

    /// A controller for a window not yet hidden, with no repaint scheduled
    /// and the gesture switched on.
    pub fn new() -> (r: VisibilityController)
        ensures
            !r.hidden,
            r.repaint_delay == u64::MAX,
            r.gesture_enabled,
    {
        VisibilityController { hidden: false, repaint_delay: u64::MAX, gesture_enabled: true }
    }

    /// Handles one signal on the user-interface thread.
    pub fn on_signal(&mut self, e: UserEvent) -> (actions: Vec<WindowAction>)
        ensures
            *final(self) == old(self).next(e),
            actions@ == old(self).reactions(e),
    {
        let mut actions: Vec<WindowAction> = Vec::new();
        match e {
            UserEvent::Redraw(d) => {
                self.repaint_delay = d;
                if self.hidden {
                    actions.push(WindowAction::WaitForEvents);
                }
            },
            UserEvent::HideWindow => {
                self.hidden = true;
                actions.push(WindowAction::SetVisible(false));
                actions.push(WindowAction::WaitForEvents);
            },
            UserEvent::ShowWindow => {
                self.hidden = false;
                actions.push(WindowAction::SetVisible(true));
                actions.push(WindowAction::RequestRedraw);
                actions.push(WindowAction::Focus);
                actions.push(WindowAction::MarkSummoned);
            },
            UserEvent::Exit => {
                actions.push(WindowAction::Exit);
            },
            UserEvent::LeftClickTrayIcon => {
                actions.push(WindowAction::Send(UserEvent::ShowWindow));
            },
            UserEvent::RightClickTrayIcon => {
                actions.push(WindowAction::ShowTrayMenu);
            },
            UserEvent::ChangeDoubleAlt => {
                self.gesture_enabled = !self.gesture_enabled;
                actions.push(WindowAction::SetGestureEnabled(self.gesture_enabled));
            },
            UserEvent::FileHovered(p) => {
                actions.push(WindowAction::Forward(UserEvent::FileHovered(p)));
            },
            UserEvent::FileHoverCancelled => {
                actions.push(WindowAction::Forward(UserEvent::FileHoverCancelled));
            },
            UserEvent::FileDropped(p) => {
                actions.push(WindowAction::Forward(UserEvent::FileDropped(p)));
            },
        }
        actions
    }

    /// How the loop waits after a frame drawn at `now`: at once again for a
    /// zero delay, until `now` plus the delay when that instant exists, else
    /// until the next event. A hidden window always waits for events.
    pub fn control_flow_after_frame(&self, now: u64) -> (r: ControlFlowChoice)
        ensures
            r == (if self.hidden {
                ControlFlowChoice::Wait
            } else if self.repaint_delay == 0 {
                ControlFlowChoice::Poll
            } else if now + self.repaint_delay <= u64::MAX {
                ControlFlowChoice::WaitUntil((now + self.repaint_delay) as u64)
            } else {
                ControlFlowChoice::Wait
            }),
    {
        if self.hidden {
            ControlFlowChoice::Wait
        } else if self.repaint_delay == 0 {
            ControlFlowChoice::Poll
        } else {
            match now.checked_add(self.repaint_delay) {
                Some(t) => ControlFlowChoice::WaitUntil(t),
                None => ControlFlowChoice::Wait,
            }
        }
    }

    /// Whether a frame is drawn when the OS asks for one, and whether the
    /// loop's timer wakes the window: only while it is shown.
    pub fn should_render(&self) -> (r: bool)
        ensures
            r == !self.hidden,
    {
        !self.hidden
    }

    /// Whether to pass on a repaint that the toolkit wants after an input
    /// event: never while hidden.
    pub fn should_repaint_after_input(&self, toolkit_wants_repaint: bool) -> (r: bool)
        ensures
            r == (toolkit_wants_repaint && !self.hidden),
    {
        toolkit_wants_repaint && !self.hidden
    }
}

/// The signals that answer the window's close button: the window hides
/// instead of ending the process, and a frame is asked for at once.
pub fn close_request_signals() -> (r: Vec<UserEvent>)
    ensures
        r@ == seq![UserEvent::HideWindow, UserEvent::Redraw(0)],
{
    let mut r: Vec<UserEvent> = Vec::new();
    r.push(UserEvent::HideWindow);
    r.push(UserEvent::Redraw(0));
    r
}

/// The search box's side of a summon: when the flag is up, it lowers it,
/// clears the search text and returns true, meaning the box takes the
/// keyboard focus; otherwise nothing changes.
pub fn take_summon(summoned: &mut bool, search_text: &mut String) -> (focus: bool)
    ensures
        focus == *old(summoned),
        !*final(summoned),
        *old(summoned) ==> final(search_text)@ == Seq::<char>::empty(),
        !*old(summoned) ==> *final(search_text) == *old(search_text),
{
    if *summoned {
        *summoned = false;
        *search_text = String::new();
        true
    } else {
        false
    }
}

/// A summon received while the window is already visible keeps it visible,
/// and each of two summons in a row asks again for the focus and for the
/// search box to be cleared.
pub proof fn lemma_summon_idempotent(c: VisibilityController)
    requires
        !c.hidden,
    ensures
        ({
            let once = c.next(UserEvent::ShowWindow);
            let twice = once.next(UserEvent::ShowWindow);
            &&& !once.hidden && !twice.hidden
            &&& once == c && twice == c
            &&& c.reactions(UserEvent::ShowWindow) == once.reactions(UserEvent::ShowWindow)
            &&& !c.reactions(UserEvent::ShowWindow).contains(WindowAction::SetVisible(false))
            &&& c.reactions(UserEvent::ShowWindow).contains(WindowAction::Focus)
            &&& c.reactions(UserEvent::ShowWindow).contains(WindowAction::MarkSummoned)
        }),
{
    let r = c.reactions(UserEvent::ShowWindow);
    assert(r[2] == WindowAction::Focus);
    assert(r[3] == WindowAction::MarkSummoned);
    assert(!r.contains(WindowAction::SetVisible(false))) by {
        if r.contains(WindowAction::SetVisible(false)) {
            let k = choose|k: int| 0 <= k < r.len() && r[k] == WindowAction::SetVisible(false);
            assert(k == 0 || k == 1 || k == 2 || k == 3);
        }
    }
}

} // verus!
