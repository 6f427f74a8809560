//! Display backends. The RM1 build drives the native framebuffer directly;
//! the qtfb shared-memory server is kept as a compatibility path.
//!
//! Each operation decides what the backend has to do and hands it back as a
//! `DisplayAction`, which the caller performs on the device.
use vstd::prelude::*;
use crate::rm1fb::{MxcfbUpdateData, Rm1Framebuffer, refresh_planned, whole_panel, update_request, next_marker};

verus! {

/// The connection to a qtfb server, named by its shared-memory key.
#[derive(Debug, Clone, Copy, PartialEq, Eq, Structural)]
pub struct QtfbLink {
    pub key: i32,
}

pub enum Display {
    Qtfb(QtfbLink),
    Rm1(Rm1Framebuffer),
}

/// What the backend has to do.
#[derive(Debug, Clone, Copy, PartialEq, Eq, Structural)]
pub enum DisplayAction {
    /// Nothing to send.
    Nothing,
    /// qtfb: refresh the rectangle.
    QtfbUpdatePartial { x: i32, y: i32, w: i32, h: i32 },
    /// qtfb: refresh the whole screen.
    QtfbUpdateAll,
    /// qtfb: full (flashing) refresh.
    QtfbFullRefresh,
    /// qtfb: collect the input events the server queued.
    QtfbDrainEvents,
    /// qtfb: end the session.
    QtfbTerminate,
    /// framebuffer: send this `MXCFB_SEND_UPDATE` request.
    Rm1Send(MxcfbUpdateData),
}

/// The action for a planned framebuffer refresh.
pub open spec fn rm1_action(r: Option<MxcfbUpdateData>) -> DisplayAction {
    match r {
        Some(d) => DisplayAction::Rm1Send(d),
        None => DisplayAction::Nothing,
    }
}

/// The framebuffer request that an action sends, if any.
pub open spec fn sent(a: DisplayAction) -> Option<MxcfbUpdateData> {
    match a {
        DisplayAction::Rm1Send(d) => Some(d),
        _ => None,
    }
}

fn to_action(r: Option<MxcfbUpdateData>) -> (a: DisplayAction)
    ensures
        a == rm1_action(r),
{
    match r {
        Some(d) => DisplayAction::Rm1Send(d),
        None => DisplayAction::Nothing,
    }
}

impl Display {
    /// Refresh of a `w` x `h` rectangle at `(x, y)`, fast or not.
    pub fn update(&mut self, x: i32, y: i32, w: i32, h: i32, fast: bool) -> (r: DisplayAction)
        ensures
            match *old(self) {
                Display::Qtfb(q) => {
                    &&& *final(self) == *old(self)
                    &&& r == (DisplayAction::QtfbUpdatePartial { x, y, w, h })
                },
                Display::Rm1(before) => {
                    &&& *final(self) is Rm1
                    &&& refresh_planned(before, (*final(self))->Rm1_0, x as int, y as int, w as int, h as int, fast, false, sent(r))
                    &&& r == rm1_action(sent(r))
                },
            },
    {
        match self {
            Display::Qtfb(_) => DisplayAction::QtfbUpdatePartial { x, y, w, h },
            Display::Rm1(fb) => {
                let planned = fb.update(x, y, w, h, fast);
                to_action(planned)
            },
        }
    }

    /// Refresh of the whole screen (the size arguments are not used: the
    /// panel size is fixed).
    pub fn update_all(&mut self, _w: usize, _h: usize) -> (r: DisplayAction)
        ensures
            match *old(self) {
                Display::Qtfb(q) => *final(self) == *old(self) && r == DisplayAction::QtfbUpdateAll,
                Display::Rm1(before) => {
                    &&& *final(self) is Rm1
                    &&& (*final(self))->Rm1_0.spec_stride() == before.spec_stride()
                    &&& (*final(self))->Rm1_0.spec_fd() == before.spec_fd()
                    &&& (*final(self))->Rm1_0.spec_len() == before.spec_len()
                    &&& (*final(self))->Rm1_0.spec_marker() == next_marker(before.spec_marker())
                    &&& r == DisplayAction::Rm1Send(
                        update_request(whole_panel(), (*final(self))->Rm1_0.spec_marker(), false, false),
                    )
                },
            },
    {
        match self {
            Display::Qtfb(_) => DisplayAction::QtfbUpdateAll,
            Display::Rm1(fb) => {
                let planned = fb.update_all();
                to_action(planned)
            },
        }
    }

    /// Full (flashing) refresh of the whole screen.
    pub fn full_refresh(&mut self, _w: usize, _h: usize) -> (r: DisplayAction)
        ensures
            match *old(self) {
                Display::Qtfb(q) => *final(self) == *old(self) && r == DisplayAction::QtfbFullRefresh,
                Display::Rm1(before) => {
                    &&& *final(self) is Rm1
                    &&& (*final(self))->Rm1_0.spec_stride() == before.spec_stride()
                    &&& (*final(self))->Rm1_0.spec_fd() == before.spec_fd()
                    &&& (*final(self))->Rm1_0.spec_len() == before.spec_len()
                    &&& (*final(self))->Rm1_0.spec_marker() == next_marker(before.spec_marker())
                    &&& r == DisplayAction::Rm1Send(
                        update_request(whole_panel(), (*final(self))->Rm1_0.spec_marker(), false, true),
                    )
                },
            },
    {
        match self {
            Display::Qtfb(_) => DisplayAction::QtfbFullRefresh,
            Display::Rm1(fb) => {
                let planned = fb.full_refresh();
                to_action(planned)
            },
        }
    }

    /// Collecting input: the qtfb server queues events for the client; the
    /// framebuffer has none (its input comes from the event devices).
    pub fn pump(&self) -> (r: DisplayAction)
        ensures
            r == (match *self {
                Display::Qtfb(_) => DisplayAction::QtfbDrainEvents,
                Display::Rm1(_) => DisplayAction::Nothing,
            }),
    {
        match self {
            Display::Qtfb(_) => DisplayAction::QtfbDrainEvents,
            Display::Rm1(_) => DisplayAction::Nothing,
        }
    }

    /// Ending the session: only a qtfb session has to be told.
    pub fn terminate(&self) -> (r: DisplayAction)
        ensures
            r == (match *self {
                Display::Qtfb(_) => DisplayAction::QtfbTerminate,
                Display::Rm1(_) => DisplayAction::Nothing,
            }),
    {
        match self {
            Display::Qtfb(_) => DisplayAction::QtfbTerminate,
            Display::Rm1(_) => DisplayAction::Nothing,
        }
    }
}

} // verus!
