//! Bookkeeping for terminal mouse capture. The terminal command itself is
//! written by the caller-supplied writer; the state changes only when the
//! write succeeds.
use vstd::prelude::*;

verus! {

/// The terminal command that turns mouse capture on or off.
#[derive(Debug, Clone, Copy, PartialEq, Eq, Structural)]
pub enum CaptureCommand {
    Enable,
    Disable,
}

pub struct MouseCapture {
    mouse_capture_is_active: bool,
}

/// The command that moves capture to `active`.
pub open spec fn command_for(active: bool) -> CaptureCommand {
    if active {
        CaptureCommand::Enable
    } else {
        CaptureCommand::Disable
    }
}

impl MouseCapture {
    pub closed spec fn capture_on(&self) -> bool {
        self.mouse_capture_is_active
    }

    /// Whether mouse capture is on.
    pub fn is_active(&self) -> (b: bool)
        ensures
            b == self.capture_on(),
    {
        self.mouse_capture_is_active
    }

    /// Start with capture in the given state, enabling it through `write`
    /// first when it should be on.
    pub fn new_with_capture<E, F: FnOnce(CaptureCommand) -> Result<(), E>>(
        mouse_capture_is_active: bool,
        write: F,
    ) -> (r: Result<Self, E>)
        requires
            mouse_capture_is_active ==> write.requires((CaptureCommand::Enable,)),
        ensures
            !mouse_capture_is_active ==> (r matches Ok(m) && !m.capture_on()),
            mouse_capture_is_active ==> exists|w: Result<(), E>|
                write.ensures((CaptureCommand::Enable,), w) && match w {
                    Ok(_) => (r matches Ok(m) && m.capture_on()),
                    Err(e) => r == Err::<Self, E>(e),
                },
    {
        if mouse_capture_is_active {
            match write(CaptureCommand::Enable) {
                Ok(_) => {},
                Err(e) => {
                    return Err(e);
                },
            }
        }
        Ok(MouseCapture { mouse_capture_is_active })
    }

    /// The command to write to move capture to `is_active`: none when it is
    /// already in that state.
    pub fn command_to_reach(&self, is_active: bool) -> (r: Option<CaptureCommand>)
        ensures
            r == if self.capture_on() == is_active {
                None
            } else {
                Some(command_for(is_active))
            },
    {
        if self.mouse_capture_is_active == is_active {
            None
        } else if is_active {
            Some(CaptureCommand::Enable)
        } else {
            Some(CaptureCommand::Disable)
        }
    }

    /// Idempotently set the capture state: the command of
    /// [`MouseCapture::command_to_reach`] is written, and nothing when there
    /// is none; the state follows only when the write succeeds.
    pub fn set_active<E, F: FnOnce(CaptureCommand) -> Result<(), E>>(
        &mut self,
        is_active: bool,
        write: F,
    ) -> (r: Result<(), E>)
        requires
            old(self).capture_on() != is_active ==> write.requires((command_for(is_active),)),
        ensures
            old(self).capture_on() == is_active ==> r is Ok && final(self).capture_on()
                == old(self).capture_on(),
            old(self).capture_on() != is_active ==> write.ensures((command_for(is_active),), r)
                && (r is Ok ==> final(self).capture_on() == is_active) && (r is Err
                ==> final(self).capture_on() == old(self).capture_on()),
    {
        match self.command_to_reach(is_active) {
            None => Ok(()),
            Some(cmd) => {
                let r = write(cmd);
                if r.is_ok() {
                    self.mouse_capture_is_active = is_active;
                }
                r
            },
        }
    }

    /// Flip the capture state.
    pub fn toggle<E, F: FnOnce(CaptureCommand) -> Result<(), E>>(&mut self, write: F) -> (r: Result<
        (),
        E,
    >)
        requires
            write.requires((command_for(!old(self).capture_on()),)),
        ensures
            write.ensures((command_for(!old(self).capture_on()),), r),
            r is Ok ==> final(self).capture_on() == !old(self).capture_on(),
            r is Err ==> final(self).capture_on() == old(self).capture_on(),
    {
        let target = !self.mouse_capture_is_active;
        self.set_active(target, write)
    }

    /// Turn capture off if it is on.
    pub fn disable<E, F: FnOnce(CaptureCommand) -> Result<(), E>>(&mut self, write: F) -> (r: Result<
        (),
        E,
    >)
        requires
            old(self).capture_on() ==> write.requires((CaptureCommand::Disable,)),
        ensures
            !old(self).capture_on() ==> r is Ok && !final(self).capture_on(),
            old(self).capture_on() ==> write.ensures((CaptureCommand::Disable,), r) && (r is Ok
                ==> !final(self).capture_on()) && (r is Err ==> final(self).capture_on()),
    {
        self.set_active(false, write)
    }
}

} // verus!
