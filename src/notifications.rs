//! The notices that lifecycle operations ask to be shown to the user.

use vstd::prelude::*;

verus! {

/// A desktop notice that a lifecycle operation asks for. Delivery is best
/// effort and lies outside the library.
#[derive(Debug, Clone, Copy, PartialEq, Eq, Structural)]
pub enum Notice {
    Started,
    Finished,
    Cancelled,
}

impl Notice {
    pub open spec fn summary_text(self) -> Seq<char> {
        match self {
            Notice::Started => "H.Q.! Timer Started"@,
            Notice::Finished => "H.Q.! Timer Finished"@,
            Notice::Cancelled => "H.Q.! Timer Cancelled"@,
        }
    }

    pub open spec fn body_text(self) -> Seq<char> {
        match self {
            Notice::Started => "Your timer has been started."@,
            Notice::Finished => "Your timer has finished."@,
            Notice::Cancelled => "Your timer has been cancelled."@,
        }
    }

    /// The notice's title.
    pub fn summary(&self) -> (r: String)
        ensures
            r@ == self.summary_text(),
    {
        match self {
            Notice::Started => String::from_str("H.Q.! Timer Started"),
            Notice::Finished => String::from_str("H.Q.! Timer Finished"),
            Notice::Cancelled => String::from_str("H.Q.! Timer Cancelled"),
        }
    }

    /// The notice's text.
    pub fn body(&self) -> (r: String)
        ensures
            r@ == self.body_text(),
    {
        match self {
            Notice::Started => String::from_str("Your timer has been started."),
            Notice::Finished => String::from_str("Your timer has finished."),
            Notice::Cancelled => String::from_str("Your timer has been cancelled."),
        }
    }
}

} // verus!
