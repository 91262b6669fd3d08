use vstd::prelude::*;

use crate::text::to_string;
use crate::widget::qr::{self, draws, picture_size, qr_modules, QrImage};

verus! {

/// Where the linking of this device stands.
#[derive(Debug, Clone)]
pub enum State {
    /// Waiting for the provisioning URL.
    Connecting,
    /// Showing the provisioning URL as a QR code, for the phone to scan.
    Url(QrImage),
    /// Linking failed, for this reason.
    Failed(String),
}

/// The screen shown until this device is linked to the user's phone.
#[derive(Debug, Clone)]
pub struct Linking {
    pub state: State,
}

/// The message shown when the provisioning URL cannot be drawn as a code.
pub open spec fn render_failure() -> Seq<char> {
    "failed to render the provisioning QR code"@
}

/// Whether `state` shows the provisioning URL `url`: its QR code when it can
/// be encoded, else the failure to draw it.
pub open spec fn shows_url(state: State, url: Seq<char>) -> bool {
    match qr_modules(url) {
        Some((width, dark)) => state matches State::Url(image) && image.size == picture_size(
            width as int,
        ) && draws(image.pixels@, image.size as int, width as int, dark),
        None => state matches State::Failed(reason) && reason@ == render_failure(),
    }
}

impl Linking {
    /// The screen while connecting.
    pub fn new() -> (linking: Linking)
        ensures
            linking.state is Connecting,
    {
        Linking { state: State::Connecting }
    }

    /// Shows the provisioning URL as a QR code, or the failure to draw it.
    pub fn set_url(&mut self, url: &str)
        ensures
            shows_url(final(self).state, url@),
    {
        self.state = match qr::handle(url) {
            Some(image) => State::Url(image),
            None => State::Failed(to_string("failed to render the provisioning QR code")),
        };
    }

    /// Shows that linking failed, and why.
    pub fn fail(&mut self, error: String)
        ensures
            final(self).state == State::Failed(error),
    {
        self.state = State::Failed(error);
    }
}

} // verus!
