//! The decision logic of the Chute desktop commands: reading local date-time
//! text, keeping the countdown timers, preparing the AppleScript automation
//! and the capture hotkey, with the window and process work left to the host.

pub mod text;
pub mod numbers;
pub mod fields;
pub mod iso;
pub mod clock;
pub mod timers;
pub mod alert;
pub mod apple;
pub mod hotkey;
pub mod links;
