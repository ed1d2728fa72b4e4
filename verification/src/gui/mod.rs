//! The graphical desktop: windows, the mouse cursor, and the compositor's
//! decisions.

pub mod compositor;
pub mod cursor;
pub mod demo;
pub mod desktop;
pub mod frame;
pub mod mouse_laws;
pub mod picture_laws;
pub mod taskbar_laws;
pub mod window;
