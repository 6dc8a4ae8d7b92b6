pub mod descriptor;
pub mod events;
pub mod gesture;
pub mod pen_laws;
pub mod retimer;
pub mod single;
pub mod tablet;
pub mod tablet_history;
pub mod tablet_laws;
pub mod tablet_model;
pub mod touch_laws;
