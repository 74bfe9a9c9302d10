//! Client-side navigation core: typed URLs, path resolution, anchor-click
//! decisions and the navigation state machine of the routing providers.

pub mod click;
pub mod location;
pub mod navigation;
pub mod params;
pub mod resolve;
pub mod text;
