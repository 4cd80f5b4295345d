//! Status aggregation for a file-synchronization daemon: the presentation
//! model built from its management API's resources, the text formatting
//! that the dashboard shows, and the decisions of a light/dark appearance
//! toggle.
pub mod format;
pub mod model;
pub mod laws;
pub mod api;
pub mod appearance;
pub mod text;
pub mod discovery;
