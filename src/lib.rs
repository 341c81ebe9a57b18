use vstd::prelude::*;

pub mod editable;
pub mod level;
pub mod model;
pub mod node;
pub mod number;
pub mod properties;
pub mod site;
pub mod vertex;

verus! {

/// The screen that the editor shows: the main menu, or a loaded site map.
#[derive(Clone, Copy, Debug, PartialEq, Eq, Hash, Structural)]
pub enum AppState {
    MainMenu,
    SiteMap,
}

} // verus!
