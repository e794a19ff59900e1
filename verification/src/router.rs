//! The dashboard's pages.
use vstd::prelude::*;

verus! {

#[derive(Clone, Debug, PartialEq, Eq)]
pub enum Route {
    Dashboard {},
    Agents {},
    Settings {},
    NotFound { segments: Vec<String> },
}

pub open spec fn route_label(route: Route) -> Seq<char> {
    match route {
        Route::Dashboard {} => "Dashboard"@,
        Route::Agents {} => "Agents"@,
        Route::Settings {} => "Settings"@,
        Route::NotFound { .. } => "Not Found"@,
    }
}

impl Route {
    /// The page's name in the navigation.
    pub fn label(&self) -> (r: &'static str)
        ensures
            r@ == route_label(*self),
    {
        match self {
            Route::Dashboard {} => "Dashboard",
            Route::Agents {} => "Agents",
            Route::Settings {} => "Settings",
            Route::NotFound { .. } => "Not Found",
        }
    }
}

} // verus!
