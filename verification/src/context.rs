//! Focused-app detection for per-app profiles.

use vstd::prelude::*;

verus! {

/// The name used for the focused window: its app name, or its title when
/// the app name is empty.
pub fn focused_app_label(app_name: String, title: String) -> (res: String)
    ensures
        res == if app_name@.len() > 0 {
            app_name
        } else {
            title
        },
{
    if !app_name.as_str().is_empty() {
        app_name
    } else {
        title
    }
}

} // verus!
