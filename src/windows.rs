use vstd::prelude::*;

verus! {

/// What the window server reports of one on-screen window.
#[derive(Debug)]
pub struct WindowInfo {
    pub name: Option<String>,
    pub owner: Option<String>,
    pub layer: Option<i32>,
}

impl WindowInfo {
    /// Whether the window belongs to an application that can take focus:
    /// those windows sit on layer 0.
    pub fn is_focusable(&self) -> (r: bool)
        ensures
            r == (self.layer == Some(0i32)),
    {
        match self.layer {
            Some(l) => l == 0,
            None => false,
        }
    }
}

} // verus!
