use vstd::prelude::*;

verus! {

/// Light listing arguments (none) of the fixed-list variant.
#[derive(Debug)]
pub struct LightsInfoTool {}

impl LightsInfoTool {
    /// The fixed list of light names, as `format!("{:?}", [..])` writes it.
    pub fn handle(&self) -> (r: String)
        ensures
            r@ == "[\"main light\", \"room light\", \"contour\"]"@,
    {
        String::from_str("[\"main light\", \"room light\", \"contour\"]")
    }
}

} // verus!
