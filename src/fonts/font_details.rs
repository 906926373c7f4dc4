use vstd::prelude::*;

verus! {

/// A font file and the size to rasterise it at; the key under which a
/// loaded font is cached.
#[derive(Eq, Copy, Clone, Hash, Debug)]
pub struct FontDetails {
    pub path: &'static str,
    pub size: u16,
}

impl PartialEq for FontDetails {
    fn eq(&self, details: &Self) -> (r: bool) {
        let a = self.path.to_string();
        let b = details.path.to_string();
        a == b && self.size == details.size
    }
}

impl vstd::std_specs::cmp::PartialEqSpecImpl for FontDetails {
    open spec fn obeys_eq_spec() -> bool {
        true
    }

    open spec fn eq_spec(&self, details: &FontDetails) -> bool {
        self.path@ == details.path@ && self.size == details.size
    }
}

} // verus!
