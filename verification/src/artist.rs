//! An artist whose songs are examined.

use vstd::prelude::*;

verus! {

/// One artist of the input: a display name and the catalog's identifier.
#[derive(Debug)]
pub struct Artist {
    pub name: String,
    pub id: usize,
}

/// What an [`Artist`] holds, as mathematical values.
pub struct ArtistView {
    pub name: Seq<char>,
    pub id: usize,
}

impl View for Artist {
    type V = ArtistView;

    open spec fn view(&self) -> ArtistView {
        ArtistView { name: self.name@, id: self.id }
    }
}

impl Clone for Artist {
    fn clone(&self) -> (copy: Artist)
        ensures
            copy@ == self@,
    {
        Artist {
            name: self.name.clone(),
            id: self.id,
        }
    }
}

} // verus!
