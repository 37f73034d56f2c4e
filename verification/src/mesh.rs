//! An indexed mesh as flat attribute arrays: three position scalars and
//! four color scalars per vertex, two texcoords, one texture flag, and
//! a triangle index list. Decoding a mesh file into this form is the
//! mesh-loading collaborator's job.

use vstd::prelude::*;

verus! {

pub struct Mesh {
    pub positions: Vec<i64>,
    pub colors: Vec<i64>,
    pub texcoords: Vec<i64>,
    pub has_tex: Vec<u8>,
    pub indices: Vec<u16>,
}

impl Mesh {
    /// Every attribute array sized for the same vertex count.
    pub open spec fn wf(self) -> bool {
        &&& self.positions@.len() == 3 * self.has_tex@.len()
        &&& self.colors@.len() == 4 * self.has_tex@.len()
        &&& self.texcoords@.len() == 2 * self.has_tex@.len()
    }

    pub fn get_n_vertcies(&self) -> (n: usize)
        requires
            self.wf(),
        ensures
            n == self.has_tex@.len(),
    {
        self.has_tex.len()
    }

    pub fn get_n_indices(&self) -> (n: usize)
        ensures
            n == self.indices@.len(),
    {
        self.indices.len()
    }
}

} // verus!
