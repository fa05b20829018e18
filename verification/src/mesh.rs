//! Where the corners of a mesh's faces stand in its flat arrays.
//!
//! A mesh keeps its positions and normals as three numbers a vertex and its
//! texture coordinates as two, each list flat. A face corner names a vertex
//! by index, and may name a normal and a texture coordinate by indices of
//! their own. Before anything is read the indices are turned into offsets
//! and held against the lengths of the arrays.
use vstd::prelude::*;

verus! {

/// One corner of a face: where its attributes begin in the flat arrays.
#[derive(Clone, Copy, Debug, PartialEq, Eq, Structural)]
pub struct Corner {
    /// The offset of the first of its three position numbers.
    pub position: usize,
    /// The offset of the first of its three normal numbers, where the mesh
    /// has normals.
    pub normal: Option<usize>,
    /// The offset of the first of its two texture numbers, where the mesh
    /// has texture coordinates.
    pub texcoord: Option<usize>,
}

/// The index lists of a mesh and the lengths of its flat arrays.
pub struct Layout<'a> {
    /// For each corner, the index of its vertex.
    pub indices: &'a Vec<u32>,
    /// For each corner, the index of its normal; empty where the mesh has no
    /// normals.
    pub normal_indices: &'a Vec<u32>,
    /// For each corner, the index of its texture coordinate; empty where the
    /// mesh has none.
    pub texcoord_indices: &'a Vec<u32>,
    /// How many position numbers there are.
    pub positions: usize,
    /// How many normal numbers there are.
    pub normals: usize,
    /// How many texture numbers there are.
    pub texcoords: usize,
}

/// Where entry `i` of an index list begins in an array of `length` numbers,
/// `stride` a vertex: `None` where the list is too short or the entry
/// reaches past the end of the array.
pub open spec fn offset(list: Seq<u32>, i: int, stride: int, length: int) -> Option<usize> {
    if 0 <= i < list.len() && stride * list[i] + stride <= length {
        Some((stride * list[i]) as usize)
    } else {
        None
    }
}

impl<'a> Layout<'a> {
    /// Corner `i`, where all that it names is there.
    pub open spec fn corner(self, i: int) -> Option<Corner> {
        let position = offset(self.indices@, i, 3, self.positions as int);
        let normal = offset(self.normal_indices@, i, 3, self.normals as int);
        let texcoord = offset(self.texcoord_indices@, i, 2, self.texcoords as int);
        if position is None || (self.normal_indices@.len() > 0 && normal is None) || (
        self.texcoord_indices@.len() > 0 && texcoord is None) {
            None
        } else {
            Some(
                Corner {
                    position: position.unwrap(),
                    normal: if self.normal_indices@.len() > 0 {
                        normal
                    } else {
                        None
                    },
                    texcoord: if self.texcoord_indices@.len() > 0 {
                        texcoord
                    } else {
                        None
                    },
                },
            )
        }
    }

    /// Every corner names what is there.
    pub open spec fn sound(self) -> bool {
        forall|i: int| 0 <= i < self.indices@.len() ==> #[trigger] self.corner(i) is Some
    }

    /// The corners of the mesh, one for each entry of `indices` and in that
    /// order; three in a row make a face. `None` where a corner names a
    /// vertex, a normal or a texture coordinate that the mesh does not have.
    pub fn corners(&self) -> (corners: Option<Vec<Corner>>)
        ensures
            corners is Some <==> self.sound(),
            corners matches Some(list) ==> {
                &&& list@.len() == self.indices@.len()
                &&& forall|i: int|
                    0 <= i < list@.len() ==> self.corner(i) == Some(#[trigger] list@[i])
                &&& forall|i: int|
                    0 <= i < list@.len() ==> {
                        &&& (#[trigger] list@[i]).position + 3 <= self.positions
                        &&& list@[i].normal matches Some(at) ==> at + 3 <= self.normals
                        &&& list@[i].texcoord matches Some(at) ==> at + 2 <= self.texcoords
                    }
            },
    {
        let mut list: Vec<Corner> = Vec::new();
        let mut i: usize = 0;
        while i < self.indices.len()
            invariant
                i <= self.indices@.len(),
                list@.len() == i,
                forall|k: int| 0 <= k < i ==> self.corner(k) == Some(#[trigger] list@[k]),
            decreases self.indices@.len() - i,
        {
            let position = match Self::locate(self.indices, i, 3, self.positions) {
                Some(at) => at,
                None => {
                    assert(self.corner(i as int) is None);
                    return None;
                },
            };
            let normal = if self.normal_indices.len() > 0 {
                match Self::locate(self.normal_indices, i, 3, self.normals) {
                    Some(at) => Some(at),
                    None => {
                        assert(self.corner(i as int) is None);
                        return None;
                    },
                }
            } else {
                None
            };
            let texcoord = if self.texcoord_indices.len() > 0 {
                match Self::locate(self.texcoord_indices, i, 2, self.texcoords) {
                    Some(at) => Some(at),
                    None => {
                        assert(self.corner(i as int) is None);
                        return None;
                    },
                }
            } else {
                None
            };
            list.push(Corner { position, normal, texcoord });
            i += 1;
        }
        assert forall|k: int| 0 <= k < self.indices@.len() implies #[trigger] self.corner(
            k,
        ) is Some by {
            assert(self.corner(k) == Some(list@[k]));
        }
        assert forall|k: int| 0 <= k < list@.len() implies {
            &&& (#[trigger] list@[k]).position + 3 <= self.positions
            &&& list@[k].normal matches Some(at) ==> at + 3 <= self.normals
            &&& list@[k].texcoord matches Some(at) ==> at + 2 <= self.texcoords
        } by {
            assert(self.corner(k) == Some(list@[k]));
        }
        Some(list)
    }

    /// Where entry `i` of `list` begins in an array of `length` numbers.
    fn locate(list: &Vec<u32>, i: usize, stride: u8, length: usize) -> (at: Option<usize>)
        requires
            1 <= stride <= 3,
        ensures
            at == offset(list@, i as int, stride as int, length as int),
    {
        if i >= list.len() {
            return None;
        }
        let index: u64 = list[i] as u64;
        assert(stride * index <= 3 * 0xffff_ffff) by (nonlinear_arith)
            requires
                stride <= 3,
                index <= 0xffff_ffff,
        ;
        let begin: u64 = (stride as u64) * index;
        if begin + (stride as u64) <= length as u64 {
            Some(begin as usize)
        } else {
            None
        }
    }
}

} // verus!
