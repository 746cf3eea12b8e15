//! The two tables of the registry: layer records by layer type, and layer
//! types by filename. Each keeps its keys and its values in two vectors,
//! index by index, and holds no key twice.
//!
//! Vectors stand here where a hash map might: filenames are strings, for
//! whose hashing the verifier has no model, so nothing could be proved of a
//! map keyed by them; a record has to be lent out mutably from inside a
//! manager that keeps an invariant, which indexing a vector allows; and
//! the order in which layers are walked is then the order in which they
//! came, the same on every run.

use crate::display::{
    quadrant_offset, spec_quadrant_offset, spec_visibility_after_flip, visibility_after_flip,
};
use crate::layer::{placed_at, LayerInfo, LayerType};
use crate::transform::ViewTransformState;
use crate::pairs::{
    lemma_pairs_absent, lemma_pairs_empty, lemma_pairs_lookup, lemma_pairs_push,
    lemma_pairs_remove, lemma_pairs_update, paired, pairs_map,
};
use vstd::prelude::*;

verus! {

/// Layer records by layer type, in the order in which the layer types were
/// first put in.
#[derive(Debug)]
pub struct LayerTable {
    pub types: Vec<LayerType>,
    pub infos: Vec<LayerInfo>,
}

/// Layer types by filename, in the order in which the filenames were first
/// put in.
#[derive(Debug)]
pub struct AssignmentTable {
    pub names: Vec<String>,
    pub types: Vec<LayerType>,
}

/// The filenames of `names` as character sequences.
pub open spec fn name_views(names: Seq<String>) -> Seq<Seq<char>> {
    Seq::new(names.len(), |i: int| names[i]@)
}

impl LayerTable {
    /// Whether the vectors pair up and no layer type stands twice.
    pub open spec fn wf(&self) -> bool {
        paired(self.types@, self.infos@)
    }

    /// The table as a map.
    pub open spec fn map(&self) -> Map<LayerType, LayerInfo> {
        pairs_map(self.types@, self.infos@)
    }

    pub fn new() -> (table: LayerTable)
        ensures
            table.wf(),
            table.types@ == Seq::<LayerType>::empty(),
            table.infos@ == Seq::<LayerInfo>::empty(),
            table.map() == Map::<LayerType, LayerInfo>::empty(),
    {
        proof {
            lemma_pairs_empty::<LayerType, LayerInfo>();
        }
        LayerTable { types: Vec::new(), infos: Vec::new() }
    }

    /// The index of `layer_type`, if it is in the table.
    pub fn find(&self, layer_type: &LayerType) -> (found: Option<usize>)
        requires
            self.wf(),
        ensures
            match found {
                Some(i) => i < self.types@.len() && self.types@[i as int] == *layer_type
                    && self.map().contains_key(*layer_type) && self.map()[*layer_type]
                    == self.infos@[i as int],
                None => !self.types@.contains(*layer_type) && !self.map().contains_key(
                    *layer_type,
                ),
            },
    {
        let mut i: usize = 0;
        while i < self.types.len()
            invariant
                self.wf(),
                i <= self.types.len(),
                forall|j: int| 0 <= j < i ==> self.types@[j] != *layer_type,
            decreases self.types.len() - i,
        {
            if self.types[i] == *layer_type {
                proof {
                    lemma_pairs_lookup(self.types@, self.infos@, i as int);
                }
                return Some(i);
            }
            i = i + 1;
        }
        proof {
            lemma_pairs_absent(self.types@, self.infos@, *layer_type);
        }
        None
    }

    /// Puts `info` under `layer_type`, in place of what stood there.
    pub fn put(&mut self, layer_type: LayerType, info: LayerInfo)
        requires
            old(self).wf(),
        ensures
            final(self).wf(),
            final(self).map() == old(self).map().insert(layer_type, info),
            final(self).types@ == if old(self).map().contains_key(layer_type) {
                old(self).types@
            } else {
                old(self).types@.push(layer_type)
            },
    {
        match self.find(&layer_type) {
            Some(i) => {
                proof {
                    lemma_pairs_update(self.types@, self.infos@, i as int, info);
                }
                self.infos[i] = info;
            },
            None => {
                proof {
                    lemma_pairs_push(self.types@, self.infos@, layer_type, info);
                }
                self.types.push(layer_type);
                self.infos.push(info);
            },
        }
    }

    /// Takes out what stands under `layer_type`.
    pub fn take(&mut self, layer_type: &LayerType) -> (taken: Option<LayerInfo>)
        requires
            old(self).wf(),
        ensures
            final(self).wf(),
            final(self).map() == old(self).map().remove(*layer_type),
            final(self).types@ == if old(self).map().contains_key(*layer_type) {
                old(self).types@.remove(old(self).types@.index_of(*layer_type))
            } else {
                old(self).types@
            },
            match taken {
                Some(info) => old(self).map().contains_key(*layer_type) && old(self).map()[*layer_type]
                    == info,
                None => !old(self).map().contains_key(*layer_type),
            },
    {
        match self.find(layer_type) {
            Some(i) => {
                proof {
                    lemma_pairs_remove(self.types@, self.infos@, i as int);
                }
                self.types.remove(i);
                let info = self.infos.remove(i);
                Some(info)
            },
            None => {
                assert(self.map().remove(*layer_type) =~= self.map());
                None
            },
        }
    }
}

impl LayerTable {
    /// Places every record where the view `state` puts layers of its type.
    pub fn place_each(&mut self, state: &ViewTransformState)
        requires
            old(self).wf(),
        ensures
            final(self).wf(),
            final(self).types@ == old(self).types@,
            forall|j: int|
                0 <= j < old(self).infos@.len() ==> #[trigger] final(self).infos@[j] == placed_at(
                    old(self).infos@[j],
                    spec_quadrant_offset(*state, old(self).types@[j]),
                ),
    {
        let mut i: usize = 0;
        while i < self.infos.len()
            invariant
                self.types@ == old(self).types@,
                self.infos@.len() == old(self).infos@.len(),
                self.types@.len() == self.infos@.len(),
                i <= self.infos@.len(),
                forall|j: int|
                    0 <= j < i ==> #[trigger] self.infos@[j] == placed_at(
                        old(self).infos@[j],
                        spec_quadrant_offset(*state, old(self).types@[j]),
                    ),
                forall|j: int| i <= j < self.infos@.len() ==> self.infos@[j] == old(self).infos@[j],
            decreases self.infos.len() - i,
        {
            let mut info: LayerInfo = self.infos[i];
            info.place_at(quadrant_offset(state, self.types[i]));
            self.infos[i] = info;
            i = i + 1;
        }
    }

    /// Sets the visibility of every record to what it is after the board
    /// was flipped to the face given by `showing_top`.
    pub fn flip_each(&mut self, showing_top: bool)
        requires
            old(self).wf(),
        ensures
            final(self).wf(),
            final(self).types@ == old(self).types@,
            forall|j: int|
                0 <= j < old(self).infos@.len() ==> #[trigger] final(self).infos@[j] == (LayerInfo {
                    visible: spec_visibility_after_flip(
                        old(self).types@[j],
                        showing_top,
                        old(self).infos@[j].visible,
                    ),
                    ..old(self).infos@[j]
                }),
    {
        let mut i: usize = 0;
        while i < self.infos.len()
            invariant
                self.types@ == old(self).types@,
                self.infos@.len() == old(self).infos@.len(),
                self.types@.len() == self.infos@.len(),
                i <= self.infos@.len(),
                forall|j: int|
                    0 <= j < i ==> #[trigger] self.infos@[j] == (LayerInfo {
                        visible: spec_visibility_after_flip(
                            old(self).types@[j],
                            showing_top,
                            old(self).infos@[j].visible,
                        ),
                        ..old(self).infos@[j]
                    }),
                forall|j: int| i <= j < self.infos@.len() ==> self.infos@[j] == old(self).infos@[j],
            decreases self.infos.len() - i,
        {
            let mut info: LayerInfo = self.infos[i];
            info.visible = visibility_after_flip(self.types[i], showing_top, info.visible);
            self.infos[i] = info;
            i = i + 1;
        }
    }
}

impl AssignmentTable {
    /// Whether the vectors pair up and no filename stands twice.
    pub open spec fn wf(&self) -> bool {
        paired(name_views(self.names@), self.types@)
    }

    /// The table as a map.
    pub open spec fn map(&self) -> Map<Seq<char>, LayerType> {
        pairs_map(name_views(self.names@), self.types@)
    }

    pub fn new() -> (table: AssignmentTable)
        ensures
            table.wf(),
            table.names@ == Seq::<String>::empty(),
            table.types@ == Seq::<LayerType>::empty(),
            table.map() == Map::<Seq<char>, LayerType>::empty(),
    {
        proof {
            lemma_pairs_empty::<Seq<char>, LayerType>();
        }
        let table = AssignmentTable { names: Vec::new(), types: Vec::new() };
        assert(name_views(table.names@) =~= Seq::<Seq<char>>::empty());
        table
    }

    /// The index of `filename`, if it is in the table.
    pub fn find(&self, filename: &str) -> (found: Option<usize>)
        requires
            self.wf(),
        ensures
            match found {
                Some(i) => i < self.names@.len() && self.names@[i as int]@ == filename@
                    && self.map().contains_key(filename@) && self.map()[filename@]
                    == self.types@[i as int],
                None => !name_views(self.names@).contains(filename@) && !self.map().contains_key(
                    filename@,
                ),
            },
    {
        let wanted: String = filename.to_owned();
        let mut i: usize = 0;
        while i < self.names.len()
            invariant
                self.wf(),
                i <= self.names.len(),
                wanted@ == filename@,
                forall|j: int| 0 <= j < i ==> name_views(self.names@)[j] != filename@,
            decreases self.names.len() - i,
        {
            if self.names[i] == wanted {
                proof {
                    lemma_pairs_lookup(name_views(self.names@), self.types@, i as int);
                }
                return Some(i);
            }
            i = i + 1;
        }
        proof {
            lemma_pairs_absent(name_views(self.names@), self.types@, filename@);
        }
        None
    }

    /// Puts `layer_type` under `filename`, in place of what stood there.
    pub fn put(&mut self, filename: String, layer_type: LayerType)
        requires
            old(self).wf(),
        ensures
            final(self).wf(),
            final(self).map() == old(self).map().insert(filename@, layer_type),
    {
        match self.find(filename.as_str()) {
            Some(i) => {
                proof {
                    lemma_pairs_update(name_views(self.names@), self.types@, i as int, layer_type);
                }
                self.types[i] = layer_type;
            },
            None => {
                proof {
                    lemma_pairs_push(name_views(self.names@), self.types@, filename@, layer_type);
                    assert(name_views(self.names@.push(filename)) =~= name_views(self.names@).push(
                        filename@,
                    ));
                }
                self.names.push(filename);
                self.types.push(layer_type);
            },
        }
    }

    /// Takes out what stands under `filename`.
    pub fn take(&mut self, filename: &str) -> (taken: Option<LayerType>)
        requires
            old(self).wf(),
        ensures
            final(self).wf(),
            final(self).map() == old(self).map().remove(filename@),
            match taken {
                Some(t) => old(self).map().contains_key(filename@) && old(self).map()[filename@]
                    == t,
                None => !old(self).map().contains_key(filename@),
            },
    {
        match self.find(filename) {
            Some(i) => {
                proof {
                    lemma_pairs_remove(name_views(self.names@), self.types@, i as int);
                    assert(name_views(self.names@.remove(i as int)) =~= name_views(
                        self.names@,
                    ).remove(i as int));
                }
                self.names.remove(i);
                let layer_type = self.types.remove(i);
                Some(layer_type)
            },
            None => {
                assert(self.map().remove(filename@) =~= self.map());
                None
            },
        }
    }
}

} // verus!
