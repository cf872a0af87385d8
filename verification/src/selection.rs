use vstd::prelude::*;
use crate::object::Object;

verus! {

/// Weak, index-based references into the object roster: the selected and the
/// hovered object, if any. An index is only meaningful against the roster it
/// was taken from; whenever the roster is rebuilt, the whole selection is
/// invalidated rather than carried across.
pub struct ObjectSelection {
    selected_object_index: Option<usize>,
    hovered_object_index: Option<usize>,
}

impl ObjectSelection {
    /// The selected roster index, if any.
    pub closed spec fn spec_selected(&self) -> Option<usize> {
        self.selected_object_index
    }

    /// The hovered roster index, if any.
    pub closed spec fn spec_hovered(&self) -> Option<usize> {
        self.hovered_object_index
    }

    /// Sets the selected object index.
    pub fn set_selected(&mut self, index: Option<usize>)
        ensures
            final(self).spec_selected() == index,
            final(self).spec_hovered() == old(self).spec_hovered(),
    {
        self.selected_object_index = index;
    }

    /// Sets the hovered object index.
    pub fn set_hovered(&mut self, index: Option<usize>)
        ensures
            final(self).spec_hovered() == index,
            final(self).spec_selected() == old(self).spec_selected(),
    {
        self.hovered_object_index = index;
    }

    /// Drops both indices; called whenever the roster is rebuilt, since
    /// indices are not stable across a rebuild.
    pub fn invalidate(&mut self)
        ensures
            final(self).spec_selected() is None,
            final(self).spec_hovered() is None,
    {
        self.selected_object_index = None;
        self.hovered_object_index = None;
    }

    /// Returns the selected object, when the index is set and still within
    /// the roster; a stale out-of-range index yields nothing.
    pub fn selected_object<'a>(&self, objects: &'a Vec<Object>) -> (r: Option<&'a Object>)
        ensures
            r matches Some(o) ==> (self.spec_selected() matches Some(i) && i < objects.len() && *o
                == objects[i as int]),
            r is None ==> (self.spec_selected() is None || (self.spec_selected() matches Some(i)
                && i >= objects.len())),
    {
        match self.selected_object_index {
            Some(index) => if index < objects.len() {
                Some(&objects[index])
            } else {
                None
            },
            None => None,
        }
    }

    /// Returns the hovered object, under the same rule as `selected_object`.
    pub fn hovered_object<'a>(&self, objects: &'a Vec<Object>) -> (r: Option<&'a Object>)
        ensures
            r matches Some(o) ==> (self.spec_hovered() matches Some(i) && i < objects.len() && *o
                == objects[i as int]),
            r is None ==> (self.spec_hovered() is None || (self.spec_hovered() matches Some(i) && i
                >= objects.len())),
    {
        match self.hovered_object_index {
            Some(index) => if index < objects.len() {
                Some(&objects[index])
            } else {
                None
            },
            None => None,
        }
    }
}

impl Default for ObjectSelection {
    /// No object selected and none hovered.
    fn default() -> (s: Self)
        ensures
            s.spec_selected() is None,
            s.spec_hovered() is None,
    {
        ObjectSelection { selected_object_index: None, hovered_object_index: None }
    }
}

} // verus!
