use vstd::prelude::*;

use crate::error::RepositoryError;

verus! {

/// A named tag that todos refer to.
#[derive(Debug, Clone)]
pub struct Label {
    pub id: i32,
    pub name: String,
}

/// The mathematical value of a label.
pub struct LabelModel {
    pub id: i32,
    pub name: Seq<char>,
}

impl View for Label {
    type V = LabelModel;

    open spec fn view(&self) -> LabelModel {
        LabelModel { id: self.id, name: self.name@ }
    }
}

/// The values of a sequence of labels.
pub open spec fn labels_view(v: Seq<Label>) -> Seq<LabelModel> {
    v.map_values(|l: Label| l@)
}

impl Label {
    pub fn new(id: i32, name: String) -> (r: Label)
        ensures
            r.id == id,
            r.name@ == name@,
    {
        Label { id, name }
    }

    /// A copy of this label with the same id and name.
    pub fn duplicate(&self) -> (r: Label)
        ensures
            r@ == self@,
    {
        Label { id: self.id, name: self.name.clone() }
    }
}

/// Copies a list of labels, keeping their order.
pub fn duplicate_labels(v: &Vec<Label>) -> (r: Vec<Label>)
    ensures
        labels_view(r@) == labels_view(v@),
{
    let mut r: Vec<Label> = Vec::new();
    let mut i: usize = 0;
    while i < v.len()
        invariant
            i <= v.len(),
            r@.len() == i,
            forall|j: int| 0 <= j < i ==> r@[j]@ == v@[j]@,
        decreases v.len() - i,
    {
        r.push(v[i].duplicate());
        i = i + 1;
    }
    proof {
        assert(labels_view(r@) =~= labels_view(v@));
    }
    r
}

/// Whether two label lists hold the same ids and names in the same order.
pub fn labels_equal(a: &Vec<Label>, b: &Vec<Label>) -> (r: bool)
    ensures
        r == (labels_view(a@) == labels_view(b@)),
{
    if a.len() != b.len() {
        proof {
            assert(labels_view(a@).len() != labels_view(b@).len());
        }
        return false;
    }
    let mut i: usize = 0;
    while i < a.len()
        invariant
            i <= a.len(),
            a.len() == b.len(),
            forall|j: int| 0 <= j < i ==> a@[j]@ == b@[j]@,
        decreases a.len() - i,
    {
        if a[i].id != b[i].id || a[i].name != b[i].name {
            proof {
                assert(labels_view(a@)[i as int] != labels_view(b@)[i as int]);
            }
            return false;
        }
        i = i + 1;
    }
    proof {
        assert(labels_view(a@) =~= labels_view(b@));
    }
    true
}

impl PartialEq for Label {
    fn eq(&self, other: &Label) -> (r: bool) {
        self.id == other.id && self.name == other.name
    }
}

impl vstd::std_specs::cmp::PartialEqSpecImpl for Label {
    open spec fn obeys_eq_spec() -> bool {
        true
    }

    open spec fn eq_spec(&self, other: &Label) -> bool {
        self@ == other@
    }
}

impl Eq for Label {
}

/// No two labels of the list share an id, and ids increase along it.
pub open spec fn labels_ascending(v: Seq<LabelModel>) -> bool {
    forall|i: int, j: int| 0 <= i < j < v.len() ==> v[i].id < v[j].id
}

/// A store of labels kept in memory. Ids come from a counter that only grows.
pub struct LabelRepositoryForMemory {
    labels: Vec<Label>,
    next_id: i32,
}

impl LabelRepositoryForMemory {
    /// The labels, in increasing order of id.
    pub closed spec fn entries(&self) -> Seq<LabelModel> {
        labels_view(self.labels@)
    }

    /// The id that the next label receives.
    pub closed spec fn next(&self) -> i32 {
        self.next_id
    }

    pub closed spec fn inv(&self) -> bool {
        &&& labels_ascending(self.entries())
        &&& 1 <= self.next_id
        &&& forall|i: int| 0 <= i < self.labels@.len() ==> self.labels@[i].id < self.next_id
    }

    pub fn new() -> (r: LabelRepositoryForMemory)
        ensures
            r.inv(),
            r.entries() == Seq::<LabelModel>::empty(),
            r.next() == 1,
    {
        let r = LabelRepositoryForMemory { labels: Vec::new(), next_id: 1 };
        proof {
            assert(r.entries() =~= Seq::<LabelModel>::empty());
        }
        r
    }

    /// Adds a label with this name under the next id; fails when the ids are used up.
    pub fn create(&mut self, name: String) -> (r: Result<Label, RepositoryError>)
        requires
            old(self).inv(),
        ensures
            final(self).inv(),
            match r {
                Ok(l) => {
                    &&& old(self).next() < i32::MAX
                    &&& l@ == (LabelModel { id: old(self).next(), name: name@ })
                    &&& final(self).entries() == old(self).entries().push(l@)
                    &&& final(self).next() == old(self).next() + 1
                },
                Err(e) => e is Unexpected && old(self).next() == i32::MAX && *final(self) == *old(self),
            },
    {
        if self.next_id == i32::MAX {
            return Err(RepositoryError::Unexpected("label ids are used up".to_owned()));
        }
        let label = Label { id: self.next_id, name };
        let ghost s0 = self.entries();
        self.labels.push(label.duplicate());
        self.next_id = self.next_id + 1;
        proof {
            assert(self.entries() =~= s0.push(label@));
        }
        Ok(label)
    }

    /// Every label, in increasing order of id.
    pub fn all(&self) -> (r: Vec<Label>)
        ensures
            labels_view(r@) == self.entries(),
    {
        duplicate_labels(&self.labels)
    }

    /// Removes the label with this id, or fails with `NotFound(id)`.
    pub fn delete(&mut self, id: i32) -> (r: Result<(), RepositoryError>)
        requires
            old(self).inv(),
        ensures
            final(self).inv(),
            final(self).next() == old(self).next(),
            match r {
                Ok(_) => exists|i: int|
                    0 <= i < old(self).entries().len() && old(self).entries()[i].id == id
                        && final(self).entries() == old(self).entries().remove(i),
                Err(e) => {
                    &&& e == RepositoryError::NotFound(id)
                    &&& forall|i: int| 0 <= i < old(self).entries().len() ==> old(self).entries()[i].id != id
                    &&& *final(self) == *old(self)
                },
            },
    {
        let mut i: usize = 0;
        while i < self.labels.len()
            invariant
                i <= self.labels@.len(),
                *self == *old(self),
                old(self).inv(),
                forall|j: int| 0 <= j < i ==> self.labels@[j].id != id,
            decreases self.labels.len() - i,
        {
            if self.labels[i].id == id {
                let ghost s0 = self.entries();
                self.labels.remove(i);
                proof {
                    let s1 = self.entries();
                    assert(s1 =~= s0.remove(i as int));
                    assert(s0[i as int].id == id);
                    assert forall|a: int, b: int| 0 <= a < b < s1.len() implies s1[a].id < s1[b].id by {
                        let a0 = if a < i { a } else { a + 1 };
                        let b0 = if b < i { b } else { b + 1 };
                        assert(s1[a] == s0[a0] && s1[b] == s0[b0]);
                    }
                    assert forall|a: int| 0 <= a < self.labels@.len() implies self.labels@[a].id
                        < self.next_id by {
                        let a0 = if a < i { a } else { a + 1 };
                        assert(self.labels@[a] == old(self).labels@[a0]);
                    }
                }
                return Ok(());
            }
            i = i + 1;
        }
        proof {
            assert forall|j: int| 0 <= j < self.entries().len() implies self.entries()[j].id != id by {
                assert(self.labels@[j].id != id);
            }
        }
        Err(RepositoryError::NotFound(id))
    }
}

} // verus!
