use vstd::prelude::*;

use crate::resources::{recipe, recipe_inputs, ComplexKind, ResourceKind};

verus! {

/// Why an agent could not assemble the prerequisites of a combination.
#[derive(Clone, Copy, Debug, PartialEq, Eq, Structural)]
pub enum BagError {
    MissingResource,
}

/// True when `s` holds the two prerequisites `(a, b)`, counted with multiplicity.
pub open spec fn holds_pair(s: Seq<ResourceKind>, a: ResourceKind, b: ResourceKind) -> bool {
    s.contains(a) && s.remove_value(a).contains(b)
}

/// The carried-item collection of an agent, in insertion order.
pub struct Bag {
    items: Vec<ResourceKind>,
}

impl View for Bag {
    type V = Seq<ResourceKind>;

    closed spec fn view(&self) -> Seq<ResourceKind> {
        self.items@
    }
}

impl Bag {
    pub fn new() -> (r: Bag)
        ensures
            r@ == Seq::<ResourceKind>::empty(),
    {
        Bag { items: Vec::new() }
    }

    pub fn len(&self) -> (r: usize)
        ensures
            r == self@.len(),
    {
        self.items.len()
    }

    /// Adds one item at the end.
    pub fn insert(&mut self, res: ResourceKind)
        ensures
            final(self)@ == old(self)@.push(res),
    {
        self.items.push(res);
    }

    /// The index of the first item of kind `ty`, if any.
    fn position_of(&self, ty: ResourceKind) -> (r: Option<usize>)
        ensures
            match r {
                Some(i) => self@.index_of_first(ty) == Some(i as int),
                None => self@.index_of_first(ty) is None,
            },
    {
        proof {
            self@.index_of_first_ensures(ty);
        }
        let mut i: usize = 0;
        while i < self.items.len()
            invariant
                0 <= i <= self.items@.len(),
                forall|j: int| 0 <= j < i ==> self.items@[j] != ty,
            decreases self.items@.len() - i,
        {
            if self.items[i] == ty {
                proof {
                    assert(self@[i as int] == ty);
                    assert(self@.contains(ty));
                    self@.index_of_first_ensures(ty);
                    assert(self@.index_of_first(ty) is Some);
                    let k = self@.index_of_first(ty).unwrap();
                    assert(0 <= k < self@.len() && self@[k] == ty);
                    if k < i as int {
                        assert(self.items@[k] != ty);
                    } else if k > i as int {
                        assert(self@[i as int] != ty);
                    }
                }
                return Some(i);
            }
            i += 1;
        }
        proof {
            if self@.contains(ty) {
                let k = self@.index_of_first(ty).unwrap();
                assert(self@[k] != ty);
            }
        }
        None
    }

    /// True when some carried item is of kind `ty`.
    pub fn contains(&self, ty: ResourceKind) -> (r: bool)
        ensures
            r == self@.contains(ty),
    {
        proof {
            self@.index_of_first_ensures(ty);
        }
        match self.position_of(ty) {
            Some(_) => true,
            None => false,
        }
    }

    /// Removes the first item of kind `ty` and hands it out.
    pub fn take_resource(&mut self, ty: ResourceKind) -> (r: Option<ResourceKind>)
        ensures
            r is Some <==> old(self)@.contains(ty),
            r is Some ==> r == Some(ty),
            final(self)@ == old(self)@.remove_value(ty),
    {
        proof {
            self@.index_of_first_ensures(ty);
        }
        match self.position_of(ty) {
            Some(i) => {
                let item = self.items.remove(i);
                Some(item)
            },
            None => None,
        }
    }

    /// The kinds of the carried items, in order.
    pub fn to_resource_types(&self) -> (r: Vec<ResourceKind>)
        ensures
            r@ == self@,
    {
        let mut out: Vec<ResourceKind> = Vec::new();
        let mut i: usize = 0;
        while i < self.items.len()
            invariant
                0 <= i <= self.items@.len(),
                out@ == self.items@.subrange(0, i as int),
            decreases self.items@.len() - i,
        {
            out.push(self.items[i]);
            i += 1;
        }
        assert(out@ =~= self.items@);
        out
    }

    /// Takes out the two prerequisites of combination `kind`, or takes nothing
    /// and reports the missing resource.
    pub fn make_request(&mut self, kind: ComplexKind) -> (r: Result<
        (ResourceKind, ResourceKind),
        BagError,
    >)
        ensures
            ({
                let (a, b) = recipe_inputs(kind);
                &&& r is Ok <==> holds_pair(old(self)@, a, b)
                &&& r is Ok ==> r == Ok::<(ResourceKind, ResourceKind), BagError>((a, b))
                &&& r is Ok ==> final(self)@ == old(self)@.remove_value(a).remove_value(b)
                &&& r is Err ==> r == Err::<(ResourceKind, ResourceKind), BagError>(
                    BagError::MissingResource,
                )
                &&& r is Err ==> final(self)@ == old(self)@
            }),
    {
        let (a, b) = recipe(kind);
        let mut rest = Bag { items: self.to_resource_types() };
        if rest.take_resource(a).is_none() {
            return Err(BagError::MissingResource);
        }
        if rest.take_resource(b).is_none() {
            return Err(BagError::MissingResource);
        }
        self.items = rest.items;
        Ok((a, b))
    }
}

} // verus!
