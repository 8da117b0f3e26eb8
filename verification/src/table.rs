//! The route table: the known paths, in the order they were configured.

use crate::path::{is_normalized, normalized, RoutePath};
use vstd::prelude::*;

verus! {

/// The normal form of every configured path, in order.
pub open spec fn normal_forms(raw: Seq<&str>) -> Seq<Seq<char>> {
    Seq::new(raw.len(), |i: int| normalized(raw[i]@))
}

/// The text of every path, in order.
pub open spec fn texts(entries: Seq<RoutePath>) -> Seq<Seq<char>> {
    Seq::new(entries.len(), |i: int| entries[i]@)
}

/// What holds of the contents of every table: each path is in normal form,
/// and none occurs twice.
pub open spec fn well_formed(paths: Seq<Seq<char>>) -> bool {
    &&& paths.no_duplicates()
    &&& forall|i: int| 0 <= i < paths.len() ==> is_normalized(#[trigger] paths[i])
}

/// Whether `index` is the first place in `paths` that repeats an earlier
/// entry.
pub open spec fn first_repeat(paths: Seq<Seq<char>>, index: int) -> bool {
    &&& 0 <= index < paths.len()
    &&& paths.take(index).no_duplicates()
    &&& paths.take(index).contains(paths[index])
}

/// Why a list of paths makes no table: once normalized, the path at `index`
/// is one that stands earlier in the list already.
#[derive(Debug, Clone, Copy, PartialEq, Eq)]
pub struct DuplicatePath {
    pub index: usize,
}

/// An ordered list of route paths in which no path occurs twice. The place
/// of a path in the table is the handle by which its handler is known.
#[derive(Debug)]
pub struct RouteTable {
    entries: Vec<RoutePath>,
}

impl View for RouteTable {
    type V = Seq<Seq<char>>;

    closed spec fn view(&self) -> Seq<Seq<char>> {
        texts(self.entries@)
    }
}

impl RouteTable {
    #[verifier::type_invariant]
    spec fn holds_well_formed_paths(&self) -> bool {
        well_formed(texts(self.entries@))
    }

    /// Builds the table from the configured paths, normalizing each. A list
    /// in which two paths have the same normal form is refused, with the
    /// place of the first repeat.
    pub fn new(paths: &[&str]) -> (made: Result<RouteTable, DuplicatePath>)
        ensures
            match made {
                Ok(table) => table@ == normal_forms(paths@) && well_formed(table@),
                Err(duplicate) => first_repeat(normal_forms(paths@), duplicate.index as int),
            },
    {
        let mut entries: Vec<RoutePath> = Vec::new();
        let mut next: usize = 0;
        while next < paths.len()
            invariant
                next <= paths.len(),
                texts(entries@) == normal_forms(paths@).take(next as int),
                well_formed(texts(entries@)),
            decreases paths.len() - next,
        {
            let path = RoutePath::new(paths[next]);
            let ghost before = texts(entries@);
            let mut seen: usize = 0;
            while seen < entries.len()
                invariant
                    seen <= entries.len(),
                    next < paths.len(),
                    before == texts(entries@),
                    before == normal_forms(paths@).take(next as int),
                    well_formed(before),
                    path@ == normal_forms(paths@)[next as int],
                    is_normalized(path@),
                    forall|k: int| 0 <= k < seen ==> before[k] != path@,
                decreases entries.len() - seen,
            {
                if entries[seen].same_as(&path) {
                    assert(before[seen as int] == path@);
                    return Err(DuplicatePath { index: next });
                }
                seen = seen + 1;
            }
            entries.push(path);
            assert(texts(entries@) =~= before.push(path@));
            assert(before.push(path@) =~= normal_forms(paths@).take(next + 1));
            next = next + 1;
        }
        assert(normal_forms(paths@).take(next as int) =~= normal_forms(paths@));
        Ok(RouteTable { entries })
    }

    /// How many paths the table holds.
    pub fn len(&self) -> (count: usize)
        ensures
            count == self@.len(),
            well_formed(self@),
    {
        proof {
            use_type_invariant(self);
        }
        self.entries.len()
    }

    /// The path at `index`.
    pub fn path(&self, index: usize) -> (path: &RoutePath)
        requires
            index < self@.len(),
        ensures
            path@ == self@[index as int],
            is_normalized(path@),
    {
        proof {
            use_type_invariant(self);
        }
        &self.entries[index]
    }

    /// Where in the table `wanted` stands, if it does.
    pub fn position(&self, wanted: &RoutePath) -> (place: Option<usize>)
        ensures
            place is Some <==> self@.contains(wanted@),
            place matches Some(index) ==> {
                &&& index < self@.len()
                &&& self@[index as int] == wanted@
                &&& index == self@.index_of(wanted@)
            },
    {
        proof {
            use_type_invariant(self);
        }
        let mut index: usize = 0;
        while index < self.entries.len()
            invariant
                index <= self.entries.len(),
                self@.no_duplicates(),
                forall|k: int| 0 <= k < index ==> self@[k] != wanted@,
            decreases self.entries.len() - index,
        {
            if self.entries[index].same_as(wanted) {
                proof {
                    assert(self@[index as int] == wanted@);
                    let chosen = self@.index_of(wanted@);
                    assert(0 <= chosen < self@.len() && self@[chosen] == wanted@);
                }
                return Some(index);
            }
            index = index + 1;
        }
        None
    }
}

} // verus!
