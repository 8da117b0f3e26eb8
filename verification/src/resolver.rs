//! Resolving a request path against the route table: an exact match first,
//! else the nearest known path if it is near enough.

use crate::matcher::{distance, edit_distance, lemma_distance_zero_iff_same};
use crate::path::{normalized, RoutePath};
use crate::table::{well_formed, RouteTable};
use vstd::prelude::*;

verus! {

/// The farthest a path may be from the request and still be suggested.
pub const SUGGESTION_THRESHOLD: usize = 3;

/// What a request path resolves to.
#[derive(Debug, PartialEq, Eq)]
pub enum MatchResult {
    /// The path is in the table; the value is its place there, which names
    /// its handler.
    Exact(usize),
    /// The path is unknown, and this known path is the nearest to it.
    Suggestion(RoutePath),
    /// The path is unknown and no known path is near enough.
    NoMatch,
}

/// A `MatchResult` as contracts see it.
pub enum Resolution {
    Exact(int),
    Suggestion(Seq<char>),
    NoMatch,
}

impl View for MatchResult {
    type V = Resolution;

    open spec fn view(&self) -> Resolution {
        match self {
            MatchResult::Exact(index) => Resolution::Exact(*index as int),
            MatchResult::Suggestion(path) => Resolution::Suggestion(path@),
            MatchResult::NoMatch => Resolution::NoMatch,
        }
    }
}

/// Whether entry `index` is the nearest to `wanted`: no entry is nearer, and
/// every entry before it is strictly farther.
pub open spec fn is_nearest(table: Seq<Seq<char>>, wanted: Seq<char>, index: int) -> bool {
    &&& 0 <= index < table.len()
    &&& forall|j: int|
        0 <= j < index ==> edit_distance(wanted, table[index]) < edit_distance(
            wanted,
            #[trigger] table[j],
        )
    &&& forall|j: int|
        index < j < table.len() ==> edit_distance(wanted, table[index]) <= edit_distance(
            wanted,
            #[trigger] table[j],
        )
}

/// The place of the entry nearest to `wanted`, the first of them where
/// several are equally near. Meaningful on a table that is not empty.
pub open spec fn nearest(table: Seq<Seq<char>>, wanted: Seq<char>) -> int {
    choose|index: int| is_nearest(table, wanted, index)
}

/// The path to offer in place of `wanted`: the nearest entry, if the table
/// has one within the threshold.
pub open spec fn suggestion(table: Seq<Seq<char>>, wanted: Seq<char>) -> Option<Seq<char>> {
    if table.len() > 0 && edit_distance(wanted, table[nearest(table, wanted)])
        <= SUGGESTION_THRESHOLD {
        Some(table[nearest(table, wanted)])
    } else {
        None
    }
}

/// What `request` resolves to against `table`.
pub open spec fn resolution(table: Seq<Seq<char>>, request: Seq<char>) -> Resolution {
    let wanted = normalized(request);
    if table.contains(wanted) {
        Resolution::Exact(table.index_of(wanted))
    } else {
        match suggestion(table, wanted) {
            Some(path) => Resolution::Suggestion(path),
            None => Resolution::NoMatch,
        }
    }
}

/// At most one entry is the nearest.
pub proof fn lemma_nearest_is_unique(table: Seq<Seq<char>>, wanted: Seq<char>, i: int, j: int)
    requires
        is_nearest(table, wanted, i),
        is_nearest(table, wanted, j),
    ensures
        i == j,
{
    if i < j {
        assert(edit_distance(wanted, table[j]) < edit_distance(wanted, table[i]));
    } else if j < i {
        assert(edit_distance(wanted, table[i]) < edit_distance(wanted, table[j]));
    }
}

/// A table that is not empty has a nearest entry, and `nearest` is its place.
pub proof fn lemma_nearest_exists(table: Seq<Seq<char>>, wanted: Seq<char>)
    requires
        table.len() > 0,
    ensures
        is_nearest(table, wanted, nearest(table, wanted)),
    decreases table.len(),
{
    if table.len() == 1 {
        assert(is_nearest(table, wanted, 0));
    } else {
        let shorter = table.drop_last();
        lemma_nearest_exists(shorter, wanted);
        let before = nearest(shorter, wanted);
        assert(forall|j: int| 0 <= j < shorter.len() ==> shorter[j] == table[j]);
        if edit_distance(wanted, table.last()) < edit_distance(wanted, table[before]) {
            assert(is_nearest(table, wanted, table.len() - 1));
        } else {
            assert(is_nearest(table, wanted, before));
        }
    }
}

/// Every path of the table resolves to its own place there.
pub proof fn lemma_known_path_is_exact(table: Seq<Seq<char>>, index: int)
    requires
        well_formed(table),
        0 <= index < table.len(),
    ensures
        resolution(table, table[index]) == Resolution::Exact(index),
{
    crate::path::lemma_normalized_keeps_normal_form(table[index]);
    assert(table.contains(table[index]));
}

/// A request resolves to an exact match just when the table holds its
/// normal form, and then to the place where it stands.
pub proof fn lemma_exact_iff_known(table: Seq<Seq<char>>, request: Seq<char>)
    requires
        well_formed(table),
    ensures
        resolution(table, request) is Exact <==> table.contains(normalized(request)),
        resolution(table, request) matches Resolution::Exact(index) ==> 0 <= index < table.len()
            && table[index] == normalized(request),
{
}

/// A suggested path is a path of the table other than the request, at most
/// the threshold away from it, and no path of the table is nearer.
pub proof fn lemma_suggestion_is_nearest_known(table: Seq<Seq<char>>, request: Seq<char>)
    requires
        resolution(table, request) is Suggestion,
    ensures
        ({
            let wanted = normalized(request);
            let offered = resolution(table, request)->Suggestion_0;
            &&& table.contains(offered)
            &&& 1 <= edit_distance(wanted, offered) <= SUGGESTION_THRESHOLD
            &&& forall|j: int|
                0 <= j < table.len() ==> edit_distance(wanted, offered) <= edit_distance(
                    wanted,
                    #[trigger] table[j],
                )
        }),
{
    let wanted = normalized(request);
    lemma_nearest_exists(table, wanted);
    let offered = table[nearest(table, wanted)];
    assert(table.contains(offered));
    lemma_distance_zero_iff_same(wanted, offered);
}

/// Where nothing matches, the table holds neither the request nor any path
/// within the threshold of it.
pub proof fn lemma_no_match_means_all_far(table: Seq<Seq<char>>, request: Seq<char>)
    requires
        resolution(table, request) is NoMatch,
    ensures
        !table.contains(normalized(request)),
        forall|j: int|
            0 <= j < table.len() ==> edit_distance(normalized(request), #[trigger] table[j])
                > SUGGESTION_THRESHOLD,
{
    if table.len() > 0 {
        lemma_nearest_exists(table, normalized(request));
    }
}

/// A known path is its own nearest entry: asked what to offer in its place,
/// the table offers the path itself.
pub proof fn lemma_known_path_is_its_own_suggestion(table: Seq<Seq<char>>, wanted: Seq<char>)
    requires
        table.contains(wanted),
    ensures
        suggestion(table, wanted) == Some(wanted),
{
    lemma_nearest_exists(table, wanted);
    let place = table.index_of(wanted);
    let best = nearest(table, wanted);
    lemma_distance_zero_iff_same(wanted, table[place]);
    assert(edit_distance(wanted, table[best]) <= edit_distance(wanted, table[place]));
    lemma_distance_zero_iff_same(wanted, table[best]);
}

/// Of two entries equally far from the request, the later one is never the
/// suggestion: ties go to the entry that stands first in the table.
pub proof fn lemma_tie_goes_to_first(
    table: Seq<Seq<char>>,
    request: Seq<char>,
    earlier: int,
    later: int,
)
    requires
        table.no_duplicates(),
        0 <= earlier < later < table.len(),
        edit_distance(normalized(request), table[earlier]) == edit_distance(
            normalized(request),
            table[later],
        ),
    ensures
        resolution(table, request) != Resolution::Suggestion(table[later]),
{
    let wanted = normalized(request);
    lemma_nearest_exists(table, wanted);
    let best = nearest(table, wanted);
    if table[best] == table[later] {
        assert(best == later);
        assert(edit_distance(wanted, table[best]) < edit_distance(wanted, table[earlier]));
    }
}

/// An entry that is strictly nearer to the request than every entry before
/// it, and no farther than any after it, is the one offered when the
/// request is unknown and the entry is within the threshold.
pub proof fn lemma_first_nearest_is_offered(table: Seq<Seq<char>>, request: Seq<char>, index: int)
    requires
        !table.contains(normalized(request)),
        is_nearest(table, normalized(request), index),
        edit_distance(normalized(request), table[index]) <= SUGGESTION_THRESHOLD,
    ensures
        resolution(table, request) == Resolution::Suggestion(table[index]),
{
    let wanted = normalized(request);
    lemma_nearest_exists(table, wanted);
    lemma_nearest_is_unique(table, wanted, index, nearest(table, wanted));
}

impl RouteTable {
    /// The nearest entry to `wanted` and its distance; `None` on an empty
    /// table.
    pub fn nearest_entry(&self, wanted: &RoutePath) -> (found: Option<(usize, usize)>)
        ensures
            found is None <==> self@.len() == 0,
            found matches Some((index, far)) ==> {
                &&& index == nearest(self@, wanted@)
                &&& is_nearest(self@, wanted@, index as int)
                &&& far == edit_distance(wanted@, self@[index as int])
            },
    {
        let count: usize = self.len();
        if count == 0 {
            return None;
        }
        let mut best: usize = 0;
        let mut best_distance: usize = distance(wanted.as_str(), self.path(0).as_str());
        let mut next: usize = 1;
        while next < count
            invariant
                1 <= next <= count == self@.len(),
                is_nearest(self@.take(next as int), wanted@, best as int),
                best_distance == edit_distance(wanted@, self@[best as int]),
            decreases count - next,
        {
            let far: usize = distance(wanted.as_str(), self.path(next).as_str());
            let ghost seen = self@.take(next as int);
            let ghost grown = self@.take(next + 1);
            assert(forall|j: int| 0 <= j < next ==> seen[j] == grown[j]);
            if far < best_distance {
                best = next;
                best_distance = far;
            }
            assert(is_nearest(grown, wanted@, best as int));
            next = next + 1;
        }
        proof {
            assert(self@.take(next as int) =~= self@);
            lemma_nearest_is_unique(self@, wanted@, best as int, nearest(self@, wanted@));
        }
        Some((best, best_distance))
    }

    /// The path to offer in place of the unknown `mistyped_path`: the
    /// nearest known one, where it is within the threshold.
    pub fn suggest_path(&self, mistyped_path: &RoutePath) -> (offered: Option<&RoutePath>)
        ensures
            offered is Some <==> suggestion(self@, mistyped_path@) is Some,
            offered matches Some(path) ==> suggestion(self@, mistyped_path@) == Some(path@),
    {
        match self.nearest_entry(mistyped_path) {
            Some((index, far)) => {
                if far <= SUGGESTION_THRESHOLD {
                    Some(self.path(index))
                } else {
                    None
                }
            },
            None => None,
        }
    }

    /// Resolves `request_path`: to its own entry where the table holds its
    /// normal form, without computing any distance; else to the suggestion
    /// for it, or to nothing.
    pub fn resolve(&self, request_path: &str) -> (result: MatchResult)
        ensures
            result@ == resolution(self@, request_path@),
            result matches MatchResult::Exact(index) ==> index < self@.len(),
    {
        let wanted = RoutePath::new(request_path);
        match self.position(&wanted) {
            Some(index) => MatchResult::Exact(index),
            None => match self.suggest_path(&wanted) {
                Some(path) => MatchResult::Suggestion(path.clone()),
                None => MatchResult::NoMatch,
            },
        }
    }
}

} // verus!
