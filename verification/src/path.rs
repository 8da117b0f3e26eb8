//! Route paths and the one normal form that table entries and request paths
//! share: a leading `/`, and no trailing `/` except on the root itself.

use vstd::prelude::*;

verus! {

/// `s` without the slashes at its end, all of them.
pub open spec fn without_trailing_slashes(s: Seq<char>) -> Seq<char>
    decreases s.len(),
{
    if s.len() > 0 && s.last() == '/' {
        without_trailing_slashes(s.drop_last())
    } else {
        s
    }
}

/// The normal form of `s`: its trailing slashes are dropped, and a `/` is put
/// in front of what is left unless one stands there already. Nothing else
/// changes: case is kept and slashes inside the path stay.
pub open spec fn normalized(s: Seq<char>) -> Seq<char> {
    let kept = without_trailing_slashes(s);
    if kept.len() > 0 && kept[0] == '/' {
        kept
    } else {
        seq!['/'] + kept
    }
}

/// Whether `s` is in normal form.
pub open spec fn is_normalized(s: Seq<char>) -> bool {
    &&& s.len() > 0
    &&& s[0] == '/'
    &&& s.len() == 1 || s.last() != '/'
}

/// What is left after dropping trailing slashes does not end in one.
pub proof fn lemma_no_trailing_slash_left(s: Seq<char>)
    ensures
        without_trailing_slashes(s).len() <= s.len(),
        without_trailing_slashes(s) == s.take(without_trailing_slashes(s).len() as int),
        without_trailing_slashes(s).len() > 0 ==> without_trailing_slashes(s).last() != '/',
    decreases s.len(),
{
    if s.len() > 0 && s.last() == '/' {
        lemma_no_trailing_slash_left(s.drop_last());
        let kept = without_trailing_slashes(s);
        assert(s.drop_last().take(kept.len() as int) =~= s.take(kept.len() as int));
    } else {
        assert(s.take(s.len() as int) =~= s);
    }
}

/// Normalizing always yields a path in normal form.
pub proof fn lemma_normalized_is_normalized(s: Seq<char>)
    ensures
        is_normalized(normalized(s)),
{
    lemma_no_trailing_slash_left(s);
}

/// A path in normal form is its own normal form, so normalizing twice is
/// normalizing once.
pub proof fn lemma_normalized_keeps_normal_form(s: Seq<char>)
    requires
        is_normalized(s),
    ensures
        normalized(s) == s,
{
    if s.len() == 1 {
        assert(s.drop_last().len() == 0);
        assert(without_trailing_slashes(s.drop_last()) == s.drop_last());
        assert(seq!['/'] + s.drop_last() =~= s);
    }
}

/// A request or table path, held in normal form.
#[derive(Debug, PartialEq, Eq)]
pub struct RoutePath {
    text: String,
}

impl View for RoutePath {
    type V = Seq<char>;

    closed spec fn view(&self) -> Seq<char> {
        self.text@
    }
}

impl RoutePath {
    #[verifier::type_invariant]
    spec fn in_normal_form(&self) -> bool {
        is_normalized(self.text@)
    }

    /// The normal form of `raw`.
    pub fn new(raw: &str) -> (path: RoutePath)
        ensures
            path@ == normalized(raw@),
            is_normalized(path@),
    {
        let len: usize = raw.unicode_len();
        let mut end: usize = len;
        assert(raw@.take(len as int) =~= raw@);
        while end > 0 && raw.get_char(end - 1) == '/'
            invariant
                end <= len == raw@.len(),
                without_trailing_slashes(raw@) == without_trailing_slashes(raw@.take(end as int)),
            decreases end,
        {
            assert(raw@.take(end as int).drop_last() =~= raw@.take(end - 1));
            end = end - 1;
        }
        proof {
            lemma_normalized_is_normalized(raw@);
        }
        let kept = raw.substring_char(0, end);
        assert(kept@ =~= raw@.take(end as int));
        if end > 0 && raw.get_char(0) == '/' {
            RoutePath { text: String::from_str(kept) }
        } else {
            proof {
                reveal_strlit("/");
                assert("/"@ =~= seq!['/']);
            }
            RoutePath { text: String::from_str("/").concat(kept) }
        }
    }

    /// The path as text.
    pub fn as_str(&self) -> (text: &str)
        ensures
            text@ == self@,
            is_normalized(self@),
    {
        proof {
            use_type_invariant(self);
        }
        self.text.as_str()
    }

    /// Whether both paths are the same text.
    pub fn same_as(&self, other: &RoutePath) -> (same: bool)
        ensures
            same == (self@ == other@),
    {
        self.text == other.text
    }
}

impl Clone for RoutePath {
    fn clone(&self) -> (copy: RoutePath)
        ensures
            copy@ == self@,
    {
        proof {
            use_type_invariant(self);
        }
        RoutePath { text: self.text.clone() }
    }
}

} // verus!
