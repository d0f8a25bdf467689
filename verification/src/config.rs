//! The list of monitored repositories, kept sorted and free of repeats.
use vstd::prelude::*;
use vstd::relations::{sorted_by, total_ordering};

use crate::repo::{normalize_repo_url, normalize_spec};
use crate::text::{chars_of, views};

verus! {

broadcast use vstd::seq_lib::group_seq_properties;

// ---------------------------------------------------------------------------
// The order of strings
// ---------------------------------------------------------------------------

/// Lexicographic order of character sequences by code point: the order of
/// `String`'s `Ord` (UTF-8 keeps code-point order byte by byte).
pub open spec fn lex_leq(a: Seq<char>, b: Seq<char>) -> bool
    decreases a.len(),
{
    if a.len() == 0 {
        true
    } else if b.len() == 0 {
        false
    } else if a[0] == b[0] {
        lex_leq(a.drop_first(), b.drop_first())
    } else {
        a[0] < b[0]
    }
}

/// `lex_leq` as a relation.
pub open spec fn str_order() -> spec_fn(Seq<char>, Seq<char>) -> bool {
    |a: Seq<char>, b: Seq<char>| lex_leq(a, b)
}

proof fn lemma_lex_reflexive(a: Seq<char>)
    ensures
        lex_leq(a, a),
    decreases a.len(),
{
    if a.len() > 0 {
        lemma_lex_reflexive(a.drop_first());
    }
}

proof fn lemma_lex_antisymmetric(a: Seq<char>, b: Seq<char>)
    requires
        lex_leq(a, b),
        lex_leq(b, a),
    ensures
        a == b,
    decreases a.len(),
{
    if a.len() > 0 && b.len() > 0 {
        if a[0] == b[0] {
            lemma_lex_antisymmetric(a.drop_first(), b.drop_first());
            assert(a =~= seq![a[0]] + a.drop_first());
            assert(b =~= seq![b[0]] + b.drop_first());
        }
    }
}

proof fn lemma_lex_transitive(a: Seq<char>, b: Seq<char>, c: Seq<char>)
    requires
        lex_leq(a, b),
        lex_leq(b, c),
    ensures
        lex_leq(a, c),
    decreases a.len(),
{
    if a.len() > 0 && b.len() > 0 && c.len() > 0 {
        if a[0] == b[0] && b[0] == c[0] {
            lemma_lex_transitive(a.drop_first(), b.drop_first(), c.drop_first());
        }
    }
}

proof fn lemma_lex_total(a: Seq<char>, b: Seq<char>)
    ensures
        lex_leq(a, b) || lex_leq(b, a),
    decreases a.len(),
{
    if a.len() > 0 && b.len() > 0 && a[0] == b[0] {
        lemma_lex_total(a.drop_first(), b.drop_first());
    }
}

/// The order of strings is a total order.
pub proof fn lemma_str_order_total()
    ensures
        total_ordering(str_order()),
{
    assert forall|a: Seq<char>| #[trigger] str_order()(a, a) by {
        lemma_lex_reflexive(a);
    }
    assert forall|a: Seq<char>, b: Seq<char>|
        #[trigger] str_order()(a, b) && #[trigger] str_order()(b, a) implies a == b by {
        lemma_lex_antisymmetric(a, b);
    }
    assert forall|a: Seq<char>, b: Seq<char>, c: Seq<char>|
        #[trigger] str_order()(a, b) && #[trigger] str_order()(b, c) implies str_order()(
        a,
        c,
    ) by {
        lemma_lex_transitive(a, b, c);
    }
    assert forall|a: Seq<char>, b: Seq<char>|
        #[trigger] str_order()(a, b) || #[trigger] str_order()(b, a) by {
        lemma_lex_total(a, b);
    }
}

/// A sequence sorted by the order of strings is fixed by its elements: two
/// sorted sequences with the same elements (counted with repeats) are equal.
pub proof fn lemma_sorted_unique(a: Seq<Seq<char>>, b: Seq<Seq<char>>)
    requires
        sorted_by(a, str_order()),
        sorted_by(b, str_order()),
        a.to_multiset() == b.to_multiset(),
    ensures
        a == b,
    decreases a.len(),
{
    broadcast use vstd::seq_lib::group_to_multiset_ensures;

    lemma_str_order_total();
    assert(a.len() == a.to_multiset().len());
    assert(b.len() == b.to_multiset().len());
    if a.len() == 0 {
        assert(a =~= b);
    } else {
        assert(a.to_multiset().count(a[0]) > 0) by {
            assert(a.contains(a[0]));
        }
        assert(b.contains(a[0]));
        let j = choose|j: int| 0 <= j < b.len() && b[j] == a[0];
        assert(b.to_multiset().count(b[0]) > 0) by {
            assert(b.contains(b[0]));
        }
        assert(a.contains(b[0]));
        let k = choose|k: int| 0 <= k < a.len() && a[k] == b[0];
        if j > 0 {
            assert(str_order()(b[0], b[j]));
        }
        if k > 0 {
            assert(str_order()(a[0], a[k]));
        }
        lemma_lex_reflexive(a[0]);
        lemma_lex_antisymmetric(a[0], b[0]);
        let a1 = a.drop_first();
        let b1 = b.drop_first();
        assert(a.remove(0) =~= a1);
        assert(b.remove(0) =~= b1);
        vstd::seq_lib::to_multiset_remove(a, 0);
        vstd::seq_lib::to_multiset_remove(b, 0);
        assert forall|x: int, y: int| 0 <= x < y < a1.len() implies #[trigger] str_order()(
            a1[x],
            a1[y],
        ) by {
            assert(str_order()(a[x + 1], a[y + 1]));
        }
        assert forall|x: int, y: int| 0 <= x < y < b1.len() implies #[trigger] str_order()(
            b1[x],
            b1[y],
        ) by {
            assert(str_order()(b[x + 1], b[y + 1]));
        }
        lemma_sorted_unique(a1, b1);
        assert(a =~= b);
    }
}

fn chars_leq(a: &Vec<char>, b: &Vec<char>) -> (r: bool)
    ensures
        r == lex_leq(a@, b@),
{
    let mut i: usize = 0;
    while i < a.len() && i < b.len() && a[i] == b[i]
        invariant
            i <= a.len(),
            i <= b.len(),
            lex_leq(a@, b@) == lex_leq(a@.skip(i as int), b@.skip(i as int)),
        decreases a.len() - i,
    {
        assert(a@.skip(i as int).drop_first() =~= a@.skip(i + 1));
        assert(b@.skip(i as int).drop_first() =~= b@.skip(i + 1));
        i = i + 1;
    }
    if i == a.len() {
        true
    } else if i == b.len() {
        false
    } else {
        a[i] < b[i]
    }
}

/// Whether `a` comes no later than `b` in the order of strings.
pub fn str_leq(a: &str, b: &str) -> (r: bool)
    ensures
        r == lex_leq(a@, b@),
{
    chars_leq(&chars_of(a), &chars_of(b))
}

/// Inserts `x` into the sorted `v` at its place.
fn insert_sorted(v: &mut Vec<String>, x: String)
    requires
        sorted_by(views(old(v)@), str_order()),
    ensures
        sorted_by(views(final(v)@), str_order()),
        views(final(v)@).to_multiset() == views(old(v)@).to_multiset().insert(x@),
{
    proof {
        lemma_str_order_total();
    }
    let ghost old_views = views(v@);
    let mut i: usize = 0;
    while i < v.len() && str_leq(v[i].as_str(), x.as_str())
        invariant
            i <= v.len(),
            v@ == old(v)@,
            old_views == views(v@),
            forall|k: int| 0 <= k < i ==> lex_leq(#[trigger] old_views[k], x@),
        decreases v.len() - i,
    {
        i = i + 1;
    }
    proof {
        if i < v.len() {
            lemma_lex_total(old_views[i as int], x@);
            assert forall|k: int| i <= k < old_views.len() implies lex_leq(
                x@,
                #[trigger] old_views[k],
            ) by {
                if k > i {
                    assert(str_order()(old_views[i as int], old_views[k]));
                    lemma_lex_transitive(x@, old_views[i as int], old_views[k]);
                }
            }
        }
    }
    let ghost xv = x@;
    v.insert(i, x);
    let ghost new_views = views(v@);
    assert(new_views =~= old_views.insert(i as int, xv));
    proof {
        old_views.insert_ensures(i as int, xv);
        vstd::seq_lib::to_multiset_insert(old_views, i as int, xv);
        assert forall|a: int, b: int| 0 <= a < b < new_views.len() implies #[trigger] str_order()(
            new_views[a],
            new_views[b],
        ) by {
            if b < i {
                assert(str_order()(old_views[a], old_views[b]));
            } else if b == i {
                assert(lex_leq(old_views[a], xv));
            } else if a < i {
                assert(lex_leq(old_views[a], xv));
                assert(lex_leq(xv, old_views[b - 1]));
                lemma_lex_transitive(old_views[a], xv, old_views[b - 1]);
            } else if a == i {
                assert(lex_leq(xv, old_views[b - 1]));
            } else {
                assert(str_order()(old_views[a - 1], old_views[b - 1]));
            }
        }
    }
}

proof fn lemma_take_push_multiset(s: Seq<Seq<char>>, i: int)
    requires
        0 <= i < s.len(),
    ensures
        s.take(i + 1).to_multiset() == s.take(i).to_multiset().insert(s[i]),
{
    assert(s.take(i + 1) =~= s.take(i).push(s[i]));
    vstd::seq_lib::to_multiset_build(s.take(i), s[i]);
}

/// The strings of `v` in sorted order.
fn sorted_copy(v: &Vec<String>) -> (s: Vec<String>)
    ensures
        sorted_by(views(s@), str_order()),
        views(s@).to_multiset() == views(v@).to_multiset(),
{
    let mut s: Vec<String> = Vec::new();
    let mut i: usize = 0;
    assert(views(v@).take(0) =~= Seq::<Seq<char>>::empty());
    assert(views(s@) =~= Seq::<Seq<char>>::empty());
    while i < v.len()
        invariant
            i <= v.len(),
            sorted_by(views(s@), str_order()),
            views(s@).to_multiset() == views(v@).take(i as int).to_multiset(),
        decreases v.len() - i,
    {
        let x = v[i].clone();
        assert(x@ == views(v@)[i as int]);
        insert_sorted(&mut s, x);
        proof {
            lemma_take_push_multiset(views(v@), i as int);
        }
        i = i + 1;
    }
    assert(views(v@).take(v@.len() as int) =~= views(v@));
    s
}

// ---------------------------------------------------------------------------
// The configuration
// ---------------------------------------------------------------------------

/// The saved configuration: the monitored repositories, as normalised addresses.
pub struct AppConfig {
    pub repos: Vec<String>,
}

impl Default for AppConfig {
    fn default() -> (c: Self)
        ensures
            c.repos@.len() == 0,
    {
        AppConfig { repos: Vec::new() }
    }
}

/// Whether the sequence of addresses holds `s`.
pub open spec fn holds(repos: Seq<String>, s: Seq<char>) -> bool {
    views(repos).contains(s)
}

impl AppConfig {
    /// Whether the configuration lists the address `s`.
    pub fn contains(&self, s: &String) -> (b: bool)
        ensures
            b == holds(self.repos@, s@),
    {
        let mut i: usize = 0;
        while i < self.repos.len()
            invariant
                i <= self.repos.len(),
                forall|k: int| 0 <= k < i ==> self.repos@[k]@ != s@,
            decreases self.repos.len() - i,
        {
            if self.repos[i] == *s {
                assert(views(self.repos@)[i as int] == s@);
                return true;
            }
            i = i + 1;
        }
        assert forall|k: int| 0 <= k < views(self.repos@).len() implies views(self.repos@)[k]
            != s@ by {
            assert(self.repos@[k]@ != s@);
        }
        false
    }

    /// The first row that lists the address `s`, if any.
    pub fn position(&self, s: &String) -> (r: Option<usize>)
        ensures
            match r {
                Some(p) => views(self.repos@).index_of_first(s@) == Some(p as int),
                None => views(self.repos@).index_of_first(s@) is None,
            },
    {
        let ghost v = views(self.repos@);
        proof {
            v.index_of_first_ensures(s@);
        }
        let mut i: usize = 0;
        while i < self.repos.len()
            invariant
                i <= self.repos.len(),
                v == views(self.repos@),
                forall|k: int| 0 <= k < i ==> v[k] != s@,
            decreases self.repos.len() - i,
        {
            if self.repos[i] == *s {
                proof {
                    v.index_of_first_ensures(s@);
                    assert(v[i as int] == s@);
                    assert(v.contains(s@));
                    let q = v.index_of_first(s@)->0;
                    if q < i {
                        assert(v[q] != s@);
                    }
                }
                return Some(i);
            }
            i = i + 1;
        }
        proof {
            v.index_of_first_ensures(s@);
            if v.contains(s@) {
                let k = choose|k: int| 0 <= k < v.len() && v[k] == s@;
                assert(v[k] != s@);
            }
        }
        None
    }

    /// Normalises `repo_url` and adds it, keeping the list sorted.
    ///
    /// Returns `Ok(false)`, changing nothing, when the normalised address is
    /// listed already, and the reason when the address is refused.
    pub fn normalize_and_add(&mut self, repo_url: &str) -> (res: Result<bool, String>)
        ensures
            match res {
                Err(e) => {
                    &&& normalize_spec(repo_url@) == Err::<Seq<char>, Seq<char>>(e@)
                    &&& final(self).repos@ == old(self).repos@
                },
                Ok(false) => {
                    &&& normalize_spec(repo_url@) is Ok
                    &&& holds(old(self).repos@, normalize_spec(repo_url@)->Ok_0)
                    &&& final(self).repos@ == old(self).repos@
                },
                Ok(true) => {
                    &&& normalize_spec(repo_url@) is Ok
                    &&& !holds(old(self).repos@, normalize_spec(repo_url@)->Ok_0)
                    &&& views(final(self).repos@) == views(old(self).repos@).push(
                        normalize_spec(repo_url@)->Ok_0,
                    ).sort_by(str_order())
                },
            },
    {
        let normalized = match normalize_repo_url(repo_url) {
            Ok(n) => n,
            Err(e) => {
                return Err(e);
            },
        };
        if self.contains(&normalized) {
            return Ok(false);
        }
        let ghost nv = normalized@;
        let mut sorted = sorted_copy(&self.repos);
        insert_sorted(&mut sorted, normalized);
        proof {
            vstd::seq_lib::to_multiset_build(views(self.repos@), nv);
            let target = views(self.repos@).push(nv);
            lemma_str_order_total();
            target.lemma_sort_by_ensures(str_order());
            lemma_sorted_unique(views(sorted@), target.sort_by(str_order()));
        }
        self.repos = sorted;
        Ok(true)
    }

    /// Removes the address at `idx`; returns whether there was one.
    pub fn remove_at(&mut self, idx: usize) -> (removed: bool)
        ensures
            removed == (idx < old(self).repos@.len()),
            removed ==> final(self).repos@ == old(self).repos@.remove(idx as int),
            !removed ==> final(self).repos@ == old(self).repos@,
    {
        if idx >= self.repos.len() {
            return false;
        }
        self.repos.remove(idx);
        true
    }
}

} // verus!

verus! {

/// Adding an address that is not listed keeps a list without repeats free of
/// repeats, and keeps it sorted.
pub proof fn lemma_add_keeps_list_clean(repos: Seq<Seq<char>>, n: Seq<char>)
    requires
        repos.no_duplicates(),
        !repos.contains(n),
    ensures
        repos.push(n).sort_by(str_order()).no_duplicates(),
        sorted_by(repos.push(n).sort_by(str_order()), str_order()),
        repos.push(n).sort_by(str_order()).to_multiset() == repos.push(n).to_multiset(),
{
    let s = repos.push(n);
    assert(s.no_duplicates()) by {
        assert forall|i: int, j: int| 0 <= i < s.len() && 0 <= j < s.len() && i != j implies s[i]
            != s[j] by {
            if i < repos.len() && j < repos.len() {
                assert(repos[i] != repos[j]);
            } else if i < repos.len() {
                assert(repos[i] != n);
            } else if j < repos.len() {
                assert(repos[j] != n);
            }
        }
    }
    lemma_str_order_total();
    s.lemma_sort_by_ensures(str_order());
    s.lemma_multiset_has_no_duplicates();
    s.sort_by(str_order()).lemma_multiset_has_no_duplicates_conv();
}

/// Removing an address keeps a list without repeats free of repeats.
pub proof fn lemma_remove_keeps_list_clean(repos: Seq<Seq<char>>, i: int)
    requires
        repos.no_duplicates(),
        0 <= i < repos.len(),
    ensures
        repos.remove(i).no_duplicates(),
{
    let r = repos.remove(i);
    assert forall|a: int, b: int| 0 <= a < r.len() && 0 <= b < r.len() && a != b implies r[a]
        != r[b] by {
        let a1 = if a < i {
            a
        } else {
            a + 1
        };
        let b1 = if b < i {
            b
        } else {
            b + 1
        };
        assert(r[a] == repos[a1]);
        assert(r[b] == repos[b1]);
    }
}

/// A string comes no later than any string it begins.
pub proof fn lemma_prefix_comes_first(a: Seq<char>, b: Seq<char>)
    ensures
        lex_leq(a, a + b),
    decreases a.len(),
{
    if a.len() > 0 {
        assert((a + b)[0] == a[0]);
        assert((a + b).drop_first() =~= a.drop_first() + b);
        lemma_prefix_comes_first(a.drop_first(), b);
    }
}

/// Two strings that agree before position `k` and differ there are ordered by
/// the character at `k` (by code point), strictly.
pub proof fn lemma_first_difference_decides(a: Seq<char>, b: Seq<char>, k: int)
    requires
        0 <= k < a.len(),
        k < b.len(),
        forall|j: int| 0 <= j < k ==> a[j] == b[j],
        a[k] < b[k],
    ensures
        lex_leq(a, b),
        !lex_leq(b, a),
    decreases k,
{
    if k > 0 {
        assert(a[0] == b[0]);
        lemma_first_difference_decides(a.drop_first(), b.drop_first(), k - 1);
    }
}

} // verus!
