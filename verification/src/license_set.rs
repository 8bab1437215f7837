//! A set of license tokens that keeps its members in lexicographic order.
//!
//! The members are held in a vector that is strictly ascending at all times,
//! so nothing occurs twice and the order in which the members come out does
//! not depend on the order in which they went in.

use crate::text::{
    compare_text, lemma_precedes_asymmetric, lemma_precedes_transitive, precedes, Order,
};
use vstd::prelude::*;

verus! {

/// Each item comes strictly before every later one.
pub open spec fn strictly_sorted(s: Seq<Seq<char>>) -> bool {
    forall|i: int, j: int| 0 <= i < j < s.len() ==> precedes(#[trigger] s[i], #[trigger] s[j])
}

/// A strictly ascending sequence holds nothing twice.
pub proof fn lemma_sorted_no_duplicates(s: Seq<Seq<char>>)
    requires
        strictly_sorted(s),
    ensures
        s.no_duplicates(),
{
    assert forall|i: int, j: int| 0 <= i < s.len() && 0 <= j < s.len() && i != j implies s[i]
        != s[j] by {
        if i < j {
            lemma_precedes_asymmetric(s[i], s[j]);
        } else {
            lemma_precedes_asymmetric(s[j], s[i]);
        }
    }
}

/// A set has one ascending order: two strictly ascending sequences with the
/// same members are the same sequence.
pub proof fn lemma_sorted_unique(a: Seq<Seq<char>>, b: Seq<Seq<char>>)
    requires
        strictly_sorted(a),
        strictly_sorted(b),
        a.to_set() == b.to_set(),
    ensures
        a == b,
    decreases a.len(),
{
    if a.len() == 0 {
        if b.len() > 0 {
            assert(b.to_set().contains(b[0]));
            assert(a.contains(b[0]));
        }
        assert(a =~= b);
    } else {
        let top = a.last();
        assert(a.to_set().contains(top));
        assert(b.contains(top));
        let j = choose|j: int| 0 <= j < b.len() && b[j] == top;
        if j < b.len() - 1 {
            assert(b.to_set().contains(b.last()));
            assert(a.contains(b.last()));
            let i = choose|i: int| 0 <= i < a.len() && a[i] == b.last();
            assert(precedes(b[j], b[b.len() - 1]));
            if i < a.len() - 1 {
                assert(precedes(a[i], a[a.len() - 1]));
            }
            lemma_precedes_asymmetric(top, b.last());
            lemma_precedes_asymmetric(b.last(), top);
        }
        assert(b.last() == top);
        let a1 = a.drop_last();
        let b1 = b.drop_last();
        assert forall|x: Seq<char>| a1.to_set().contains(x) <==> b1.to_set().contains(x) by {
            if a1.contains(x) {
                let k = choose|k: int| 0 <= k < a1.len() && a1[k] == x;
                assert(precedes(a[k], a[a.len() - 1]));
                lemma_precedes_asymmetric(x, top);
                assert(a.to_set().contains(a[k]));
                assert(b.contains(x));
                let m = choose|m: int| 0 <= m < b.len() && b[m] == x;
                assert(b1[m] == x);
            }
            if b1.contains(x) {
                let k = choose|k: int| 0 <= k < b1.len() && b1[k] == x;
                assert(precedes(b[k], b[b.len() - 1]));
                lemma_precedes_asymmetric(x, top);
                assert(b.to_set().contains(b[k]));
                assert(a.contains(x));
                let m = choose|m: int| 0 <= m < a.len() && a[m] == x;
                assert(a1[m] == x);
            }
        }
        assert(a1.to_set() =~= b1.to_set());
        assert forall|i: int, j: int| 0 <= i < j < a1.len() implies precedes(
            #[trigger] a1[i],
            #[trigger] a1[j],
        ) by {
            assert(precedes(a[i], a[j]));
        }
        assert forall|i: int, j: int| 0 <= i < j < b1.len() implies precedes(
            #[trigger] b1[i],
            #[trigger] b1[j],
        ) by {
            assert(precedes(b[i], b[j]));
        }
        lemma_sorted_unique(a1, b1);
        assert(a =~= a1.push(top));
        assert(b =~= b1.push(top));
    }
}

/// Where `token` stands among `items`, or would have to go.
///
/// Everything before the place comes before the token. If the token is
/// there, it is at the place; if not, the place is the end or holds a
/// member that comes after the token.
fn place_of(items: &Vec<String>, token: &str) -> (r: (usize, bool))
    ensures
        r.0 <= items.len(),
        forall|j: int| 0 <= j < r.0 ==> precedes(#[trigger] items.deep_view()[j], token@),
        r.1 ==> r.0 < items.len() && items.deep_view()[r.0 as int] == token@,
        !r.1 ==> r.0 == items.len() || precedes(token@, items.deep_view()[r.0 as int]),
{
    let mut i: usize = 0;
    while i < items.len()
        invariant
            i <= items.len(),
            forall|j: int| 0 <= j < i ==> precedes(#[trigger] items.deep_view()[j], token@),
        decreases items.len() - i,
    {
        match compare_text(items[i].as_str(), token) {
            Order::Before => {
                i += 1;
            },
            Order::Same => {
                return (i, true);
            },
            Order::After => {
                return (i, false);
            },
        }
    }
    (i, false)
}

/// A set of license tokens, kept in ascending order.
pub struct LicenseSet {
    items: Vec<String>,
}

impl View for LicenseSet {
    type V = Seq<Seq<char>>;

    /// The members, in ascending order.
    closed spec fn view(&self) -> Seq<Seq<char>> {
        self.items.deep_view()
    }
}

impl LicenseSet {
    #[verifier::type_invariant]
    spec fn ascending(self) -> bool {
        strictly_sorted(self.items.deep_view())
    }

    /// The set without members.
    pub fn new() -> (set: LicenseSet)
        ensures
            set@ == Seq::<Seq<char>>::empty(),
    {
        let set = LicenseSet { items: Vec::new() };
        assert(set.items.deep_view() =~= Seq::<Seq<char>>::empty());
        set
    }

    /// States that the members are in ascending order. There is nothing to
    /// run: the call hands a caller's proof what the type keeps.
    pub fn ascending_order(&self)
        ensures
            strictly_sorted(self@),
    {
        proof {
            use_type_invariant(self);
        }
    }

    /// How many members the set has.
    pub fn len(&self) -> (n: usize)
        ensures
            n == self@.len(),
    {
        self.items.len()
    }

    /// Whether `token` is a member.
    pub fn contains(&self, token: &str) -> (r: bool)
        ensures
            r == self@.contains(token@),
    {
        proof {
            use_type_invariant(self);
        }
        let (at, present) = place_of(&self.items, token);
        proof {
            if !present {
                lemma_absent(self.items.deep_view(), token@, at as int);
            }
        }
        present
    }

    /// Adds `token` to the set, and reports whether it was new.
    ///
    /// The members stay in ascending order, which fixes where the token
    /// goes: the set afterwards is the one ascending sequence whose members
    /// are the old ones and the token.
    pub fn insert(&mut self, token: String) -> (added: bool)
        ensures
            strictly_sorted(final(self)@),
            final(self)@.to_set() == old(self)@.to_set().insert(token@),
            added == !old(self)@.contains(token@),
    {
        proof {
            use_type_invariant(&*self);
        }
        let ghost before = self.items.deep_view();
        let (at, present) = place_of(&self.items, token.as_str());
        if present {
            assert(before.to_set().insert(token@) =~= before.to_set());
            return false;
        }
        proof {
            lemma_absent(before, token@, at as int);
        }
        let mut items: Vec<String> = Vec::new();
        assert(items.deep_view() =~= Seq::<Seq<char>>::empty());
        std::mem::swap(&mut self.items, &mut items);
        items.insert(at, token);
        proof {
            assert(items.deep_view() =~= before.insert(at as int, token@));
            lemma_insert_sorted(before, token@, at as int);
        }
        self.items = items;
        proof {
            let after = self.items.deep_view();
            assert forall|x: Seq<char>| after.to_set().contains(x) <==> before.to_set().insert(
                token@,
            ).contains(x) by {
                if after.contains(x) {
                    let k = choose|k: int| 0 <= k < after.len() && after[k] == x;
                    if k < at {
                        assert(before[k] == x);
                    } else if k > at {
                        assert(before[k - 1] == x);
                    }
                }
                if before.contains(x) {
                    let k = choose|k: int| 0 <= k < before.len() && before[k] == x;
                    if k < at {
                        assert(after[k] == x);
                    } else {
                        assert(after[k + 1] == x);
                    }
                }
                if x == token@ {
                    assert(after[at as int] == x);
                }
            }
            assert(after.to_set() =~= before.to_set().insert(token@));
        }
        true
    }

    /// The members as strings, in ascending order.
    pub fn to_vec(&self) -> (members: Vec<String>)
        ensures
            members.deep_view() == self@,
            strictly_sorted(members.deep_view()),
    {
        proof {
            use_type_invariant(self);
        }
        let mut members: Vec<String> = Vec::new();
        let mut i: usize = 0;
        while i < self.items.len()
            invariant
                i <= self.items.len(),
                members.deep_view() == self.items.deep_view().take(i as int),
            decreases self.items.len() - i,
        {
            let ghost so_far = members.deep_view();
            members.push(self.items[i].clone());
            assert(members.deep_view() =~= so_far.push(self.items.deep_view()[i as int]));
            assert(members.deep_view() =~= self.items.deep_view().take(i + 1));
            i += 1;
        }
        assert(self.items.deep_view().take(self.items.len() as int) =~= self.items.deep_view());
        members
    }
}

/// A token that has no place among ascending items is none of them.
proof fn lemma_absent(items: Seq<Seq<char>>, token: Seq<char>, at: int)
    requires
        strictly_sorted(items),
        0 <= at <= items.len(),
        forall|j: int| 0 <= j < at ==> precedes(#[trigger] items[j], token),
        at == items.len() || precedes(token, items[at]),
    ensures
        !items.contains(token),
{
    assert forall|k: int| 0 <= k < items.len() implies items[k] != token by {
        if k < at {
            lemma_precedes_asymmetric(items[k], token);
        } else {
            if k > at {
                assert(precedes(items[at], items[k]));
                lemma_precedes_transitive(token, items[at], items[k]);
            }
            lemma_precedes_asymmetric(token, items[k]);
        }
    }
}

/// Putting a token at its place keeps ascending items ascending.
proof fn lemma_insert_sorted(items: Seq<Seq<char>>, token: Seq<char>, at: int)
    requires
        strictly_sorted(items),
        0 <= at <= items.len(),
        forall|j: int| 0 <= j < at ==> precedes(#[trigger] items[j], token),
        at == items.len() || precedes(token, items[at]),
    ensures
        strictly_sorted(items.insert(at, token)),
{
    let grown = items.insert(at, token);
    assert forall|i: int, j: int| 0 <= i < j < grown.len() implies precedes(
        #[trigger] grown[i],
        #[trigger] grown[j],
    ) by {
        if j < at {
            assert(precedes(items[i], items[j]));
        } else if j == at {
            assert(precedes(items[i], token));
        } else if i < at {
            assert(precedes(items[i], items[j - 1]));
        } else if i == at {
            if j - 1 > at {
                assert(precedes(items[at], items[j - 1]));
                lemma_precedes_transitive(token, items[at], items[j - 1]);
            }
        } else {
            assert(precedes(items[i - 1], items[j - 1]));
        }
    }
}

} // verus!
