//! License expressions as trees, and what splitting makes of their text.
//!
//! The trees exist only in proofs. They state, for every expression built
//! from identifiers with `AND`, `OR` and parentheses, that splitting its text
//! gives back the identifiers it was built from.

use crate::license::{
    distinct, identifiers, is_identifier, is_operator, is_separator, lemma_distinct,
    lemma_words_nonempty, license_tokens, words,
};
use vstd::prelude::*;

verus! {

/// A license expression, built from identifiers by conjunction, disjunction
/// and parentheses.
pub enum Expression {
    Identifier(Seq<char>),
    Group(Box<Expression>),
    And(Box<Expression>, Box<Expression>),
    Or(Box<Expression>, Box<Expression>),
}

/// Whether `w` can stand as an identifier: it is not empty, holds no
/// separator, and is none of the joining words.
pub open spec fn is_atom(w: Seq<char>) -> bool {
    &&& w.len() > 0
    &&& forall|i: int| 0 <= i < w.len() ==> !is_separator(#[trigger] w[i])
    &&& !is_operator(w)
}

/// The joining word `op` as it is written between two operands.
pub open spec fn spaced(op: Seq<char>) -> Seq<char> {
    seq![' '] + op + seq![' ']
}

impl Expression {
    /// Whether every identifier of the expression can stand as one.
    pub open spec fn well_formed(self) -> bool
        decreases self,
    {
        match self {
            Expression::Identifier(w) => is_atom(w),
            Expression::Group(inner) => inner.well_formed(),
            Expression::And(left, right) => left.well_formed() && right.well_formed(),
            Expression::Or(left, right) => left.well_formed() && right.well_formed(),
        }
    }

    /// The expression written out.
    pub open spec fn text(self) -> Seq<char>
        decreases self,
    {
        match self {
            Expression::Identifier(w) => w,
            Expression::Group(inner) => seq!['('] + inner.text() + seq![')'],
            Expression::And(left, right) => left.text() + spaced(seq!['A', 'N', 'D'])
                + right.text(),
            Expression::Or(left, right) => left.text() + spaced(seq!['O', 'R']) + right.text(),
        }
    }

    /// The identifiers of the expression, from left to right.
    pub open spec fn leaves(self) -> Seq<Seq<char>>
        decreases self,
    {
        match self {
            Expression::Identifier(w) => seq![w],
            Expression::Group(inner) => inner.leaves(),
            Expression::And(left, right) => left.leaves() + right.leaves(),
            Expression::Or(left, right) => left.leaves() + right.leaves(),
        }
    }
}

/// Where two texts meet at a separator, or one of them is empty, the words
/// of the whole are the words of the first followed by those of the second.
pub proof fn lemma_words_concat(x: Seq<char>, y: Seq<char>)
    requires
        x.len() == 0 || y.len() == 0 || is_separator(x.last()) || is_separator(y[0]),
    ensures
        words(x + y) == words(x) + words(y),
    decreases y.len(),
{
    if y.len() == 0 {
        assert(x + y =~= x);
        assert(words(x) + words(y) =~= words(x));
    } else {
        let whole = x + y;
        let shorter = y.drop_last();
        assert(whole.drop_last() =~= x + shorter);
        assert(whole.last() == y.last());
        if shorter.len() > 0 {
            assert(shorter[0] == y[0]);
        }
        lemma_words_concat(x, shorter);
        if is_separator(y.last()) {
        } else if whole.len() >= 2 && !is_separator(whole[whole.len() - 2]) {
            if shorter.len() > 0 {
                assert(whole[whole.len() - 2] == y[y.len() - 2]);
                assert(shorter.last() == y[y.len() - 2]);
                lemma_words_nonempty(shorter);
                assert((words(x) + words(shorter)).drop_last() =~= words(x) + words(
                    shorter,
                ).drop_last());
                assert(words(whole) =~= words(x) + words(y));
            } else {
                assert(whole[whole.len() - 2] == x.last());
                assert(y[0] == y.last());
            }
        } else {
            if y.len() >= 2 {
                assert(whole[whole.len() - 2] == y[y.len() - 2]);
            }
            assert(words(whole) =~= words(x) + words(y));
        }
    }
}

/// A text without separators is one word.
pub proof fn lemma_words_single(w: Seq<char>)
    requires
        w.len() > 0,
        forall|i: int| 0 <= i < w.len() ==> !is_separator(#[trigger] w[i]),
    ensures
        words(w) == seq![w],
    decreases w.len(),
{
    if w.len() == 1 {
        assert(words(w.drop_last()) =~= Seq::<Seq<char>>::empty());
        assert(seq![w.last()] =~= w);
        assert(words(w) =~= seq![w]);
    } else {
        let shorter = w.drop_last();
        assert forall|i: int| 0 <= i < shorter.len() implies !is_separator(
            #[trigger] shorter[i],
        ) by {
            assert(shorter[i] == w[i]);
        }
        lemma_words_single(shorter);
        assert(!is_separator(w[w.len() - 2]));
        assert(!is_separator(w[w.len() - 1]));
        assert(shorter.push(w.last()) =~= w);
        assert(words(w) =~= seq![w]);
    }
}

/// A joining word between two spaces is one word.
proof fn lemma_words_spaced(op: Seq<char>)
    requires
        op.len() > 0,
        forall|i: int| 0 <= i < op.len() ==> !is_separator(#[trigger] op[i]),
    ensures
        words(spaced(op)) == seq![op],
{
    let space = seq![' '];
    assert(words(space.drop_last()) =~= Seq::<Seq<char>>::empty());
    assert(words(space) =~= Seq::<Seq<char>>::empty());
    lemma_words_single(op);
    lemma_words_concat(space, op);
    assert(words(space + op) =~= seq![op]);
    lemma_words_concat(space + op, space);
    assert(words(spaced(op)) =~= seq![op]);
}

/// The identifiers of two operands joined by `op` are those of the first
/// followed by those of the second.
proof fn lemma_identifiers_joined(left: Seq<char>, op: Seq<char>, right: Seq<char>)
    requires
        is_operator(op),
    ensures
        identifiers(left + spaced(op) + right) == identifiers(left) + identifiers(right),
{
    assert(op.len() > 0 && forall|i: int| 0 <= i < op.len() ==> !is_separator(#[trigger] op[i]))
        by {
        if op == seq!['A', 'N', 'D'] {
        } else if op == seq!['O', 'R'] {
        } else {
            assert(op == seq!['W', 'I', 'T', 'H']);
        }
    }
    lemma_words_spaced(op);
    let middle = spaced(op);
    assert(middle[0] == ' ');
    assert(middle.last() == ' ');
    lemma_words_concat(left, middle);
    assert((left + middle).last() == ' ');
    lemma_words_concat(left + middle, right);
    let keep = is_identifier();
    Seq::filter_distributes_over_add(words(left) + words(middle), words(right), keep);
    Seq::filter_distributes_over_add(words(left), words(middle), keep);
    assert(words(middle).filter(keep) =~= Seq::<Seq<char>>::empty()) by {
        let none = Seq::<Seq<char>>::empty();
        assert(none.push(op) =~= seq![op]);
        none.lemma_filter_push(op, keep);
        reveal_with_fuel(Seq::filter, 1);
        assert(none.filter(keep) =~= none);
    }
    assert(identifiers(left + middle + right) =~= identifiers(left) + identifiers(right));
}

/// The identifiers of a text in parentheses are those of the text.
proof fn lemma_identifiers_grouped(inner: Seq<char>)
    ensures
        identifiers(seq!['('] + inner + seq![')']) == identifiers(inner),
{
    let open = seq!['('];
    let close = seq![')'];
    assert(words(open.drop_last()) =~= Seq::<Seq<char>>::empty());
    assert(words(open) =~= Seq::<Seq<char>>::empty());
    assert(words(close.drop_last()) =~= Seq::<Seq<char>>::empty());
    assert(words(close) =~= Seq::<Seq<char>>::empty());
    lemma_words_concat(open, inner);
    lemma_words_concat(open + inner, close);
    assert(words(open + inner + close) =~= words(inner));
}

/// Splitting the text of an expression gives back its identifiers.
///
/// For every expression built from identifiers with `AND`, `OR` and
/// parentheses, however deep and in whatever mixture, the identifiers read
/// from its text are its leaves in their order, and its license tokens are
/// those leaves with each one kept once: no token is repeated, and the tokens
/// and the leaves are the same set.
pub proof fn lemma_split_gives_leaves(e: Expression)
    requires
        e.well_formed(),
    ensures
        identifiers(e.text()) == e.leaves(),
        license_tokens(e.text()) == distinct(e.leaves()),
        license_tokens(e.text()).no_duplicates(),
        license_tokens(e.text()).to_set() == e.leaves().to_set(),
    decreases e,
{
    match e {
        Expression::Identifier(w) => {
            lemma_words_single(w);
            let none = Seq::<Seq<char>>::empty();
            assert(none.push(w) =~= seq![w]);
            none.lemma_filter_push(w, is_identifier());
            reveal_with_fuel(Seq::filter, 1);
            assert(none.filter(is_identifier()) =~= none);
            assert(identifiers(w) =~= seq![w]);
        },
        Expression::Group(inner) => {
            lemma_split_gives_leaves(*inner);
            lemma_identifiers_grouped(inner.text());
        },
        Expression::And(left, right) => {
            lemma_split_gives_leaves(*left);
            lemma_split_gives_leaves(*right);
            lemma_identifiers_joined(left.text(), seq!['A', 'N', 'D'], right.text());
        },
        Expression::Or(left, right) => {
            lemma_split_gives_leaves(*left);
            lemma_split_gives_leaves(*right);
            lemma_identifiers_joined(left.text(), seq!['O', 'R'], right.text());
        },
    }
    lemma_distinct(e.leaves());
}

} // verus!
