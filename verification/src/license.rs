//! License expressions: splitting an expression into its identifiers and
//! naming each identifier the way Gentoo does.
//!
//! An expression is read as words, the maximal runs of characters that are
//! neither white space nor a parenthesis. The words `AND`, `OR` and `WITH`
//! join identifiers and are dropped; every other word is an identifier. The
//! expression is never evaluated: what comes out is every license that may
//! apply.

use crate::text::{chars_of, same_text};
use vstd::prelude::*;

verus! {

/// Whether `c` parts two words of a license expression.
pub open spec fn is_separator(c: char) -> bool {
    c == ' ' || c == '\t' || c == '\n' || c == '\r' || c == '(' || c == ')'
}

/// The words of `s`: its maximal runs of characters that are no separators,
/// from left to right.
///
/// Read from the right end: a separator adds nothing, a character behind a
/// separator opens a word, and any other character lengthens the last word.
pub open spec fn words(s: Seq<char>) -> Seq<Seq<char>>
    decreases s.len(),
{
    if s.len() == 0 {
        Seq::empty()
    } else {
        let before = words(s.drop_last());
        if is_separator(s.last()) {
            before
        } else if s.len() >= 2 && !is_separator(s[s.len() - 2]) {
            before.drop_last().push(before.last().push(s.last()))
        } else {
            before.push(seq![s.last()])
        }
    }
}

/// Whether `w` is one of the words that join identifiers.
pub open spec fn is_operator(w: Seq<char>) -> bool {
    w == seq!['A', 'N', 'D'] || w == seq!['O', 'R'] || w == seq!['W', 'I', 'T', 'H']
}

/// The test that keeps a word as an identifier.
pub open spec fn is_identifier() -> spec_fn(Seq<char>) -> bool {
    |w: Seq<char>| !is_operator(w)
}

/// The identifiers of an expression, in the order and number in which they
/// are written.
pub open spec fn identifiers(expr: Seq<char>) -> Seq<Seq<char>> {
    words(expr).filter(is_identifier())
}

/// `items` without repetitions: each item stays where it first stood.
pub open spec fn distinct(items: Seq<Seq<char>>) -> Seq<Seq<char>>
    decreases items.len(),
{
    if items.len() == 0 {
        Seq::empty()
    } else {
        let before = distinct(items.drop_last());
        if before.contains(items.last()) {
            before
        } else {
            before.push(items.last())
        }
    }
}

/// The license tokens of an expression: its identifiers, each once, in the
/// order of their first appearance.
pub open spec fn license_tokens(expr: Seq<char>) -> Seq<Seq<char>> {
    distinct(identifiers(expr))
}

/// A text that ends in a character which is no separator has a last word.
pub proof fn lemma_words_nonempty(s: Seq<char>)
    requires
        s.len() > 0,
        !is_separator(s.last()),
    ensures
        words(s).len() > 0,
    decreases s.len(),
{
    if s.len() >= 2 && !is_separator(s[s.len() - 2]) {
        lemma_words_nonempty(s.drop_last());
    }
}

/// Every word is non-empty and free of separators.
pub proof fn lemma_words_clean(s: Seq<char>)
    ensures
        forall|i: int, j: int|
            0 <= i < words(s).len() && 0 <= j < words(s)[i].len() ==> !is_separator(
                #[trigger] words(s)[i][j],
            ),
        forall|i: int| 0 <= i < words(s).len() ==> (#[trigger] words(s)[i]).len() > 0,
    decreases s.len(),
{
    if s.len() > 0 {
        lemma_words_clean(s.drop_last());
        if !is_separator(s.last()) && s.len() >= 2 && !is_separator(s[s.len() - 2]) {
            lemma_words_nonempty(s.drop_last());
        }
    }
}

/// `distinct` repeats nothing and keeps exactly the items it was given.
pub proof fn lemma_distinct(items: Seq<Seq<char>>)
    ensures
        distinct(items).no_duplicates(),
        distinct(items).to_set() == items.to_set(),
        distinct(items).len() <= items.len(),
    decreases items.len(),
{
    if items.len() > 0 {
        let shorter = items.drop_last();
        lemma_distinct(shorter);
        let before = distinct(shorter);
        assert forall|x: Seq<char>| items.to_set().contains(x) <==> distinct(items).to_set().contains(
            x,
        ) by {
            if items.contains(x) {
                let i = choose|i: int| 0 <= i < items.len() && items[i] == x;
                if i < items.len() - 1 {
                    assert(shorter[i] == x);
                    assert(shorter.to_set().contains(x));
                    assert(before.contains(x));
                    let k = choose|k: int| 0 <= k < before.len() && before[k] == x;
                    assert(distinct(items)[k] == x);
                } else if !before.contains(x) {
                    assert(distinct(items)[before.len() as int] == x);
                }
            }
            if distinct(items).contains(x) {
                let k = choose|k: int| 0 <= k < distinct(items).len() && distinct(items)[k] == x;
                if k < before.len() {
                    assert(before[k] == x);
                    assert(before.to_set().contains(x));
                    assert(shorter.contains(x));
                    let i = choose|i: int| 0 <= i < shorter.len() && shorter[i] == x;
                    assert(items[i] == x);
                } else {
                    assert(items[items.len() - 1] == x);
                }
            }
        }
        assert(distinct(items).to_set() =~= items.to_set());
    } else {
        assert(distinct(items).to_set() =~= items.to_set());
    }
}

fn separator(c: char) -> (r: bool)
    ensures
        r == is_separator(c),
{
    c == ' ' || c == '\t' || c == '\n' || c == '\r' || c == '(' || c == ')'
}

fn operator(word: &str) -> (r: bool)
    ensures
        r == is_operator(word@),
{
    proof {
        reveal_strlit("AND");
        reveal_strlit("OR");
        reveal_strlit("WITH");
        assert("AND"@ =~= seq!['A', 'N', 'D']);
        assert("OR"@ =~= seq!['O', 'R']);
        assert("WITH"@ =~= seq!['W', 'I', 'T', 'H']);
    }
    same_text(word, "AND") || same_text(word, "OR") || same_text(word, "WITH")
}

/// Whether `word` is among `items`.
pub fn contains_text(items: &Vec<String>, word: &str) -> (r: bool)
    ensures
        r == items.deep_view().contains(word@),
{
    let mut i: usize = 0;
    while i < items.len()
        invariant
            i <= items.len(),
            forall|j: int| 0 <= j < i ==> items.deep_view()[j] != word@,
        decreases items.len() - i,
    {
        if same_text(items[i].as_str(), word) {
            assert(items.deep_view()[i as int] == word@);
            return true;
        }
        i += 1;
    }
    false
}

/// Splits a license expression into its license tokens.
///
/// The empty expression, and one made of separators and operators alone,
/// gives no token.
pub fn split_spdx_license(expr: &str) -> (tokens: Vec<String>)
    ensures
        tokens.deep_view() == license_tokens(expr@),
{
    let chars = chars_of(expr);
    let n = chars.len();
    let mut tokens: Vec<String> = Vec::new();
    let mut i: usize = 0;
    proof {
        assert(expr@.take(0) =~= Seq::<char>::empty());
        reveal_with_fuel(Seq::filter, 1);
        assert(tokens.deep_view() =~= distinct(identifiers(expr@.take(0))));
    }
    while i < n
        invariant
            i <= n,
            n == chars.len(),
            chars@ == expr@,
            i < n && !is_separator(expr@[i as int]) ==> i == 0 || is_separator(expr@[i - 1]),
            tokens.deep_view() == distinct(identifiers(expr@.take(i as int))),
        decreases n - i,
    {
        if separator(chars[i]) {
            proof {
                let longer = expr@.take(i + 1);
                assert(longer.drop_last() =~= expr@.take(i as int));
            }
            i += 1;
        } else {
            let start = i;
            let mut end = i + 1;
            proof {
                let one = expr@.take(start + 1);
                assert(one.drop_last() =~= expr@.take(start as int));
                assert(expr@.subrange(start as int, start + 1) =~= seq![expr@[start as int]]);
            }
            while end < n && !separator(chars[end])
                invariant
                    start < end <= n,
                    n == chars.len(),
                    chars@ == expr@,
                    forall|k: int| start <= k < end ==> !is_separator(expr@[k]),
                    words(expr@.take(end as int)) == words(expr@.take(start as int)).push(
                        expr@.subrange(start as int, end as int),
                    ),
                decreases n - end,
            {
                proof {
                    let longer = expr@.take(end + 1);
                    let found = words(expr@.take(start as int));
                    let word = expr@.subrange(start as int, end as int);
                    assert(longer.drop_last() =~= expr@.take(end as int));
                    assert(longer[longer.len() - 2] == expr@[end - 1]);
                    assert(found.push(word).drop_last() =~= found);
                    assert(word.push(expr@[end as int]) =~= expr@.subrange(
                        start as int,
                        end + 1,
                    ));
                }
                end += 1;
            }
            let word = String::from_str(expr.substring_char(start, end));
            let is_new = !operator(word.as_str()) && !contains_text(&tokens, word.as_str());
            proof {
                let found = words(expr@.take(start as int));
                let kept = found.filter(is_identifier());
                found.lemma_filter_push(word@, is_identifier());
                let grown = found.push(word@).filter(is_identifier());
                if !is_operator(word@) {
                    assert(grown.drop_last() =~= kept);
                }
            }
            if is_new {
                let ghost before = tokens.deep_view();
                tokens.push(word);
                assert(tokens.deep_view() =~= before.push(word@));
            }
            i = end;
        }
    }
    proof {
        assert(expr@.take(n as int) =~= expr@);
    }
    tokens
}

/// SPDX license identifiers, each with the name of that license in Gentoo.
pub const GENTOO_LICENSES: [(&'static str, &'static str); 52] = [
    ("0BSD", "0BSD"),
    ("AFL-2.1", "AFL-2.1"),
    ("AGPL-3.0", "AGPL-3"),
    ("AGPL-3.0-only", "AGPL-3"),
    ("AGPL-3.0-or-later", "AGPL-3+"),
    ("Apache-1.1", "Apache-1.1"),
    ("Apache-2.0", "Apache-2.0"),
    ("Artistic-1.0-Perl", "Artistic"),
    ("Artistic-2.0", "Artistic-2"),
    ("BSD-1-Clause", "BSD-1"),
    ("BSD-2-Clause", "BSD-2"),
    ("BSD-3-Clause", "BSD"),
    ("BSD-4-Clause", "BSD-4"),
    ("BSL-1.0", "Boost-1.0"),
    ("CC-BY-3.0", "CC-BY-3.0"),
    ("CC-BY-4.0", "CC-BY-4.0"),
    ("CC-BY-SA-4.0", "CC-BY-SA-4.0"),
    ("CC0-1.0", "CC0-1.0"),
    ("CDDL-1.0", "CDDL"),
    ("EPL-1.0", "EPL-1.0"),
    ("EPL-2.0", "EPL-2.0"),
    ("GPL-2.0", "GPL-2"),
    ("GPL-2.0+", "GPL-2+"),
    ("GPL-2.0-only", "GPL-2"),
    ("GPL-2.0-or-later", "GPL-2+"),
    ("GPL-3.0", "GPL-3"),
    ("GPL-3.0+", "GPL-3+"),
    ("GPL-3.0-only", "GPL-3"),
    ("GPL-3.0-or-later", "GPL-3+"),
    ("ISC", "ISC"),
    ("LGPL-2.0-only", "LGPL-2"),
    ("LGPL-2.0-or-later", "LGPL-2+"),
    ("LGPL-2.1", "LGPL-2.1"),
    ("LGPL-2.1+", "LGPL-2.1+"),
    ("LGPL-2.1-only", "LGPL-2.1"),
    ("LGPL-2.1-or-later", "LGPL-2.1+"),
    ("LGPL-3.0", "LGPL-3"),
    ("LGPL-3.0+", "LGPL-3+"),
    ("LGPL-3.0-only", "LGPL-3"),
    ("LGPL-3.0-or-later", "LGPL-3+"),
    ("MIT", "MIT"),
    ("MIT-0", "MIT-0"),
    ("MPL-1.1", "MPL-1.1"),
    ("MPL-2.0", "MPL-2.0"),
    ("NCSA", "UoI-NCSA"),
    ("OpenSSL", "openssl"),
    ("Unicode-3.0", "Unicode-3.0"),
    ("Unicode-DFS-2016", "Unicode-DFS-2016"),
    ("Unlicense", "Unlicense"),
    ("WTFPL", "WTFPL-2"),
    ("Zlib", "ZLIB"),
    ("zlib-acknowledgement", "ZLIB"),
];

/// What the first entry of `table` at or behind `from` whose identifier is
/// `spdx` names it, if there is such an entry.
pub open spec fn first_entry(
    table: Seq<(&'static str, &'static str)>,
    spdx: Seq<char>,
    from: int,
) -> Option<Seq<char>>
    decreases table.len() - from,
{
    if from < 0 || from >= table.len() {
        None
    } else if table[from].0@ == spdx {
        Some(table[from].1@)
    } else {
        first_entry(table, spdx, from + 1)
    }
}

/// The Gentoo name of the license that SPDX calls `spdx`, where the table
/// knows it.
pub open spec fn gentoo_license(spdx: Seq<char>) -> Option<Seq<char>> {
    first_entry(GENTOO_LICENSES@, spdx, 0)
}

/// A token is known exactly if the table holds it as an identifier, and its
/// Gentoo name is then one that the table gives for it.
pub proof fn lemma_gentoo_license(spdx: Seq<char>)
    ensures
        gentoo_license(spdx) is Some <==> exists|i: int|
            0 <= i < GENTOO_LICENSES@.len() && (#[trigger] GENTOO_LICENSES@[i]).0@ == spdx,
        gentoo_license(spdx) matches Some(name) ==> exists|i: int|
            0 <= i < GENTOO_LICENSES@.len() && (#[trigger] GENTOO_LICENSES@[i]).0@ == spdx
                && GENTOO_LICENSES@[i].1@ == name,
{
    lemma_first_entry(GENTOO_LICENSES@, spdx, 0);
}

proof fn lemma_first_entry(table: Seq<(&'static str, &'static str)>, spdx: Seq<char>, from: int)
    requires
        0 <= from <= table.len(),
    ensures
        first_entry(table, spdx, from) is Some <==> exists|i: int|
            from <= i < table.len() && (#[trigger] table[i]).0@ == spdx,
        first_entry(table, spdx, from) matches Some(name) ==> exists|i: int|
            from <= i < table.len() && (#[trigger] table[i]).0@ == spdx && table[i].1@ == name,
    decreases table.len() - from,
{
    if from < table.len() {
        lemma_first_entry(table, spdx, from + 1);
        if table[from].0@ == spdx {
            assert(from <= from < table.len() && table[from].0@ == spdx);
        }
    }
}

/// Looks a license token up in the table of Gentoo's names.
///
/// A token that the table lacks gives `None`; the token itself is never
/// changed or guessed at.
pub fn normalize_license(license: &str) -> (name: Option<&'static str>)
    ensures
        name is Some <==> gentoo_license(license@) is Some,
        name matches Some(n) ==> gentoo_license(license@) == Some(n@),
{
    let mut i: usize = 0;
    while i < GENTOO_LICENSES.len()
        invariant
            i <= GENTOO_LICENSES@.len(),
            gentoo_license(license@) == first_entry(GENTOO_LICENSES@, license@, i as int),
        decreases GENTOO_LICENSES@.len() - i,
    {
        if same_text(GENTOO_LICENSES[i].0, license) {
            return Some(GENTOO_LICENSES[i].1);
        }
        i += 1;
    }
    None
}

} // verus!
