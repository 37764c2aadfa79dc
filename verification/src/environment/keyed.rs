//! Tables with one entry per key, the last entry given for a key winning,
//! as a map filled in order keeps them.
use vstd::prelude::*;
use crate::chars::str_eq;
use crate::nodes::TokenParser;
use crate::operator::{Operator, OperatorOptions};

verus! {

/// A value stored under a name.
pub trait Keyed {
    spec fn key(&self) -> Seq<char>;
}

impl Keyed for OperatorOptions {
    /// An operator is stored under its symbol.
    open spec fn key(&self) -> Seq<char> {
        self.value@
    }
}

impl Keyed for TokenParser {
    /// A tag parser is stored under its tag.
    open spec fn key(&self) -> Seq<char> {
        self.tag@
    }
}

/// The last index of `t` whose entry has the key `k`.
pub open spec fn key_position<T: Keyed>(t: Seq<T>, k: Seq<char>) -> Option<int>
    decreases t.len(),
{
    if t.len() == 0 {
        None
    } else if t.last().key() == k {
        Some(t.len() - 1)
    } else {
        key_position(t.drop_last(), k)
    }
}

/// The last entry of `t` with the key `k`.
pub open spec fn find_keyed<T: Keyed>(t: Seq<T>, k: Seq<char>) -> Option<T> {
    match key_position(t, k) {
        Some(i) => Some(t[i]),
        None => None,
    }
}

/// No two entries of `t` have the same key.
pub open spec fn keys_distinct<T: Keyed>(t: Seq<T>) -> bool {
    forall|i: int, j: int| 0 <= i < j < t.len() ==> #[trigger] t[i].key() != #[trigger] t[j].key()
}

/// What a map keyed by `key` holds after the entries of `s` are stored in
/// order: each key once, where it first came, with the last entry given
/// for it.
pub open spec fn keyed_table<T: Keyed>(s: Seq<T>) -> Seq<T>
    decreases s.len(),
{
    if s.len() == 0 {
        Seq::empty()
    } else {
        let t = keyed_table(s.drop_last());
        match key_position(t, s.last().key()) {
            Some(j) => t.update(j, s.last()),
            None => t.push(s.last()),
        }
    }
}

/// `key_position` gives the last index with the key, or `None` when no
/// entry has it.
pub proof fn lemma_key_position<T: Keyed>(t: Seq<T>, k: Seq<char>)
    ensures
        match key_position(t, k) {
            Some(i) => 0 <= i < t.len() && t[i].key() == k && forall|m: int|
                i < m < t.len() ==> #[trigger] t[m].key() != k,
            None => forall|m: int| 0 <= m < t.len() ==> #[trigger] t[m].key() != k,
        },
    decreases t.len(),
{
    if t.len() > 0 {
        lemma_key_position(t.drop_last(), k);
        assert forall|m: int| 0 <= m < t.len() - 1 implies t[m] == t.drop_last()[m] by {}
    }
}

/// In a table whose keys are distinct, the position of a key is the one
/// index that holds it.
pub proof fn lemma_key_position_distinct<T: Keyed>(t: Seq<T>, k: Seq<char>, i: int)
    requires
        keys_distinct(t),
        0 <= i < t.len(),
        t[i].key() == k,
    ensures
        key_position(t, k) == Some(i),
{
    lemma_key_position(t, k);
    if let Some(j) = key_position(t, k) {
        if j < i {
            assert(t[i].key() != k);
        }
        if i < j {
            assert(t[i].key() != t[j].key());
        }
    }
}

/// Replacing an entry by one with the same key moves no key.
pub proof fn lemma_key_position_update<T: Keyed>(t: Seq<T>, j: int, e: T, k: Seq<char>)
    requires
        0 <= j < t.len(),
        t[j].key() == e.key(),
    ensures
        key_position(t.update(j, e), k) == key_position(t, k),
{
    let u = t.update(j, e);
    lemma_key_position(t, k);
    lemma_key_position(u, k);
    assert forall|m: int| 0 <= m < t.len() implies #[trigger] u[m].key() == t[m].key() by {}
    match (key_position(t, k), key_position(u, k)) {
        (Some(a), Some(b)) => {
            if a < b {
                assert(u[b].key() == t[b].key());
            }
            if b < a {
                assert(u[a].key() == t[a].key());
            }
        },
        (Some(a), None) => {
            assert(u[a].key() == t[a].key());
        },
        (None, Some(b)) => {
            assert(u[b].key() == t[b].key());
        },
        (None, None) => {},
    }
}

/// The step of `keyed_table` for the `k`-th entry of `s`.
pub proof fn lemma_keyed_table_step<T: Keyed>(s: Seq<T>, k: int)
    requires
        0 <= k < s.len(),
    ensures
        keyed_table(s.take(k + 1)) == match key_position(keyed_table(s.take(k)), s[k].key()) {
            Some(j) => keyed_table(s.take(k)).update(j, s[k]),
            None => keyed_table(s.take(k)).push(s[k]),
        },
{
    assert(s.take(k + 1).drop_last() =~= s.take(k));
    assert(s.take(k + 1).last() == s[k]);
}

/// A table is a map: its keys are distinct, and looking up a key gives the
/// last entry stored under it.
pub proof fn law_keyed_table<T: Keyed>(s: Seq<T>, k: Seq<char>)
    ensures
        keys_distinct(keyed_table(s)),
        find_keyed(keyed_table(s), k) == find_keyed(s, k),
    decreases s.len(),
{
    if s.len() > 0 {
        let s0 = s.drop_last();
        let e = s.last();
        let t = keyed_table(s0);
        law_keyed_table(s0, k);
        law_keyed_table(s0, e.key());
        lemma_key_position(t, e.key());
        lemma_key_position(s0, k);
        lemma_key_position(s, k);
        assert forall|m: int| 0 <= m < s0.len() implies s0[m] == s[m] by {}
        lemma_key_position(t, k);
        lemma_key_position(s0, k);
        assert(find_keyed(s, k) == if e.key() == k {
            Some(e)
        } else {
            find_keyed(s0, k)
        }) by {
            if e.key() != k {
                if let Some(i) = key_position(s0, k) {
                    assert(s[i] == s0[i]);
                }
            }
        }
        match key_position(t, e.key()) {
            Some(j) => {
                let u = t.update(j, e);
                assert(keyed_table(s) == u);
                assert forall|a: int, b: int| 0 <= a < b < u.len() implies #[trigger] u[a].key() != #[trigger] u[b].key() by {
                    assert(u[a].key() == t[a].key());
                    assert(u[b].key() == t[b].key());
                }
                lemma_key_position_update(t, j, e, k);
                if k == e.key() {
                    lemma_key_position_distinct(t, k, j);
                } else {
                    if let Some(i) = key_position(t, k) {
                        assert(i != j);
                        assert(u[i] == t[i]);
                    }
                }
            },
            None => {
                let u = t.push(e);
                assert(keyed_table(s) == u);
                assert forall|a: int, b: int| 0 <= a < b < u.len() implies #[trigger] u[a].key() != #[trigger] u[b].key() by {
                    if b == t.len() {
                        assert(u[a] == t[a]);
                    } else {
                        assert(u[a] == t[a] && u[b] == t[b]);
                    }
                }
                assert(u.drop_last() =~= t);
                assert(u.last() == e);
                if k != e.key() {
                    if let Some(i) = key_position(t, k) {
                        assert(u[i] == t[i]);
                    }
                }
            },
        }
    }
}

/// A list whose keys are distinct is its own table.
pub proof fn lemma_keyed_table_distinct<T: Keyed>(s: Seq<T>)
    requires
        keys_distinct(s),
    ensures
        keyed_table(s) == s,
    decreases s.len(),
{
    if s.len() > 0 {
        let s0 = s.drop_last();
        assert(keys_distinct(s0)) by {
            assert forall|i: int, j: int| 0 <= i < j < s0.len() implies #[trigger] s0[i].key() != #[trigger] s0[j].key() by {
                assert(s0[i] == s[i] && s0[j] == s[j]);
            }
        }
        lemma_keyed_table_distinct(s0);
        lemma_key_position(s0, s.last().key());
        if let Some(i) = key_position(s0, s.last().key()) {
            assert(s0[i] == s[i]);
            assert(s[i].key() != s[s.len() - 1].key());
        }
        assert(s0.push(s.last()) =~= s);
    }
}

/// The parser's operator table: the options of `ops`, stored by symbol.
pub fn keyed_options(ops: &Vec<Operator>) -> (r: Vec<OperatorOptions>)
    ensures
        r@ == keyed_table(ops@.map_values(|o: Operator| o.options)),
{
    let ghost all = ops@.map_values(|o: Operator| o.options);
    let mut table: Vec<OperatorOptions> = Vec::new();
    let mut i: usize = 0;
    assert(all.take(0) =~= Seq::<OperatorOptions>::empty());
    while i < ops.len()
        invariant
            i <= ops@.len(),
            all == ops@.map_values(|o: Operator| o.options),
            table@ == keyed_table(all.take(i as int)),
        decreases ops@.len() - i,
    {
        let o = ops[i].options;
        assert(all[i as int] == o);
        let mut j = table.len();
        let mut found: Option<usize> = None;
        assert(table@.take(j as int) =~= table@);
        while j > 0 && found.is_none()
            invariant
                j <= table@.len(),
                found matches Some(k) ==> key_position(table@, o.key()) == Some(k as int) && k < table@.len(),
                found is None ==> key_position(table@, o.key()) == key_position(table@.take(j as int), o.key()),
            decreases j,
        {
            assert(table@.take(j as int).last() == table@[j - 1]);
            if str_eq(table[j - 1].value, o.value) {
                found = Some(j - 1);
            } else {
                assert(table@.take(j as int).drop_last() =~= table@.take(j - 1));
            }
            j -= 1;
        }
        if found.is_none() {
            assert(table@.take(0) =~= Seq::empty());
        }
        proof {
            lemma_keyed_table_step(all, i as int);
        }
        match found {
            Some(k) => {
                assert(key_position(table@, o.key()) == Some(k as int));
                table.set(k, o);
            },
            None => {
                assert(key_position(table@, o.key()) is None);
                table.push(o);
            },
        }
        i += 1;
    }
    assert(all.take(i as int) =~= all);
    table
}

/// The parser's tag table: the tag parsers of `parsers`, stored by tag.
pub fn keyed_parsers(parsers: Vec<TokenParser>) -> (r: Vec<TokenParser>)
    ensures
        r@ == keyed_table(parsers@),
{
    let ghost all = parsers@;
    let n = parsers.len();
    assert(all.len() == n);
    let mut rest = parsers;
    let mut table: Vec<TokenParser> = Vec::new();
    let mut i: usize = 0;
    assert(all.take(0) =~= Seq::<TokenParser>::empty());
    assert(all.skip(0) =~= all);
    while rest.len() > 0
        invariant
            i <= all.len() <= usize::MAX,
            rest@ == all.skip(i as int),
            table@ == keyed_table(all.take(i as int)),
        decreases rest@.len(),
    {
        assert(all.skip(i as int).len() == all.len() - i);
        let p = rest.remove(0);
        assert(all[i as int] == p);
        assert(rest@ =~= all.skip(i + 1));
        let mut j = table.len();
        let mut found: Option<usize> = None;
        assert(table@.take(j as int) =~= table@);
        while j > 0 && found.is_none()
            invariant
                j <= table@.len(),
                found matches Some(k) ==> key_position(table@, p.key()) == Some(k as int) && k < table@.len(),
                found is None ==> key_position(table@, p.key()) == key_position(table@.take(j as int), p.key()),
            decreases j,
        {
            assert(table@.take(j as int).last() == table@[j - 1]);
            if str_eq(table[j - 1].tag, p.tag) {
                found = Some(j - 1);
            } else {
                assert(table@.take(j as int).drop_last() =~= table@.take(j - 1));
            }
            j -= 1;
        }
        if found.is_none() {
            assert(table@.take(0) =~= Seq::empty());
        }
        proof {
            lemma_keyed_table_step(all, i as int);
        }
        match found {
            Some(k) => {
                assert(key_position(table@, p.key()) == Some(k as int));
                table.set(k, p);
            },
            None => {
                assert(key_position(table@, p.key()) is None);
                table.push(p);
            },
        }
        i += 1;
    }
    assert(all.take(i as int) =~= all);
    table
}

} // verus!
