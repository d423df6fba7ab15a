//! Counting the characters of a text and asking whether one occurs exactly once.
use vstd::prelude::*;
use crate::text::chars_of;

verus! {

/// How often `c` occurs in `s`.
pub open spec fn occurrences(s: Seq<char>, c: char) -> nat
    decreases s.len(),
{
    if s.len() == 0 {
        0
    } else {
        occurrences(s.drop_last(), c) + if s.last() == c {
            1nat
        } else {
            0nat
        }
    }
}

/// Each character of `s` with the number of times it occurs.
pub open spec fn symbol_map(s: Seq<char>) -> Map<char, i32> {
    Map::new(|c: char| occurrences(s, c) > 0, |c: char| occurrences(s, c) as i32)
}

/// A character occurs in a prefix of `s` no more often than in `s`.
proof fn lemma_occurrences_prefix(s: Seq<char>, n: int, c: char)
    requires
        0 <= n <= s.len(),
    ensures
        occurrences(s.take(n), c) <= occurrences(s, c),
    decreases s.len(),
{
    if n < s.len() {
        assert(s.drop_last().take(n) =~= s.take(n));
        lemma_occurrences_prefix(s.drop_last(), n, c);
    } else {
        assert(s.take(n) =~= s);
    }
}

/// The number of times each character occurs in a text. The table is a vector
/// holding each character once: vstd specifies `HashMap` only for keys that obey
/// its key model (integers and `bool`), and `char` is not among them, so a
/// `HashMap<char, i32>` would leave every count unproved.
pub struct SymbolTable {
    entries: Vec<(char, i32)>,
}

impl View for SymbolTable {
    type V = Map<char, i32>;

    closed spec fn view(&self) -> Map<char, i32> {
        Map::new(
            |c: char| exists|i: int| 0 <= i < self.entries@.len() && self.entries@[i].0 == c,
            |c: char|
                self.entries@[choose|i: int|
                    0 <= i < self.entries@.len() && self.entries@[i].0 == c].1,
        )
    }
}

impl SymbolTable {
    /// Each character occurs once in the list.
    pub closed spec fn wf(&self) -> bool {
        forall|i: int, j: int|
            0 <= i < j < self.entries@.len() ==> self.entries@[i].0 != self.entries@[j].0
    }

    /// Where `c` stands in the list.
    fn position(&self, c: char) -> (r: Option<usize>)
        ensures
            r matches Some(j) ==> j < self.entries@.len() && self.entries@[j as int].0 == c,
            r is None ==> forall|k: int| 0 <= k < self.entries@.len() ==> self.entries@[k].0 != c,
    {
        let mut i: usize = 0;
        while i < self.entries.len()
            invariant
                i <= self.entries@.len(),
                forall|k: int| 0 <= k < i ==> self.entries@[k].0 != c,
            decreases self.entries@.len() - i,
        {
            if self.entries[i].0 == c {
                return Some(i);
            }
            i = i + 1;
        }
        None
    }

    /// The count for `c`, if `c` occurs.
    pub fn get(&self, c: char) -> (r: Option<i32>)
        requires
            self.wf(),
        ensures
            r == (if self@.contains_key(c) { Some(self@[c]) } else { None }),
    {
        match self.position(c) {
            Some(j) => {
                let ghost k = choose|i: int| 0 <= i < self.entries@.len() && self.entries@[i].0 == c;
                assert(k == j as int);
                Some(self.entries[j].1)
            },
            None => None,
        }
    }

    /// Whether `c` occurs.
    pub fn contains_key(&self, c: char) -> (r: bool)
        requires
            self.wf(),
        ensures
            r == self@.contains_key(c),
    {
        self.position(c).is_some()
    }

    /// The characters and their counts, each character once.
    pub fn to_pairs(&self) -> (r: Vec<(char, i32)>)
        requires
            self.wf(),
        ensures
            forall|i: int, j: int| 0 <= i < j < r@.len() ==> r@[i].0 != r@[j].0,
            forall|i: int|
                0 <= i < r@.len() ==> self@.contains_key(#[trigger] r@[i].0) && self@[r@[i].0]
                    == r@[i].1,
            forall|c: char| self@.contains_key(c) ==> exists|i: int| 0 <= i < r@.len() && r@[i].0 == c,
    {
        let mut r: Vec<(char, i32)> = Vec::new();
        let mut k: usize = 0;
        while k < self.entries.len()
            invariant
                k <= self.entries@.len(),
                r@ == self.entries@.take(k as int),
            decreases self.entries@.len() - k,
        {
            r.push(self.entries[k]);
            k = k + 1;
            proof {
                assert(r@ =~= self.entries@.take(k as int));
            }
        }
        proof {
            assert(r@ =~= self.entries@);
            assert forall|i: int| 0 <= i < r@.len() implies self@.contains_key(#[trigger] r@[i].0) && self@[r@[i].0] == r@[i].1 by {
                let k = choose|k: int| 0 <= k < self.entries@.len() && self.entries@[k].0 == r@[i].0;
                assert(k == i);
            }
        }
        r
    }
}

/// Counts how often each character occurs in `text`.
pub fn symbol_count(text: &String) -> (table: SymbolTable)
    requires
        forall|c: char| #[trigger] occurrences(text@, c) <= i32::MAX,
    ensures
        table.wf(),
        table@ == symbol_map(text@),
{
    let chars = chars_of(text.as_str());
    let mut table = SymbolTable { entries: Vec::new() };
    let mut i: usize = 0;
    while i < chars.len()
        invariant
            i <= chars@.len(),
            chars@ == text@,
            forall|c: char| #[trigger] occurrences(text@, c) <= i32::MAX,
            table.wf(),
            forall|k: int| 0 <= k < table.entries@.len() ==> occurrences(chars@.take(i as int), #[trigger] table.entries@[k].0) == table.entries@[k].1,
            forall|c: char| occurrences(chars@.take(i as int), c) > 0 ==> exists|k: int| 0 <= k < table.entries@.len() && table.entries@[k].0 == c,
            forall|k: int| 0 <= k < table.entries@.len() ==> #[trigger] table.entries@[k].1 > 0,
        decreases chars@.len() - i,
    {
        let symbol = chars[i];
        let ghost old_entries = table.entries@;
        let ghost p = chars@.take(i as int);
        let ghost q = chars@.take(i + 1);
        proof {
            assert(q.drop_last() =~= p);
            assert(q.last() == symbol);
            lemma_occurrences_prefix(chars@, i + 1, symbol);
            assert(occurrences(text@, symbol) <= i32::MAX);
        }
        let ghost mut idx: int = 0;
        match table.position(symbol) {
            Some(j) => {
                let count = table.entries[j].1;
                table.entries.set(j, (symbol, count + 1));
                proof {
                    idx = j as int;
                }
            },
            None => {
                table.entries.push((symbol, 1));
                proof {
                    idx = old_entries.len() as int;
                }
            },
        }
        proof {
            assert forall|k: int| 0 <= k < table.entries@.len() implies occurrences(q, #[trigger] table.entries@[k].0) == table.entries@[k].1 by {
                if k < old_entries.len() {
                    assert(table.entries@[k].0 == old_entries[k].0);
                }
            }
            assert forall|c: char| occurrences(q, c) > 0 implies exists|k: int| 0 <= k < table.entries@.len() && table.entries@[k].0 == c by {
                if c != symbol {
                    assert(occurrences(q, c) == occurrences(p, c));
                    assert(occurrences(chars@.take(i as int), c) > 0);
                    let k = choose|k: int| 0 <= k < old_entries.len() && old_entries[k].0 == c;
                    assert(table.entries@[k].0 == c);
                } else {
                    assert(table.entries@[idx].0 == c);
                }
            }
        }
        i = i + 1;
    }
    proof {
        assert(chars@.take(i as int) =~= chars@);
        assert(table@ =~= symbol_map(text@)) by {
            assert forall|c: char| table@.contains_key(c) implies table@[c] == occurrences(text@, c) as i32 by {
                let k = choose|k: int| 0 <= k < table.entries@.len() && table.entries@[k].0 == c;
                assert(table.entries@[k].1 > 0);
            }
            assert forall|c: char| table@.contains_key(c) <==> occurrences(text@, c) > 0 by {
                if table@.contains_key(c) {
                    let k = choose|k: int| 0 <= k < table.entries@.len() && table.entries@[k].0 == c;
                    assert(table.entries@[k].1 > 0);
                }
            }
        }
    }
    table
}

/// What a symbol query finds.
#[derive(PartialEq, Eq, Structural, Clone, Copy, Debug)]
pub enum SymbolVerdict {
    /// The symbol occurs exactly once.
    Unique,
    /// The symbol occurs more than once or not at all.
    NotUnique,
    /// The query holds more than three characters.
    TooLong,
}

/// The verdict on the query `text`: too long beyond three characters, otherwise
/// about its first character.
pub open spec fn verdict_of(text: Seq<char>, table: Map<char, i32>) -> SymbolVerdict {
    if text.len() > 3 {
        SymbolVerdict::TooLong
    } else if table.contains_key(text[0]) && table[text[0]] == 1 {
        SymbolVerdict::Unique
    } else {
        SymbolVerdict::NotUnique
    }
}

/// Looks up the first character of the query `text`.
pub fn check_symbol(text: &String, table: &SymbolTable) -> (r: SymbolVerdict)
    requires
        text@.len() > 0,
        table.wf(),
    ensures
        r == verdict_of(text@, table@),
{
    let chars = chars_of(text.as_str());
    if chars.len() > 3 {
        return SymbolVerdict::TooLong;
    }
    let symbol = chars[0];
    match table.get(symbol) {
        Some(count) => if count == 1 {
            SymbolVerdict::Unique
        } else {
            SymbolVerdict::NotUnique
        },
        None => SymbolVerdict::NotUnique,
    }
}

/// Whether the first character of the query `text` occurs exactly once; a query of
/// more than three characters never does.
pub fn unique_symbol(text: &String, table: &SymbolTable) -> (r: bool)
    requires
        text@.len() > 0,
        table.wf(),
    ensures
        r == (verdict_of(text@, table@) == SymbolVerdict::Unique),
{
    check_symbol(text, table) == SymbolVerdict::Unique
}

} // verus!

verus! {

/// A query is too long exactly when it holds more than three characters. A query of
/// one to three characters is unique exactly when the table counts its first
/// character once; a first character that the table does not hold, or holds with
/// another count, gives `NotUnique`.
pub proof fn law_symbol_verdicts(query: Seq<char>, table: Map<char, i32>)
    requires
        query.len() > 0,
    ensures
        (verdict_of(query, table) == SymbolVerdict::TooLong) == (query.len() > 3),
        query.len() <= 3 ==> ((verdict_of(query, table) == SymbolVerdict::Unique) == (
        table.contains_key(query[0]) && table[query[0]] == 1)),
        query.len() <= 3 && !table.contains_key(query[0]) ==> verdict_of(query, table)
            == SymbolVerdict::NotUnique,
        query.len() <= 3 && table.contains_key(query[0]) && table[query[0]] != 1 ==> verdict_of(
            query,
            table,
        ) == SymbolVerdict::NotUnique,
{
}

/// A query of one to three characters is unique exactly when its first character
/// occurs once in the counted text.
pub proof fn law_unique_means_once(text: Seq<char>, query: Seq<char>)
    requires
        forall|c: char| #[trigger] occurrences(text, c) <= i32::MAX,
        1 <= query.len() <= 3,
    ensures
        (verdict_of(query, symbol_map(text)) == SymbolVerdict::Unique) <==> occurrences(
            text,
            query[0],
        ) == 1,
{
    assert(occurrences(text, query[0]) <= i32::MAX);
}

} // verus!
