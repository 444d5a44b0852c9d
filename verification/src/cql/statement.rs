//! Prepared statements, and what can be told from the text of a statement.
use vstd::prelude::*;

use super::column::{spec_models, ColumnSpec, ColumnSpecView};

verus! {

/// Matches the statements that return rows.
pub const SELECT_PATTERN: &'static str = r"(?i)^\s*select\b";

/// Matches the statements that return a number of rows.
pub const SELECT_COUNT_PATTERN: &'static str = r"(?i)^\s*select\s+count\s*\(\s*[^)]*\s*\)";

/// Whether a text matches a regular expression of the `regex` crate, or nothing where the
/// expression is none.
pub uninterp spec fn regex_matches(pattern: Seq<char>, text: Seq<char>) -> Option<bool>;

/// Matches a text against a regular expression.
///
/// Calls `regex::Regex::new` and `is_match`; claims only that the result depends on nothing but
/// the expression and the text.
#[verifier::external_body]
fn regex_is_match(pattern: &str, text: &str) -> (r: Option<bool>)
    ensures
        r == regex_matches(pattern@, text@),
{
    match regex::Regex::new(pattern) {
        Ok(regex) => Some(regex.is_match(text)),
        Err(_) => None,
    }
}

/// The statement returns rows.
pub open spec fn is_select(cql: Seq<char>) -> bool {
    regex_matches(SELECT_PATTERN@, cql) == Some(true)
}

/// The statement returns a number of rows.
pub open spec fn is_select_count(cql: Seq<char>) -> bool {
    regex_matches(SELECT_COUNT_PATTERN@, cql) == Some(true)
}

/// Tells whether a statement returns rows.
pub fn is_select_query(cql: &str) -> (r: bool)
    ensures
        r == is_select(cql@),
{
    match regex_is_match(SELECT_PATTERN, cql) {
        Some(matches) => matches,
        None => false,
    }
}

/// Tells whether a statement returns a number of rows.
pub fn is_select_count_query(cql: &str) -> (r: bool)
    ensures
        r == is_select_count(cql@),
{
    match regex_is_match(SELECT_COUNT_PATTERN, cql) {
        Some(matches) => matches,
        None => false,
    }
}

/// A statement that the database has prepared: its text, and the columns that its parameters
/// stand for.
#[derive(Debug, PartialEq)]
pub struct PreparedStatement {
    pub cql: String,
    pub specs: Vec<ColumnSpec>,
}

/// What a [`PreparedStatement`] stands for.
pub struct PreparedStatementView {
    pub cql: Seq<char>,
    pub specs: Seq<ColumnSpecView>,
}

impl PreparedStatement {
    pub open spec fn model(self) -> PreparedStatementView {
        PreparedStatementView { cql: self.cql@, specs: spec_models(self.specs@) }
    }

    /// Makes a deep copy of the statement.
    pub fn duplicate(&self) -> (r: PreparedStatement)
        ensures
            r@ == self@,
    {
        let mut specs: Vec<ColumnSpec> = Vec::new();
        let mut i: usize = 0;
        while i < self.specs.len()
            invariant
                i <= self.specs.len(),
                specs.len() == i,
                forall|k: int| 0 <= k < i ==> (#[trigger] specs[k]).model() == self.specs[k].model(),
            decreases self.specs.len() - i,
        {
            let spec = &self.specs[i];
            specs.push(ColumnSpec { name: spec.name.clone(), typ: spec.typ.duplicate() });
            i += 1;
        }
        assert(spec_models(specs@) =~= spec_models(self.specs@));
        PreparedStatement { cql: self.cql.clone(), specs }
    }
}

impl View for PreparedStatement {
    type V = PreparedStatementView;

    open spec fn view(&self) -> PreparedStatementView {
        self.model()
    }
}

/// The prepared statements, each under its key.
#[derive(Debug, PartialEq)]
pub struct StatementTable {
    items: Vec<(String, PreparedStatement)>,
}

impl View for StatementTable {
    type V = Map<Seq<char>, PreparedStatementView>;

    closed spec fn view(&self) -> Map<Seq<char>, PreparedStatementView> {
        Map::new(
            |key: Seq<char>| exists|i: int| self.holds(i, key),
            |key: Seq<char>| self.items@[choose|i: int| self.holds(i, key)].1@,
        )
    }
}

impl StatementTable {
    /// The key stands at the place.
    spec fn holds(self, i: int, key: Seq<char>) -> bool {
        0 <= i < self.items@.len() && self.items@[i].0@ == key
    }

    /// No key stands at two places.
    #[verifier::type_invariant]
    spec fn well_formed(self) -> bool {
        forall|i: int, j: int, key: Seq<char>|
            (#[trigger] self.holds(i, key)) && (#[trigger] self.holds(j, key)) ==> i == j
    }

    /// A table without statements.
    pub fn new() -> (r: StatementTable)
        ensures
            r@ == Map::<Seq<char>, PreparedStatementView>::empty(),
    {
        let r = StatementTable { items: Vec::new() };
        assert(r@ =~= Map::<Seq<char>, PreparedStatementView>::empty());
        r
    }

    /// Finds the place of a key.
    fn find(&self, key: &str) -> (r: Option<usize>)
        ensures
            match r {
                Some(i) => self.holds(i as int, key@),
                None => forall|i: int| !(#[trigger] self.holds(i, key@)),
            },
    {
        let wanted = key.to_owned();
        let mut i: usize = 0;
        while i < self.items.len()
            invariant
                i <= self.items.len(),
                wanted@ == key@,
                forall|k: int| 0 <= k < i ==> (#[trigger] self.items@[k]).0@ != key@,
            decreases self.items.len() - i,
        {
            if self.items[i].0 == wanted {
                return Some(i);
            }
            i += 1;
        }
        None
    }

    /// Finds the statement under a key.
    pub fn get(&self, key: &str) -> (r: Option<&PreparedStatement>)
        ensures
            match r {
                Some(statement) => self@.contains_key(key@) && self@[key@] == statement@,
                None => !self@.contains_key(key@),
            },
    {
        proof {
            use_type_invariant(self);
        }
        match self.find(key) {
            Some(i) => {
                assert(self.holds(i as int, key@));
                Some(&self.items[i].1)
            },
            None => None,
        }
    }

    /// Puts a statement under a key, in place of the one that was there.
    pub fn insert(&mut self, key: &str, statement: PreparedStatement)
        ensures
            final(self)@ == old(self)@.insert(key@, statement@),
    {
        proof {
            use_type_invariant(&*self);
        }
        let ghost before = *self;
        let ghost added = statement@;
        let at = self.find(key);
        let mut items: Vec<(String, PreparedStatement)> = Vec::new();
        std::mem::swap(&mut items, &mut self.items);
        let entry = (key.to_owned(), statement);
        let place: usize = match at {
            Some(i) => {
                items.set(i, entry);
                i
            },
            None => {
                let end: usize = items.len();
                items.push(entry);
                end
            },
        };
        let ghost after = StatementTable { items };
        proof {
            assert(after.items@[place as int].0@ == key@);
            assert(after.items@[place as int].1@ == added);
            assert forall|i: int, k: Seq<char>| #[trigger] after.holds(i, k) implies (if i == place {
                k == key@
            } else {
                before.holds(i, k) && k != key@
            }) by {
                if i != place {
                    assert(after.items@[i] == before.items@[i]);
                    assert(before.holds(i, k));
                    if k == key@ {
                        match at {
                            Some(p) => {
                                assert(before.holds(p as int, key@));
                            },
                            None => {},
                        }
                    }
                }
            }
            assert forall|i: int, j: int, k: Seq<char>|
                (#[trigger] after.holds(i, k)) && (#[trigger] after.holds(j, k)) implies i == j by {
                if i != place && j != place {
                    assert(before.holds(i, k) && before.holds(j, k));
                }
            }
        }
        self.items = items;
        proof {
            assert(self.holds(place as int, key@));
            assert forall|k: Seq<char>| self@.contains_key(k) == before@.insert(
                key@,
                added,
            ).contains_key(k) by {
                if before@.contains_key(k) && k != key@ {
                    let i = choose|i: int| before.holds(i, k);
                    assert(before.holds(i, k));
                    assert(i != place) by {
                        match at {
                            Some(p) => {
                                assert(before.holds(p as int, key@));
                            },
                            None => {},
                        }
                    }
                    assert(self.holds(i, k));
                }
                if self@.contains_key(k) && k != key@ {
                    let i = choose|i: int| self.holds(i, k);
                    assert(before.holds(i, k));
                }
            }
            assert forall|k: Seq<char>| self@.contains_key(k) implies self@[k] == before@.insert(
                key@,
                added,
            )[k] by {
                let i = choose|i: int| self.holds(i, k);
                assert(self.holds(i, k));
                if k == key@ {
                    assert(self.holds(place as int, k));
                    assert(i == place);
                } else {
                    assert(before.holds(i, k));
                    let j = choose|j: int| before.holds(j, k);
                    assert(before.holds(j, k));
                    assert(i == j);
                    assert(self.items@[i] == before.items@[i]);
                }
            }
            assert(self@ =~= before@.insert(key@, added));
        }
    }

    /// Makes a deep copy of the table.
    pub fn duplicate(&self) -> (r: StatementTable)
        ensures
            r@ == self@,
    {
        proof {
            use_type_invariant(self);
        }
        let mut items: Vec<(String, PreparedStatement)> = Vec::new();
        let mut i: usize = 0;
        while i < self.items.len()
            invariant
                i <= self.items.len(),
                items.len() == i,
                forall|k: int|
                    0 <= k < i ==> (#[trigger] items@[k]).0@ == self.items@[k].0@ && items@[k].1@
                        == self.items@[k].1@,
            decreases self.items.len() - i,
        {
            items.push((self.items[i].0.clone(), self.items[i].1.duplicate()));
            i += 1;
        }
        let ghost copy = StatementTable { items };
        proof {
            assert forall|i: int, k: Seq<char>| #[trigger] copy.holds(i, k) == self.holds(i, k) by {
                if 0 <= i < items@.len() {
                    assert(items@[i].0@ == self.items@[i].0@);
                }
            }
            assert forall|i: int, j: int, k: Seq<char>|
                (#[trigger] copy.holds(i, k)) && (#[trigger] copy.holds(j, k)) implies i == j by {
                assert(self.holds(i, k) && self.holds(j, k));
            }
        }
        let r = StatementTable { items };
        proof {
            assert forall|k: Seq<char>| r@.contains_key(k) == self@.contains_key(k) by {
                if self@.contains_key(k) {
                    let i = choose|i: int| self.holds(i, k);
                    assert(r.holds(i, k));
                }
                if r@.contains_key(k) {
                    let i = choose|i: int| r.holds(i, k);
                    assert(self.holds(i, k));
                }
            }
            assert forall|k: Seq<char>| r@.contains_key(k) implies r@[k] == self@[k] by {
                let i = choose|i: int| r.holds(i, k);
                assert(r.holds(i, k));
                let j = choose|j: int| self.holds(j, k);
                assert(self.holds(i, k));
                assert(self.holds(j, k));
                assert(r.items@[i].1@ == self.items@[i].1@);
            }
            assert(r@ =~= self@);
        }
        r
    }
}

/// A statement returns rows where it begins with the word `select`, and a number of rows where that
/// is followed by a count, in upper or lower case.
pub proof fn statements_are_told_apart_by_their_text(cql: Seq<char>)
    ensures
        is_select(cql) == (regex_matches(r"(?i)^\s*select\b"@, cql) == Some(true)),
        is_select_count(cql) == (regex_matches(
            r"(?i)^\s*select\s+count\s*\(\s*[^)]*\s*\)"@,
            cql,
        ) == Some(true)),
{
}

} // verus!
