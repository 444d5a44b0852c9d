//! Latencies, by the function that was called.
use vstd::prelude::*;

verus! {

/// The calls of one function of a workload.
#[derive(Debug, PartialEq)]
pub struct FunctionStats {
    pub name: String,
    pub call_count: u64,
    pub error_count: u64,
    pub call_latency_ns: Vec<u64>,
}

/// The latencies with those of one more function.
pub open spec fn with_latencies(
    table: Map<Seq<char>, Seq<u64>>,
    name: Seq<char>,
    latencies: Seq<u64>,
) -> Map<Seq<char>, Seq<u64>> {
    table.insert(
        name,
        (if table.contains_key(name) {
            table[name]
        } else {
            Seq::empty()
        }) + latencies,
    )
}

/// The latencies with those of more functions.
pub open spec fn with_functions(
    table: Map<Seq<char>, Seq<u64>>,
    functions: Seq<FunctionStats>,
) -> Map<Seq<char>, Seq<u64>>
    decreases functions.len(),
{
    if functions.len() == 0 {
        table
    } else {
        with_latencies(
            with_functions(table, functions.drop_last()),
            functions.last().name@,
            functions.last().call_latency_ns@,
        )
    }
}

/// Appends latencies to others.
pub fn append_latencies(all: &mut Vec<u64>, more: &Vec<u64>)
    ensures
        final(all)@ == old(all)@ + more@,
{
    let mut i: usize = 0;
    let ghost before = all@;
    assert(more@.take(0) =~= Seq::empty());
    assert(before + Seq::<u64>::empty() =~= before);
    while i < more.len()
        invariant
            i <= more.len(),
            all@ == before + more@.take(i as int),
        decreases more.len() - i,
    {
        all.push(more[i]);
        assert(more@.take(i + 1) =~= more@.take(i as int).push(more@[i as int]));
        assert((before + more@.take(i as int)).push(more@[i as int]) =~= before + more@.take(i + 1));
        i += 1;
    }
    assert(more@.take(more@.len() as int) =~= more@);
}

/// The latencies of each function.
#[derive(Debug, PartialEq)]
pub struct LatencyTable {
    items: Vec<(String, Vec<u64>)>,
}

impl View for LatencyTable {
    type V = Map<Seq<char>, Seq<u64>>;

    closed spec fn view(&self) -> Map<Seq<char>, Seq<u64>> {
        Map::new(
            |name: Seq<char>| exists|i: int| self.holds(i, name),
            |name: Seq<char>| self.items@[choose|i: int| self.holds(i, name)].1@,
        )
    }
}

impl LatencyTable {
    /// The name stands at the place.
    spec fn holds(self, i: int, name: Seq<char>) -> bool {
        0 <= i < self.items@.len() && self.items@[i].0@ == name
    }

    /// No name stands at two places.
    #[verifier::type_invariant]
    spec fn well_formed(self) -> bool {
        forall|i: int, j: int, name: Seq<char>|
            (#[trigger] self.holds(i, name)) && (#[trigger] self.holds(j, name)) ==> i == j
    }

    /// A table without functions.
    pub fn new() -> (r: LatencyTable)
        ensures
            r@ == Map::<Seq<char>, Seq<u64>>::empty(),
    {
        let r = LatencyTable { items: Vec::new() };
        assert(r@ =~= Map::<Seq<char>, Seq<u64>>::empty());
        r
    }

    /// Adds latencies of a function.
    pub fn add(&mut self, name: &String, latencies: &Vec<u64>)
        ensures
            final(self)@ == with_latencies(old(self)@, name@, latencies@),
    {
        proof {
            use_type_invariant(&*self);
        }
        let ghost before = *self;
        let mut items: Vec<(String, Vec<u64>)> = Vec::new();
        std::mem::swap(&mut items, &mut self.items);
        let mut place: usize = 0;
        while place < items.len() && items[place].0 != *name
            invariant
                place <= items.len(),
                items@ == before.items@,
                forall|k: int| 0 <= k < place ==> (#[trigger] items@[k]).0@ != name@,
            decreases items.len() - place,
        {
            place += 1;
        }
        let ghost found = place < items.len();
        let mut all: Vec<u64> = Vec::new();
        if place < items.len() {
            append_latencies(&mut all, &items[place].1);
            assert(all@ =~= items@[place as int].1@);
        }
        append_latencies(&mut all, latencies);
        let ghost added = all@;
        proof {
            if found {
                assert(before.holds(place as int, name@));
                let i = choose|i: int| before.holds(i, name@);
                assert(before.holds(i, name@));
                assert(i == place);
                assert(before@.contains_key(name@));
                assert(before@[name@] == before.items@[place as int].1@);
            } else {
                assert(!before@.contains_key(name@)) by {
                    if before@.contains_key(name@) {
                        let i = choose|i: int| before.holds(i, name@);
                        assert(before.holds(i, name@));
                        assert(before.items@[i].0@ != name@);
                    }
                }
                assert(added =~= Seq::<u64>::empty() + latencies@);
            }
        }
        let entry = (name.clone(), all);
        if place < items.len() {
            items.set(place, entry);
        } else {
            items.push(entry);
        }
        let ghost after = LatencyTable { items };
        proof {
            assert(after.items@[place as int].0@ == name@);
            assert(after.items@[place as int].1@ == added);
            assert forall|i: int, k: Seq<char>| #[trigger] after.holds(i, k) implies (if i == place {
                k == name@
            } else {
                before.holds(i, k) && k != name@
            }) by {
                if i != place {
                    assert(after.items@[i] == before.items@[i]);
                    assert(before.holds(i, k));
                    if k == name@ && found {
                        assert(before.holds(place as int, name@));
                    }
                }
            }
            assert forall|i: int, j: int, k: Seq<char>|
                (#[trigger] after.holds(i, k)) && (#[trigger] after.holds(j, k)) implies i == j by {
                if i != place && j != place {
                    assert(before.holds(i, k) && before.holds(j, k));
                }
            }
        }
        self.items = items;
        proof {
            assert(self.holds(place as int, name@));
            let expected = before@.insert(name@, added);
            assert forall|k: Seq<char>| self@.contains_key(k) == expected.contains_key(k) by {
                if before@.contains_key(k) && k != name@ {
                    let i = choose|i: int| before.holds(i, k);
                    assert(before.holds(i, k));
                    assert(i != place) by {
                        if found {
                            assert(before.holds(place as int, name@));
                        }
                    }
                    assert(self.holds(i, k));
                }
                if self@.contains_key(k) && k != name@ {
                    let i = choose|i: int| self.holds(i, k);
                    assert(before.holds(i, k));
                }
            }
            assert forall|k: Seq<char>| self@.contains_key(k) implies self@[k] == expected[k] by {
                let i = choose|i: int| self.holds(i, k);
                assert(self.holds(i, k));
                if k == name@ {
                    assert(self.holds(place as int, k));
                    assert(i == place);
                } else {
                    assert(before.holds(i, k));
                    let j = choose|j: int| before.holds(j, k);
                    assert(before.holds(j, k));
                    assert(i == j);
                    assert(self.items@[i] == before.items@[i]);
                }
            }
            assert(self@ =~= expected);
        }
    }

    /// Adds the latencies of functions.
    pub fn add_functions(&mut self, functions: &Vec<FunctionStats>)
        ensures
            final(self)@ == with_functions(old(self)@, functions@),
    {
        let ghost before = self@;
        let mut i: usize = 0;
        assert(functions@.take(0) =~= Seq::empty());
        while i < functions.len()
            invariant
                i <= functions.len(),
                self@ == with_functions(before, functions@.take(i as int)),
            decreases functions.len() - i,
        {
            self.add(&functions[i].name, &functions[i].call_latency_ns);
            assert(functions@.take(i + 1).drop_last() =~= functions@.take(i as int));
            i += 1;
        }
        assert(functions@.take(functions@.len() as int) =~= functions@);
    }

    /// Finds the latencies of a function.
    pub fn get(&self, name: &String) -> (r: Option<&Vec<u64>>)
        ensures
            match r {
                Some(latencies) => self@.contains_key(name@) && self@[name@] == latencies@,
                None => !self@.contains_key(name@),
            },
    {
        proof {
            use_type_invariant(self);
        }
        let mut i: usize = 0;
        while i < self.items.len()
            invariant
                i <= self.items.len(),
                self.well_formed(),
                forall|k: int| 0 <= k < i ==> (#[trigger] self.items@[k]).0@ != name@,
            decreases self.items.len() - i,
        {
            if self.items[i].0 == *name {
                assert(self.holds(i as int, name@));
                return Some(&self.items[i].1);
            }
            i += 1;
        }
        assert(!self@.contains_key(name@)) by {
            if self@.contains_key(name@) {
                let k = choose|k: int| self.holds(k, name@);
                assert(self.holds(k, name@));
                assert(self.items@[k].0@ != name@);
            }
        }
        None
    }

    /// Takes the entries out, each name once.
    pub fn into_entries(self) -> (r: Vec<(String, Vec<u64>)>)
        ensures
            forall|i: int| #![trigger r@[i]]
                0 <= i < r@.len() ==> self@.contains_key(r@[i].0@) && self@[r@[i].0@] == r@[i].1@,
            forall|name: Seq<char>| #[trigger]
                self@.contains_key(name) ==> exists|i: int|
                    #![trigger r@[i]]
                    0 <= i < r@.len() && r@[i].0@ == name,
            forall|i: int, j: int| #![trigger r@[i], r@[j]]
                0 <= i < j < r@.len() ==> r@[i].0@ != r@[j].0@,
    {
        proof {
            use_type_invariant(&self);
            let s = self;
            assert forall|i: int| #![trigger s.items@[i]] 0 <= i < s.items@.len() implies s@.contains_key(
                s.items@[i].0@,
            ) && s@[s.items@[i].0@] == s.items@[i].1@ by {
                assert(s.holds(i, s.items@[i].0@));
                let k = choose|k: int| s.holds(k, s.items@[i].0@);
                assert(s.holds(k, s.items@[i].0@));
            }
            assert forall|name: Seq<char>| #[trigger] s@.contains_key(name) implies exists|i: int|
                #![trigger s.items@[i]]
                0 <= i < s.items@.len() && s.items@[i].0@ == name by {
                let k = choose|k: int| s.holds(k, name);
                assert(s.holds(k, name));
                assert(s.items@[k].0@ == name);
            }
            assert forall|i: int, j: int| #![trigger s.items@[i], s.items@[j]] 0 <= i < j
                < s.items@.len() implies s.items@[i].0@ != s.items@[j].0@ by {
                if s.items@[i].0@ == s.items@[j].0@ {
                    assert(s.holds(i, s.items@[i].0@));
                    assert(s.holds(j, s.items@[i].0@));
                }
            }
        }
        self.items
    }
}

} // verus!
