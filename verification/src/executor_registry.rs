//! The executor registry: which executor serves which algorithm.
use vstd::prelude::*;
use crate::security::{contains_string, has_string};
use crate::string_map::{chars_of, StringMap};

verus! {

/// Registered executors by name, with the algorithms each supports, and the
/// executor each algorithm is routed to.  The executors themselves are kept by
/// the caller under the same names.
pub struct ExecutorRegistry {
    executors: StringMap<Vec<String>>,
    algorithm_map: StringMap<String>,
}

impl ExecutorRegistry {
    pub closed spec fn wf(&self) -> bool {
        self.executors.wf() && self.algorithm_map.wf()
    }

    /// The algorithms of each registered executor.
    pub closed spec fn executors(&self) -> Map<Seq<char>, Vec<String>> {
        self.executors@
    }

    /// The executor each algorithm is routed to.
    pub closed spec fn routes(&self) -> Map<Seq<char>, String> {
        self.algorithm_map@
    }

    pub fn new() -> (r: ExecutorRegistry)
        ensures
            r.wf(),
            r.executors() == Map::<Seq<char>, Vec<String>>::empty(),
            r.routes() == Map::<Seq<char>, String>::empty(),
    {
        ExecutorRegistry { executors: StringMap::new(), algorithm_map: StringMap::new() }
    }

    /// Registers (or replaces) an executor, and routes each of its algorithms to it.
    pub fn register(&mut self, name: &str, algorithms: Vec<String>) -> (r: Result<(), String>)
        requires
            old(self).wf(),
        ensures
            final(self).wf(),
            r is Ok,
            final(self).executors() == old(self).executors().insert(name@, algorithms),
            final(self).routes().dom() == old(self).routes().dom().union(chars_of(algorithms@).to_set()),
            forall|a: Seq<char>| #[trigger]
                final(self).routes().contains_key(a) ==> final(self).routes()[a]@ == (if chars_of(
                    algorithms@,
                ).contains(a) {
                    name@
                } else {
                    old(self).routes()[a]@
                }),
    {
        let ghost algs = chars_of(algorithms@);
        let ghost routes0 = self.routes();
        let mut i: usize = 0;
        while i < algorithms.len()
            invariant
                self.algorithm_map.wf(),
                self.executors == old(self).executors,
                algs == chars_of(algorithms@),
                routes0 == old(self).routes(),
                i <= algorithms@.len(),
                self.routes().dom() == routes0.dom().union(algs.take(i as int).to_set()),
                forall|a: Seq<char>| #[trigger]
                    self.routes().contains_key(a) ==> self.routes()[a]@ == (if algs.take(i as int).contains(a) {
                        name@
                    } else {
                        routes0[a]@
                    }),
            decreases algorithms@.len() - i,
        {
            self.algorithm_map.insert(algorithms[i].clone(), String::from_str(name));
            proof {
                assert(algs[i as int] == algorithms@[i as int]@);
                let t0 = algs.take(i as int);
                let t1 = algs.take(i + 1);
                assert(t1 =~= t0.push(algs[i as int]));
                assert(t1.to_set() =~= t0.to_set().insert(algs[i as int])) by {
                    assert forall|x: Seq<char>| t1.to_set().contains(x) <==> t0.to_set().insert(algs[i as int]).contains(x) by {
                        if t1.contains(x) {
                            let j = choose|j: int| 0 <= j < t1.len() && t1[j] == x;
                            if j < i {
                                assert(t0[j] == x);
                            }
                        }
                        if t0.contains(x) {
                            let j = choose|j: int| 0 <= j < t0.len() && t0[j] == x;
                            assert(t1[j] == x);
                        }
                        if x == algs[i as int] {
                            assert(t1[i as int] == x);
                        }
                    }
                }
                assert(self.routes().dom() =~= routes0.dom().union(t1.to_set()));
                assert forall|a: Seq<char>| #[trigger] self.routes().contains_key(a) implies self.routes()[a]@ == (
                if t1.contains(a) {
                    name@
                } else {
                    routes0[a]@
                }) by {
                    if a != algs[i as int] {
                        assert(t1.contains(a) == t0.contains(a)) by {
                            if t1.contains(a) {
                                let j = choose|j: int| 0 <= j < t1.len() && t1[j] == a;
                                assert(j < i);
                                assert(t0[j] == a);
                            }
                            if t0.contains(a) {
                                let j = choose|j: int| 0 <= j < t0.len() && t0[j] == a;
                                assert(t1[j] == a);
                            }
                        }
                    } else {
                        assert(t1[i as int] == a);
                    }
                }
            }
            i += 1;
        }
        assert(algs.take(algorithms@.len() as int) =~= algs);
        self.executors.insert(String::from_str(name), algorithms);
        Ok(())
    }
}


impl ExecutorRegistry {
    /// Whether an executor of this name is registered.
    pub fn get(&self, name: &str) -> (b: bool)
        requires
            self.wf(),
        ensures
            b == self.executors().contains_key(name@),
    {
        self.executors.contains_key(name)
    }

    /// The executor for an algorithm: the one it is routed to (none if that one is
    /// gone), else a registered executor that lists it, else none.
    pub fn select_executor(&self, algorithm: &str) -> (r: Option<String>)
        requires
            self.wf(),
        ensures
            self.routes().contains_key(algorithm@) ==> match r {
                Some(n) => n@ == self.routes()[algorithm@]@ && self.executors().contains_key(n@),
                None => !self.executors().contains_key(self.routes()[algorithm@]@),
            },
            !self.routes().contains_key(algorithm@) ==> match r {
                Some(n) => self.executors().contains_key(n@) && has_string(self.executors()[n@]@, algorithm@),
                None => forall|n: Seq<char>| #[trigger]
                    self.executors().contains_key(n) ==> !has_string(self.executors()[n]@, algorithm@),
            },
    {
        match self.algorithm_map.get(algorithm) {
            Some(name) => {
                if self.executors.contains_key(name.as_str()) {
                    return Some(name.clone());
                } else {
                    return None;
                }
            },
            None => {},
        }
        proof {
            self.executors.lemma_enumeration();
        }
        let target = String::from_str(algorithm);
        let n = self.executors.len();
        let mut i: usize = 0;
        while i < n
            invariant
                self.executors.wf(),
                !self.algorithm_map@.contains_key(algorithm@),
                n == self.executors.key_seq().len(),
                target@ == algorithm@,
                i <= n,
                forall|j: int| 0 <= j < i ==> !has_string(
                    #[trigger] self.executors@[self.executors.key_seq()[j]]@,
                    algorithm@,
                ),
            decreases n - i,
        {
            if contains_string(self.executors.value_at(i), &target) {
                let k = self.executors.key_at(i).clone();
                proof {
                    self.executors.lemma_enumeration();
                    assert(self.executors.key_seq().contains(k@));
                }
                return Some(k);
            }
            i += 1;
        }
        proof {
            self.executors.lemma_enumeration();
            assert forall|nm: Seq<char>| #[trigger] self.executors().contains_key(nm) implies !has_string(
                self.executors()[nm]@,
                algorithm@,
            ) by {
                assert(self.executors.key_seq().to_set().contains(nm));
                let j = choose|j: int| 0 <= j < self.executors.key_seq().len() && self.executors.key_seq()[j] == nm;
                assert(!has_string(self.executors@[self.executors.key_seq()[j]]@, algorithm@));
            }
        }
        None
    }

    /// The names of the registered executors.
    pub fn list_executors(&self) -> (names: Vec<String>)
        requires
            self.wf(),
        ensures
            chars_of(names@).to_set() == self.executors().dom(),
            chars_of(names@).no_duplicates(),
    {
        proof {
            self.executors.lemma_enumeration();
        }
        self.executors.keys()
    }

    /// Removes an executor and the routes of the algorithms it listed; an unknown
    /// name changes nothing.
    pub fn unregister(&mut self, name: &str) -> (r: Result<(), String>)
        requires
            old(self).wf(),
        ensures
            final(self).wf(),
            r is Ok,
            !old(self).executors().contains_key(name@) ==> final(self).executors() == old(self).executors()
                && final(self).routes() == old(self).routes(),
            old(self).executors().contains_key(name@) ==> final(self).executors() == old(self).executors().remove(
                name@,
            ) && final(self).routes() == old(self).routes().remove_keys(
                chars_of(old(self).executors()[name@]@).to_set(),
            ),
    {
        let algorithms = match self.executors.take(name) {
            Some(a) => a,
            None => {
                return Ok(());
            },
        };
        let ghost algs = chars_of(algorithms@);
        let ghost routes0 = self.algorithm_map@;
        let ghost ex = self.executors@;
        let mut i: usize = 0;
        while i < algorithms.len()
            invariant
                self.algorithm_map.wf(),
                self.executors.wf(),
                self.executors@ == ex,
                algs == chars_of(algorithms@),
                i <= algorithms@.len(),
                self.algorithm_map@ == routes0.remove_keys(algs.take(i as int).to_set()),
            decreases algorithms@.len() - i,
        {
            let _ = self.algorithm_map.take(algorithms[i].as_str());
            proof {
                assert(algs[i as int] == algorithms@[i as int]@);
                let t0 = algs.take(i as int);
                let t1 = algs.take(i + 1);
                assert(t1 =~= t0.push(algs[i as int]));
                assert(t1.to_set() =~= t0.to_set().insert(algs[i as int])) by {
                    assert forall|x: Seq<char>| t1.to_set().contains(x) <==> t0.to_set().insert(algs[i as int]).contains(x) by {
                        if t1.contains(x) {
                            let j = choose|j: int| 0 <= j < t1.len() && t1[j] == x;
                            if j < i {
                                assert(t0[j] == x);
                            }
                        }
                        if t0.contains(x) {
                            let j = choose|j: int| 0 <= j < t0.len() && t0[j] == x;
                            assert(t1[j] == x);
                        }
                        if x == algs[i as int] {
                            assert(t1[i as int] == x);
                        }
                    }
                }
                assert(self.algorithm_map@ =~= routes0.remove_keys(t1.to_set()));
            }
            i += 1;
        }
        assert(algs.take(algorithms@.len() as int) =~= algs);
        Ok(())
    }
}

/// After registering an executor, each of its algorithms is served by it.
pub proof fn lemma_registered_algorithm_routes_to_executor(
    before: ExecutorRegistry,
    after: ExecutorRegistry,
    name: Seq<char>,
    algorithms: Vec<String>,
    algorithm: Seq<char>,
)
    requires
        after.executors() == before.executors().insert(name, algorithms),
        after.routes().dom() == before.routes().dom().union(chars_of(algorithms@).to_set()),
        forall|a: Seq<char>| #[trigger]
            after.routes().contains_key(a) ==> after.routes()[a]@ == (if chars_of(algorithms@).contains(a) {
                name
            } else {
                before.routes()[a]@
            }),
        chars_of(algorithms@).contains(algorithm),
    ensures
        after.routes().contains_key(algorithm),
        after.routes()[algorithm]@ == name,
        after.executors().contains_key(name),
{
}

} // verus!
