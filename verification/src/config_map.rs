//! The configuration of a profile: for each effect script, by the script's
//! name, the list of its parameters. No script name occurs twice.

use vstd::prelude::*;
use crate::config::{ConfigParam, ParamView, params_view};

verus! {

/// Script name to parameter list, each script name at most once.
#[derive(Debug)]
pub struct ConfigMap {
    scripts: Vec<String>,
    params: Vec<Vec<ConfigParam>>,
}

/// What a configuration holds: the parameters of each script, by name.
pub type ConfigView = Map<Seq<char>, Seq<ParamView>>;

impl ConfigMap {
    #[verifier::type_invariant]
    spec fn well_formed(&self) -> bool {
        &&& self.scripts@.len() == self.params@.len()
        &&& forall|i: int, j: int|
            0 <= i < self.scripts@.len() && 0 <= j < self.scripts@.len() && i != j
                ==> #[trigger] self.scripts@[i]@ != #[trigger] self.scripts@[j]@
    }

    /// Position of a script name among the scripts, if present.
    closed spec fn index_of(&self, key: Seq<char>) -> int {
        choose|i: int| 0 <= i < self.scripts@.len() && self.scripts@[i]@ == key
    }

    /// The parameter lists, by script name.
    pub closed spec fn as_map(&self) -> ConfigView {
        Map::new(
            |k: Seq<char>| exists|i: int| 0 <= i < self.scripts@.len() && self.scripts@[i]@ == k,
            |k: Seq<char>| params_view(self.params@[self.index_of(k)]@),
        )
    }
}

impl View for ConfigMap {
    type V = ConfigView;

    open spec fn view(&self) -> ConfigView {
        self.as_map()
    }
}

impl ConfigMap {
    /// A configuration without any script.
    pub fn new() -> (m: Self)
        ensures
            m@ == Map::<Seq<char>, Seq<ParamView>>::empty(),
    {
        let m = ConfigMap { scripts: Vec::new(), params: Vec::new() };
        assert(m@ =~= Map::<Seq<char>, Seq<ParamView>>::empty());
        m
    }

    proof fn lemma_index(&self, i: int)
        requires
            self.well_formed(),
            0 <= i < self.scripts@.len(),
        ensures
            self.index_of(self.scripts@[i]@) == i,
            self@.contains_key(self.scripts@[i]@),
            self@[self.scripts@[i]@] == params_view(self.params@[i]@),
    {
        let k = self.scripts@[i]@;
        let c: int = self.index_of(k);
        assert(0 <= c < self.scripts@.len() && self.scripts@[c]@ == k);
        assert(c == i);
    }

    proof fn lemma_same_keys_update(&self, before: &Self, i: int)
        requires
            self.well_formed(),
            before.well_formed(),
            0 <= i < before.scripts@.len(),
            self.scripts@ == before.scripts@,
            self.params@ == before.params@.update(i, self.params@[i]),
        ensures
            self@ == before@.insert(before.scripts@[i]@, params_view(self.params@[i]@)),
    {
        let k = before.scripts@[i]@;
        assert forall|key: Seq<char>| #[trigger] self@.contains_key(key) == before@.insert(k, params_view(self.params@[i]@)).contains_key(key) by {
            if before@.contains_key(key) {
                let c: int = before.index_of(key);
                before.lemma_index(c);
                self.lemma_index(c);
            }
            if self@.contains_key(key) {
                let c: int = self.index_of(key);
                self.lemma_index(c);
                before.lemma_index(c);
            }
        }
        assert forall|key: Seq<char>| #[trigger] self@.contains_key(key) implies self@[key] == before@.insert(k, params_view(self.params@[i]@))[key] by {
            let c: int = self.index_of(key);
            self.lemma_index(c);
            before.lemma_index(c);
            self.lemma_index(i);
        }
        assert(self@ =~= before@.insert(k, params_view(self.params@[i]@)));
    }

    proof fn lemma_push(&self, before: &Self, key: Seq<char>, v: Seq<ParamView>)
        requires
            self.well_formed(),
            before.well_formed(),
            !before@.contains_key(key),
            self.scripts@.len() == before.scripts@.len() + 1,
            self.scripts@.drop_last() == before.scripts@,
            self.params@.drop_last() == before.params@,
            self.scripts@.last()@ == key,
            params_view(self.params@.last()@) == v,
        ensures
            self@ == before@.insert(key, v),
    {
        let n: nat = before.scripts@.len();
        assert(self.scripts@[n as int] == self.scripts@.last());
        self.lemma_index(n as int);
        assert forall|k: Seq<char>| #[trigger] self@.contains_key(k) == before@.insert(key, v).contains_key(k) by {
            if before@.contains_key(k) {
                let c: int = before.index_of(k);
                before.lemma_index(c);
                assert(self.scripts@[c] == before.scripts@[c]);
                self.lemma_index(c);
            }
            if self@.contains_key(k) && k != key {
                let c: int = self.index_of(k);
                self.lemma_index(c);
                assert(c != n);
                assert(before.scripts@[c] == self.scripts@[c]);
                before.lemma_index(c);
            }
        }
        assert forall|k: Seq<char>| #[trigger] self@.contains_key(k) implies self@[k] == before@.insert(key, v)[k] by {
            if k != key {
                let c: int = self.index_of(k);
                self.lemma_index(c);
                assert(c != n);
                assert(before.scripts@[c] == self.scripts@[c]);
                assert(before.params@[c] == self.params@[c]);
                before.lemma_index(c);
            }
        }
        assert(self@ =~= before@.insert(key, v));
    }

    fn find(&self, script: &str) -> (r: Option<usize>)
        ensures
            r is None ==> !self@.contains_key(script@),
            r matches Some(i) ==> i < self.scripts@.len() && i < self.params@.len()
                && self.scripts@[i as int]@ == script@
                && self@.contains_key(script@)
                && self@[script@] == params_view(self.params@[i as int]@),
    {
        proof {
            use_type_invariant(self);
        }
        let wanted = script.to_owned();
        let mut i: usize = 0;
        while i < self.scripts.len()
            invariant
                i <= self.scripts@.len(),
                wanted@ == script@,
                self.well_formed(),
                forall|j: int| 0 <= j < i ==> self.scripts@[j]@ != script@,
            decreases self.scripts@.len() - i,
        {
            if self.scripts[i] == wanted {
                proof {
                    self.lemma_index(i as int);
                }
                return Some(i);
            }
            i = i + 1;
        }
        None
    }

    /// The parameters of a script, if the configuration has that script.
    pub fn get(&self, script: &str) -> (r: Option<&Vec<ConfigParam>>)
        ensures
            r is None <==> !self@.contains_key(script@),
            r matches Some(v) ==> params_view(v@) == self@[script@],
    {
        match self.find(script) {
            Some(i) => Some(&self.params[i]),
            None => None,
        }
    }

    /// Takes the parameters of a script out of the configuration, leaving
    /// the script with an empty list; `None` when the script is absent.
    pub fn take(&mut self, script: &str) -> (r: Option<Vec<ConfigParam>>)
        ensures
            r is None <==> !old(self)@.contains_key(script@),
            r is None ==> final(self)@ == old(self)@,
            r matches Some(v) ==> params_view(v@) == old(self)@[script@]
                && final(self)@ == old(self)@.insert(script@, Seq::<ParamView>::empty()),
    {
        match self.find(script) {
            Some(i) => {
                let ghost before = *self;
                let mut taken = ConfigMap::new();
                std::mem::swap(self, &mut taken);
                proof {
                    use_type_invariant(&taken);
                }
                let ConfigMap { scripts: names, params: mut lists } = taken;
                let out = lists.remove(i);
                let empty: Vec<ConfigParam> = Vec::new();
                lists.insert(i, empty);
                proof {
                    assert(lists@ =~= before.params@.update(i as int, empty));
                }
                *self = ConfigMap { scripts: names, params: lists };
                proof {
                    self.lemma_same_keys_update(&before, i as int);
                    assert(params_view(empty@) =~= Seq::<ParamView>::empty());
                }
                Some(out)
            },
            None => None,
        }
    }

    /// Sets the parameters of a script, replacing those it had.
    pub fn insert(&mut self, script: String, params: Vec<ConfigParam>)
        ensures
            final(self)@ == old(self)@.insert(script@, params_view(params@)),
    {
        let found = self.find(script.as_str());
        let ghost before = *self;
        let ghost key = script@;
        let mut taken = ConfigMap::new();
        std::mem::swap(self, &mut taken);
        proof {
            use_type_invariant(&taken);
        }
        let ConfigMap { scripts: mut names, params: mut lists } = taken;
        match found {
            Some(i) => {
                lists.set(i, params);
                *self = ConfigMap { scripts: names, params: lists };
                proof {
                    self.lemma_same_keys_update(&before, i as int);
                }
            },
            None => {
                let ghost pv = params_view(params@);
                proof {
                    assert forall|j: int| 0 <= j < names@.len() implies names@[j]@ != key by {
                        if names@[j]@ == key {
                            before.lemma_index(j);
                        }
                    }
                }
                names.push(script);
                lists.push(params);
                *self = ConfigMap { scripts: names, params: lists };
                proof {
                    assert(self.scripts@.drop_last() =~= before.scripts@);
                    assert(self.params@.drop_last() =~= before.params@);
                    self.lemma_push(&before, key, pv);
                }
            },
        }
    }

    /// The scripts with their parameters, each script once.
    pub fn into_entries(self) -> (r: Vec<(String, Vec<ConfigParam>)>)
        ensures
            forall|i: int, j: int|
                0 <= i < r@.len() && 0 <= j < r@.len() && i != j ==> #[trigger] r@[i].0@ != #[trigger] r@[j].0@,
            forall|i: int| 0 <= i < r@.len() ==> #[trigger] self@.contains_key(r@[i].0@)
                && self@[r@[i].0@] == params_view(r@[i].1@),
            forall|k: Seq<char>| #[trigger] self@.contains_key(k) ==> exists|i: int| 0 <= i < r@.len() && r@[i].0@ == k,
    {
        proof {
            use_type_invariant(&self);
        }
        let ghost me = self;
        let ghost n: nat = self.scripts@.len();
        let ConfigMap { scripts: mut names, params: mut lists } = self;
        let mut r: Vec<(String, Vec<ConfigParam>)> = Vec::new();
        while names.len() > 0
            invariant
                me.well_formed(),
                n == me.scripts@.len(),
                names@.len() == lists@.len(),
                names@.len() + r@.len() == n,
                names@ == me.scripts@.take(names@.len() as int),
                lists@ == me.params@.take(lists@.len() as int),
                forall|j: int| 0 <= j < r@.len() ==> #[trigger] r@[j].0 == me.scripts@[n - 1 - j]
                    && r@[j].1 == me.params@[n - 1 - j],
            decreases names@.len(),
        {
            let ghost len: nat = names@.len();
            let s = names.pop().unwrap();
            let p = lists.pop().unwrap();
            proof {
                assert(names@ =~= me.scripts@.take(len - 1));
                assert(lists@ =~= me.params@.take(len - 1));
            }
            r.push((s, p));
        }
        proof {
            assert forall|i: int| 0 <= i < r@.len() implies #[trigger] me@.contains_key(r@[i].0@)
                && me@[r@[i].0@] == params_view(r@[i].1@) by {
                me.lemma_index(n - 1 - i);
            }
            assert forall|k: Seq<char>| #[trigger] me@.contains_key(k) implies exists|i: int| 0 <= i < r@.len() && r@[i].0@ == k by {
                let c: int = me.index_of(k);
                assert(r@[n - 1 - c].0 == me.scripts@[c]);
            }
        }
        r
    }
}

impl Clone for ConfigMap {
    fn clone(&self) -> (r: Self)
        ensures
            r@ == self@,
    {
        proof {
            use_type_invariant(self);
        }
        let scripts = self.scripts.clone();
        let params = self.params.clone();
        proof {
            assert(scripts@ =~= self.scripts@);
            assert forall|i: int| 0 <= i < params@.len() implies params@[i]@ == self.params@[i]@ by {
                assert(cloned::<Vec<ConfigParam>>(self.params@[i], params@[i]));
                assert(params@[i]@ =~= self.params@[i]@);
            }
        }
        let r = ConfigMap { scripts, params };
        proof {
            assert(r@ =~= self@);
        }
        r
    }
}

} // verus!
