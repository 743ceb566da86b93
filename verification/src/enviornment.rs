use crate::object::ChaiObject;
use crate::object::ValM;
use vstd::prelude::*;

verus! {

/// The model of an environment chain: one binding map per scope, outermost
/// first, innermost last. Lookup searches from the innermost scope outward;
/// `let` writes into the innermost scope; reassignment writes into the
/// scope that owns the name.
pub type EnvM = Seq<Map<Seq<char>, ValM>>;

/// The model of a fresh environment: a single empty scope.
pub open spec fn initial_env() -> EnvM {
    seq![Map::<Seq<char>, ValM>::empty()]
}

/// The model of one scope: later entries shadow earlier ones with the same
/// name, as repeated insertion into a map.
pub open spec fn scope_model(s: Seq<(String, ChaiObject)>) -> Map<Seq<char>, ValM>
    decreases s,
{
    if s.len() == 0 {
        Map::empty()
    } else {
        scope_model(s.drop_last()).insert(s.last().0@, s.last().1.model())
    }
}

/// Chain lookup: the innermost scope that binds the name decides.
pub open spec fn env_get_m(env: EnvM, name: Seq<char>) -> Option<ValM>
    decreases env.len(),
{
    if env.len() == 0 {
        None
    } else if env.last().contains_key(name) {
        Some(env.last()[name])
    } else {
        env_get_m(env.drop_last(), name)
    }
}

/// Whether any scope of the chain binds the name.
pub open spec fn env_contains(env: EnvM, name: Seq<char>) -> bool {
    env_get_m(env, name) is Some
}

/// Binding a name in the innermost scope.
pub open spec fn env_set_m(env: EnvM, name: Seq<char>, v: ValM) -> EnvM {
    if env.len() == 0 {
        env
    } else {
        env.update(env.len() - 1, env.last().insert(name, v))
    }
}

/// Reassignment: update the innermost scope that already binds the name;
/// an environment that binds it nowhere comes back unchanged.
pub open spec fn env_assign_m(env: EnvM, name: Seq<char>, v: ValM) -> EnvM
    decreases env.len(),
{
    if env.len() == 0 {
        env
    } else if env.last().contains_key(name) {
        env.update(env.len() - 1, env.last().insert(name, v))
    } else {
        env_assign_m(env.drop_last(), name, v).push(env.last())
    }
}

/// A scope entry found by a backwards scan is the one the scope model
/// reports.
proof fn lemma_scope_found(s: Seq<(String, ChaiObject)>, name: Seq<char>, i: int)
    requires
        0 <= i < s.len(),
        s[i].0@ == name,
        forall|j: int| i < j < s.len() ==> (#[trigger] s[j]).0@ != name,
    ensures
        scope_model(s).contains_key(name),
        scope_model(s)[name] == s[i].1.model(),
    decreases s.len(),
{
    if i < s.len() - 1 {
        lemma_scope_found(s.drop_last(), name, i);
    }
}

/// A name no scan finds is not in the scope model.
proof fn lemma_scope_absent(s: Seq<(String, ChaiObject)>, name: Seq<char>)
    requires
        forall|j: int| 0 <= j < s.len() ==> (#[trigger] s[j]).0@ != name,
    ensures
        !scope_model(s).contains_key(name),
    decreases s.len(),
{
    if s.len() > 0 {
        lemma_scope_absent(s.drop_last(), name);
    }
}

/// Scopes with elementwise equal names and value models have equal models.
proof fn lemma_scope_model_congruent(s1: Seq<(String, ChaiObject)>, s2: Seq<(String, ChaiObject)>)
    requires
        s1.len() == s2.len(),
        forall|j: int|
            0 <= j < s1.len() ==> (#[trigger] s1[j]).0@ == (#[trigger] s2[j]).0@ && s1[j].1.model()
                == s2[j].1.model(),
    ensures
        scope_model(s1) == scope_model(s2),
    decreases s1.len(),
{
    if s1.len() > 0 {
        assert(s1.drop_last().len() == s2.drop_last().len());
        lemma_scope_model_congruent(s1.drop_last(), s2.drop_last());
    }
}

/// An environment: a mapping from names to values for the innermost scope,
/// plus an optional outer environment.
#[derive(Debug, PartialEq)]
pub struct Enviornment {
    pub state: Vec<(String, ChaiObject)>,
    pub outer: Option<Box<Enviornment>>,
}

impl Enviornment {
    pub open spec fn model(self) -> EnvM
        decreases self,
    {
        (match self.outer {
            Some(o) => o.model(),
            None => Seq::empty(),
        }).push(scope_model(self.state@))
    }

    /// A fresh environment with one empty scope and no outer chain.
    pub fn new() -> (r: Self)
        ensures
            r.model() == initial_env(),
    {
        let r = Enviornment { state: Vec::new(), outer: None };
        proof {
            assert(r.state@ =~= Seq::<(String, ChaiObject)>::empty());
            assert(r.outer is None);
            assert(scope_model(r.state@) == Map::<Seq<char>, ValM>::empty());
            assert(r.model() == (Seq::<Map<Seq<char>, ValM>>::empty()).push(scope_model(r.state@)));
            assert(r.model() =~~= initial_env());
        }
        r
    }

    /// A fresh innermost scope enclosing `outer`.
    pub fn enclosed(outer: Enviornment) -> (r: Self)
        ensures
            r.model() == outer.model().push(Map::empty()),
    {
        let r = Enviornment { state: Vec::new(), outer: Some(Box::new(outer)) };
        proof {
            assert(scope_model(r.state@) == Map::<Seq<char>, ValM>::empty());
            assert(r.model() == outer.model().push(scope_model(r.state@)));
        }
        r
    }

    /// The index of the innermost entry of the innermost scope that binds
    /// `name`, if any.
    fn scope_find(&self, name: &String) -> (r: Option<usize>)
        ensures
            match r {
                Some(i) => i < self.state@.len() && self.state@[i as int].0@ == name@
                    && (forall|j: int|
                    i < j < self.state@.len() ==> (#[trigger] self.state@[j]).0@ != name@),
                None => forall|j: int|
                    0 <= j < self.state@.len() ==> (#[trigger] self.state@[j]).0@ != name@,
            },
    {
        let mut i = self.state.len();
        while i > 0
            invariant
                i <= self.state@.len(),
                forall|j: int| i <= j < self.state@.len() ==> (#[trigger] self.state@[j]).0@ != name@,
            decreases i,
        {
            i = i - 1;
            if self.state[i].0 == *name {
                return Some(i);
            }
        }
        None
    }

    /// Chain lookup: a copy of the innermost binding of `name`, if any.
    pub fn get(&self, name: &str) -> (r: Option<ChaiObject>)
        ensures
            match r {
                Some(v) => env_get_m(self.model(), name@) == Some(v.model()),
                None => env_get_m(self.model(), name@) is None,
            },
        decreases *self,
    {
        let key = name.to_owned();
        proof {
            let outer_m = (match &self.outer {
                Some(o) => o.model(),
                None => Seq::<Map<Seq<char>, ValM>>::empty(),
            });
            assert(self.model() == outer_m.push(scope_model(self.state@)));
            assert(self.model().last() == scope_model(self.state@));
            assert(self.model().drop_last() =~= outer_m);
        }
        match self.scope_find(&key) {
            Some(i) => {
                proof {
                    lemma_scope_found(self.state@, name@, i as int);
                }
                Some(self.state[i].1.duplicate())
            },
            None => {
                proof {
                    lemma_scope_absent(self.state@, name@);
                }
                match &self.outer {
                    Some(o) => {
                        let r = o.get(name);
                        proof {
                            assert(env_get_m(self.model(), name@) == env_get_m(o.model(), name@));
                        }
                        r
                    },
                    None => {
                        proof {
                            assert(env_get_m(self.model(), name@) == env_get_m(
                                Seq::<Map<Seq<char>, ValM>>::empty(),
                                name@,
                            ));
                            assert(env_get_m(Seq::<Map<Seq<char>, ValM>>::empty(), name@) is None);
                        }
                        None
                    },
                }
            },
        }
    }

    /// Bind `name` in the innermost scope, shadowing any outer binding.
    pub fn set(&mut self, name: &str, object: ChaiObject)
        ensures
            final(self).model() == env_set_m(old(self).model(), name@, object.model()),
    {
        let ghost old_env = self.model();
        let ghost pm = object.model();
        self.state.push((name.to_owned(), object));
        proof {
            let outer_m = (match &self.outer {
                Some(o) => o.model(),
                None => Seq::<Map<Seq<char>, ValM>>::empty(),
            });
            assert(self.outer == old(self).outer);
            assert(self.model() == outer_m.push(scope_model(self.state@)));
            assert(old_env == outer_m.push(scope_model(old(self).state@)));
            assert(self.state@.drop_last() =~= old(self).state@);
            assert(self.state@.last().0@ == name@);
            assert(self.state@.last().1.model() == pm);
            assert(scope_model(self.state@) == scope_model(old(self).state@).insert(name@, pm));
            assert(self.model() =~~= env_set_m(old_env, name@, pm));
        }
    }

    /// Reassignment: write `object` over the innermost existing binding of
    /// `name`, wherever in the chain it lives. Comes back `false`, leaving
    /// the chain unchanged, when no scope binds the name.
    pub fn assign(&mut self, name: &str, object: ChaiObject) -> (r: bool)
        ensures
            r == env_contains(old(self).model(), name@),
            final(self).model() == if r {
                env_assign_m(old(self).model(), name@, object.model())
            } else {
                old(self).model()
            },
        decreases *old(self),
    {
        let ghost old_env = self.model();
        let ghost pm = object.model();
        proof {
            let outer_m = (match &self.outer {
                Some(o) => o.model(),
                None => Seq::<Map<Seq<char>, ValM>>::empty(),
            });
            assert(old_env == outer_m.push(scope_model(self.state@)));
            assert(old_env.last() == scope_model(self.state@));
            assert(old_env.drop_last() =~= outer_m);
        }
        let key = name.to_owned();
        match self.scope_find(&key) {
            Some(i) => {
                proof {
                    lemma_scope_found(self.state@, name@, i as int);
                }
                self.state.push((key, object));
                proof {
                    let outer_m = (match &self.outer {
                        Some(o) => o.model(),
                        None => Seq::<Map<Seq<char>, ValM>>::empty(),
                    });
                    assert(self.outer == old(self).outer);
                    assert(self.model() == outer_m.push(scope_model(self.state@)));
                    assert(self.state@.drop_last() =~= old(self).state@);
                    assert(self.state@.last().0@ == name@);
                    assert(self.state@.last().1.model() == pm);
                    assert(scope_model(self.state@) == scope_model(old(self).state@).insert(
                        name@,
                        pm,
                    ));
                    assert(self.model() =~~= env_assign_m(old_env, name@, pm));
                }
                true
            },
            None => {
                proof {
                    lemma_scope_absent(self.state@, name@);
                }
                let mut taken: Option<Box<Enviornment>> = None;
                core::mem::swap(&mut self.outer, &mut taken);
                match taken {
                    Some(mut o) => {
                        let found = o.assign(name, object);
                        self.outer = Some(o);
                        proof {
                            let outer_now = (match &self.outer {
                                Some(oo) => oo.model(),
                                None => Seq::<Map<Seq<char>, ValM>>::empty(),
                            });
                            assert(self.state == old(self).state);
                            assert(self.model() == outer_now.push(scope_model(self.state@)));
                            if found {
                                assert(outer_now == env_assign_m(old_env.drop_last(), name@, pm));
                                assert(self.model() =~~= env_assign_m(old_env, name@, pm));
                            } else {
                                assert(outer_now == old_env.drop_last());
                                assert(self.model() =~~= old_env);
                            }
                        }
                        found
                    },
                    None => {
                        proof {
                            let outer_now = (match &self.outer {
                                Some(oo) => oo.model(),
                                None => Seq::<Map<Seq<char>, ValM>>::empty(),
                            });
                            assert(self.model() == outer_now.push(scope_model(self.state@)));
                            assert(env_get_m(old_env, name@) == env_get_m(
                                Seq::<Map<Seq<char>, ValM>>::empty(),
                                name@,
                            ));
                            assert(env_get_m(Seq::<Map<Seq<char>, ValM>>::empty(), name@) is None);
                            assert(self.model() =~~= old_env);
                        }
                        false
                    },
                }
            },
        }
    }

    /// A structural copy: the copy has the same model as the original.
    pub fn duplicate(&self) -> (r: Enviornment)
        ensures
            r.model() == self.model(),
        decreases *self,
    {
        let mut state: Vec<(String, ChaiObject)> = Vec::new();
        let n = self.state.len();
        let mut i: usize = 0;
        while i < n
            invariant
                n == self.state@.len(),
                i <= n,
                state@.len() == i,
                forall|j: int|
                    0 <= j < i ==> (#[trigger] state@[j]).0@ == self.state@[j].0@ && state@[j].1.model()
                        == self.state@[j].1.model(),
            decreases n - i,
        {
            let entry = (self.state[i].0.clone(), self.state[i].1.duplicate());
            state.push(entry);
            i = i + 1;
        }
        proof {
            lemma_scope_model_congruent(state@, self.state@);
        }
        let outer = match &self.outer {
            Some(o) => Some(Box::new(o.duplicate())),
            None => None,
        };
        let r = Enviornment { state, outer };
        proof {
            let outer_m = (match &self.outer {
                Some(o) => o.model(),
                None => Seq::<Map<Seq<char>, ValM>>::empty(),
            });
            assert(self.model() == outer_m.push(scope_model(self.state@)));
            assert(r.model() == outer_m.push(scope_model(r.state@)));
        }
        r
    }
}

} // verus!
