//! Qualifiers, local environments and the readonly-dominant join.
use vstd::prelude::*;

verus! {

/// The two-valued qualifier of an expression or of a local binding.
#[derive(Clone, Copy, Debug, PartialEq, Eq, Structural)]
pub enum Rty {
    Readonly,
    Mutable,
}

/// The abstract environment: variable name to qualifier.
pub type EnvModel = Map<Seq<char>, Rty>;

/// Qualifier of `name` in `m`: its binding, or `Mutable` when unbound.
pub open spec fn lookup(m: EnvModel, name: Seq<char>) -> Rty {
    if m.contains_key(name) {
        m[name]
    } else {
        Rty::Mutable
    }
}

/// Readonly-dominant join: a name bound on either side is bound in the result,
/// `Readonly` if it is `Readonly` on either side, `Mutable` otherwise.
pub open spec fn join(a: EnvModel, b: EnvModel) -> EnvModel {
    Map::new(
        |k: Seq<char>| a.contains_key(k) || b.contains_key(k),
        |k: Seq<char>|
            if (a.contains_key(k) && a[k] == Rty::Readonly) || (b.contains_key(k) && b[k]
                == Rty::Readonly) {
                Rty::Readonly
            } else {
                Rty::Mutable
            },
    )
}

/// A local environment: distinct names, each with its qualifier.
pub struct Lenv {
    names: Vec<String>,
    rtys: Vec<Rty>,
    model: Ghost<EnvModel>,
}

impl View for Lenv {
    type V = EnvModel;

    closed spec fn view(&self) -> EnvModel {
        self.model@
    }
}

impl Lenv {
    /// Names are distinct and agree with the model, entry by entry.
    pub closed spec fn wf(&self) -> bool {
        &&& self.names.len() == self.rtys.len()
        &&& forall|i: int, j: int|
            0 <= i < j < self.names.len() ==> #[trigger] self.names[i]@ != #[trigger] self.names[j]@
        &&& forall|i: int|
            0 <= i < self.names.len() ==> #[trigger] self.model@.contains_key(self.names[i]@)
                && self.model@[self.names[i]@] == self.rtys[i]
        &&& forall|k: Seq<char>|
            #[trigger] self.model@.contains_key(k) ==> exists|i: int|
                0 <= i < self.names.len() && #[trigger] self.names[i]@ == k
    }

    /// An environment that binds nothing.
    pub fn new() -> (r: Lenv)
        ensures
            r.wf(),
            r@ == Map::<Seq<char>, Rty>::empty(),
    {
        Lenv { names: Vec::new(), rtys: Vec::new(), model: Ghost(Map::empty()) }
    }

    /// Index of `name` among the bound names, if it is bound.
    fn find(&self, name: &String) -> (r: Option<usize>)
        requires
            self.wf(),
        ensures
            r matches Some(i) ==> i < self.names.len() && self.names[i as int]@ == name@,
            r is None ==> !self@.contains_key(name@),
    {
        let mut i: usize = 0;
        while i < self.names.len()
            invariant
                i <= self.names.len(),
                forall|j: int| 0 <= j < i ==> self.names[j]@ != name@,
            decreases self.names.len() - i,
        {
            if self.names[i] == *name {
                return Some(i);
            }
            i = i + 1;
        }
        None
    }

    /// Qualifier bound to `name`, `Mutable` when unbound.
    pub fn get(&self, name: &String) -> (r: Rty)
        requires
            self.wf(),
        ensures
            r == lookup(self@, name@),
    {
        match self.find(name) {
            Some(i) => self.rtys[i],
            None => Rty::Mutable,
        }
    }

    /// Binds `name` to `rty`, replacing any earlier binding.
    pub fn insert(&mut self, name: &String, rty: Rty)
        requires
            old(self).wf(),
        ensures
            final(self).wf(),
            final(self)@ == old(self)@.insert(name@, rty),
    {
        let found = self.find(name);
        let ghost idx: int;
        match found {
            Some(i) => {
                self.rtys.set(i, rty);
                proof {
                    idx = i as int;
                }
            },
            None => {
                self.names.push(name.clone());
                self.rtys.push(rty);
                proof {
                    idx = self.names.len() - 1;
                    assert forall|j: int| 0 <= j < idx implies self.names[j]@ != name@ by {
                        assert(old(self).model@.contains_key(old(self).names[j]@));
                    }
                }
            },
        }
        proof {
            self.model@ = self.model@.insert(name@, rty);
            let n = self.names.len() as int;
            assert(self.names[idx]@ == name@);
            assert forall|i: int| 0 <= i < n implies #[trigger] self.model@.contains_key(
                self.names[i]@) && self.model@[self.names[i]@] == self.rtys[i] by {
                if i != idx {
                    assert(old(self).names[i]@ == self.names[i]@);
                    assert(old(self).rtys[i] == self.rtys[i]);
                    if i < idx {
                        assert(self.names[i]@ != self.names[idx]@);
                    } else {
                        assert(self.names[idx]@ != self.names[i]@);
                    }
                }
            }
            assert forall|k: Seq<char>| #[trigger] self.model@.contains_key(k) implies exists|i: int|
                0 <= i < n && #[trigger] self.names[i]@ == k by {
                if k != name@ {
                    assert(old(self).model@.contains_key(k));
                    let w = choose|i: int|
                        0 <= i < old(self).names.len() && #[trigger] old(self).names[i]@ == k;
                    assert(self.names[w]@ == k);
                }
            }
        }
    }
}

impl Lenv {
    /// An independent copy of this environment.
    pub fn copy(&self) -> (r: Lenv)
        requires
            self.wf(),
        ensures
            r.wf(),
            r@ == self@,
    {
        let mut names: Vec<String> = Vec::new();
        let mut rtys: Vec<Rty> = Vec::new();
        let mut i: usize = 0;
        while i < self.names.len()
            invariant
                self.wf(),
                i <= self.names.len(),
                names.len() == i,
                rtys.len() == i,
                forall|j: int| 0 <= j < i ==> #[trigger] names[j]@ == self.names[j]@,
                forall|j: int| 0 <= j < i ==> #[trigger] rtys[j] == self.rtys[j],
            decreases self.names.len() - i,
        {
            let name: String = self.names[i].clone();
            assert(name@ == self.names[i as int]@);
            names.push(name);
            rtys.push(self.rtys[i]);
            assert(names[i as int]@ == self.names[i as int]@);
            i = i + 1;
        }
        let r = Lenv { names, rtys, model: Ghost(self.model@) };
        proof {
            assert forall|k: Seq<char>| #[trigger] r.model@.contains_key(k) implies exists|j: int|
                0 <= j < r.names.len() && #[trigger] r.names[j]@ == k by {
                let w = choose|j: int| 0 <= j < self.names.len() && #[trigger] self.names[j]@ == k;
                assert(r.names[w]@ == k);
            }
            assert forall|a: int, b: int| 0 <= a < b < r.names.len() implies #[trigger] r.names[a]@
                != #[trigger] r.names[b]@ by {
                assert(self.names[a]@ != self.names[b]@);
            }
        }
        r
    }
}

/// Joins the environments of two control-flow paths: a name keeps `Readonly`
/// if it is `Readonly` on either path.
pub fn merge_lenvs(lenv1: &Lenv, lenv2: &Lenv) -> (r: Lenv)
    requires
        lenv1.wf(),
        lenv2.wf(),
    ensures
        r.wf(),
        r@ == join(lenv1@, lenv2@),
{
    let mut r = lenv1.copy();
    let ghost mut seen: Set<Seq<char>> = Set::empty();
    let mut j: usize = 0;
    while j < lenv2.names.len()
        invariant
            lenv2.wf(),
            r.wf(),
            j <= lenv2.names.len(),
            forall|k: Seq<char>| #[trigger] seen.contains(k) ==> lenv2@.contains_key(k),
            forall|i: int| 0 <= i < j ==> #[trigger] seen.contains(lenv2.names[i]@),
            r@ == join(lenv1@, lenv2@.restrict(seen)),
        decreases lenv2.names.len() - j,
    {
        let ghost k = lenv2.names[j as int]@;
        let ghost pre = r@;
        if r.get(&lenv2.names[j]) == Rty::Mutable {
            r.insert(&lenv2.names[j], lenv2.rtys[j]);
        }
        proof {
            seen = seen.insert(k);
            assert(r@ =~= join(lenv1@, lenv2@.restrict(seen)));
        }
        j = j + 1;
    }
    proof {
        assert forall|k: Seq<char>| lenv2@.contains_key(k) implies seen.contains(k) by {
            let w = choose|i: int| 0 <= i < lenv2.names.len() && #[trigger] lenv2.names[i]@ == k;
            assert(seen.contains(lenv2.names[w]@));
        }
        assert(lenv2@.restrict(seen) =~= lenv2@);
    }
    r
}

/// The analysis state of one declaration: its local environment and the
/// qualifiers it declares for its result and for `$this`.
pub struct Context {
    pub locals: Lenv,
    pub readonly_return: Rty,
    pub this_ty: Rty,
}

impl Context {
    pub open spec fn wf(&self) -> bool {
        self.locals.wf()
    }

    /// A context with an empty environment.
    pub fn new(readonly_ret: Rty, this_ty: Rty) -> (r: Context)
        ensures
            r.wf(),
            r.locals@ == Map::<Seq<char>, Rty>::empty(),
            r.readonly_return == readonly_ret,
            r.this_ty == this_ty,
    {
        Context { locals: Lenv::new(), readonly_return: readonly_ret, this_ty }
    }

    /// Binds `var_name` to `rty`, replacing any earlier binding.
    pub fn add_local(&mut self, var_name: &String, rty: Rty)
        requires
            old(self).wf(),
        ensures
            final(self).wf(),
            final(self).locals@ == old(self).locals@.insert(var_name@, rty),
            final(self).readonly_return == old(self).readonly_return,
            final(self).this_ty == old(self).this_ty,
    {
        self.locals.insert(var_name, rty);
    }

    /// Qualifier of `var_name`: its binding, or `Mutable` when unbound.
    pub fn get_rty(&self, var_name: &String) -> (r: Rty)
        requires
            self.wf(),
        ensures
            r == lookup(self.locals@, var_name@),
    {
        self.locals.get(var_name)
    }
}

/// A name that the environment does not bind reads as `Mutable`.
pub proof fn lemma_unbound_is_mutable(m: EnvModel, name: Seq<char>)
    requires
        !m.contains_key(name),
    ensures
        lookup(m, name) == Rty::Mutable,
{
}

/// The join does not depend on the order of its two environments.
pub proof fn lemma_join_commutes(a: EnvModel, b: EnvModel)
    ensures
        join(a, b) == join(b, a),
{
    assert(join(a, b) =~= join(b, a));
}

/// Joining an environment with itself gives it back.
pub proof fn lemma_join_idempotent(a: EnvModel)
    ensures
        join(a, a) == a,
{
    assert(join(a, a) =~= a);
}

/// A name that is `Readonly` in either environment is `Readonly` in their join.
pub proof fn lemma_join_keeps_readonly(a: EnvModel, b: EnvModel, name: Seq<char>)
    requires
        lookup(a, name) == Rty::Readonly || lookup(b, name) == Rty::Readonly,
    ensures
        join(a, b).contains_key(name),
        lookup(join(a, b), name) == Rty::Readonly,
{
}

} // verus!
