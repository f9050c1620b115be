//! Types, substitutions and unification.
use std::collections::BTreeMap;
use vstd::prelude::*;
use vstd::string::StringExecFns;

verus! {

/// Identifier of a type variable.
pub type ID = u64;

/// A substitution from type variables to types.
pub type Sbst = BTreeMap<ID, Type>;

#[derive(Debug)]
pub enum Type {
    TCon(Tycon),
    TVar(ID),
}

#[derive(Debug)]
pub struct Tycon {
    pub id: String,
    pub args: Vec<Type>,
}

/// Mathematical model of a type: a constructor name with arguments, or a variable.
pub enum SType {
    Con(Seq<char>, Seq<SType>),
    Var(ID),
}

/// The model of a type: type variables and constructors applied to the models of their arguments.
pub open spec fn view_type(t: Type) -> SType
    decreases t,
{
    match t {
        Type::TVar(n) => SType::Var(n),
        Type::TCon(tc) => SType::Con(tc.id@, Seq::new(tc.args@.len(), |i: int| if 0 <= i < tc.args@.len() { view_type(tc.args@[i]) } else { SType::Var(0) })),
    }
}

impl View for Type {
    type V = SType;

    open spec fn view(&self) -> SType {
        view_type(*self)
    }
}

impl View for Tycon {
    type V = SType;

    open spec fn view(&self) -> SType {
        view_type(Type::TCon(*self))
    }
}

/// The type variables that occur in a type.
pub open spec fn vars(t: SType) -> Set<ID>
    decreases t, 0nat,
{
    match t {
        SType::Var(n) => set![n],
        SType::Con(_, args) => vars_list(args, args.len()),
    }
}

/// The type variables that occur in the first `n` types of `args`.
pub open spec fn vars_list(args: Seq<SType>, n: nat) -> Set<ID>
    decreases args, n,
{
    if n == 0 || n > args.len() {
        Set::empty()
    } else {
        vars_list(args, (n - 1) as nat).union(vars(args[n - 1]))
    }
}

/// Number of constructors and variables in a type.
pub open spec fn size(t: SType) -> nat
    decreases t, 0nat,
{
    match t {
        SType::Var(_) => 1,
        SType::Con(_, args) => 1 + size_list(args, args.len()),
    }
}

pub open spec fn size_list(args: Seq<SType>, n: nat) -> nat
    decreases args, n,
{
    if n == 0 || n > args.len() {
        0
    } else {
        size_list(args, (n - 1) as nat) + size(args[n - 1])
    }
}

/// The result of replacing each variable of `t` in the domain of `s` by its image.
pub open spec fn apply(t: SType, s: Map<ID, SType>) -> SType
    decreases t,
{
    match t {
        SType::Var(n) => if s.contains_key(n) { s[n] } else { t },
        SType::Con(id, args) => SType::Con(id, Seq::new(args.len(), |i: int| if 0 <= i < args.len() { apply(args[i], s) } else { SType::Var(0) })),
    }
}

/// The substitution that first applies `s2`, then `s1`.
pub open spec fn composed(s1: Map<ID, SType>, s2: Map<ID, SType>) -> Map<ID, SType> {
    Map::new(
        |x: ID| s2.contains_key(x) || s1.contains_key(x),
        |x: ID| if s2.contains_key(x) { apply(s2[x], s1) } else { s1[x] },
    )
}

/// The model of an executable substitution.
pub open spec fn sbst_view(s: Map<ID, Type>) -> Map<ID, SType> {
    s.map_values(|t: Type| t@)
}

/// Law: applying a composed substitution is applying its parts in turn.
pub proof fn lemma_apply_compose(t: SType, s1: Map<ID, SType>, s2: Map<ID, SType>)
    ensures
        apply(t, composed(s1, s2)) == apply(apply(t, s2), s1),
    decreases t,
{
    match t {
        SType::Var(n) => {},
        SType::Con(id, args) => {
            let l = apply(t, composed(s1, s2));
            let r = apply(apply(t, s2), s1);
            assert forall|i: int| 0 <= i < args.len() implies apply(args[i], composed(s1, s2)) == apply(apply(args[i], s2), s1) by {
                lemma_apply_compose(args[i], s1, s2);
            }
            assert(l->Con_1 =~= r->Con_1);
        },
    }
}

impl Clone for Type {
    fn clone(&self) -> (r: Self)
        ensures
            r@ == self@,
        decreases self,
    {
        match self {
            Type::TVar(n) => Type::TVar(*n),
            Type::TCon(tc) => {
                let mut v: Vec<Type> = Vec::new();
                let mut i: usize = 0;
                while i < tc.args.len()
                    invariant
                        *self == Type::TCon(*tc),
                        0 <= i <= tc.args@.len(),
                        v@.len() == i,
                        forall|j: int| 0 <= j < i ==> (#[trigger] v@[j])@ == tc.args@[j]@,
                    decreases tc.args@.len() - i,
                {
                    proof {
                        assert(decreases_to!(*self => (*self)->TCon_0));
                        assert(decreases_to!((*self)->TCon_0 => (*self)->TCon_0.args));
                        assert(decreases_to!((*self)->TCon_0.args => (*self)->TCon_0.args@));
                        assert(decreases_to!((*self)->TCon_0.args@ => (*self)->TCon_0.args@[i as int]));
                    }
                    let c = tc.args[i].clone();
                    v.push(c);
                    i += 1;
                }
                let r = Type::TCon(Tycon { id: tc.id.clone(), args: v });
                assert(r@->Con_1 =~= self@->Con_1);
                r
            },
        }
    }
}


/// Every image of `s` avoids the variables that `s` replaces, and `s` only touches `vs`.
pub open spec fn idem_within(s: Map<ID, SType>, vs: Set<ID>) -> bool {
    &&& s.dom().finite()
    &&& s.dom().subset_of(vs)
    &&& forall|y: ID| #[trigger] s.contains_key(y) ==> vars(s[y]).subset_of(vs.difference(s.dom()))
}

pub proof fn lemma_vars_list_contains(args: Seq<SType>, n: nat, x: ID)
    requires
        n <= args.len(),
    ensures
        vars_list(args, n).contains(x) <==> exists|j: int| 0 <= j < n && (#[trigger] vars(args[j])).contains(x),
    decreases n,
{
    if n > 0 {
        lemma_vars_list_contains(args, (n - 1) as nat, x);
        if vars(args[n - 1]).contains(x) {
            assert(0 <= n - 1 < n && vars(args[n - 1]).contains(x));
        }
    }
}

pub proof fn lemma_vars_finite(t: SType)
    ensures
        vars(t).finite(),
    decreases t, 0nat,
{
    match t {
        SType::Var(_) => {},
        SType::Con(_, args) => lemma_vars_list_finite(args, args.len()),
    }
}

pub proof fn lemma_vars_list_finite(args: Seq<SType>, n: nat)
    ensures
        vars_list(args, n).finite(),
    decreases args, n,
{
    if n == 0 || n > args.len() {
    } else {
        lemma_vars_list_finite(args, (n - 1) as nat);
        lemma_vars_finite(args[n - 1]);
    }
}

pub proof fn lemma_size_list_arg(args: Seq<SType>, n: nat, j: int)
    requires
        n <= args.len(),
        0 <= j < n,
    ensures
        size(args[j]) <= size_list(args, n),
    decreases n,
{
    if j < n - 1 {
        lemma_size_list_arg(args, (n - 1) as nat, j);
    }
}

/// The variables of an argument are variables of the whole type.
pub proof fn lemma_vars_arg(id: Seq<char>, args: Seq<SType>, j: int)
    requires
        0 <= j < args.len(),
    ensures
        vars(args[j]).subset_of(vars(SType::Con(id, args))),
        size(args[j]) < size(SType::Con(id, args)),
{
    assert forall|x: ID| vars(args[j]).contains(x) implies vars(SType::Con(id, args)).contains(x) by {
        lemma_vars_list_contains(args, args.len(), x);
    }
    lemma_size_list_arg(args, args.len(), j);
}

/// Applying `s` leaves the variables of `t` outside the domain of `s`, and adds only
/// variables from the images of `s`.
pub proof fn lemma_vars_apply(t: SType, s: Map<ID, SType>, w: Set<ID>)
    requires
        forall|y: ID| #[trigger] s.contains_key(y) ==> vars(s[y]).subset_of(w),
    ensures
        vars(apply(t, s)).subset_of(vars(t).difference(s.dom()).union(w)),
    decreases t,
{
    match t {
        SType::Var(n) => {},
        SType::Con(id, args) => {
            let at = apply(t, s);
            let aargs = at->Con_1;
            assert forall|x: ID| vars(at).contains(x) implies vars(t).difference(s.dom()).union(w).contains(x) by {
                lemma_vars_list_contains(aargs, aargs.len(), x);
                let j = choose|j: int| 0 <= j < aargs.len() && (#[trigger] vars(aargs[j])).contains(x);
                lemma_vars_apply(args[j], s, w);
                lemma_vars_arg(id, args, j);
            }
        },
    }
}

/// A substitution that touches no variable of `t` leaves `t` unchanged.
pub proof fn lemma_apply_untouched(t: SType, s: Map<ID, SType>)
    requires
        vars(t).disjoint(s.dom()),
    ensures
        apply(t, s) == t,
    decreases t,
{
    match t {
        SType::Var(n) => {
            assert(vars(t).contains(n));
        },
        SType::Con(id, args) => {
            assert forall|j: int| 0 <= j < args.len() implies apply(args[j], s) == args[j] by {
                lemma_vars_arg(id, args, j);
                lemma_apply_untouched(args[j], s);
            }
            assert(apply(t, s)->Con_1 =~= args);
        },
    }
}

impl Type {
    /// Whether type variable `id` occurs in this type.
    pub fn has_tvar(&self, id: ID) -> (r: bool)
        ensures
            r == vars(self@).contains(id),
        decreases self,
    {
        match self {
            Type::TVar(n) => {
                assert(vars(self@) == set![*n]);
                id == *n
            },
            Type::TCon(tc) => {
                proof {
                    assert(decreases_to!(*self => (*self)->TCon_0));
                }
                tc.has_tvar(id)
            },
        }
    }

    /// This type with the substitution applied.
    pub fn apply_sbst(&self, sbst: &Sbst) -> (r: Type)
        ensures
            r@ == apply(self@, sbst_view(sbst@)),
        decreases self,
    {
        match self {
            Type::TVar(n) => {
                match sbst.get(n) {
                    Some(t) => {
                        assert(sbst_view(sbst@).contains_key(*n));
                        t.clone()
                    },
                    None => {
                        assert(!sbst_view(sbst@).contains_key(*n));
                        self.clone()
                    },
                }
            },
            Type::TCon(tc) => {
                proof {
                    assert(decreases_to!(*self => (*self)->TCon_0));
                }
                tc.apply_sbst(sbst)
            },
        }
    }
}

impl Tycon {
    /// Whether type variable `id` occurs in an argument.
    pub fn has_tvar(&self, id: ID) -> (r: bool)
        ensures
            r == vars(self@).contains(id),
        decreases self,
    {
        let ghost args = self@->Con_1;
        let mut i: usize = 0;
        while i < self.args.len()
            invariant
                0 <= i <= self.args@.len(),
                args == self@->Con_1,
                !vars_list(args, i as nat).contains(id),
            decreases self.args@.len() - i,
        {
            proof {
                assert(decreases_to!(*self => self.args));
                assert(decreases_to!(self.args => self.args@));
                assert(decreases_to!(self.args@ => self.args@[i as int]));
            }
            if self.args[i].has_tvar(id) {
                proof {
                    lemma_vars_list_contains(args, args.len(), id);
                    assert(vars(args[i as int]).contains(id));
                }
                return true;
            }
            i += 1;
        }
        true && false
    }

    /// This type constructor with the substitution applied to its arguments.
    pub fn apply_sbst(&self, sbst: &Sbst) -> (r: Type)
        ensures
            r@ == apply(self@, sbst_view(sbst@)),
        decreases self,
    {
        let mut v: Vec<Type> = Vec::new();
        let mut i: usize = 0;
        while i < self.args.len()
            invariant
                0 <= i <= self.args@.len(),
                v@.len() == i,
                forall|j: int| 0 <= j < i ==> (#[trigger] v@[j])@ == apply(self.args@[j]@, sbst_view(sbst@)),
            decreases self.args@.len() - i,
        {
            proof {
                assert(decreases_to!(*self => self.args));
                assert(decreases_to!(self.args => self.args@));
                assert(decreases_to!(self.args@ => self.args@[i as int]));
            }
            let t = self.args[i].apply_sbst(sbst);
            v.push(t);
            i += 1;
        }
        let r = Type::TCon(Tycon { id: self.id.clone(), args: v });
        assert(r@->Con_1 =~= apply(self@, sbst_view(sbst@))->Con_1);
        r
    }
}


/// - S: substitution
/// - x: type variable
/// - T: type
///
/// S := x : T, S
///
/// S1・S2
/// compose(S1, S2) = {
///   x : T.apply_sbst(S1) if x : T in S2
///   x : T                if x : T in S1 and x not in domain(S2)
/// }
pub fn compose(s1: &Sbst, s2: &Sbst) -> (r: Sbst)
    ensures
        sbst_view(r@) == composed(sbst_view(s1@), sbst_view(s2@)),
{
    let mut sbst: Sbst = BTreeMap::new();
    for kv in it: s2.iter()
        invariant
            forall|k: ID| #[trigger] sbst@.contains_key(k) ==> s2@.contains_key(k) && sbst@[k]@ == apply(s2@[k]@, sbst_view(s1@)),
            forall|k: ID| #[trigger] s2@.contains_key(k) ==> sbst@.contains_key(k) || exists|j: int| it.index() <= j < it.seq().len() && *it.seq()[j].0 == k,
    {
        let (x, t) = kv;
        let t1 = t.apply_sbst(s1);
        sbst.insert(*x, t1);
    }
    for kv in it2: s1.iter()
        invariant
            forall|k: ID| #[trigger] sbst@.contains_key(k) ==> s2@.contains_key(k) || s1@.contains_key(k),
            forall|k: ID| #[trigger] s2@.contains_key(k) ==> sbst@.contains_key(k) && sbst@[k]@ == apply(s2@[k]@, sbst_view(s1@)),
            forall|k: ID| #[trigger] sbst@.contains_key(k) && !s2@.contains_key(k) ==> sbst@[k]@ == s1@[k]@,
            forall|k: ID| #[trigger] s1@.contains_key(k) ==> sbst@.contains_key(k) || exists|j: int| it2.index() <= j < it2.seq().len() && *it2.seq()[j].0 == k,
    {
        let (x, t) = kv;
        if !sbst.contains_key(x) {
            let t1 = t.clone();
            sbst.insert(*x, t1);
        }
    }
    assert(sbst_view(sbst@) =~= composed(sbst_view(s1@), sbst_view(s2@)));
    sbst
}


/// `s` makes `a` and `b` equal.
pub open spec fn unifies(s: Map<ID, SType>, a: SType, b: SType) -> bool {
    apply(a, s) == apply(b, s)
}

/// Composing a substitution that works on what `s` left over keeps the composition
/// within the same variables.
pub proof fn lemma_compose_idem(u: Map<ID, SType>, s: Map<ID, SType>, vs: Set<ID>, vs2: Set<ID>)
    requires
        idem_within(s, vs),
        idem_within(u, vs2),
        vs2.subset_of(vs.difference(s.dom())),
    ensures
        idem_within(composed(u, s), vs),
{
    let c = composed(u, s);
    assert(c.dom() =~= s.dom().union(u.dom()));
    assert forall|y: ID| #[trigger] c.contains_key(y) implies vars(c[y]).subset_of(vs.difference(c.dom())) by {
        if s.contains_key(y) {
            lemma_vars_apply(s[y], u, vs2.difference(u.dom()));
        }
    }
}

/// `th` factors through `s`: applying `s` first and then `th` is the same as applying `th`.
pub open spec fn instance_of(th: Map<ID, SType>, s: Map<ID, SType>) -> bool {
    forall|x: ID| #[trigger] s.contains_key(x) ==> apply(s[x], th) == apply(SType::Var(x), th)
}

pub proof fn lemma_instance_apply(t: SType, th: Map<ID, SType>, s: Map<ID, SType>)
    requires
        instance_of(th, s),
    ensures
        apply(apply(t, s), th) == apply(t, th),
    decreases t,
{
    match t {
        SType::Var(x) => {},
        SType::Con(id, args) => {
            assert forall|j: int| 0 <= j < args.len() implies apply(apply(args[j], s), th) == apply(args[j], th) by {
                lemma_instance_apply(args[j], th, s);
            }
            assert(apply(apply(t, s), th)->Con_1 =~= apply(t, th)->Con_1);
        },
    }
}

/// A type grows at least as large as any of its variables under a substitution,
/// and strictly larger when it is not that variable.
pub proof fn lemma_size_apply_var(t: SType, th: Map<ID, SType>, x: ID)
    requires
        vars(t).contains(x),
    ensures
        size(apply(t, th)) >= size(apply(SType::Var(x), th)),
        t is Con ==> size(apply(t, th)) > size(apply(SType::Var(x), th)),
    decreases t,
{
    match t {
        SType::Var(n) => {
            assert(vars(t) == set![n]);
        },
        SType::Con(id, args) => {
            lemma_vars_list_contains(args, args.len(), x);
            let j = choose|j: int| 0 <= j < args.len() && (#[trigger] vars(args[j])).contains(x);
            lemma_size_apply_var(args[j], th, x);
            let at = apply(t, th);
            lemma_size_list_arg(at->Con_1, at->Con_1.len(), j);
        },
    }
}

/// A unifier of `lhs` and `rhs`, if they have one.
pub fn unify(lhs: &Type, rhs: &Type) -> (r: Option<Sbst>)
    ensures
        r matches Some(s) ==> unifies(sbst_view(s@), lhs@, rhs@),
        r matches Some(s) ==> idem_within(sbst_view(s@), vars(lhs@).union(vars(rhs@))),
        forall|th: Map<ID, SType>| #[trigger] unifies(th, lhs@, rhs@) ==> r is Some && instance_of(th, sbst_view(r->Some_0@)),
        lhs@ == rhs@ ==> (r matches Some(s) && sbst_view(s@) == Map::<ID, SType>::empty()),
    decreases vars(lhs@).union(vars(rhs@)).len(), size(lhs@) + size(rhs@),
{
    let mut sbst: Sbst = BTreeMap::new();
    let ghost vs = vars(lhs@).union(vars(rhs@));
    proof {
        lemma_vars_finite(lhs@);
        lemma_vars_finite(rhs@);
    }
    match (lhs, rhs) {
        (Type::TVar(id1), Type::TVar(id2)) => {
            if id1 != id2 {
                sbst.insert(*id1, rhs.clone());
                assert(sbst_view(sbst@) =~= map![*id1 => SType::Var(*id2)]);
                assert(vars(rhs@) == set![*id2]);
                assert(vars(lhs@) == set![*id1]);
            } else {
                assert(sbst_view(sbst@) =~= Map::empty());
            }
            Some(sbst)
        },
        (Type::TVar(id), _) => {
            if rhs.has_tvar(*id) {
                proof {
                    assert forall|th: Map<ID, SType>| !unifies(th, lhs@, rhs@) by {
                        lemma_size_apply_var(rhs@, th, *id);
                    }
                }
                return None;
            }
            sbst.insert(*id, rhs.clone());
            proof {
                let sv = sbst_view(sbst@);
                assert(sv =~= map![*id => rhs@]);
                assert(vars(lhs@) == set![*id]);
                lemma_apply_untouched(rhs@, sv);
            }
            Some(sbst)
        },
        (_, Type::TVar(id)) => {
            if lhs.has_tvar(*id) {
                proof {
                    assert forall|th: Map<ID, SType>| !unifies(th, lhs@, rhs@) by {
                        lemma_size_apply_var(lhs@, th, *id);
                    }
                }
                return None;
            }
            sbst.insert(*id, lhs.clone());
            proof {
                let sv = sbst_view(sbst@);
                assert(sv =~= map![*id => lhs@]);
                assert(vars(rhs@) == set![*id]);
                lemma_apply_untouched(lhs@, sv);
            }
            Some(sbst)
        },
        (Type::TCon(ty_lhs), Type::TCon(ty_rhs)) => {
            if ty_lhs.id != ty_rhs.id || ty_lhs.args.len() != ty_rhs.args.len() {
                proof {
                    assert forall|th: Map<ID, SType>| !unifies(th, lhs@, rhs@) by {
                        if unifies(th, lhs@, rhs@) {
                            assert(apply(lhs@, th)->Con_0 == apply(rhs@, th)->Con_0);
                            assert(apply(lhs@, th)->Con_1.len() == apply(rhs@, th)->Con_1.len());
                        }
                    }
                }
                return None;
            }
            let ghost largs = lhs@->Con_1;
            let ghost rargs = rhs@->Con_1;
            assert(sbst_view(sbst@) =~= Map::empty());
            let mut i: usize = 0;
            while i < ty_lhs.args.len()
                invariant
                    *lhs == Type::TCon(*ty_lhs),
                    *rhs == Type::TCon(*ty_rhs),
                    largs == lhs@->Con_1,
                    rargs == rhs@->Con_1,
                    ty_lhs.args@.len() == ty_rhs.args@.len(),
                    ty_lhs.id@ == ty_rhs.id@,
                    0 <= i <= ty_lhs.args@.len(),
                    vs == vars(lhs@).union(vars(rhs@)),
                    vs.finite(),
                    idem_within(sbst_view(sbst@), vs),
                    forall|j: int| 0 <= j < i ==> #[trigger] apply(largs[j], sbst_view(sbst@)) == apply(rargs[j], sbst_view(sbst@)),
                    forall|th: Map<ID, SType>| #[trigger] unifies(th, lhs@, rhs@) ==> instance_of(th, sbst_view(sbst@)),
                    lhs@ == rhs@ ==> sbst_view(sbst@) == Map::<ID, SType>::empty(),
                decreases ty_lhs.args@.len() - i,
            {
                let a = ty_lhs.args[i].apply_sbst(&sbst);
                let b = ty_rhs.args[i].apply_sbst(&sbst);
                let ghost sv = sbst_view(sbst@);
                let ghost vs2 = vars(a@).union(vars(b@));
                proof {
                    let w = vs.difference(sv.dom());
                    lemma_vars_arg(lhs@->Con_0, largs, i as int);
                    lemma_vars_arg(rhs@->Con_0, rargs, i as int);
                    lemma_vars_apply(largs[i as int], sv, w);
                    lemma_vars_apply(rargs[i as int], sv, w);
                    assert(vs2.subset_of(w));
                    lemma_vars_finite(a@);
                    lemma_vars_finite(b@);
                    if sv.dom().len() == 0 {
                        assert(sv.dom() =~= Set::empty());
                        lemma_apply_untouched(largs[i as int], sv);
                        lemma_apply_untouched(rargs[i as int], sv);
                        vstd::set_lib::lemma_len_subset(vs2, vs);
                    } else {
                        let y = sv.dom().choose();
                        assert(sv.dom().contains(y));
                        vstd::set_lib::lemma_len_subset(vs2, vs.remove(y));
                    }
                }
                proof {
                    assert forall|th: Map<ID, SType>| #[trigger] unifies(th, lhs@, rhs@) implies unifies(th, a@, b@) by {
                        assert(apply(lhs@, th)->Con_1[i as int] == apply(rhs@, th)->Con_1[i as int]);
                        lemma_instance_apply(largs[i as int], th, sv);
                        lemma_instance_apply(rargs[i as int], th, sv);
                    }
                }
                let s = match unify(&a, &b) {
                    Some(s) => s,
                    None => {
                        proof {
                            assert forall|th: Map<ID, SType>| !unifies(th, lhs@, rhs@) by {
                                if unifies(th, lhs@, rhs@) {
                                    assert(unifies(th, a@, b@));
                                }
                            }
                        }
                        return None;
                    },
                };
                let ghost u = sbst_view(s@);
                let ghost old_sbst = sbst@;
                proof {
                    if lhs@ == rhs@ {
                        assert(largs == rargs);
                        lemma_apply_untouched(largs[i as int], sv);
                        assert(a@ == b@);
                    }
                }
                sbst = compose(&s, &sbst);
                proof {
                    if lhs@ == rhs@ {
                        assert(sbst_view(sbst@) =~= Map::<ID, SType>::empty());
                    }
                    lemma_compose_idem(u, sv, vs, vs2);
                    assert forall|th: Map<ID, SType>| #[trigger] unifies(th, lhs@, rhs@) implies instance_of(th, sbst_view(sbst@)) by {
                        assert(unifies(th, a@, b@));
                        assert forall|x: ID| #[trigger] sbst_view(sbst@).contains_key(x) implies apply(sbst_view(sbst@)[x], th) == apply(SType::Var(x), th) by {
                            lemma_apply_compose(SType::Var(x), u, sv);
                            lemma_instance_apply(apply(SType::Var(x), sv), th, u);
                            lemma_instance_apply(SType::Var(x), th, sv);
                        }
                    }
                    assert forall|j: int| 0 <= j < i + 1 implies #[trigger] apply(largs[j], sbst_view(sbst@)) == apply(rargs[j], sbst_view(sbst@)) by {
                        lemma_apply_compose(largs[j], u, sv);
                        lemma_apply_compose(rargs[j], u, sv);
                    }
                }
                i += 1;
            }
            proof {
                let sv = sbst_view(sbst@);
                let al = apply(lhs@, sv);
                let ar = apply(rhs@, sv);
                assert(largs.len() == rargs.len());
                assert forall|j: int| 0 <= j < largs.len() implies al->Con_1[j] == ar->Con_1[j] by {
                    assert(apply(largs[j], sv) == apply(rargs[j], sv));
                }
                assert(al->Con_1 =~= ar->Con_1);
            }
            Some(sbst)
        },
    }
}


// ----- type constructors -----

pub open spec fn con0(name: Seq<char>) -> SType {
    SType::Con(name, Seq::empty())
}

pub open spec fn spec_ty_tuple(args: Seq<SType>) -> SType {
    SType::Con("Tuple"@, args)
}

pub open spec fn spec_ty_list(t: SType) -> SType {
    SType::Con("List"@, seq![t])
}

/// The type of functions with the given effect type, argument types and return type.
pub open spec fn spec_ty_fun(effect: SType, args: Seq<SType>, ret: SType) -> SType {
    SType::Con("->"@, seq![effect, spec_ty_tuple(args), ret])
}

pub open spec fn views(v: Seq<Type>) -> Seq<SType> {
    Seq::new(v.len(), |i: int| v[i]@)
}

fn string_of(s: &str) -> (r: String)
    ensures
        r@ == s@,
{
    <String as StringExecFns>::from_str(s)
}

pub fn ty_bool() -> (r: Type)
    ensures
        r@ == con0("Bool"@),
{
    let r = Type::TCon(Tycon { id: string_of("Bool"), args: Vec::new() });
    assert(r@->Con_1 =~= Seq::<SType>::empty());
    r
}

pub fn ty_int() -> (r: Type)
    ensures
        r@ == con0("Int"@),
{
    let r = Type::TCon(Tycon { id: string_of("Int"), args: Vec::new() });
    assert(r@->Con_1 =~= Seq::<SType>::empty());
    r
}

pub fn ty_var(n: ID) -> (r: Type)
    ensures
        r@ == SType::Var(n),
{
    Type::TVar(n)
}

pub fn ty_tuple(types: Vec<Type>) -> (r: Type)
    ensures
        r@ == spec_ty_tuple(views(types@)),
{
    let ghost v = types@;
    let r = Type::TCon(Tycon { id: string_of("Tuple"), args: types });
    assert(r@->Con_1 =~= views(v));
    r
}

pub fn ty_list(ty: Type) -> (r: Type)
    ensures
        r@ == spec_ty_list(ty@),
{
    let ghost t = ty@;
    let mut v: Vec<Type> = Vec::new();
    v.push(ty);
    let r = Type::TCon(Tycon { id: string_of("List"), args: v });
    assert(r@->Con_1 =~= seq![t]);
    r
}

/// The type of effect `pure`: `Pure` when true, `IO` otherwise.
pub open spec fn effect_type(pure: bool) -> SType {
    if pure { con0("Pure"@) } else { con0("IO"@) }
}

pub fn ty_fun_of(pure: bool, args: Vec<Type>, ret: Type) -> (r: Type)
    ensures
        r@ == spec_ty_fun(effect_type(pure), views(args@), ret@),
{
    let tuple = ty_tuple(args);
    let ty_effect = if pure {
        let t = Type::TCon(Tycon { id: string_of("Pure"), args: Vec::new() });
        assert(t@->Con_1 =~= Seq::<SType>::empty());
        t
    } else {
        let t = Type::TCon(Tycon { id: string_of("IO"), args: Vec::new() });
        assert(t@->Con_1 =~= Seq::<SType>::empty());
        t
    };
    let ghost (e, tu, rt) = (ty_effect@, tuple@, ret@);
    let mut v: Vec<Type> = Vec::new();
    v.push(ty_effect);
    v.push(tuple);
    v.push(ret);
    let r = Type::TCon(Tycon { id: string_of("->"), args: v });
    assert(r@->Con_1 =~= seq![e, tu, rt]);
    r
}

pub fn ty_fun_gen_effect(n: ID, args: Vec<Type>, ret: Type) -> (r: Type)
    ensures
        r@ == spec_ty_fun(SType::Var(n), views(args@), ret@),
{
    let tuple = ty_tuple(args);
    let ty_effect = ty_var(n);
    let ghost (e, tu, rt) = (ty_effect@, tuple@, ret@);
    let mut v: Vec<Type> = Vec::new();
    v.push(ty_effect);
    v.push(tuple);
    v.push(ret);
    let r = Type::TCon(Tycon { id: string_of("->"), args: v });
    assert(r@->Con_1 =~= seq![e, tu, rt]);
    r
}

} // verus!
