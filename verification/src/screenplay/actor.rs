//! Actors: named performers that hold abilities, at most one of each type.
use vstd::prelude::*;
use std::any::{Any, TypeId};
use super::ability::Ability;
use super::interaction::Interactions;

verus! {

#[verifier::external_type_specification]
#[verifier::external_body]
pub struct ExTypeId(TypeId);

/// An ability whose type has been erased, held as std's `Box<dyn Any>`.
/// Verus does not see into it: `dyn Any` names a std trait it has not
/// been told of.
#[verifier::external_body]
pub struct ErasedAbility {
    inner: Box<dyn Any>,
}

/// `TypeId::of::<A>()`: the identifier of the type `A`. Nothing is stated
/// of which identifier it is.
#[verifier::external_body]
fn type_key<A: 'static>() -> TypeId {
    TypeId::of::<A>()
}

/// `TypeId`'s `==`: two identifiers are equal exactly when they are the
/// same value.
#[verifier::external_body]
fn same_key(a: &TypeId, b: &TypeId) -> (r: bool)
    ensures
        r == (*a == *b),
{
    *a == *b
}

/// Whether `key` is `TypeId::of::<A>()`. As std documents, the identifier
/// of a type is one value: whatever `TypeId::of::<A>()` gives, the answer is
/// whether `key` is it.
#[verifier::external_body]
fn is_key_of<A: 'static>(key: &TypeId) -> (r: bool)
    ensures
        forall|j: TypeId| #[trigger] call_ensures(type_key::<A>, (), j) ==> (r == (*key == j)),
{
    *key == TypeId::of::<A>()
}

/// `Box::new(ability)`, as a `Box<dyn Any>`.
#[verifier::external_body]
fn erase<A: Ability>(ability: A) -> ErasedAbility {
    ErasedAbility { inner: Box::new(ability) }
}

/// `downcast_ref::<A>()` on the erased ability, which std documents as a
/// reference to the inner value if it is of type `A`, `None` if it is not:
/// when the erased ability was made from an `A`, the result is `Some` of
/// that very `A`, and `Some` only ever holds the `A` it was made from.
#[verifier::external_body]
fn downcast<A: Ability>(erased: &ErasedAbility) -> (r: Option<&A>)
    ensures
        (exists|a: A| #[trigger] call_ensures(erase::<A>, (a,), *erased)) ==> r is Some,
        forall|a: A| #[trigger] call_ensures(erase::<A>, (a,), *erased) ==> r == Some(&a),
        r matches Some(x) ==> call_ensures(erase::<A>, (*x,), *erased),
{
    erased.inner.downcast_ref::<A>()
}

/// `key` is what `TypeId::of::<A>()` can give: an identifier of the type `A`.
pub closed spec fn identifies<A: Ability>(key: TypeId) -> bool {
    call_ensures(type_key::<A>, (), key)
}

/// `erased` is what erasing `ability` gives: it holds `ability`, as an `A`.
pub closed spec fn holds<A: Ability>(erased: ErasedAbility, ability: A) -> bool {
    call_ensures(erase::<A>, (ability,), erased)
}

/// `r` is the ability of type `A` that `erased` gives back: `Some` when
/// `erased` holds an `A`, and then the `A` it holds.
pub open spec fn given_back<A: Ability>(erased: ErasedAbility, r: Option<&A>) -> bool {
    &&& (exists|a: A| #[trigger] holds::<A>(erased, a)) ==> r is Some
    &&& forall|a: A| #[trigger] holds::<A>(erased, a) ==> r == Some(&a)
    &&& r matches Some(x) ==> holds::<A>(erased, *x)
}

/// `actor` keeps `ability` under an identifier of `A`.
pub open spec fn keeps_given<A: Ability>(actor: Actor, ability: A) -> bool {
    exists|k: TypeId, e: ErasedAbility|
        #![trigger identifies::<A>(k), holds::<A>(e, ability)]
        identifies::<A>(k) && holds::<A>(e, ability) && (key_position(actor.keys(), k) matches Some(
            i,
        ) && actor.erased()[i] == e)
}

/// `r` is what `actor` gives for type `A`: under every identifier of `A`,
/// nothing when the actor keeps nothing there, otherwise what is kept there,
/// seen as an `A`.
pub open spec fn looked_up<A: Ability>(actor: Actor, r: Option<&A>) -> bool {
    forall|key: TypeId|
        #[trigger] identifies::<A>(key) ==> match key_position(actor.keys(), key) {
            None => r is None,
            Some(i) => given_back::<A>(actor.erased()[i], r),
        }
}

/// Law: an actor that keeps `ability` under its type gives it back when
/// asked for that type.
pub proof fn lemma_ability_gives_back<A: Ability>(actor: Actor, ability: A, r: Option<&A>)
    requires
        keeps_given::<A>(actor, ability),
        looked_up::<A>(actor, r),
    ensures
        r == Some(&ability),
{
    let (k, e) = choose|k: TypeId, e: ErasedAbility|
        #![trigger identifies::<A>(k), holds::<A>(e, ability)]
        identifies::<A>(k) && holds::<A>(e, ability) && (key_position(actor.keys(), k) matches Some(
            i,
        ) && actor.erased()[i] == e);
    assert(identifies::<A>(k));
    assert(holds::<A>(e, ability));
}

/// The position of `key` in `keys`, if it occurs there.
pub open spec fn key_position(keys: Seq<TypeId>, key: TypeId) -> Option<int> {
    if keys.contains(key) {
        Some(choose|i: int| 0 <= i < keys.len() && keys[i] == key)
    } else {
        None
    }
}

/// Where keys are distinct, the position of a key is where it stands.
proof fn lemma_position_is(keys: Seq<TypeId>, key: TypeId, i: int)
    requires
        0 <= i < keys.len(),
        keys[i] == key,
        forall|a: int, b: int| 0 <= a < b < keys.len() ==> keys[a] != keys[b],
    ensures
        key_position(keys, key) == Some(i),
{
    assert(keys.contains(key));
    let j = choose|j: int| 0 <= j < keys.len() && keys[j] == key;
    if j < i {
        assert(keys[j] != keys[i]);
    } else if j > i {
        assert(keys[i] != keys[j]);
    }
}

/// An actor: a name, and abilities kept by the type they have.
pub struct Actor {
    name: &'static str,
    abilities: Vec<(TypeId, ErasedAbility)>,
}

impl Actor {
    /// The type keys of the abilities, in the order they were first given.
    pub closed spec fn keys(&self) -> Seq<TypeId> {
        self.abilities@.map_values(|entry: (TypeId, ErasedAbility)| entry.0)
    }

    /// The abilities, type-erased, in the order of `keys`.
    pub closed spec fn erased(&self) -> Seq<ErasedAbility> {
        self.abilities@.map_values(|entry: (TypeId, ErasedAbility)| entry.1)
    }

    /// The actor's name, as a spec value.
    pub closed spec fn name_view(&self) -> &'static str {
        self.name
    }

    #[verifier::type_invariant]
    closed spec fn keys_distinct(&self) -> bool {
        forall|i: int, j: int|
            0 <= i < j < self.abilities@.len() ==> self.abilities@[i].0 != self.abilities@[j].0
    }

    /// An actor with no name and no abilities.
    pub fn new() -> (r: Actor)
        ensures
            r.keys() == Seq::<TypeId>::empty(),
            r.name_view()@ == ""@,
    {
        let r = Actor { name: "", abilities: Vec::new() };
        assert(r.keys() =~= Seq::<TypeId>::empty());
        r
    }

    /// The actor's name.
    pub fn name(&self) -> (r: &'static str)
        ensures
            r == self.name_view(),
    {
        self.name
    }

    /// Where `key` stands among the abilities' keys.
    fn find_key(&self, key: &TypeId) -> (r: Option<usize>)
        ensures
            match r {
                Some(i) => i < self.keys().len() && self.keys()[i as int] == *key,
                None => !self.keys().contains(*key),
            },
    {
        let mut i: usize = 0;
        while i < self.abilities.len()
            invariant
                i <= self.abilities@.len(),
                self.keys().len() == self.abilities@.len(),
                forall|j: int| 0 <= j < i ==> self.keys()[j] != *key,
            decreases self.abilities@.len() - i,
        {
            if same_key(&self.abilities[i].0, key) {
                return Some(i);
            }
            i = i + 1;
        }
        proof {
            assert forall|j: int| 0 <= j < self.keys().len() implies self.keys()[j] != *key by {}
        }
        None
    }

    /// The actor with `ability` kept under `key`: in place of the one
    /// kept there before, or after all the others when there was none.
    fn keep(self, key: TypeId, ability: ErasedAbility) -> (r: Actor)
        ensures
            r.name_view() == self.name_view(),
            r.keys() == (if self.keys().contains(key) {
                self.keys()
            } else {
                self.keys().push(key)
            }),
            r.erased() == (match key_position(self.keys(), key) {
                Some(i) => self.erased().update(i, ability),
                None => self.erased().push(ability),
            }),
    {
        proof {
            use_type_invariant(&self);
        }
        let found = self.find_key(&key);
        proof {
            if let Some(i) = found {
                lemma_position_is(self.keys(), key, i as int);
            }
        }
        let ghost old_erased = self.erased();
        let Actor { name, mut abilities } = self;
        let ghost old_keys = abilities@.map_values(|entry: (TypeId, ErasedAbility)| entry.0);
        match found {
            Some(i) => {
                abilities.set(i, (key, ability));
                let r = Actor { name, abilities };
                assert(r.keys() =~= old_keys);
                assert(r.erased() =~= old_erased.update(i as int, ability));
                r
            },
            None => {
                assert forall|j: int| 0 <= j < abilities@.len() implies abilities@[j].0 != key by {
                    assert(old_keys[j] == abilities@[j].0);
                }
                abilities.push((key, ability));
                let r = Actor { name, abilities };
                assert(r.keys() =~= old_keys.push(key));
                assert(r.erased() =~= old_erased.push(ability));
                r
            },
        }
    }

    /// The actor, now also able to use `ability`; an ability of the same
    /// type given before is replaced.
    pub fn who_can<A: Ability>(self, ability: A) -> (r: Actor)
        ensures
            r.name_view() == self.name_view(),
            exists|k: TypeId, e: ErasedAbility|
                #![trigger identifies::<A>(k), holds::<A>(e, ability)]
                identifies::<A>(k) && holds::<A>(e, ability) && r.keys() == (if self.keys().contains(
                    k,
                ) {
                    self.keys()
                } else {
                    self.keys().push(k)
                }) && r.erased() == (match key_position(self.keys(), k) {
                    Some(i) => self.erased().update(i, e),
                    None => self.erased().push(e),
                }),
            keeps_given::<A>(r, ability),
    {
        proof {
            use_type_invariant(&self);
        }
        let key = type_key::<A>();
        assert(identifies::<A>(key));
        let e = erase(ability);
        assert(holds::<A>(e, ability));
        let ghost old_keys = self.keys();
        let ghost old_erased = self.erased();
        let ghost old_position = key_position(self.keys(), key);
        let r = self.keep(key, e);
        proof {
            use_type_invariant(&r);
            let i = match old_position {
                Some(p) => p,
                None => old_keys.len() as int,
            };
            if old_position is Some {
                assert(0 <= i < old_keys.len() && old_keys[i] == key);
            }
            assert(r.keys()[i] == key);
            assert(r.erased()[i] == e);
            lemma_position_is(r.keys(), key, i);
            assert(keeps_given::<A>(r, ability));
        }
        r
    }

    /// The actor's ability of type `A`, if it was given one: the ability
    /// kept under the identifier of `A`, seen as an `A`.
    pub fn ability<A: Ability>(&self) -> (r: Option<&A>)
        ensures
            self.keys().len() == 0 ==> r is None,
            looked_up::<A>(*self, r),
    {
        proof {
            use_type_invariant(self);
        }
        let mut i: usize = 0;
        while i < self.abilities.len()
            invariant
                i <= self.abilities@.len(),
                self.keys().len() == self.abilities@.len(),
                forall|a: int, b: int|
                    0 <= a < b < self.keys().len() ==> self.keys()[a] != self.keys()[b],
                forall|j: int, key: TypeId|
                    #![trigger self.keys()[j], identifies::<A>(key)]
                    0 <= j < i && identifies::<A>(key) ==> self.keys()[j] != key,
            decreases self.abilities@.len() - i,
        {
            if is_key_of::<A>(&self.abilities[i].0) {
                let found = downcast::<A>(&self.abilities[i].1);
                proof {
                    assert(self.erased()[i as int] == self.abilities@[i as int].1);
                    assert(self.keys()[i as int] == self.abilities@[i as int].0);
                    assert forall|key: TypeId| #[trigger] identifies::<A>(key) implies match key_position(
                        self.keys(),
                        key,
                    ) {
                        None => found is None,
                        Some(p) => given_back::<A>(self.erased()[p], found),
                    } by {
                        assert(call_ensures(type_key::<A>, (), key));
                        lemma_position_is(self.keys(), key, i as int);
                    }
                }
                return found;
            }
            i = i + 1;
        }
        proof {
            assert forall|key: TypeId| #[trigger] identifies::<A>(key) implies key_position(
                self.keys(),
                key,
            ) is None by {
                if self.keys().contains(key) {
                    let j = choose|j: int| 0 <= j < self.keys().len() && self.keys()[j] == key;
                    assert(self.keys()[j] != key);
                }
            }
        }
        None
    }

    /// Performs each of `interactions`, in order. An interaction that fails
    /// panics, so this is owed only where each of them succeeds.
    pub fn attempts_to<T: Interactions>(&self, interactions: T)
        requires
            interactions.all_succeed_for(self),
    {
        interactions.perform_all(self);
    }
}

impl Default for Actor {
    fn default() -> (r: Actor)
        ensures
            r.keys() == Seq::<TypeId>::empty(),
            r.name_view()@ == ""@,
    {
        Actor::new()
    }
}

} // verus!
