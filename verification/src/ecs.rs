//! Entities and their components: an entity is an identifier with at most one
//! component of each type.

use std::collections::HashMap;
use vstd::prelude::*;

verus! {

/// A component together with the name of its type.
struct Slot<C> {
    comp_type: String,
    component: C,
}

/// The components of one entity.
struct Entity<C> {
    entity_id: usize,
    components: Vec<Slot<C>>,
}

impl<C> Entity<C> {
    /// No two components have the same type.
    spec fn wf(&self) -> bool {
        forall|i: int, j: int|
            0 <= i < j < self.components@.len() ==> (#[trigger] self.components@[i]).comp_type@ != (
            #[trigger] self.components@[j]).comp_type@
    }

    /// The component of type `comp_type`, if the entity has one.
    spec fn component(&self, comp_type: Seq<char>) -> Option<C> {
        if exists|i: int|
            0 <= i < self.components@.len() && (#[trigger] self.components@[i]).comp_type@
                == comp_type {
            let i = choose|i: int|
                0 <= i < self.components@.len() && (#[trigger] self.components@[i]).comp_type@
                    == comp_type;
            Some(self.components@[i].component)
        } else {
            None
        }
    }

    proof fn lemma_slot(&self, i: int, comp_type: Seq<char>)
        requires
            self.wf(),
            0 <= i < self.components@.len(),
            self.components@[i].comp_type@ == comp_type,
        ensures
            self.component(comp_type) == Some(self.components@[i].component),
    {
    }

    proof fn lemma_same_types(&self, other: &Self, comp_type: Seq<char>)
        requires
            self.wf(),
            other.wf(),
            self.components@.len() <= other.components@.len(),
            forall|i: int|
                0 <= i < self.components@.len() && (#[trigger] self.components@[i]).comp_type@
                    == comp_type ==> other.components@[i] == self.components@[i],
            forall|i: int|
                0 <= i < other.components@.len() && (#[trigger] other.components@[i]).comp_type@
                    == comp_type ==> i < self.components@.len() && self.components@[i]
                    == other.components@[i],
        ensures
            self.component(comp_type) == other.component(comp_type),
    {
        if exists|i: int|
            0 <= i < self.components@.len() && (#[trigger] self.components@[i]).comp_type@
                == comp_type {
            let i = choose|i: int|
                0 <= i < self.components@.len() && (#[trigger] self.components@[i]).comp_type@
                    == comp_type;
            self.lemma_slot(i, comp_type);
            other.lemma_slot(i, comp_type);
        }
    }

    fn new(entity_id: usize) -> (entity: Self)
        ensures
            entity.wf(),
            entity.entity_id == entity_id,
            entity.components@.len() == 0,
    {
        Self { entity_id, components: Vec::new() }
    }

    /// Gives the entity `component` as its component of type `comp_type`, in
    /// place of the one it had, if it had one.
    fn add_component(&mut self, comp_type: String, component: C)
        requires
            old(self).wf(),
        ensures
            final(self).wf(),
            final(self).entity_id == old(self).entity_id,
            final(self).component(comp_type@) == Some(component),
            forall|other: Seq<char>|
                other != comp_type@ ==> #[trigger] final(self).component(other) == old(
                    self,
                ).component(other),
    {
        let mut i: usize = 0;
        while i < self.components.len()
            invariant
                i <= self.components.len(),
                *self == *old(self),
                self.wf(),
                forall|j: int| 0 <= j < i ==> (#[trigger] self.components@[j]).comp_type@ != comp_type@,
            decreases self.components.len() - i,
        {
            if self.components[i].comp_type == comp_type {
                self.components[i].component = component;
                proof {
                    let before = *old(self);
                    let after = *self;
                    assert forall|j: int| 0 <= j < after.components@.len() implies (
                    #[trigger] after.components@[j]).comp_type@ == before.components@[j].comp_type@ by {}
                    after.lemma_slot(i as int, comp_type@);
                    assert forall|other: Seq<char>| other != comp_type@ implies #[trigger] after.component(
                        other,
                    ) == before.component(other) by {
                        before.lemma_same_types(&after, other);
                    }
                }
                return ;
            }
            i += 1;
        }
        let ghost key = comp_type@;
        self.components.push(Slot { comp_type, component });
        proof {
            let before = *old(self);
            let after = *self;
            after.lemma_slot(before.components@.len() as int, key);
            assert forall|other: Seq<char>| other != key implies #[trigger] after.component(other)
                == before.component(other) by {
                before.lemma_same_types(&after, other);
            }
        }
    }
}

/// The entities of a game, each under its identifier. Identifiers are handed
/// out from 0 upwards and an entity, once added, stays.
pub struct Game<C> {
    entities: HashMap<usize, Entity<C>>,
    ecs_id_count: usize,
}

impl<C> Default for Game<C> {
    /// A game without entities.
    fn default() -> (game: Self)
        ensures
            game.wf(),
            game.entity_count() == 0,
            forall|entity_id: usize, comp_type: Seq<char>|
                (#[trigger] game.component(entity_id, comp_type)).is_none(),
    {
        Game { entities: HashMap::new(), ecs_id_count: 0 }
    }
}

impl<C> Game<C> {
    /// The entities are exactly the identifiers handed out so far, and each
    /// is stored under its own identifier.
    pub closed spec fn wf(&self) -> bool {
        &&& forall|id: usize| #[trigger] self.entities@.contains_key(id) <==> id < self.ecs_id_count
        &&& forall|id: usize| #[trigger]
            self.entities@.contains_key(id) ==> self.entities@[id].entity_id == id
                && self.entities@[id].wf()
    }

    /// The number of entities, which is also the next identifier.
    pub closed spec fn entity_count(&self) -> nat {
        self.ecs_id_count as nat
    }

    /// The component of type `comp_type` of the entity `entity_id`, if that
    /// entity exists and has one.
    pub closed spec fn component(&self, entity_id: usize, comp_type: Seq<char>) -> Option<C> {
        if self.entities@.contains_key(entity_id) {
            self.entities@[entity_id].component(comp_type)
        } else {
            None
        }
    }

    /// A game without entities. The canvas named by `_canvas_id` is the
    /// caller's business.
    pub fn new(_canvas_id: &str) -> (game: Self)
        ensures
            game.wf(),
            game.entity_count() == 0,
            forall|entity_id: usize, comp_type: Seq<char>|
                (#[trigger] game.component(entity_id, comp_type)).is_none(),
    {
        Game { entities: HashMap::new(), ecs_id_count: 0 }
    }

    /// Whether every identifier has been handed out, so that no entity can
    /// be added.
    pub fn is_full(&self) -> (full: bool)
        requires
            self.wf(),
        ensures
            full == (self.entity_count() == usize::MAX),
    {
        self.ecs_id_count == usize::MAX
    }

    /// Entities have no behaviour of their own: there is nothing to advance.
    pub fn update(&self) {
    }

    /// Entities have no appearance of their own: there is nothing to draw.
    pub fn draw(&self) {
    }

    /// Adds an entity without components and returns its identifier.
    pub fn add_entity(&mut self) -> (entity_id: usize)
        requires
            old(self).wf(),
            old(self).entity_count() < usize::MAX,
        ensures
            final(self).wf(),
            entity_id == old(self).entity_count(),
            final(self).entity_count() == old(self).entity_count() + 1,
            forall|comp_type: Seq<char>|
                (#[trigger] final(self).component(entity_id, comp_type)).is_none(),
            forall|other: usize, comp_type: Seq<char>|
                other != entity_id ==> #[trigger] final(self).component(other, comp_type) == old(
                    self,
                ).component(other, comp_type),
    {
        broadcast use vstd::std_specs::hash::group_hash_axioms;

        let entity_id: usize = self.ecs_id_count;
        self.ecs_id_count += 1;
        self.entities.insert(entity_id, Entity::new(entity_id));
        entity_id
    }

    /// Gives the entity `entity_id` the component `component` of type
    /// `comp_type`, in place of the one of that type it had, if any. Nothing
    /// happens if there is no such entity.
    pub fn add_component_web(&mut self, entity_id: usize, comp_type: String, component: C)
        requires
            old(self).wf(),
        ensures
            final(self).wf(),
            final(self).entity_count() == old(self).entity_count(),
            entity_id < old(self).entity_count() ==> final(self).component(entity_id, comp_type@)
                == Some(component),
            forall|other: usize, other_type: Seq<char>|
                !(other == entity_id && other_type == comp_type@ && entity_id < old(
                    self,
                ).entity_count()) ==> #[trigger] final(self).component(other, other_type) == old(
                    self,
                ).component(other, other_type),
    {
        broadcast use vstd::std_specs::hash::group_hash_axioms;

        match self.entities.remove(&entity_id) {
            Some(mut entity) => {
                entity.add_component(comp_type, component);
                self.entities.insert(entity_id, entity);
            },
            None => {},
        }
    }

    /// Components cannot be handed out by number: the answer is always
    /// `None`, and the game is left as it was.
    pub fn get_component_web(&mut self, entity_id: usize, comp_type: String) -> (found: Option<usize>)
        ensures
            found.is_none(),
            *final(self) == *old(self),
    {
        None
    }

    /// Whether the entity `entity_id` exists and has a component of type
    /// `comp_type`.
    pub fn has_component(&self, entity_id: usize, comp_type: &str) -> (found: bool)
        requires
            self.wf(),
        ensures
            found == self.component(entity_id, comp_type@).is_some(),
    {
        broadcast use vstd::std_specs::hash::group_hash_axioms;

        let key = comp_type.to_owned();
        match self.entities.get(&entity_id) {
            Some(entity) => {
                let mut i: usize = 0;
                while i < entity.components.len()
                    invariant
                        i <= entity.components.len(),
                        entity.wf(),
                        key@ == comp_type@,
                        self.entities@.contains_key(entity_id),
                        *entity == self.entities@[entity_id],
                        forall|j: int|
                            0 <= j < i ==> (#[trigger] entity.components@[j]).comp_type@ != key@,
                    decreases entity.components.len() - i,
                {
                    if entity.components[i].comp_type == key {
                        proof {
                            entity.lemma_slot(i as int, key@);
                        }
                        return true;
                    }
                    i += 1;
                }
                false
            },
            None => false,
        }
    }
}

} // verus!
