//! Generation-checked storage for entities and projectiles.
//!
//! The world keeps its entities and projectiles in `thunderdome::Arena`s and
//! refers to them by the `u64` bit representation of their generational
//! indices: a stale handle (one whose slot was freed or recycled) resolves to
//! nothing, never to another element. Each arena is modelled as a map from
//! handle bits to elements, named below; the wrappers state what each arena
//! operation does to that map.

use vstd::prelude::*;

use crate::entity::Entity;
use crate::projectile::Projectile;

verus! {

#[verifier::external_type_specification]
#[verifier::external_body]
#[verifier::reject_recursive_types(T)]
pub struct ExArena<T>(thunderdome::Arena<T>);

/// The entities an arena holds, keyed by the bits of their indices.
pub uninterp spec fn entity_store(a: thunderdome::Arena<Entity>) -> Map<u64, Entity>;

/// The projectiles an arena holds, keyed by the bits of their indices.
pub uninterp spec fn projectile_store(a: thunderdome::Arena<Projectile>) -> Map<u64, Projectile>;

/// Relies on `thunderdome::Arena::new`: a fresh arena is empty.
#[verifier::external_body]
pub fn entity_arena_new() -> (r: thunderdome::Arena<Entity>)
    ensures
        forall|k: u64| !entity_store(r).dom().contains(k),
{
    thunderdome::Arena::new()
}

/// Relies on `thunderdome::Arena::insert` and `Index::to_bits`: insertion
/// occupies a previously free slot under a fresh generation, so the returned
/// handle equals no live handle.
#[verifier::external_body]
pub fn entity_insert(a: &mut thunderdome::Arena<Entity>, v: Entity) -> (k: u64)
    ensures
        !entity_store(*old(a)).dom().contains(k),
        entity_store(*final(a)) == entity_store(*old(a)).insert(k, v),
{
    a.insert(v).to_bits()
}

/// Relies on `thunderdome::Arena::get` and `Index::from_bits`: a handle
/// resolves exactly while its slot still holds its generation.
#[verifier::external_body]
pub fn entity_get<'a>(a: &'a thunderdome::Arena<Entity>, k: u64) -> (r: Option<&'a Entity>)
    ensures
        r is Some <==> entity_store(*a).dom().contains(k),
        r matches Some(e) ==> *e == entity_store(*a)[k],
{
    match thunderdome::Index::from_bits(k) {
        Some(ix) => a.get(ix),
        None => None,
    }
}

/// Relies on `thunderdome::Arena::get_mut` and `Index::from_bits`: writing
/// through a live handle replaces that element and nothing else.
#[verifier::external_body]
pub fn entity_set(a: &mut thunderdome::Arena<Entity>, k: u64, v: Entity) -> (r: bool)
    ensures
        r == entity_store(*old(a)).dom().contains(k),
        r ==> entity_store(*final(a)) == entity_store(*old(a)).insert(k, v),
        !r ==> entity_store(*final(a)) == entity_store(*old(a)),
{
    match thunderdome::Index::from_bits(k) {
        Some(ix) => match a.get_mut(ix) {
            Some(slot) => {
                *slot = v;
                true
            },
            None => false,
        },
        None => false,
    }
}

/// Relies on `thunderdome::Arena::remove` and `Index::from_bits`: removal
/// through a live handle frees its slot (bumping the generation for future
/// inserts) and returns the element.
#[verifier::external_body]
pub fn entity_remove(a: &mut thunderdome::Arena<Entity>, k: u64) -> (r: Option<Entity>)
    ensures
        r is Some <==> entity_store(*old(a)).dom().contains(k),
        r matches Some(e) ==> e == entity_store(*old(a))[k],
        entity_store(*final(a)) == entity_store(*old(a)).remove(k),
{
    match thunderdome::Index::from_bits(k) {
        Some(ix) => a.remove(ix),
        None => None,
    }
}

/// Relies on `thunderdome::Arena::contains` and `Index::from_bits`.
#[verifier::external_body]
pub fn entity_contains(a: &thunderdome::Arena<Entity>, k: u64) -> (r: bool)
    ensures
        r == entity_store(*a).dom().contains(k),
{
    match thunderdome::Index::from_bits(k) {
        Some(ix) => a.contains(ix),
        None => false,
    }
}

/// Relies on `thunderdome::Arena::iter` and `Index::to_bits`: iteration
/// visits each live element exactly once, in an order callers must not rely
/// on.
#[verifier::external_body]
pub fn entity_keys(a: &thunderdome::Arena<Entity>) -> (r: Vec<u64>)
    ensures
        r@.no_duplicates(),
        forall|k: u64| r@.contains(k) <==> entity_store(*a).dom().contains(k),
{
    a.iter().map(|(ix, _)| ix.to_bits()).collect()
}

/// Relies on `thunderdome::Arena::new`: a fresh arena is empty.
#[verifier::external_body]
pub fn projectile_arena_new() -> (r: thunderdome::Arena<Projectile>)
    ensures
        forall|k: u64| !projectile_store(r).dom().contains(k),
{
    thunderdome::Arena::new()
}

/// Relies on `thunderdome::Arena::insert` and `Index::to_bits`: insertion
/// occupies a previously free slot under a fresh generation, so the returned
/// handle equals no live handle.
#[verifier::external_body]
pub fn projectile_insert(a: &mut thunderdome::Arena<Projectile>, v: Projectile) -> (k: u64)
    ensures
        !projectile_store(*old(a)).dom().contains(k),
        projectile_store(*final(a)) == projectile_store(*old(a)).insert(k, v),
{
    a.insert(v).to_bits()
}

/// Relies on `thunderdome::Arena::get` and `Index::from_bits`: a handle
/// resolves exactly while its slot still holds its generation.
#[verifier::external_body]
pub fn projectile_get<'a>(a: &'a thunderdome::Arena<Projectile>, k: u64) -> (r: Option<
    &'a Projectile,
>)
    ensures
        r is Some <==> projectile_store(*a).dom().contains(k),
        r matches Some(p) ==> *p == projectile_store(*a)[k],
{
    match thunderdome::Index::from_bits(k) {
        Some(ix) => a.get(ix),
        None => None,
    }
}

/// Relies on `thunderdome::Arena::get_mut` and `Index::from_bits`: writing
/// through a live handle replaces that element and nothing else.
#[verifier::external_body]
pub fn projectile_set(a: &mut thunderdome::Arena<Projectile>, k: u64, v: Projectile) -> (r: bool)
    ensures
        r == projectile_store(*old(a)).dom().contains(k),
        r ==> projectile_store(*final(a)) == projectile_store(*old(a)).insert(k, v),
        !r ==> projectile_store(*final(a)) == projectile_store(*old(a)),
{
    match thunderdome::Index::from_bits(k) {
        Some(ix) => match a.get_mut(ix) {
            Some(slot) => {
                *slot = v;
                true
            },
            None => false,
        },
        None => false,
    }
}

/// Relies on `thunderdome::Arena::remove` and `Index::from_bits`: removal
/// through a live handle frees its slot (bumping the generation for future
/// inserts) and returns the element.
#[verifier::external_body]
pub fn projectile_remove(a: &mut thunderdome::Arena<Projectile>, k: u64) -> (r: Option<Projectile>)
    ensures
        r is Some <==> projectile_store(*old(a)).dom().contains(k),
        r matches Some(p) ==> p == projectile_store(*old(a))[k],
        projectile_store(*final(a)) == projectile_store(*old(a)).remove(k),
{
    match thunderdome::Index::from_bits(k) {
        Some(ix) => a.remove(ix),
        None => None,
    }
}

/// Relies on `thunderdome::Arena::iter` and `Index::to_bits`: iteration
/// visits each live element exactly once, in an order callers must not rely
/// on.
#[verifier::external_body]
pub fn projectile_keys(a: &thunderdome::Arena<Projectile>) -> (r: Vec<u64>)
    ensures
        r@.no_duplicates(),
        forall|k: u64| r@.contains(k) <==> projectile_store(*a).dom().contains(k),
{
    a.iter().map(|(ix, _)| ix.to_bits()).collect()
}

} // verus!
