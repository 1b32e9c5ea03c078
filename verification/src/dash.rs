//! The concurrent maps of the server, as `dashmap` provides them.
//!
//! Nothing in this module is proved. Each function makes one call into
//! `dashmap` and states what that call does to the entries of the map; the
//! rest of the library is verified against these statements.
//!
//! The functions that change a map take it by `&mut`, although `dashmap`
//! would let them take `&`: the entries of a map are then a function of the
//! map alone, and no entry changes while a reader looks at it.
use vstd::prelude::*;
use dashmap::DashMap;
use std::collections::hash_map::RandomState;
use crate::brush::Brush;
use crate::server::Client;

verus! {

/// `dashmap::DashMap`, made known so that it can stand in fields and
/// signatures. Nothing is known of what is inside a value of it but what
/// the functions below state.
#[verifier::external_type_specification]
#[verifier::external_body]
#[verifier::reject_recursive_types(K)]
#[verifier::reject_recursive_types(V)]
#[verifier::reject_recursive_types(S)]
pub struct ExDashMap<K, V, S>(DashMap<K, V, S>);

/// The identity of a line as the canvas keeps it.
pub type LineKey = Vec<(u32, u32)>;

/// The map that holds the canvas.
pub type CanvasMap = DashMap<LineKey, Brush, RandomState>;

/// What a canvas holds: the brush of each line, by the line's identity.
pub type CanvasModel = Map<Seq<(u32, u32)>, Brush>;

/// The address a client connects from, as the registry keys it: the
/// address of the host and the port.
pub type PeerKey = (u128, u16);

/// The map that holds the registry.
pub type RegistryMap = DashMap<PeerKey, Client, RandomState>;

/// What a registry holds: the client at each address.
pub type RegistryModel = Map<PeerKey, Client>;

/// The entries of a canvas map: what `DashMap` holds for each key. It has
/// no definition; the functions below state how each call reads or changes
/// it.
pub uninterp spec fn canvas_entries(lines: CanvasMap) -> CanvasModel;

/// The entries of a registry map: what `DashMap` holds for each key. It
/// has no definition; the functions below state how each call changes it.
pub uninterp spec fn registry_entries(clients: RegistryMap) -> RegistryModel;

/// The brush of `key` in `model`, if there is one.
pub open spec fn canvas_lookup(model: CanvasModel, key: Seq<(u32, u32)>) -> Option<Brush> {
    if model.contains_key(key) {
        Some(model[key])
    } else {
        None
    }
}

/// The client of `key` in `model`, if there is one.
pub open spec fn registry_lookup(model: RegistryModel, key: PeerKey) -> Option<Client> {
    if model.contains_key(key) {
        Some(model[key])
    } else {
        None
    }
}

/// Whether `entries` lists `model`: every item is an entry of the map, no
/// key is listed twice, and every key of the map is listed. The order of
/// the items is left open.
pub open spec fn is_snapshot_of(entries: Seq<(LineKey, Brush)>, model: CanvasModel) -> bool {
    &&& forall|i: int|
        0 <= i < entries.len() ==> model.contains_pair(
            (#[trigger] entries[i]).0@,
            entries[i].1,
        )
    &&& forall|i: int, j: int|
        0 <= i < j < entries.len() ==> (#[trigger] entries[i]).0@ != (#[trigger] entries[j]).0@
    &&& forall|k: Seq<(u32, u32)>| #[trigger]
        model.contains_key(k) ==> exists|i: int|
            0 <= i < entries.len() && (#[trigger] entries[i]).0@ == k
}

/// `DashMap::new`: a map without entries.
#[verifier::external_body]
pub(crate) fn canvas_new() -> (lines: CanvasMap)
    ensures
        canvas_entries(lines) == CanvasModel::empty(),
{
    DashMap::new()
}

/// `DashMap::insert`: afterwards the map holds `brush` at `key` and is
/// otherwise unchanged; the brush that was at `key` before is returned.
#[verifier::external_body]
pub(crate) fn canvas_insert(lines: &mut CanvasMap, key: LineKey, brush: Brush) -> (previous:
    Option<Brush>)
    ensures
        canvas_entries(*final(lines)) == canvas_entries(*old(lines)).insert(key@, brush),
        previous == canvas_lookup(canvas_entries(*old(lines)), key@),
{
    lines.insert(key, brush)
}

/// `DashMap::get`, the brush copied out of the entry: the brush at `key`, if
/// the map has that key.
#[verifier::external_body]
pub(crate) fn canvas_get(lines: &CanvasMap, key: &LineKey) -> (found: Option<Brush>)
    ensures
        found == canvas_lookup(canvas_entries(*lines), key@),
{
    lines.get(key).map(|entry| *entry.value())
}

/// `DashMap::remove`: afterwards the map has no entry at `key` and is
/// otherwise unchanged; the brush that was at `key` before is returned.
#[verifier::external_body]
pub(crate) fn canvas_remove(lines: &mut CanvasMap, key: &LineKey) -> (removed: Option<Brush>)
    ensures
        canvas_entries(*final(lines)) == canvas_entries(*old(lines)).remove(key@),
        removed == canvas_lookup(canvas_entries(*old(lines)), key@),
{
    lines.remove(key).map(|entry| entry.1)
}

/// `DashMap::iter`, each entry copied out: every entry of the map once, in
/// an order that is not fixed.
#[verifier::external_body]
pub(crate) fn canvas_snapshot(lines: &CanvasMap) -> (entries: Vec<(LineKey, Brush)>)
    ensures
        is_snapshot_of(entries@, canvas_entries(*lines)),
{
    lines.iter().map(|entry| (entry.key().clone(), *entry.value())).collect()
}

/// `DashMap::new`: a map without entries.
#[verifier::external_body]
pub(crate) fn registry_new() -> (clients: RegistryMap)
    ensures
        registry_entries(clients) == RegistryModel::empty(),
{
    DashMap::new()
}

/// `DashMap::insert`: afterwards the map holds `client` at `key` and is
/// otherwise unchanged; the client that was at `key` before is returned.
#[verifier::external_body]
pub(crate) fn registry_insert(clients: &mut RegistryMap, key: PeerKey, client: Client) -> (previous:
    Option<Client>)
    ensures
        registry_entries(*final(clients)) == registry_entries(*old(clients)).insert(key, client),
        previous == registry_lookup(registry_entries(*old(clients)), key),
{
    clients.insert(key, client)
}

/// `DashMap::remove`: afterwards the map has no entry at `key` and is
/// otherwise unchanged; the client that was at `key` before is returned.
#[verifier::external_body]
pub(crate) fn registry_remove(clients: &mut RegistryMap, key: PeerKey) -> (removed: Option<Client>)
    ensures
        registry_entries(*final(clients)) == registry_entries(*old(clients)).remove(key),
        removed == registry_lookup(registry_entries(*old(clients)), key),
{
    clients.remove(&key).map(|entry| entry.1)
}

} // verus!
